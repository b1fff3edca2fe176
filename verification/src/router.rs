use vstd::prelude::*;

use crate::mailbox::{Mailbox, SendOutcome};

verus! {

/// A user known to the router, with the mailbox that reaches that user's connection.
pub struct Member {
    pub name: String,
    pub mailbox: Mailbox,
}

/// What a connection asks of the router.
pub enum RouterCommand {
    /// `name` is now reached through `mailbox` (a second join under a name replaces the first).
    Join { name: String, mailbox: Mailbox },
    /// `name` is no longer reached.
    Leave { name: String },
    /// `line` goes to every member but `from`.
    Broadcast { from: String, line: String },
    /// `line` goes to the member `to`, if there is one.
    Direct { from: String, to: String, line: String },
}

/// One message handed to a member's mailbox: the member's name and what became of it.
pub struct Delivery {
    pub to: String,
    pub outcome: SendOutcome,
}

/// The text that a member receives: `<from>: <line>` and a newline.
pub open spec fn chat_text(from: Seq<char>, line: Seq<char>) -> Seq<char> {
    from + seq![':', ' '] + line + seq!['\n']
}

/// The members as a map from name to mailbox.
pub open spec fn roster(members: Seq<Member>) -> Map<Seq<char>, Mailbox> {
    Map::new(
        |k: Seq<char>| exists|i: int| 0 <= i < members.len() && members[i].name@ == k,
        |k: Seq<char>|
            members[choose|i: int| 0 <= i < members.len() && members[i].name@ == k].mailbox,
    )
}

/// No two members share a name.
pub open spec fn names_distinct(members: Seq<Member>) -> bool {
    forall|i: int, j: int|
        0 <= i < members.len() && 0 <= j < members.len() && i != j ==> members[i].name@
            != members[j].name@
}

/// The members after `t` is handed to every one of them but `from`.
pub open spec fn deliver_all(m: Map<Seq<char>, Mailbox>, from: Seq<char>, t: Seq<char>) -> Map<
    Seq<char>,
    Mailbox,
> {
    Map::new(
        |k: Seq<char>| m.dom().contains(k),
        |k: Seq<char>|
            if k == from {
                m[k]
            } else {
                m[k].after_send(t)
            },
    )
}

/// The members after `t` is handed to `to`, if `to` is one of them.
pub open spec fn deliver_to(m: Map<Seq<char>, Mailbox>, to: Seq<char>, t: Seq<char>) -> Map<
    Seq<char>,
    Mailbox,
> {
    if m.dom().contains(to) {
        m.insert(to, m[to].after_send(t))
    } else {
        m
    }
}

/// The members, with their mailboxes, after `cmd`.
pub open spec fn next_roster(m: Map<Seq<char>, Mailbox>, cmd: RouterCommand) -> Map<
    Seq<char>,
    Mailbox,
> {
    match cmd {
        RouterCommand::Join { name, mailbox } => m.insert(name@, mailbox),
        RouterCommand::Leave { name } => m.remove(name@),
        RouterCommand::Broadcast { from, line } => deliver_all(m, from@, chat_text(from@, line@)),
        RouterCommand::Direct { from, to, line } => deliver_to(m, to@, chat_text(from@, line@)),
    }
}

/// The mailboxes that `cmd` makes the router let go of, given the membership `m`: the one
/// that a second join under a name replaces, or the one of a member that leaves.
pub open spec fn released_by(m: Map<Seq<char>, Mailbox>, cmd: RouterCommand) -> Seq<Mailbox> {
    match cmd {
        RouterCommand::Join { name, mailbox } => if m.dom().contains(name@) {
            seq![m[name@]]
        } else {
            Seq::empty()
        },
        RouterCommand::Leave { name } => if m.dom().contains(name@) {
            seq![m[name@]]
        } else {
            Seq::empty()
        },
        _ => Seq::empty(),
    }
}

/// The names that `cmd` sends a message to, given the membership `m`.
pub open spec fn recipients(m: Map<Seq<char>, Mailbox>, cmd: RouterCommand) -> Set<
    Seq<char>,
> {
    match cmd {
        RouterCommand::Broadcast { from, line } => m.dom().remove(from@),
        RouterCommand::Direct { from, to, line } => if m.dom().contains(to@) {
            set![to@]
        } else {
            Set::empty()
        },
        _ => Set::empty(),
    }
}

/// The text that `cmd` sends.
pub open spec fn message_of(cmd: RouterCommand) -> Seq<char> {
    match cmd {
        RouterCommand::Broadcast { from, line } => chat_text(from@, line@),
        RouterCommand::Direct { from, to, line } => chat_text(from@, line@),
        _ => Seq::empty(),
    }
}

/// The names in a delivery report, in order.
pub open spec fn delivered_to(report: Seq<Delivery>) -> Seq<Seq<char>> {
    report.map_values(|d: Delivery| d.to@)
}

/// The position of the member called `name` in `members`, if there is one.
fn self_position(members: &Vec<Member>, name: &String) -> (r: Option<usize>)
    ensures
        match r {
            Some(i) => i < members@.len() && members@[i as int].name@ == name@,
            None => forall|i: int| 0 <= i < members@.len() ==> members@[i].name@ != name@,
        },
{
    let mut i: usize = 0;
    while i < members.len()
        invariant
            i <= members@.len(),
            forall|j: int| 0 <= j < i ==> members@[j].name@ != name@,
        decreases members@.len() - i,
    {
        if members[i].name == *name {
            return Some(i);
        }
        i = i + 1;
    }
    None
}

/// Putting a member called `k` at `pos`, either over the member of that name or after all
/// the others when there is none, keeps the names distinct and maps `k` to the new mailbox.
proof fn lemma_join_roster(
    old_m: Seq<Member>,
    new_m: Seq<Member>,
    pos: int,
    k: Seq<char>,
    mailbox: Mailbox,
)
    requires
        names_distinct(old_m),
        0 <= pos <= old_m.len(),
        pos < old_m.len() ==> old_m[pos].name@ == k && new_m.len() == old_m.len(),
        pos == old_m.len() ==> new_m.len() == old_m.len() + 1 && forall|j: int|
            0 <= j < old_m.len() ==> old_m[j].name@ != k,
        new_m[pos].name@ == k,
        new_m[pos].mailbox == mailbox,
        forall|j: int| 0 <= j < new_m.len() && j != pos ==> new_m[j] == old_m[j],
    ensures
        names_distinct(new_m),
        roster(new_m) == roster(old_m).insert(k, mailbox),
{
    assert(names_distinct(new_m)) by {
        assert forall|a: int, b: int|
            0 <= a < new_m.len() && 0 <= b < new_m.len() && a != b implies new_m[a].name@
            != new_m[b].name@ by {
            if a != pos && b != pos {
                assert(new_m[a] == old_m[a] && new_m[b] == old_m[b]);
            } else if a == pos {
                assert(new_m[b] == old_m[b]);
            } else {
                assert(new_m[a] == old_m[a]);
            }
        }
    }
    assert(roster(new_m) =~= roster(old_m).insert(k, mailbox)) by {
        lemma_roster_at(new_m, pos);
        assert forall|x: Seq<char>|
            roster(new_m).dom().contains(x) == roster(old_m).insert(k, mailbox).dom().contains(
                x,
            ) by {
            if x != k {
                if roster(new_m).dom().contains(x) {
                    let j = choose|j: int| 0 <= j < new_m.len() && new_m[j].name@ == x;
                    assert(old_m[j] == new_m[j]);
                }
                if roster(old_m).dom().contains(x) {
                    let j = choose|j: int| 0 <= j < old_m.len() && old_m[j].name@ == x;
                    assert(old_m[j] == new_m[j]);
                }
            }
        }
        assert forall|x: Seq<char>| #[trigger]
            roster(new_m).dom().contains(x) && x != k implies roster(new_m)[x]
            == roster(old_m)[x] by {
            let j = choose|j: int| 0 <= j < new_m.len() && new_m[j].name@ == x;
            assert(old_m[j] == new_m[j]);
            lemma_roster_at(new_m, j);
            lemma_roster_at(old_m, j);
        }
    }
}

/// The chat router: who is connected, and the mailbox of each.
pub struct Router {
    members: Vec<Member>,
    released: Ghost<Seq<Mailbox>>,
}

proof fn lemma_roster_at(members: Seq<Member>, i: int)
    requires
        names_distinct(members),
        0 <= i < members.len(),
    ensures
        roster(members).dom().contains(members[i].name@),
        roster(members)[members[i].name@] == members[i].mailbox,
{
    let k = members[i].name@;
    assert(roster(members).dom().contains(k));
    let j = choose|j: int| 0 <= j < members.len() && members[j].name@ == k;
    assert(j == i);
}

impl View for Router {
    type V = Map<Seq<char>, Mailbox>;

    closed spec fn view(&self) -> Map<Seq<char>, Mailbox> {
        roster(self.members@)
    }
}

impl Router {
    /// The mailboxes the router has let go of, in order, each as it was when let go.
    pub closed spec fn released(self) -> Seq<Mailbox> {
        self.released@
    }

    #[verifier::type_invariant]
    spec fn wf(self) -> bool {
        names_distinct(self.members@)
    }

    /// A router with no members.
    pub fn new() -> (r: Router)
        ensures
            r@ == Map::<Seq<char>, Mailbox>::empty(),
            r.released() == Seq::<Mailbox>::empty(),
    {
        let r = Router { members: Vec::new(), released: Ghost(Seq::empty()) };
        assert(r@ =~= Map::<Seq<char>, Mailbox>::empty());
        r
    }

    /// The number of members.
    pub fn len(&self) -> (n: usize)
        ensures
            n == self@.dom().len(),
    {
        proof {
            use_type_invariant(self);
            self.lemma_dom_len();
        }
        self.members.len()
    }

    proof fn lemma_dom_len(&self)
        requires
            names_distinct(self.members@),
        ensures
            self@.dom().finite(),
            self@.dom().len() == self.members@.len(),
    {
        let s = self.members@.map_values(|m: Member| m.name@);
        assert(s.no_duplicates()) by {
            assert forall|i: int, j: int| 0 <= i < s.len() && 0 <= j < s.len() && i != j implies s[i]
                != s[j] by {}
        }
        s.unique_seq_to_set();
        assert(s.to_set() =~= self@.dom()) by {
            assert forall|k: Seq<char>| self@.dom().contains(k) implies s.to_set().contains(k) by {
                let i = choose|i: int|
                    0 <= i < self.members@.len() && self.members@[i].name@ == k;
                assert(s[i] == k);
            }
        }
    }

    /// The position of the member called `name`, if there is one.
    fn position(&self, name: &String) -> (r: Option<usize>)
        ensures
            match r {
                Some(i) => i < self.members@.len() && self.members@[i as int].name@ == name@,
                None => forall|i: int|
                    0 <= i < self.members@.len() ==> self.members@[i].name@ != name@,
            },
    {
        self_position(&self.members, name)
    }

    /// Whether `name` is a member.
    pub fn contains(&self, name: &String) -> (b: bool)
        ensures
            b == self@.dom().contains(name@),
    {
        match self.position(name) {
            Some(_) => true,
            None => false,
        }
    }

    /// `name` is from now on reached through `mailbox`.
    fn join(&mut self, name: String, mailbox: Mailbox)
        ensures
            final(self)@ == old(self)@.insert(name@, mailbox),
            final(self).released() == old(self).released() + released_by(
                old(self)@,
                RouterCommand::Join { name, mailbox },
            ),
    {
        proof {
            use_type_invariant(&*self);
        }
        let ghost old_m = self.members@;
        let ghost k = name@;
        let mut members: Vec<Member> = Vec::new();
        std::mem::swap(&mut members, &mut self.members);
        let ghost pos: int;
        match self_position(&members, &name) {
            Some(i) => {
                let ghost gone = members@[i as int].mailbox;
                members.set(i, Member { name, mailbox });
                proof {
                    pos = i as int;
                    lemma_roster_at(old_m, pos);
                    self.released@ = self.released@.push(gone);
                }
            },
            None => {
                members.push(Member { name, mailbox });
                proof {
                    pos = old_m.len() as int;
                    assert(self.released@ + Seq::<Mailbox>::empty() =~= self.released@);
                }
            },
        }
        proof {
            lemma_join_roster(old_m, members@, pos, k, mailbox);
        }
        self.members = members;
    }

    /// `name` is no longer reached.
    fn leave(&mut self, name: &String)
        ensures
            final(self)@ == old(self)@.remove(name@),
            final(self).released() == old(self).released() + released_by(
                old(self)@,
                RouterCommand::Leave { name: *name },
            ),
    {
        proof {
            use_type_invariant(&*self);
        }
        let ghost old_m = self.members@;
        let ghost k = name@;
        match self.position(name) {
            Some(i) => {
                let mut members: Vec<Member> = Vec::new();
                std::mem::swap(&mut members, &mut self.members);
                let gone = members.remove(i);
                proof {
                    lemma_roster_at(old_m, i as int);
                    self.released@ = self.released@.push(gone.mailbox);
                    let new_m = members@;
                    assert forall|j: int| 0 <= j < new_m.len() implies #[trigger] new_m[j] == (
                    if j < i {
                        old_m[j]
                    } else {
                        old_m[j + 1]
                    }) by {}
                    assert(roster(new_m) =~= roster(old_m).remove(k)) by {
                        assert forall|x: Seq<char>|
                            roster(new_m).dom().contains(x) == roster(old_m).remove(k).dom().contains(
                                x,
                            ) by {
                            if roster(new_m).dom().contains(x) {
                                let j = choose|j: int|
                                    0 <= j < new_m.len() && new_m[j].name@ == x;
                                if j < i {
                                    assert(new_m[j] == old_m[j]);
                                } else {
                                    assert(new_m[j] == old_m[j + 1]);
                                }
                            }
                            if roster(old_m).dom().contains(x) && x != k {
                                let j = choose|j: int|
                                    0 <= j < old_m.len() && old_m[j].name@ == x;
                                if j < i {
                                    assert(new_m[j] == old_m[j]);
                                } else {
                                    assert(new_m[j - 1] == old_m[j]);
                                }
                            }
                        }
                        assert forall|x: Seq<char>| #[trigger]
                            roster(new_m).dom().contains(x) implies roster(new_m)[x]
                            == roster(old_m)[x] by {
                            let j = choose|j: int| 0 <= j < new_m.len() && new_m[j].name@ == x;
                            lemma_roster_at(new_m, j);
                            if j < i {
                                assert(new_m[j] == old_m[j]);
                                lemma_roster_at(old_m, j);
                            } else {
                                assert(new_m[j] == old_m[j + 1]);
                                lemma_roster_at(old_m, j + 1);
                            }
                        }
                    }
                }
                self.members = members;
            },
            None => {
                assert(self@ =~= old(self)@.remove(k));
                assert(self.released@ + Seq::<Mailbox>::empty() =~= self.released@);
            },
        }
    }

    /// Hands `line`, as sent by `from`, to every member whose name is not `from`.
    fn broadcast(&mut self, from: &String, line: &String) -> (report: Vec<Delivery>)
        ensures
            final(self)@ == deliver_all(old(self)@, from@, chat_text(from@, line@)),
            final(self).released() == old(self).released(),
            delivered_to(report@).no_duplicates(),
            delivered_to(report@).to_set() == old(self)@.dom().remove(from@),
    {
        proof {
            use_type_invariant(&*self);
        }
        let text = render(from, line);
        let mut members: Vec<Member> = Vec::new();
        std::mem::swap(&mut members, &mut self.members);
        let ghost m0 = members@;
        let mut report: Vec<Delivery> = Vec::new();
        let ghost mut src: Seq<int> = Seq::empty();
        let n = members.len();
        let mut i: usize = 0;
        while i < n
            invariant
                n == m0.len(),
                members@.len() == n,
                names_distinct(m0),
                i <= n,
                text@ == chat_text(from@, line@),
                forall|j: int| 0 <= j < n ==> #[trigger] members@[j].name == m0[j].name,
                forall|j: int|
                    0 <= j < i ==> #[trigger] members@[j].mailbox == if m0[j].name@ == from@ {
                        m0[j].mailbox
                    } else {
                        m0[j].mailbox.after_send(text@)
                    },
                forall|j: int| i <= j < n ==> #[trigger] members@[j] == m0[j],
                src.len() == report@.len(),
                forall|j: int|
                    0 <= j < src.len() ==> 0 <= #[trigger] src[j] < i && m0[src[j]].name@
                        == report@[j].to@ && m0[src[j]].name@ != from@,
                forall|a: int, b: int| 0 <= a < b < src.len() ==> src[a] < src[b],
                forall|x: int|
                    0 <= x < i && m0[x].name@ != from@ ==> exists|j: int|
                        0 <= j < src.len() && #[trigger] src[j] == x,
            decreases n - i,
        {
            let ghost before = members@;
            let mut member = members.remove(i);
            assert(member == m0[i as int]);
            if member.name != *from {
                let outcome = member.mailbox.try_send(text.clone());
                report.push(Delivery { to: member.name.clone(), outcome });
                proof {
                    let old_src = src;
                    src = src.push(i as int);
                    assert forall|x: int|
                        0 <= x < i + 1 && m0[x].name@ != from@ implies exists|j: int|
                        0 <= j < src.len() && #[trigger] src[j] == x by {
                        if x < i {
                            let j = choose|j: int| 0 <= j < old_src.len() && #[trigger] old_src[j] == x;
                            assert(src[j] == x);
                        } else {
                            assert(src[old_src.len() as int] == x);
                        }
                    }
                }
            }
            members.insert(i, member);
            proof {
                assert forall|j: int| 0 <= j < n && j != i implies #[trigger] members@[j] == before[j] by {}
            }
            i = i + 1;
        }
        proof {
            let m1 = members@;
            lemma_same_names(m0, m1);
            let t = text@;
            assert(roster(m1) =~= deliver_all(roster(m0), from@, t)) by {
                assert forall|k: Seq<char>| roster(m1).dom().contains(k) == roster(m0).dom().contains(k) by {
                    if roster(m1).dom().contains(k) {
                        let j = choose|j: int| 0 <= j < m1.len() && m1[j].name@ == k;
                        assert(m0[j].name == m1[j].name);
                    }
                    if roster(m0).dom().contains(k) {
                        let j = choose|j: int| 0 <= j < m0.len() && m0[j].name@ == k;
                        assert(m0[j].name == m1[j].name);
                    }
                }
                assert forall|k: Seq<char>| #[trigger] roster(m1).dom().contains(k) implies roster(m1)[k]
                    == deliver_all(roster(m0), from@, t)[k] by {
                    let j = choose|j: int| 0 <= j < m1.len() && m1[j].name@ == k;
                    assert(m0[j].name == m1[j].name);
                    lemma_roster_at(m1, j);
                    lemma_roster_at(m0, j);
                }
            }
            let d = delivered_to(report@);
            assert(d.no_duplicates()) by {
                assert forall|a: int, b: int|
                    0 <= a < d.len() && 0 <= b < d.len() && a != b implies d[a] != d[b] by {
                    assert(d[a] == m0[src[a]].name@);
                    assert(d[b] == m0[src[b]].name@);
                    if a < b {
                        assert(src[a] < src[b]);
                    } else {
                        assert(src[b] < src[a]);
                    }
                }
            }
            assert(d.to_set() =~= roster(m0).dom().remove(from@)) by {
                assert forall|k: Seq<char>| d.to_set().contains(k) implies roster(m0).dom().remove(
                    from@,
                ).contains(k) by {
                    let j = choose|j: int| 0 <= j < d.len() && d[j] == k;
                    assert(d[j] == report@[j].to@);
                    assert(0 <= src[j] < n);
                    lemma_roster_at(m0, src[j]);
                }
                assert forall|k: Seq<char>| roster(m0).dom().remove(from@).contains(k) implies d.to_set().contains(
                    k,
                ) by {
                    let x = choose|x: int| 0 <= x < m0.len() && m0[x].name@ == k;
                    let j = choose|j: int| 0 <= j < src.len() && #[trigger] src[j] == x;
                    assert(d[j] == k);
                }
            }
        }
        self.members = members;
        report
    }

    /// Hands `line`, as sent by `from`, to the member `to`, if there is one.
    fn direct(&mut self, from: &String, to: &String, line: &String) -> (report: Vec<Delivery>)
        ensures
            final(self)@ == deliver_to(old(self)@, to@, chat_text(from@, line@)),
            final(self).released() == old(self).released(),
            old(self)@.dom().contains(to@) ==> report@.len() == 1 && report@[0].to@ == to@,
            !old(self)@.dom().contains(to@) ==> report@.len() == 0,
    {
        proof {
            use_type_invariant(&*self);
        }
        let mut report: Vec<Delivery> = Vec::new();
        match self.position(to) {
            Some(i) => {
                let text = render(from, line);
                let mut members: Vec<Member> = Vec::new();
                std::mem::swap(&mut members, &mut self.members);
                let ghost m0 = members@;
                let mut member = members.remove(i);
                assert(member == m0[i as int]);
                let outcome = member.mailbox.try_send(text);
                members.insert(i, member);
                proof {
                    let m1 = members@;
                    assert forall|j: int| 0 <= j < m0.len() && j != i implies #[trigger] m1[j]
                        == m0[j] by {}
                    assert(m1[i as int].name == m0[i as int].name);
                    lemma_same_names(m0, m1);
                    lemma_roster_at(m0, i as int);
                    lemma_roster_at(m1, i as int);
                    let k = to@;
                    assert(roster(m1) =~= roster(m0).insert(k, roster(m0)[k].after_send(
                        chat_text(from@, line@),
                    ))) by {
                        assert forall|x: Seq<char>|
                            roster(m1).dom().contains(x) == roster(m0).dom().contains(x) by {
                            if roster(m1).dom().contains(x) {
                                let j = choose|j: int| 0 <= j < m1.len() && m1[j].name@ == x;
                                assert(m0[j].name == m1[j].name);
                            }
                            if roster(m0).dom().contains(x) {
                                let j = choose|j: int| 0 <= j < m0.len() && m0[j].name@ == x;
                                assert(m0[j].name == m1[j].name);
                            }
                        }
                        assert forall|x: Seq<char>| #[trigger]
                            roster(m1).dom().contains(x) && x != k implies roster(m1)[x]
                            == roster(m0)[x] by {
                            let j = choose|j: int| 0 <= j < m1.len() && m1[j].name@ == x;
                            assert(j != i);
                            lemma_roster_at(m1, j);
                            lemma_roster_at(m0, j);
                        }
                    }
                }
                self.members = members;
                report.push(Delivery { to: to.clone(), outcome });
            },
            None => {
                assert(deliver_to(old(self)@, to@, chat_text(from@, line@)) == old(self)@);
            },
        }
        report
    }

    /// Carries out one command. A join or a leave changes the membership. A broadcast hands
    /// the text to the mailbox of every member but the sender, and a direct message to the
    /// addressee's mailbox if the addressee is a member, each once and without waiting: every
    /// other mailbox is left as it was, and a full or closed mailbox does not stop the others.
    /// A mailbox that a join replaces, or that a leave removes, is let go of with nothing
    /// more handed to it. The report names each recipient once, with what became of its text.
    pub fn handle(&mut self, cmd: RouterCommand) -> (report: Vec<Delivery>)
        ensures
            final(self)@ == next_roster(old(self)@, cmd),
            final(self).released() == old(self).released() + released_by(old(self)@, cmd),
            delivered_to(report@).no_duplicates(),
            delivered_to(report@).to_set() == recipients(old(self)@, cmd),
    {
        match cmd {
            RouterCommand::Join { name, mailbox } => {
                self.join(name, mailbox);
                let report: Vec<Delivery> = Vec::new();
                assert(delivered_to(report@).to_set() =~= Set::empty());
                report
            },
            RouterCommand::Leave { name } => {
                self.leave(&name);
                let report: Vec<Delivery> = Vec::new();
                assert(delivered_to(report@).to_set() =~= Set::empty());
                report
            },
            RouterCommand::Broadcast { from, line } => self.broadcast(&from, &line),
            RouterCommand::Direct { from, to, line } => {
                let report = self.direct(&from, &to, &line);
                proof {
                    let d = delivered_to(report@);
                    if report@.len() == 1 {
                        assert(d.to_set() =~= set![to@]) by {
                            assert(d[0] == to@);
                        }
                    } else {
                        assert(d.to_set() =~= Set::empty());
                    }
                }
                report
            },
        }
    }
}

/// Two member lists with the same names at the same places: the names stay distinct.
proof fn lemma_same_names(m0: Seq<Member>, m1: Seq<Member>)
    requires
        names_distinct(m0),
        m0.len() == m1.len(),
        forall|j: int| 0 <= j < m0.len() ==> #[trigger] m1[j].name == m0[j].name,
    ensures
        names_distinct(m1),
{
    assert forall|a: int, b: int|
        0 <= a < m1.len() && 0 <= b < m1.len() && a != b implies m1[a].name@ != m1[b].name@ by {
        assert(m1[a].name == m0[a].name);
        assert(m1[b].name == m0[b].name);
    }
}

/// The text that a member receives for `line` sent by `from`.
pub fn render(from: &String, line: &String) -> (t: String)
    ensures
        t@ == chat_text(from@, line@),
{
    let mut t = from.clone();
    t.append(": ");
    t.append(line.as_str());
    t.append("\n");
    proof {
        reveal_strlit(": ");
        reveal_strlit("\n");
        assert(t@ =~= chat_text(from@, line@));
    }
    t
}

/// A name that joins and then leaves is gone again: the membership is what it was before
/// the join, provided the name was not a member before.
pub proof fn join_then_leave_restores(
    m: Map<Seq<char>, Mailbox>,
    joined: String,
    mailbox: Mailbox,
    left: String,
)
    requires
        joined@ == left@,
        !m.dom().contains(joined@),
    ensures
        next_roster(
            next_roster(m, RouterCommand::Join { name: joined, mailbox }),
            RouterCommand::Leave { name: left },
        ) == m,
{
    assert(m.insert(joined@, mailbox).remove(left@) =~= m);
}

/// A broadcast reaches every member except its sender, and never the sender.
pub proof fn broadcast_reaches_all_but_sender(
    m: Map<Seq<char>, Mailbox>,
    from: String,
    line: String,
    who: Seq<char>,
)
    ensures
        recipients(m, RouterCommand::Broadcast { from, line }).contains(who) <==> (m.dom().contains(
            who,
        ) && who != from@),
{
}

/// A direct message reaches its addressee when that name is a member, and no one else.
pub proof fn direct_reaches_only_addressee(
    m: Map<Seq<char>, Mailbox>,
    from: String,
    to: String,
    line: String,
    who: Seq<char>,
)
    ensures
        recipients(m, RouterCommand::Direct { from, to, line }).contains(who) <==> (who == to@
            && m.dom().contains(to@)),
{
}

/// Messages never change who the members are, nor the channel that reaches each of them;
/// only joins and leaves do.
pub proof fn messages_keep_membership(m: Map<Seq<char>, Mailbox>, cmd: RouterCommand, who: Seq<char>)
    requires
        cmd is Broadcast || cmd is Direct,
    ensures
        next_roster(m, cmd).dom() == m.dom(),
        m.dom().contains(who) ==> next_roster(m, cmd)[who].sender() == m[who].sender(),
{
    if m.dom().contains(who) {
        m[who].lemma_after_send(message_of(cmd));
    }
    assert(next_roster(m, cmd).dom() =~= m.dom());
}

/// A message is handed exactly once to each of its recipients and to no other member: the
/// log of a recipient grows by the message's text, and every other member's log stays as it
/// was.
pub proof fn message_reaches_exactly_its_recipients(
    m: Map<Seq<char>, Mailbox>,
    cmd: RouterCommand,
    who: Seq<char>,
)
    requires
        cmd is Broadcast || cmd is Direct,
        m.dom().contains(who),
    ensures
        next_roster(m, cmd)[who].log() == if recipients(m, cmd).contains(who) {
            m[who].log().push(message_of(cmd))
        } else {
            m[who].log()
        },
{
    m[who].lemma_after_send(message_of(cmd));
}

/// Joins and leaves hand no text to anyone: every mailbox the router keeps has the log it had.
pub proof fn membership_changes_send_nothing(
    m: Map<Seq<char>, Mailbox>,
    cmd: RouterCommand,
    who: Seq<char>,
)
    requires
        cmd is Join || cmd is Leave,
        m.dom().contains(who),
        next_roster(m, cmd).dom().contains(who),
        !(cmd matches RouterCommand::Join { name, .. } && name@ == who),
    ensures
        next_roster(m, cmd)[who] == m[who],
{
}

/// A name that has left receives nothing, whatever is sent next.
pub proof fn left_member_receives_nothing(
    m: Map<Seq<char>, Mailbox>,
    left: String,
    cmd: RouterCommand,
)
    ensures
        !recipients(next_roster(m, RouterCommand::Leave { name: left }), cmd).contains(left@),
{
}

/// After a join, a broadcast from any other name reaches the new member.
pub proof fn joined_member_hears_broadcasts(
    m: Map<Seq<char>, Mailbox>,
    name: String,
    mailbox: Mailbox,
    from: String,
    line: String,
)
    requires
        from@ != name@,
    ensures
        recipients(
            next_roster(m, RouterCommand::Join { name, mailbox }),
            RouterCommand::Broadcast { from, line },
        ).contains(name@),
{
}

/// Every text the router hands over ends with a newline.
pub proof fn delivered_text_ends_line(cmd: RouterCommand)
    requires
        cmd is Broadcast || cmd is Direct,
    ensures
        message_of(cmd).len() > 0,
        message_of(cmd).last() == '\n',
{
}

} // verus!
