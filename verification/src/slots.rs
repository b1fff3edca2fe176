use vstd::prelude::*;

verus! {

/// The writers of the connected clients, by the slot each was given when it connected.
/// A slot is emptied when its client goes away or a write to it fails; slots are never
/// reused, so a slot number stays the same for the life of the table.
pub struct SlotTable<W> {
    slots: Vec<Option<W>>,
}

impl<W> View for SlotTable<W> {
    type V = Seq<Option<W>>;

    closed spec fn view(&self) -> Seq<Option<W>> {
        self.slots@
    }
}

/// The slots of `s` that hold a writer, in increasing order.
pub open spec fn live_slots<W>(s: Seq<Option<W>>, upto: int) -> Seq<usize>
    decreases upto,
{
    if upto <= 0 {
        Seq::empty()
    } else if s[upto - 1] is Some {
        live_slots(s, upto - 1).push((upto - 1) as usize)
    } else {
        live_slots(s, upto - 1)
    }
}

impl<W> SlotTable<W> {
    /// A table with no slots.
    pub fn new() -> (t: SlotTable<W>)
        ensures
            t@ == Seq::<Option<W>>::empty(),
    {
        SlotTable { slots: Vec::new() }
    }

    /// The number of slots handed out so far.
    pub fn len(&self) -> (n: usize)
        ensures
            n == self@.len(),
    {
        self.slots.len()
    }

    /// Gives `w` a new slot, after all the others, and returns its number.
    pub fn register(&mut self, w: W) -> (idx: usize)
        ensures
            final(self)@ == old(self)@.push(Some(w)),
            idx == old(self)@.len(),
    {
        self.slots.push(Some(w));
        self.slots.len() - 1
    }

    /// Empties slot `idx`; a number that was never handed out changes nothing.
    pub fn vacate(&mut self, idx: usize)
        ensures
            idx < old(self)@.len() ==> final(self)@ == old(self)@.update(idx as int, None),
            idx >= old(self)@.len() ==> final(self)@ == old(self)@,
    {
        if idx < self.slots.len() {
            let _ = self.take(idx);
        }
    }

    /// Takes the writer out of slot `idx`, leaving the slot empty.
    pub fn take(&mut self, idx: usize) -> (w: Option<W>)
        ensures
            idx < old(self)@.len() ==> w == old(self)@[idx as int] && final(self)@ == old(
                self,
            )@.update(idx as int, None),
            idx >= old(self)@.len() ==> w is None && final(self)@ == old(self)@,
    {
        if idx < self.slots.len() {
            let w = self.slots.remove(idx);
            self.slots.insert(idx, None);
            assert(self.slots@ =~= old(self)@.update(idx as int, None));
            w
        } else {
            None
        }
    }

    /// Puts `w` back into slot `idx`.
    pub fn put_back(&mut self, idx: usize, w: W)
        requires
            idx < old(self)@.len(),
        ensures
            final(self)@ == old(self)@.update(idx as int, Some(w)),
    {
        let _ = self.slots.remove(idx);
        self.slots.insert(idx, Some(w));
        assert(self.slots@ =~= old(self)@.update(idx as int, Some(w)));
    }

    /// Ends a write to the client of slot `idx`, whose writer `w` was taken out for it: after
    /// a good write the writer goes back into its slot; after a failed one it is dropped and
    /// the slot stays empty, so that client is written to no more.
    pub fn finish_write(&mut self, idx: usize, w: W, ok: bool)
        requires
            idx < old(self)@.len(),
        ensures
            ok ==> final(self)@ == old(self)@.update(idx as int, Some(w)),
            !ok ==> final(self)@ == old(self)@,
    {
        if ok {
            self.put_back(idx, w);
        }
    }

    /// The slots that hold a writer, in increasing order: the order in which a line is
    /// written to the clients.
    pub fn live(&self) -> (r: Vec<usize>)
        ensures
            r@ == live_slots(self@, self@.len() as int),
    {
        let mut r: Vec<usize> = Vec::new();
        let mut i: usize = 0;
        while i < self.slots.len()
            invariant
                i <= self.slots@.len(),
                r@ == live_slots(self.slots@, i as int),
            decreases self.slots@.len() - i,
        {
            if self.slots[i].is_some() {
                r.push(i);
            }
            i = i + 1;
        }
        r
    }
}

/// The live slots are exactly the slots that hold a writer, each once, in increasing order.
pub proof fn live_slots_are_the_filled_slots<W>(s: Seq<Option<W>>, upto: int)
    requires
        0 <= upto <= s.len(),
        s.len() <= usize::MAX,
    ensures
        forall|k: int|
            0 <= k < live_slots(s, upto).len() ==> 0 <= #[trigger] live_slots(s, upto)[k] < upto
                && s[live_slots(s, upto)[k] as int] is Some,
        forall|a: int, b: int|
            0 <= a < b < live_slots(s, upto).len() ==> live_slots(s, upto)[a] < live_slots(
                s,
                upto,
            )[b],
        forall|i: int| 0 <= i < upto && s[i] is Some ==> live_slots(s, upto).contains(i as usize),
    decreases upto,
{
    if upto > 0 {
        live_slots_are_the_filled_slots(s, upto - 1);
        let prev = live_slots(s, upto - 1);
        if s[upto - 1] is Some {
            let cur = prev.push((upto - 1) as usize);
            assert(cur[prev.len() as int] as int == upto - 1);
            assert forall|k: int| 0 <= k < cur.len() implies 0 <= #[trigger] cur[k] < upto
                && s[cur[k] as int] is Some by {
                if k < prev.len() {
                    assert(cur[k] == prev[k]);
                }
            }
            assert forall|a: int, b: int| 0 <= a < b < cur.len() implies cur[a] < cur[b] by {
                assert(cur[a] == prev[a]);
                if b < prev.len() {
                    assert(cur[b] == prev[b]);
                }
            }
            assert forall|i: int| 0 <= i < upto && s[i] is Some implies cur.contains(
                i as usize,
            ) by {
                if i < upto - 1 {
                    let k = choose|k: int| 0 <= k < prev.len() && prev[k] == i as usize;
                    assert(cur[k] == i as usize);
                } else {
                    assert(cur[prev.len() as int] == i as usize);
                }
            }
        }
    }
}

/// Taking a writer out for a write and putting it back leaves the table as it was.
pub proof fn take_then_put_back_restores<W>(s: Seq<Option<W>>, idx: int, w: W)
    requires
        0 <= idx < s.len(),
        s[idx] == Some(w),
    ensures
        s.update(idx, None).update(idx, Some(w)) == s,
{
    assert(s.update(idx, None).update(idx, Some(w)) =~= s);
}

/// Registering never disturbs the slots already handed out.
pub proof fn register_keeps_other_slots<W>(s: Seq<Option<W>>, w: W, i: int)
    requires
        0 <= i < s.len(),
    ensures
        s.push(Some(w))[i] == s[i],
        s.push(Some(w))[s.len() as int] == Some(w),
{
}

} // verus!
