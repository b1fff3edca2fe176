use vstd::prelude::*;

use crate::command::{classify, classify_line, username_of, ChatLine, LineModel};
use crate::text::trimmed;

verus! {

/// Where a connection stands in the chat protocol.
pub enum Phase {
    /// The prompt for a user name is being written.
    Greeting,
    /// Waiting for the line that names the user.
    AwaitingName,
    /// The join request for `name` is being handed to the router.
    Joining { name: String },
    /// Joined as `name`: waiting for a line from the user or a message for the user.
    Active { name: String },
    /// A message from `name` is being handed to the router; if that fails, the connection
    /// ends when `stop_on_failure` holds and goes on otherwise.
    Relaying { name: String, stop_on_failure: bool },
    /// A message for `name` is being written to the connection.
    Delivering { name: String },
    /// The leave request is being handed to the router.
    Leaving,
    /// The connection is finished.
    Closed,
}

/// What came of reading a line from the connection.
pub enum ReadResult {
    Line(String),
    EndOfStream,
    Failed,
}

/// What the connection's driver reports back.
pub enum SessionEvent {
    /// A write finished, well or not.
    Written { ok: bool },
    /// A read finished.
    Read(ReadResult),
    /// A request was handed to the router, or the router is gone.
    Submitted { ok: bool },
    /// The mailbox gave a message, or it is closed.
    Mail(Option<String>),
}

/// A request for the router, in the name of this connection's user.
pub enum Request {
    Join { name: String },
    Leave { name: String },
    Broadcast { from: String, line: String },
    Direct { from: String, to: String, line: String },
}

/// What the connection's driver is to do next.
pub enum SessionAction {
    /// Write this text to the connection.
    Write(String),
    /// Read one line from the connection.
    ReadLine,
    /// Hand this request to the router.
    Submit(Request),
    /// Wait for a line from the connection or a message from the mailbox, whichever is first.
    Wait,
    /// Stop serving the connection.
    Stop,
}

pub enum PhaseModel {
    Greeting,
    AwaitingName,
    Joining(Seq<char>),
    Active(Seq<char>),
    Relaying(Seq<char>, bool),
    Delivering(Seq<char>),
    Leaving,
    Closed,
}

pub enum ReadModel {
    Line(Seq<char>),
    EndOfStream,
    Failed,
}

pub enum EventModel {
    Written(bool),
    Read(ReadModel),
    Submitted(bool),
    Mail(Option<Seq<char>>),
}

pub enum RequestModel {
    Join(Seq<char>),
    Leave(Seq<char>),
    Broadcast(Seq<char>, Seq<char>),
    Direct(Seq<char>, Seq<char>, Seq<char>),
}

pub enum ActionModel {
    Write(Seq<char>),
    ReadLine,
    Submit(RequestModel),
    Wait,
    Stop,
}

impl View for Phase {
    type V = PhaseModel;

    open spec fn view(&self) -> PhaseModel {
        match self {
            Phase::Greeting => PhaseModel::Greeting,
            Phase::AwaitingName => PhaseModel::AwaitingName,
            Phase::Joining { name } => PhaseModel::Joining(name@),
            Phase::Active { name } => PhaseModel::Active(name@),
            Phase::Relaying { name, stop_on_failure } => PhaseModel::Relaying(name@, *stop_on_failure),
            Phase::Delivering { name } => PhaseModel::Delivering(name@),
            Phase::Leaving => PhaseModel::Leaving,
            Phase::Closed => PhaseModel::Closed,
        }
    }
}

impl View for ReadResult {
    type V = ReadModel;

    open spec fn view(&self) -> ReadModel {
        match self {
            ReadResult::Line(l) => ReadModel::Line(l@),
            ReadResult::EndOfStream => ReadModel::EndOfStream,
            ReadResult::Failed => ReadModel::Failed,
        }
    }
}

impl View for SessionEvent {
    type V = EventModel;

    open spec fn view(&self) -> EventModel {
        match self {
            SessionEvent::Written { ok } => EventModel::Written(*ok),
            SessionEvent::Read(r) => EventModel::Read(r@),
            SessionEvent::Submitted { ok } => EventModel::Submitted(*ok),
            SessionEvent::Mail(m) => EventModel::Mail(
                match m {
                    Some(t) => Some(t@),
                    None => None,
                },
            ),
        }
    }
}

impl View for Request {
    type V = RequestModel;

    open spec fn view(&self) -> RequestModel {
        match self {
            Request::Join { name } => RequestModel::Join(name@),
            Request::Leave { name } => RequestModel::Leave(name@),
            Request::Broadcast { from, line } => RequestModel::Broadcast(from@, line@),
            Request::Direct { from, to, line } => RequestModel::Direct(from@, to@, line@),
        }
    }
}

impl View for SessionAction {
    type V = ActionModel;

    open spec fn view(&self) -> ActionModel {
        match self {
            SessionAction::Write(t) => ActionModel::Write(t@),
            SessionAction::ReadLine => ActionModel::ReadLine,
            SessionAction::Submit(r) => ActionModel::Submit(r@),
            SessionAction::Wait => ActionModel::Wait,
            SessionAction::Stop => ActionModel::Stop,
        }
    }
}

/// The prompt written to a new connection.
pub open spec fn prompt() -> Seq<char> {
    seq!['U', 's', 'e', 'r', 'n', 'a', 'm', 'e', ':', ' ']
}

/// What a joined user's line leads to.
pub open spec fn on_line(name: Seq<char>, line: Seq<char>) -> (PhaseModel, ActionModel) {
    match classify(line) {
        LineModel::Quit => (PhaseModel::Leaving, ActionModel::Submit(RequestModel::Leave(name))),
        LineModel::Direct { to, text } => (
            PhaseModel::Relaying(name, false),
            ActionModel::Submit(RequestModel::Direct(name, to, text)),
        ),
        LineModel::Malformed => (PhaseModel::Active(name), ActionModel::Wait),
        LineModel::Say => (
            PhaseModel::Relaying(name, true),
            ActionModel::Submit(RequestModel::Broadcast(name, line)),
        ),
    }
}

/// One step of the protocol: the phase and event give the next phase and what to do.
/// An event that the phase does not wait for ends the connection.
pub open spec fn step_model(p: PhaseModel, e: EventModel) -> (PhaseModel, ActionModel) {
    match (p, e) {
        (PhaseModel::Greeting, EventModel::Written(true)) => (
            PhaseModel::AwaitingName,
            ActionModel::ReadLine,
        ),
        (PhaseModel::AwaitingName, EventModel::Read(ReadModel::Line(l))) => (
            PhaseModel::Joining(username_of(l)),
            ActionModel::Submit(RequestModel::Join(username_of(l))),
        ),
        (PhaseModel::AwaitingName, EventModel::Read(ReadModel::EndOfStream)) => (
            PhaseModel::Joining(Seq::empty()),
            ActionModel::Submit(RequestModel::Join(Seq::empty())),
        ),
        (PhaseModel::Joining(n), EventModel::Submitted(true)) => (
            PhaseModel::Active(n),
            ActionModel::Wait,
        ),
        (PhaseModel::Active(n), EventModel::Read(ReadModel::Line(l))) => on_line(n, l),
        (PhaseModel::Active(n), EventModel::Read(ReadModel::EndOfStream)) => (
            PhaseModel::Leaving,
            ActionModel::Submit(RequestModel::Leave(n)),
        ),
        (PhaseModel::Active(n), EventModel::Read(ReadModel::Failed)) => (
            PhaseModel::Leaving,
            ActionModel::Submit(RequestModel::Leave(n)),
        ),
        (PhaseModel::Active(n), EventModel::Mail(Some(m))) => (
            PhaseModel::Delivering(n),
            ActionModel::Write(m),
        ),
        (PhaseModel::Active(n), EventModel::Mail(None)) => (
            PhaseModel::Leaving,
            ActionModel::Submit(RequestModel::Leave(n)),
        ),
        (PhaseModel::Delivering(n), EventModel::Written(true)) => (
            PhaseModel::Active(n),
            ActionModel::Wait,
        ),
        (PhaseModel::Relaying(n, stop), EventModel::Submitted(ok)) => if ok || !stop {
            (PhaseModel::Active(n), ActionModel::Wait)
        } else {
            (PhaseModel::Closed, ActionModel::Stop)
        },
        _ => (PhaseModel::Closed, ActionModel::Stop),
    }
}

/// The protocol state of one chat connection.
pub struct Session {
    pub phase: Phase,
}

impl View for Session {
    type V = PhaseModel;

    open spec fn view(&self) -> PhaseModel {
        self.phase@
    }
}

impl Session {
    /// A new connection: it starts by writing the prompt for a user name.
    pub fn start() -> (r: (Session, SessionAction))
        ensures
            r.0@ == PhaseModel::Greeting,
            r.1@ == ActionModel::Write(prompt()),
    {
        let p = String::from_str("Username: ");
        proof {
            reveal_strlit("Username: ");
            assert(p@ =~= prompt());
        }
        (Session { phase: Phase::Greeting }, SessionAction::Write(p))
    }

    /// Takes in what the driver reports and says what to do next.
    pub fn step(&mut self, event: SessionEvent) -> (a: SessionAction)
        ensures
            (final(self)@, a@) == step_model(old(self)@, event@),
    {
        let mut phase = Phase::Closed;
        std::mem::swap(&mut phase, &mut self.phase);
        let (next, action) = advance(phase, event);
        self.phase = next;
        action
    }
}

fn on_user_line(name: String, line: String) -> (r: (Phase, SessionAction))
    ensures
        (r.0@, r.1@) == on_line(name@, line@),
{
    match classify_line(line.as_str()) {
        ChatLine::Quit => (Phase::Leaving, SessionAction::Submit(Request::Leave { name })),
        ChatLine::Direct { to, text } => {
            let from = name.clone();
            (
                Phase::Relaying { name, stop_on_failure: false },
                SessionAction::Submit(Request::Direct { from, to, line: text }),
            )
        },
        ChatLine::Malformed => (Phase::Active { name }, SessionAction::Wait),
        ChatLine::Say => {
            let from = name.clone();
            (
                Phase::Relaying { name, stop_on_failure: true },
                SessionAction::Submit(Request::Broadcast { from, line }),
            )
        },
    }
}

fn advance(phase: Phase, event: SessionEvent) -> (r: (Phase, SessionAction))
    ensures
        (r.0@, r.1@) == step_model(phase@, event@),
{
    match (phase, event) {
        (Phase::Greeting, SessionEvent::Written { ok: true }) => (
            Phase::AwaitingName,
            SessionAction::ReadLine,
        ),
        (Phase::AwaitingName, SessionEvent::Read(ReadResult::Line(l))) => {
            let name = trimmed(l.as_str());
            let again = name.clone();
            (Phase::Joining { name }, SessionAction::Submit(Request::Join { name: again }))
        },
        (Phase::AwaitingName, SessionEvent::Read(ReadResult::EndOfStream)) => {
            let name = String::new();
            let again = String::new();
            (Phase::Joining { name }, SessionAction::Submit(Request::Join { name: again }))
        },
        (Phase::Joining { name }, SessionEvent::Submitted { ok: true }) => (
            Phase::Active { name },
            SessionAction::Wait,
        ),
        (Phase::Active { name }, SessionEvent::Read(ReadResult::Line(l))) => on_user_line(name, l),
        (Phase::Active { name }, SessionEvent::Read(ReadResult::EndOfStream)) => (
            Phase::Leaving,
            SessionAction::Submit(Request::Leave { name }),
        ),
        (Phase::Active { name }, SessionEvent::Read(ReadResult::Failed)) => (
            Phase::Leaving,
            SessionAction::Submit(Request::Leave { name }),
        ),
        (Phase::Active { name }, SessionEvent::Mail(Some(m))) => (
            Phase::Delivering { name },
            SessionAction::Write(m),
        ),
        (Phase::Active { name }, SessionEvent::Mail(None)) => (
            Phase::Leaving,
            SessionAction::Submit(Request::Leave { name }),
        ),
        (Phase::Delivering { name }, SessionEvent::Written { ok: true }) => (
            Phase::Active { name },
            SessionAction::Wait,
        ),
        (Phase::Relaying { name, stop_on_failure }, SessionEvent::Submitted { ok }) => {
            if ok || !stop_on_failure {
                (Phase::Active { name }, SessionAction::Wait)
            } else {
                (Phase::Closed, SessionAction::Stop)
            }
        },
        _ => (Phase::Closed, SessionAction::Stop),
    }
}

/// The events that a phase waits for; the driver reports no other.
pub open spec fn awaits(p: PhaseModel, e: EventModel) -> bool {
    match p {
        PhaseModel::Greeting => e is Written,
        PhaseModel::AwaitingName => e is Read,
        PhaseModel::Joining(_) => e is Submitted,
        PhaseModel::Active(_) => e is Read || e is Mail,
        PhaseModel::Relaying(_, _) => e is Submitted,
        PhaseModel::Delivering(_) => e is Written,
        PhaseModel::Leaving => e is Submitted,
        PhaseModel::Closed => false,
    }
}

/// Once closed, a connection stays closed and does nothing more.
pub proof fn closed_is_final(e: EventModel)
    ensures
        step_model(PhaseModel::Closed, e) == (PhaseModel::Closed, ActionModel::Stop),
{
}

/// The name a request from a joined connection is made in.
pub open spec fn request_user(r: RequestModel) -> Seq<char> {
    match r {
        RequestModel::Join(n) => n,
        RequestModel::Leave(n) => n,
        RequestModel::Broadcast(f, _) => f,
        RequestModel::Direct(f, _, _) => f,
    }
}

/// Every request that a joined connection makes is made in its own user name, and a
/// joined connection that reads a line or a mailbox message is never dropped without a
/// leave request: it either stays joined or asks to leave.
pub proof fn joined_requests_carry_the_name(n: Seq<char>, e: EventModel)
    requires
        e is Read || e is Mail,
    ensures
        step_model(PhaseModel::Active(n), e).0 != PhaseModel::Closed,
        step_model(PhaseModel::Active(n), e).1 matches ActionModel::Submit(r) ==> request_user(r)
            == n,
        step_model(PhaseModel::Active(n), e).0 == PhaseModel::Leaving ==> step_model(
            PhaseModel::Active(n),
            e,
        ).1 == ActionModel::Submit(RequestModel::Leave(n)),
{
}

/// `/quit`, with any white space around it, asks the router to drop the user.
pub proof fn quit_leaves(n: Seq<char>, l: Seq<char>)
    requires
        crate::text::trim(l) == crate::command::quit_word(),
    ensures
        step_model(PhaseModel::Active(n), EventModel::Read(ReadModel::Line(l))) == (
            PhaseModel::Leaving,
            ActionModel::Submit(RequestModel::Leave(n)),
        ),
{
}

/// After joining, a connection ends without asking to leave only when writing a message to
/// it fails or when the router cannot take a broadcast from it.
pub proof fn silent_ends(p: PhaseModel, e: EventModel)
    requires
        p is Active || p is Relaying || p is Delivering,
        awaits(p, e),
        step_model(p, e).0 == PhaseModel::Closed,
    ensures
        (p is Delivering && e == EventModel::Written(false)) || (p matches PhaseModel::Relaying(
            _,
            true,
        ) && e == EventModel::Submitted(false)),
{
}

/// Before a connection has joined, the only request it makes is the join itself: nothing is
/// said or sent in a user's name before the user exists.
pub proof fn join_comes_first(p: PhaseModel, e: EventModel)
    requires
        p is Greeting || p is AwaitingName,
    ensures
        step_model(p, e).1 matches ActionModel::Submit(r) ==> r is Join,
{
}

/// Handing a joined user's message to the router never ends the user's stay: once the
/// router has taken it, broadcast or direct, the connection is back to waiting as the same
/// user, with no leave request.
pub proof fn taken_message_keeps_user_joined(n: Seq<char>, stop_on_failure: bool)
    ensures
        step_model(PhaseModel::Relaying(n, stop_on_failure), EventModel::Submitted(true)) == (
            PhaseModel::Active(n),
            ActionModel::Wait,
        ),
{
}

/// A line other than `/quit` that a joined user types, once the router has taken what it
/// asks for, leaves the user joined under the same name and waiting for the next line: two
/// steps from `Active(n)` lead back to `Active(n)`.
pub proof fn said_line_returns_to_chat(n: Seq<char>, l: Seq<char>)
    requires
        !(classify(l) is Quit),
    ensures
        ({
            let first = step_model(PhaseModel::Active(n), EventModel::Read(ReadModel::Line(l)));
            &&& first.0 is Relaying || first == (PhaseModel::Active(n), ActionModel::Wait)
            &&& first.0 is Relaying ==> step_model(first.0, EventModel::Submitted(true)) == (
                PhaseModel::Active(n),
                ActionModel::Wait,
            )
        }),
{
}

} // verus!
