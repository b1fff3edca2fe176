use vstd::prelude::*;

use crate::session::{ReadModel, ReadResult};

verus! {

/// What the shared bus gave a subscriber.
pub enum BusReceive {
    /// A line published by some connection (its own included).
    Message(String),
    /// The subscriber fell behind and lines were skipped.
    Lagged,
    /// The bus is gone.
    Closed,
}

/// What a connection of the bus-based server reports to its driver.
pub enum RelayEvent {
    Read(ReadResult),
    Bus(BusReceive),
    Written { ok: bool },
}

/// What the driver of a bus connection is to do next.
pub enum RelayAction {
    /// Publish this line on the bus (a failure to publish is ignored), then wait again.
    Publish(String),
    /// Write this line to the client.
    Write(String),
    /// Wait for a line from the client or a line from the bus, whichever is first.
    Wait,
    /// Stop serving the connection.
    Stop,
}

pub enum BusModel {
    Message(Seq<char>),
    Lagged,
    Closed,
}

pub enum RelayEventModel {
    Read(ReadModel),
    Bus(BusModel),
    Written(bool),
}

pub enum RelayActionModel {
    Publish(Seq<char>),
    Write(Seq<char>),
    Wait,
    Stop,
}

impl View for RelayEvent {
    type V = RelayEventModel;

    open spec fn view(&self) -> RelayEventModel {
        match self {
            RelayEvent::Read(r) => RelayEventModel::Read(r@),
            RelayEvent::Bus(BusReceive::Message(m)) => RelayEventModel::Bus(BusModel::Message(m@)),
            RelayEvent::Bus(BusReceive::Lagged) => RelayEventModel::Bus(BusModel::Lagged),
            RelayEvent::Bus(BusReceive::Closed) => RelayEventModel::Bus(BusModel::Closed),
            RelayEvent::Written { ok } => RelayEventModel::Written(*ok),
        }
    }
}

impl View for RelayAction {
    type V = RelayActionModel;

    open spec fn view(&self) -> RelayActionModel {
        match self {
            RelayAction::Publish(l) => RelayActionModel::Publish(l@),
            RelayAction::Write(l) => RelayActionModel::Write(l@),
            RelayAction::Wait => RelayActionModel::Wait,
            RelayAction::Stop => RelayActionModel::Stop,
        }
    }
}

/// A bus connection: a line from the client is published as it was read; a line from the
/// bus is written to the client; skipped lines are passed over; the end of the client's
/// stream, a read or write failure, or the end of the bus stops the connection.
pub open spec fn relay_model(e: RelayEventModel) -> RelayActionModel {
    match e {
        RelayEventModel::Read(ReadModel::Line(l)) => RelayActionModel::Publish(l),
        RelayEventModel::Read(_) => RelayActionModel::Stop,
        RelayEventModel::Bus(BusModel::Message(m)) => RelayActionModel::Write(m),
        RelayEventModel::Bus(BusModel::Lagged) => RelayActionModel::Wait,
        RelayEventModel::Bus(BusModel::Closed) => RelayActionModel::Stop,
        RelayEventModel::Written(ok) => if ok {
            RelayActionModel::Wait
        } else {
            RelayActionModel::Stop
        },
    }
}

/// What a bus connection does with `e`.
pub fn relay_step(e: RelayEvent) -> (a: RelayAction)
    ensures
        a@ == relay_model(e@),
{
    match e {
        RelayEvent::Read(ReadResult::Line(l)) => RelayAction::Publish(l),
        RelayEvent::Read(_) => RelayAction::Stop,
        RelayEvent::Bus(BusReceive::Message(m)) => RelayAction::Write(m),
        RelayEvent::Bus(BusReceive::Lagged) => RelayAction::Wait,
        RelayEvent::Bus(BusReceive::Closed) => RelayAction::Stop,
        RelayEvent::Written { ok } => if ok {
            RelayAction::Wait
        } else {
            RelayAction::Stop
        },
    }
}

/// A line from the bus is written to the client exactly as it was published, whatever it
/// holds (its newline included).
pub proof fn bus_line_written_unchanged(m: Seq<char>)
    ensures
        relay_model(RelayEventModel::Bus(BusModel::Message(m))) == RelayActionModel::Write(m),
{
}

/// A line that a client sends comes out unchanged at every client that takes it from the
/// bus: the text published for a read line, written back for that bus message, is the line.
pub proof fn published_line_round_trips(l: Seq<char>)
    ensures
        relay_model(RelayEventModel::Read(ReadModel::Line(l))) is Publish,
        ({
            let published = relay_model(RelayEventModel::Read(ReadModel::Line(l)))->Publish_0;
            relay_model(RelayEventModel::Bus(BusModel::Message(published)))
                == RelayActionModel::Write(l)
        }),
{
}

} // verus!
