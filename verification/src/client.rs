use vstd::prelude::*;

use crate::session::{ReadModel, ReadResult};

verus! {

/// What the terminal client's driver reports.
pub enum ClientEvent {
    /// The user typed something; this is what the input buffer holds.
    Typed(String),
    /// A read from the server finished.
    FromServer(ReadResult),
    /// Sending to the server finished, well or not.
    Sent { ok: bool },
}

/// What the terminal client's driver is to do next.
pub enum ClientAction {
    /// Send this text to the server.
    Send(String),
    /// Show this line from the server.
    Show(String),
    /// Wait for typed input or a line from the server, whichever is first.
    Wait,
    /// Quit.
    Stop,
}

pub enum ClientEventModel {
    Typed(Seq<char>),
    FromServer(ReadModel),
    Sent(bool),
}

pub enum ClientActionModel {
    Send(Seq<char>),
    Show(Seq<char>),
    Wait,
    Stop,
}

impl View for ClientEvent {
    type V = ClientEventModel;

    open spec fn view(&self) -> ClientEventModel {
        match self {
            ClientEvent::Typed(t) => ClientEventModel::Typed(t@),
            ClientEvent::FromServer(r) => ClientEventModel::FromServer(r@),
            ClientEvent::Sent { ok } => ClientEventModel::Sent(*ok),
        }
    }
}

impl View for ClientAction {
    type V = ClientActionModel;

    open spec fn view(&self) -> ClientActionModel {
        match self {
            ClientAction::Send(t) => ClientActionModel::Send(t@),
            ClientAction::Show(t) => ClientActionModel::Show(t@),
            ClientAction::Wait => ClientActionModel::Wait,
            ClientAction::Stop => ClientActionModel::Stop,
        }
    }
}

/// The terminal client: typed text goes to the server as it is; a line from the server is
/// shown; the end of the server's stream, a failed read or a failed send quits.
pub open spec fn client_model(e: ClientEventModel) -> ClientActionModel {
    match e {
        ClientEventModel::Typed(t) => ClientActionModel::Send(t),
        ClientEventModel::FromServer(ReadModel::Line(l)) => ClientActionModel::Show(l),
        ClientEventModel::FromServer(_) => ClientActionModel::Stop,
        ClientEventModel::Sent(ok) => if ok {
            ClientActionModel::Wait
        } else {
            ClientActionModel::Stop
        },
    }
}

/// What the terminal client does with `e`.
pub fn client_step(e: ClientEvent) -> (a: ClientAction)
    ensures
        a@ == client_model(e@),
{
    match e {
        ClientEvent::Typed(t) => ClientAction::Send(t),
        ClientEvent::FromServer(ReadResult::Line(l)) => ClientAction::Show(l),
        ClientEvent::FromServer(_) => ClientAction::Stop,
        ClientEvent::Sent { ok } => if ok {
            ClientAction::Wait
        } else {
            ClientAction::Stop
        },
    }
}

} // verus!
