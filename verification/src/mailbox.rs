use vstd::prelude::*;

use tokio::sync::mpsc::error::TrySendError;
use tokio::sync::mpsc::Sender;

verus! {

#[verifier::external_type_specification]
#[verifier::external_body]
#[verifier::reject_recursive_types(T)]
pub struct ExMpscSender<T>(Sender<T>);

/// What became of one attempt to put a message into a mailbox.
pub enum SendOutcome {
    /// The message is in the mailbox.
    Delivered,
    /// The mailbox was full; the message was dropped.
    Full,
    /// The mailbox's reader is gone; the message was dropped.
    Closed,
}

/// Puts `text` into `mailbox` without waiting (`tokio::sync::mpsc::Sender::try_send`).
/// Nothing is stated of the outcome: it depends on how full the mailbox is at that moment
/// and on whether its reader still exists.
#[verifier::external_body]
fn try_send_text(mailbox: &Sender<String>, text: String) -> (r: SendOutcome) {
    match mailbox.try_send(text) {
        Ok(()) => SendOutcome::Delivered,
        Err(TrySendError::Full(_)) => SendOutcome::Full,
        Err(TrySendError::Closed(_)) => SendOutcome::Closed,
    }
}

/// The sending end of a connection's mailbox, with (for proofs) the texts handed to it so
/// far, in order. A text is handed over only through `try_send`, which adds it to the log.
pub struct Mailbox {
    sender: Sender<String>,
    log: Ghost<Seq<Seq<char>>>,
}

impl Mailbox {
    /// The channel this mailbox sends on.
    pub closed spec fn sender(self) -> Sender<String> {
        self.sender
    }

    /// The texts handed to this mailbox so far, in order, whatever became of each.
    pub closed spec fn log(self) -> Seq<Seq<char>> {
        self.log@
    }

    /// This mailbox after one more text is handed to it.
    pub closed spec fn after_send(self, t: Seq<char>) -> Mailbox {
        Mailbox { sender: self.sender, log: Ghost(self.log@.push(t)) }
    }

    /// Handing a text over keeps the channel and adds the text at the end of the log.
    pub proof fn lemma_after_send(self, t: Seq<char>)
        ensures
            self.after_send(t).sender() == self.sender(),
            self.after_send(t).log() == self.log().push(t),
    {
    }

    /// A mailbox on `sender` to which nothing has been handed yet.
    pub fn new(sender: Sender<String>) -> (m: Mailbox)
        ensures
            m.sender() == sender,
            m.log() == Seq::<Seq<char>>::empty(),
    {
        Mailbox { sender, log: Ghost(Seq::empty()) }
    }

    /// Hands `text` to the mailbox without waiting; a full or closed mailbox drops it.
    pub fn try_send(&mut self, text: String) -> (o: SendOutcome)
        ensures
            *final(self) == old(self).after_send(text@),
    {
        let ghost t = text@;
        let o = try_send_text(&self.sender, text);
        self.log = Ghost(self.log@.push(t));
        o
    }
}

} // verus!
