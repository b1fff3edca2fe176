//! Verified core of a small line-oriented chat server and its load tools.

pub mod text;
pub mod command;
pub mod mailbox;
pub mod router;
pub mod session;
pub mod probe;
pub mod cli;
pub mod bench;
pub mod slots;
pub mod relay;
pub mod client;
