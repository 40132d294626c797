//! The receiving side of an SMTP server: line framing, the command parser,
//! the session state machine with its replies, and the header functions that
//! policy scripts call on a received message.

pub mod api;
pub mod cli;
pub mod command;
pub mod framing;
pub mod laws;
pub mod message;
pub mod object;
pub mod params;
pub mod receiver;
pub mod reply;
