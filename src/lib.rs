//! A client engine for the SignalR hub protocol over a text transport: the
//! handshake, framing and decoding of hub messages, correlation of
//! invocations with their completions, and dispatch of server invocations
//! to registered handlers. The engine performs no I/O: it takes the text
//! that arrives and returns the frames to send and the events to deliver.
use vstd::prelude::*;

pub mod counter;
pub mod json;
pub mod frame;
pub mod text;
pub mod message;
pub mod dispatch;
pub mod handshake;
pub mod connection;
pub mod client;

verus! {

} // verus!
