//! Session logic of a small wireless-to-cellular HTTP gateway.
//!
//! The device accepts plain HTTP requests on a local network and fulfils
//! them over a cellular modem that is driven by AT commands on a serial
//! line. This crate holds the decisions of that gateway: how a client
//! request is read and parsed, how the modem dialogue proceeds step by step,
//! how concurrent clients are serialised onto the single modem, how the
//! upstream content is recovered from the raw serial capture, and how the
//! reply is framed. The transports themselves (sockets, the serial port,
//! timers) are driven by the caller, which performs the actions that the
//! state machines here hand out and reports back what happened.
pub mod coordinator;
pub mod decimal;
pub mod engine;
pub mod extract;
pub mod format;
pub mod frontend;
pub mod message;
pub mod parser;
pub mod search;
pub mod text;
