//! Client-side SDK for a plugin process that attaches to the Ardeck studio
//! host over a local WebSocket connection.
//!
//! The crate holds the verified core of the protocol client: the typed
//! message envelope and its wire codec, the handler registry that routes
//! inbound events to caller-registered handlers, and the connection
//! lifecycle state machine.  All socket and file I/O lives outside the
//! library and hands plain values in and out.

pub mod client;
pub mod codec;
pub mod logs;
pub mod messages;
pub mod registry;
pub mod wire;
