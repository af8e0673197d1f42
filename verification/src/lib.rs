//! An RPC message protocol core: wire framing, a typed header codec, and the
//! client- and server-side broker state machines that multiplex many
//! concurrent, cancelable, timed calls over one duplex byte stream.
//!
//! All I/O stays outside this crate: the codec halves work on byte buffers,
//! and the brokers are transition functions from events to actions, so that a
//! runtime of any kind can pump bytes and timers around them.

pub mod client;
pub mod codec;
pub mod endian;
pub mod error;
pub mod frame;
pub mod message;
pub mod protocol;
pub mod registry;
pub mod server;
