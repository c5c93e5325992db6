//! The state machines of a connection: framing on the raw byte stream, and
//! the multiplexer above it.

pub mod raw;
pub mod mux;
