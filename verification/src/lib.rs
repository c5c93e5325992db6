//! Core of a D-Bus client: message framing and header codec, address parsing,
//! and the state machines of a framed connection and its multiplexer.
//!
//! Everything here is pure logic over plain values. Sockets, tasks and the
//! authentication handshake live outside and drive these state machines.

pub mod error;
pub mod utils;
pub mod byte_order;
pub mod message;
pub mod names;
pub mod connection;
pub mod address;
pub mod match_rule;
pub mod message_stream;
pub mod blocking;
pub mod ser;

pub use error::Error;
pub use byte_order::ByteOrder;
pub use message::header::EndianSig;
