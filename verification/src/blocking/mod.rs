//! The blocking facade: the same streams, for callers that wait.

pub mod message_iterator;

pub use message_iterator::MessageIterator;
