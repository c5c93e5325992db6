//! D-Bus messages: the fixed header, the header fields and the whole frame.

pub mod header;
pub mod fields;
pub mod codec;
pub mod body;

pub use codec::{Message, MessageView};
pub use fields::{Field, FieldCode, Fields};
pub use header::{EndianSig, Flags, FlagSet, Header, PrimaryHeader, Type};
