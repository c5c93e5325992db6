use vstd::prelude::*;

verus! {

/// The ways in which an operation of this library can fail.
#[derive(Debug, Clone, PartialEq, Eq)]
pub enum Error {
    /// Malformed or unsupported address; the text says what was wrong.
    Address(String),
    /// Authentication failed.
    Handshake(String),
    /// The transport failed; the text names the condition.
    InputOutput(String),
    /// The transport ended before a message was complete. This is an
    /// input/output error too.
    UnexpectedEof,
    /// The first byte of a message is neither `l` nor `B`.
    IncorrectEndian,
    /// A message is longer than the protocol allows.
    ExcessData,
    /// A header field is malformed, of the wrong type, or appears twice.
    InvalidField,
    /// A header field that the message type requires is absent.
    MissingField,
    /// The protocol version of a message is not 1.
    UnknownProtocol,
    /// The connection has terminated.
    Disconnected,
    /// The peer answered a call with an error reply.
    MethodError(String, String),
    /// A requested bus name is already owned.
    NameTaken,
    /// A reply did not have the expected shape.
    InvalidReply,
}

/// The kind of an [`Error`], without what it carries.
#[derive(Debug, Clone, Copy, PartialEq, Eq, Structural)]
pub enum ErrorKind {
    /// Malformed or unsupported address.
    Address,
    /// Authentication failed.
    Handshake,
    /// The transport failed or ended early.
    InputOutput,
    /// Bad endian signature byte.
    IncorrectEndian,
    /// Message length exceeds the cap.
    ExcessData,
    /// Header field malformed, of the wrong type, or repeated.
    InvalidField,
    /// Required header field absent for the message type.
    MissingField,
    /// Protocol version other than 1.
    UnknownProtocol,
    /// Connection terminated.
    Disconnected,
    /// Bus-reported error reply.
    MethodError,
    /// Requested bus name already owned.
    NameTaken,
    /// Reply of an unexpected shape.
    InvalidReply,
}

impl Error {
    /// The kind of this error.
    pub open spec fn spec_kind(&self) -> ErrorKind {
        match self {
            Error::Address(_) => ErrorKind::Address,
            Error::Handshake(_) => ErrorKind::Handshake,
            Error::InputOutput(_) => ErrorKind::InputOutput,
            Error::UnexpectedEof => ErrorKind::InputOutput,
            Error::IncorrectEndian => ErrorKind::IncorrectEndian,
            Error::ExcessData => ErrorKind::ExcessData,
            Error::InvalidField => ErrorKind::InvalidField,
            Error::MissingField => ErrorKind::MissingField,
            Error::UnknownProtocol => ErrorKind::UnknownProtocol,
            Error::Disconnected => ErrorKind::Disconnected,
            Error::MethodError(_, _) => ErrorKind::MethodError,
            Error::NameTaken => ErrorKind::NameTaken,
            Error::InvalidReply => ErrorKind::InvalidReply,
        }
    }

    /// The kind of this error.
    #[verifier::when_used_as_spec(spec_kind)]
    pub fn kind(&self) -> (k: ErrorKind)
        ensures
            k == self.spec_kind(),
    {
        match self {
            Error::Address(_) => ErrorKind::Address,
            Error::Handshake(_) => ErrorKind::Handshake,
            Error::InputOutput(_) => ErrorKind::InputOutput,
            Error::UnexpectedEof => ErrorKind::InputOutput,
            Error::IncorrectEndian => ErrorKind::IncorrectEndian,
            Error::ExcessData => ErrorKind::ExcessData,
            Error::InvalidField => ErrorKind::InvalidField,
            Error::MissingField => ErrorKind::MissingField,
            Error::UnknownProtocol => ErrorKind::UnknownProtocol,
            Error::Disconnected => ErrorKind::Disconnected,
            Error::MethodError(_, _) => ErrorKind::MethodError,
            Error::NameTaken => ErrorKind::NameTaken,
            Error::InvalidReply => ErrorKind::InvalidReply,
        }
    }
}

} // verus!
