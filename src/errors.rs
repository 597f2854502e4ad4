//! The errors of the transport.
use vstd::prelude::*;

verus! {

/// Every error that an operation of the transport may end in.
#[derive(Debug, PartialEq, Eq)]
pub enum Error {
    /// Network or socket connection errors.
    Connection(ConnectionError),
    /// An error parsing a frame.
    Parse(ParseError),
}

/// Errors of the connection and of the handshake.
#[derive(Debug, PartialEq, Eq)]
pub enum ConnectionError {
    /// The transport could not reach `(host, port)`.
    UnaccessibleHost(String, u16),
    /// The peer's greeting does not announce a compatible protocol version.
    VersionMismatch(),
    /// The peer's security mechanism is not the one required.
    MechanismMismatch(),
    /// A read or write of the transport failed, a frame was cut short or the
    /// stream ended early.
    IOError(String),
}

/// Errors in the content of a frame.
#[derive(Debug, PartialEq, Eq)]
pub enum ParseError {
    /// A command frame names a command that this protocol does not know.
    UnsupportedCommand(Vec<u8>),
    /// A READY command lacks its Socket-Type property.
    MissingSocketType,
    /// A command frame ends inside a length-prefixed field.
    Truncated,
    /// The text of an ERROR command is not UTF-8.
    InvalidReason,
    /// The peer sent a frame that the request/response pattern does not allow
    /// at this point.
    UnexpectedFrame,
}

/// What a `ParseError` says, as a mathematical value.
pub enum ParseFailure {
    UnsupportedCommand(Seq<u8>),
    MissingSocketType,
    Truncated,
    InvalidReason,
    UnexpectedFrame,
}

impl View for ParseError {
    type V = ParseFailure;

    open spec fn view(&self) -> ParseFailure {
        match self {
            ParseError::UnsupportedCommand(name) => ParseFailure::UnsupportedCommand(name@),
            ParseError::MissingSocketType => ParseFailure::MissingSocketType,
            ParseError::Truncated => ParseFailure::Truncated,
            ParseError::InvalidReason => ParseFailure::InvalidReason,
            ParseError::UnexpectedFrame => ParseFailure::UnexpectedFrame,
        }
    }
}

impl From<ConnectionError> for Error {
    fn from(e: ConnectionError) -> (r: Error) {
        Error::Connection(e)
    }
}

impl vstd::std_specs::convert::FromSpecImpl<ConnectionError> for Error {
    open spec fn obeys_from_spec() -> bool {
        true
    }

    open spec fn from_spec(e: ConnectionError) -> Error {
        Error::Connection(e)
    }
}

impl From<ParseError> for Error {
    fn from(e: ParseError) -> (r: Error) {
        Error::Parse(e)
    }
}

impl vstd::std_specs::convert::FromSpecImpl<ParseError> for Error {
    open spec fn obeys_from_spec() -> bool {
        true
    }

    open spec fn from_spec(e: ParseError) -> Error {
        Error::Parse(e)
    }
}

} // verus!
