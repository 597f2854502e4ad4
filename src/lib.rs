//! A client for a ZMTP-style message transport: wire codecs, the handshake
//! state machine and the request/response pattern.
use vstd::prelude::*;

pub mod errors;
pub mod packets;
pub mod sockets;

pub use errors::Error;

verus! {

/// Returned by every operation of the transport that may fail.
pub type Result<T> = core::result::Result<T, errors::Error>;

} // verus!
