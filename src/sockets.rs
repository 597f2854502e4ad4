//! The handshake as a sequence of phases, each consumed by the step that
//! leads to the next, and the request/response pattern on top of it.
//!
//! The phases hold the protocol's state and decide each step; the caller owns
//! the byte stream, writes what a phase hands out and hands back what it read.
use vstd::prelude::*;

use crate::errors::{ConnectionError, Error, ParseError};
use crate::packets::null::{frame_bytes, Command, CommandView, Frame, FrameView};
use crate::packets::zmtp::{default_greeting_bytes, valid_prefix, Greeting, Mechanism, Version};

verus! {

/// "REQ", the socket type of this client.
pub open spec fn req_socket_type() -> Seq<u8> {
    seq![0x52u8, 0x45u8, 0x51u8]
}

/// The frame that announces this client once the handshake is done.
pub open spec fn ready_frame() -> FrameView {
    FrameView::Command(CommandView::Ready { socket_type: req_socket_type(), identity: None })
}

/// Before the transport is open.
pub struct Root;

/// The transport is open; nothing has been exchanged yet.
pub struct Connected {
    greeting: Greeting,
}

/// The peer's signature and version were accepted.
pub struct Versioned {
    greeting: Greeting,
}

/// The peer's security mechanism was accepted.
pub struct AgreedMechanism {
    greeting: Greeting,
}

impl Connected {
    /// The bytes of the greeting that this side sends.
    pub closed spec fn greeting_bytes(&self) -> Seq<u8> {
        self.greeting.spec_bytes()
    }
}

impl Versioned {
    /// The bytes of the greeting that this side sends.
    pub closed spec fn greeting_bytes(&self) -> Seq<u8> {
        self.greeting.spec_bytes()
    }
}

impl Root {
    /// The outcome of opening the transport to `(host, port)`: the connected
    /// phase, with the greeting for version 3.0 and the NULL mechanism, when
    /// it opened; else the host and port that could not be reached.
    pub fn connect(host: &str, port: u16, opened: bool) -> (r: Result<Connected, ConnectionError>)
        ensures
            r is Ok <==> opened,
            r matches Ok(c) ==> c.greeting_bytes() == default_greeting_bytes(),
            r matches Err(e) ==> e matches ConnectionError::UnaccessibleHost(h, p) && h@ == host@
                && p == port,
    {
        if opened {
            Ok(Connected { greeting: Greeting::new() })
        } else {
            Err(ConnectionError::UnaccessibleHost(host.to_owned(), port))
        }
    }
}

impl Connected {
    /// The first eleven bytes of this side's greeting: signature and major
    /// version, sent while the peer's are read.
    pub fn greeting_head(&self) -> (r: Vec<u8>)
        ensures
            r@ == self.greeting_bytes().subrange(0, 11),
    {
        let all = self.greeting.as_bytes();
        let mut r: Vec<u8> = Vec::new();
        let mut i: usize = 0;
        while i < 11
            invariant
                i <= 11,
                all@ == self.greeting_bytes(),
                all@.len() == 64,
                r@ == all@.subrange(0, i as int),
            decreases 11 - i,
        {
            r.push(all[i]);
            i = i + 1;
            assert(r@ =~= all@.subrange(0, i as int));
        }
        r
    }

    /// Agrees on the version from the first eleven bytes of the peer's
    /// greeting. Only version 3.0 is spoken here.
    pub fn version(self, major: u8, minor: u8, remote: &[u8]) -> (r: Result<
        Versioned,
        ConnectionError,
    >)
        requires
            remote@.len() == 11,
        ensures
            r is Ok <==> major == 3 && minor == 0 && valid_prefix(remote@),
            r matches Ok(v) ==> v.greeting_bytes() == self.greeting_bytes(),
            r matches Err(e) ==> e is VersionMismatch,
    {
        if major != 3 || minor != 0 {
            return Err(ConnectionError::VersionMismatch());
        }
        match Greeting::check_prefix(remote) {
            Ok(()) => Ok(Versioned { greeting: self.greeting }),
            Err(e) => Err(e),
        }
    }
}

impl Versioned {
    /// The last 53 bytes of this side's greeting, sent while the peer's are
    /// read.
    pub fn greeting_tail(&self) -> (r: Vec<u8>)
        ensures
            r@ == self.greeting_bytes().subrange(11, 64),
    {
        let all = self.greeting.as_bytes();
        let mut r: Vec<u8> = Vec::new();
        let mut i: usize = 11;
        while i < 64
            invariant
                11 <= i <= 64,
                all@ == self.greeting_bytes(),
                all@.len() == 64,
                r@ == all@.subrange(11, i as int),
            decreases 64 - i,
        {
            r.push(all[i]);
            i = i + 1;
            assert(r@ =~= all@.subrange(11, i as int));
        }
        r
    }

    /// Agrees on the mechanism from the last 53 bytes of the peer's greeting:
    /// a reserved byte, the 20-byte mechanism, then the rest. Only the very
    /// mechanism `m` is accepted; any other fails and goes no further.
    pub fn mechanism(self, m: Mechanism, remote: &[u8]) -> (r: Result<
        AgreedMechanism,
        ConnectionError,
    >)
        requires
            remote@.len() == 53,
        ensures
            r is Ok <==> remote@.subrange(1, 21) == m.0@,
            r matches Err(e) ==> e is MechanismMismatch,
    {
        let announced = &remote[1..21];
        match m.negotiate(announced) {
            Ok(()) => Ok(AgreedMechanism { greeting: self.greeting }),
            Err(e) => Err(e),
        }
    }
}

impl AgreedMechanism {
    /// Ends the handshake: the socket, ready for requests, and the bytes of
    /// the READY command (socket type "REQ", no identity) to send.
    pub fn ready(self) -> (r: (Zmtp, Vec<u8>))
        ensures
            r.0.exchange() == Exchange::Idle,
            r.1@ == frame_bytes(ready_frame()),
    {
        let socket_type: Vec<u8> = vec![0x52, 0x45, 0x51];
        assert(socket_type@ =~= req_socket_type());
        let frame = Frame::Command(Command::Ready { socket_type, identity: None });
        (Zmtp { exchange: Exchange::Idle }, frame.to_vec_u8())
    }
}

/// Where a request/response exchange stands.
#[derive(Debug, Clone, Copy, PartialEq, Eq, Structural)]
pub enum Exchange {
    /// No request is pending.
    Idle,
    /// A request was sent; the separator that starts the reply is due.
    AwaitingSeparator,
    /// The separator came; the reply frame is due.
    AwaitingReply,
}

/// A socket after the handshake, speaking the request/response pattern:
/// each request goes out behind a separator, and each reply must come back
/// as a separator followed by exactly one frame.
pub struct Zmtp {
    exchange: Exchange,
}

/// The error for a stream that ended before the reply.
fn end_of_stream() -> (r: Error)
    ensures
        r matches Error::Connection(ConnectionError::IOError(_)),
{
    Error::Connection(ConnectionError::IOError("remote doesn't answer to the request".to_owned()))
}

impl Zmtp {
    pub closed spec fn exchange(&self) -> Exchange {
        self.exchange
    }

    /// Where the current exchange stands.
    pub fn state(&self) -> (r: Exchange)
        ensures
            r == self.exchange(),
    {
        self.exchange
    }

    /// The protocol version in use: always 3.0.
    pub fn version(&self) -> (r: Version)
        ensures
            r == (Version { major: 3, minor: 0 }),
    {
        Version { major: 3, minor: 0 }
    }

    /// Starts a request: the bytes to send, a separator then `frame`. Any
    /// exchange not finished is given up.
    pub fn request(&mut self, frame: &Frame) -> (r: Vec<u8>)
        ensures
            r@ == frame_bytes(FrameView::Separator) + frame_bytes(frame@),
            final(self).exchange() == Exchange::AwaitingSeparator,
    {
        let mut r = Frame::Separator.to_vec_u8();
        let body = frame.to_vec_u8();
        crate::packets::zmtp::append_bytes(&mut r, body.as_slice());
        self.exchange = Exchange::AwaitingSeparator;
        r
    }

    /// Takes the next frame that the peer sent, or `None` where its stream
    /// ended. Returns the reply once it is complete, `Ok(None)` while it is
    /// not; a stream that ends early, or a frame out of place, ends the
    /// exchange with an error.
    pub fn receive(&mut self, frame: Option<Frame>) -> (r: Result<Option<Frame>, Error>)
        ensures
            match (old(self).exchange(), frame) {
                (Exchange::AwaitingSeparator, Some(Frame::Separator)) => r == Ok::<
                    Option<Frame>,
                    Error,
                >(None) && final(self).exchange() == Exchange::AwaitingReply,
                (Exchange::AwaitingReply, Some(f)) => r == Ok::<Option<Frame>, Error>(Some(f))
                    && final(self).exchange() == Exchange::Idle,
                (_, None) => r matches Err(Error::Connection(ConnectionError::IOError(_)))
                    && final(self).exchange() == Exchange::Idle,
                (_, Some(_)) => r == Err::<Option<Frame>, Error>(
                    Error::Parse(ParseError::UnexpectedFrame),
                ) && final(self).exchange() == Exchange::Idle,
            },
    {
        match frame {
            None => {
                self.exchange = Exchange::Idle;
                Err(end_of_stream())
            },
            Some(f) => match self.exchange {
                Exchange::AwaitingSeparator => match f {
                    Frame::Separator => {
                        self.exchange = Exchange::AwaitingReply;
                        Ok(None)
                    },
                    _ => {
                        self.exchange = Exchange::Idle;
                        Err(Error::Parse(ParseError::UnexpectedFrame))
                    },
                },
                Exchange::AwaitingReply => {
                    self.exchange = Exchange::Idle;
                    Ok(Some(f))
                },
                Exchange::Idle => Err(Error::Parse(ParseError::UnexpectedFrame)),
            },
        }
    }
}

} // verus!
