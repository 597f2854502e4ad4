//! Frames of the NULL mechanism: the READY and ERROR commands, messages and
//! separators.
use vstd::prelude::*;
use vstd::utf8::{decode_utf8, encode_utf8, encode_utf8_decode_utf8, encode_utf8_valid_utf8, valid_utf8};

use super::zmtp::{
    append_bytes, be_u32, is_big_bits, is_command_bits, lemma_u32_be_round_trip,
    lemma_u64_be_round_trip, raw_of, u64_be, header_len, declared_size, bytes_eq, copy_range, frame_wire, push_u32_be, raw_decode,
    read_u32_be, u32_be, Flags, FrameType, RawFrame, RawFrameView,
};
use crate::errors::{ParseError, ParseFailure};

verus! {

// ---------------------------------------------------------------------------
// Names and keys
// ---------------------------------------------------------------------------

/// "READY"
pub open spec fn ready_name() -> Seq<u8> {
    seq![0x52u8, 0x45u8, 0x41u8, 0x44u8, 0x59u8]
}

/// "ERROR"
pub open spec fn error_name() -> Seq<u8> {
    seq![0x45u8, 0x52u8, 0x52u8, 0x4fu8, 0x52u8]
}

/// "Socket-Type"
pub open spec fn socket_type_key() -> Seq<u8> {
    seq![0x53u8, 0x6fu8, 0x63u8, 0x6bu8, 0x65u8, 0x74u8, 0x2du8, 0x54u8, 0x79u8, 0x70u8, 0x65u8]
}

/// "Identity"
pub open spec fn identity_key() -> Seq<u8> {
    seq![0x49u8, 0x64u8, 0x65u8, 0x6eu8, 0x74u8, 0x69u8, 0x74u8, 0x79u8]
}

fn ready_name_bytes() -> (r: [u8; 5])
    ensures
        r@ == ready_name(),
{
    let r: [u8; 5] = [0x52, 0x45, 0x41, 0x44, 0x59];
    assert(r@ =~= ready_name());
    r
}

fn error_name_bytes() -> (r: [u8; 5])
    ensures
        r@ == error_name(),
{
    let r: [u8; 5] = [0x45, 0x52, 0x52, 0x4f, 0x52];
    assert(r@ =~= error_name());
    r
}

fn socket_type_key_bytes() -> (r: [u8; 11])
    ensures
        r@ == socket_type_key(),
{
    let r: [u8; 11] = [0x53, 0x6f, 0x63, 0x6b, 0x65, 0x74, 0x2d, 0x54, 0x79, 0x70, 0x65];
    assert(r@ =~= socket_type_key());
    r
}

fn identity_key_bytes() -> (r: [u8; 8])
    ensures
        r@ == identity_key(),
{
    let r: [u8; 8] = [0x49, 0x64, 0x65, 0x6e, 0x74, 0x69, 0x74, 0x79];
    assert(r@ =~= identity_key());
    r
}

// ---------------------------------------------------------------------------
// Commands and frames
// ---------------------------------------------------------------------------

/// A command of the NULL mechanism.
#[derive(Debug, PartialEq, Eq)]
pub enum Command {
    Error(String),
    Ready { socket_type: Vec<u8>, identity: Option<Vec<u8>> },
}

/// A frame exchanged once the handshake is done.
#[derive(Debug, PartialEq, Eq)]
pub enum Frame {
    Command(Command),
    Message(Vec<u8>),
    /// A zero-length message that delimits the parts of a request or reply.
    Separator,
}

/// What a command holds, as a mathematical value.
pub enum CommandView {
    Error(Seq<char>),
    Ready { socket_type: Seq<u8>, identity: Option<Seq<u8>> },
}

/// What a frame holds, as a mathematical value.
pub enum FrameView {
    Command(CommandView),
    Message(Seq<u8>),
    Separator,
}

pub open spec fn option_view(o: Option<Vec<u8>>) -> Option<Seq<u8>> {
    match o {
        Some(v) => Some(v@),
        None => None,
    }
}

impl View for Command {
    type V = CommandView;

    open spec fn view(&self) -> CommandView {
        match self {
            Command::Error(reason) => CommandView::Error(reason@),
            Command::Ready { socket_type, identity } => CommandView::Ready {
                socket_type: socket_type@,
                identity: option_view(*identity),
            },
        }
    }
}

impl View for Frame {
    type V = FrameView;

    open spec fn view(&self) -> FrameView {
        match self {
            Frame::Command(c) => FrameView::Command(c@),
            Frame::Message(m) => FrameView::Message(m@),
            Frame::Separator => FrameView::Separator,
        }
    }
}

// ---------------------------------------------------------------------------
// Encoding
// ---------------------------------------------------------------------------

/// A property: one-byte key length, key, four-byte big-endian value length,
/// value.
pub open spec fn property_bytes(key: Seq<u8>, value: Seq<u8>) -> Seq<u8> {
    seq![key.len() as u8] + key + u32_be(value.len() as u32) + value
}

/// The one-byte length that precedes the text of an ERROR command.
pub open spec fn reason_len_byte(n: nat) -> u8 {
    if n > 255 {
        255u8
    } else {
        n as u8
    }
}

/// The payload of a command frame.
pub open spec fn command_bytes(c: CommandView) -> Seq<u8> {
    match c {
        CommandView::Ready { socket_type, identity } => seq![5u8] + ready_name() + property_bytes(
            socket_type_key(),
            socket_type,
        ) + match identity {
            Some(id) => property_bytes(identity_key(), id),
            None => Seq::empty(),
        },
        CommandView::Error(reason) => seq![5u8] + error_name() + seq![
            reason_len_byte(encode_utf8(reason).len()),
        ] + encode_utf8(reason),
    }
}

/// The wire form of a frame.
pub open spec fn frame_bytes(f: FrameView) -> Seq<u8> {
    match f {
        FrameView::Command(c) => frame_wire(0b100u8, command_bytes(c)),
        FrameView::Message(m) => frame_wire(0u8, m),
        FrameView::Separator => seq![1u8, 0u8],
    }
}

fn push_property(buf: &mut Vec<u8>, key: &[u8], value: &[u8])
    requires
        key@.len() < 256,
    ensures
        final(buf)@ == old(buf)@ + property_bytes(key@, value@),
{
    buf.push(key.len() as u8);
    append_bytes(buf, key);
    push_u32_be(buf, value.len() as u32);
    append_bytes(buf, value);
    assert(final(buf)@ =~= old(buf)@ + property_bytes(key@, value@));
}

impl Command {
    /// The payload of the command's frame.
    pub fn to_vec_u8(&self) -> (r: Vec<u8>)
        ensures
            r@ == command_bytes(self@),
    {
        let mut buf: Vec<u8> = Vec::new();
        buf.push(5);
        match self {
            Command::Ready { socket_type, identity } => {
                append_bytes(&mut buf, &ready_name_bytes());
                push_property(&mut buf, &socket_type_key_bytes(), socket_type.as_slice());
                match identity {
                    Some(id) => {
                        push_property(&mut buf, &identity_key_bytes(), id.as_slice());
                    },
                    None => {},
                }
            },
            Command::Error(reason) => {
                append_bytes(&mut buf, &error_name_bytes());
                let text = reason.as_str().as_bytes();
                let n: u8 = if text.len() > 255 {
                    255
                } else {
                    text.len() as u8
                };
                buf.push(n);
                append_bytes(&mut buf, text);
            },
        }
        assert(buf@ =~= command_bytes(self@));
        buf
    }
}

impl Frame {
    /// The frame's bytes on the wire.
    pub fn to_vec_u8(&self) -> (r: Vec<u8>)
        ensures
            r@ == frame_bytes(self@),
    {
        match self {
            Frame::Command(c) => {
                let data = c.to_vec_u8();
                let flags = Flags::default().command();
                assert(0u8 | 0b100u8 == 0b100u8) by (bit_vector);
                Self::framed(flags, data.as_slice())
            },
            Frame::Message(m) => {
                let flags = Flags::default().message();
                assert(0u8 & 0b011u8 == 0u8) by (bit_vector);
                Self::framed(flags, m.as_slice())
            },
            Frame::Separator => {
                let flags = Flags::default().more();
                assert(0u8 | 0b001u8 == 1u8) by (bit_vector);
                let r = FrameType { flags, size: 0u8 }.as_bytes();
                assert(r@ =~= seq![1u8, 0u8]);
                r
            },
        }
    }

    /// A header for `data` with `flags`, then `data`.
    fn framed(flags: Flags, data: &[u8]) -> (r: Vec<u8>)
        requires
            flags.0 == 0u8 || flags.0 == 0b100u8,
        ensures
            r@ == frame_wire(flags.0, data@),
    {
        let mut buf = if data.len() < 256 {
            FrameType { flags, size: data.len() as u8 }.as_bytes()
        } else {
            FrameType { flags: flags.big(), size: data.len() as u64 }.as_bytes()
        };
        append_bytes(&mut buf, data);
        assert(buf@ =~= frame_wire(flags.0, data@));
        buf
    }
}

// ---------------------------------------------------------------------------
// Decoding
// ---------------------------------------------------------------------------

/// Reads the properties of a READY command from `pos` on, keeping the last
/// value seen of each recognised key and skipping the others; `None` where a
/// property is cut short.
pub open spec fn scan_props(
    b: Seq<u8>,
    pos: int,
    socket_type: Option<Seq<u8>>,
    identity: Option<Seq<u8>>,
) -> Option<(Option<Seq<u8>>, Option<Seq<u8>>)>
    decreases b.len() - pos,
{
    if pos >= b.len() {
        Some((socket_type, identity))
    } else {
        let klen = b[pos] as int;
        let vstart = pos + 1 + klen + 4;
        if vstart > b.len() {
            None
        } else {
            let key = b.subrange(pos + 1, pos + 1 + klen);
            let vlen = be_u32(b.subrange(pos + 1 + klen, vstart)) as int;
            let end = vstart + vlen;
            if end > b.len() {
                None
            } else {
                let value = b.subrange(vstart, end);
                scan_props(
                    b,
                    end,
                    if key == socket_type_key() {
                        Some(value)
                    } else {
                        socket_type
                    },
                    if key == identity_key() {
                        Some(value)
                    } else {
                        identity
                    },
                )
            }
        }
    }
}

/// Decodes the payload of a command frame.
pub open spec fn parse_command(b: Seq<u8>) -> Result<CommandView, ParseFailure> {
    if b.len() == 0 || b.len() < 1 + b[0] {
        Err(ParseFailure::Truncated)
    } else {
        let n = b[0] as int;
        let name = b.subrange(1, 1 + n);
        if name == error_name() {
            if b.len() < 2 + n {
                Err(ParseFailure::Truncated)
            } else {
                let text = b.subrange(2 + n, b.len() as int);
                if valid_utf8(text) {
                    Ok(CommandView::Error(decode_utf8(text)))
                } else {
                    Err(ParseFailure::InvalidReason)
                }
            }
        } else if name == ready_name() {
            match scan_props(b, 1 + n, None, None) {
                None => Err(ParseFailure::Truncated),
                Some((None, _)) => Err(ParseFailure::MissingSocketType),
                Some((Some(socket_type), identity)) => Ok(
                    CommandView::Ready { socket_type, identity },
                ),
            }
        } else {
            Err(ParseFailure::UnsupportedCommand(name))
        }
    }
}

/// The logical frame that a raw frame stands for: a command is decoded, an
/// empty message is a separator, any other message is kept as it is.
pub open spec fn project(raw: RawFrameView) -> Result<FrameView, ParseFailure> {
    match raw {
        RawFrameView::Command(b) => match parse_command(b) {
            Ok(c) => Ok(FrameView::Command(c)),
            Err(e) => Err(e),
        },
        RawFrameView::Message(m) => if m.len() == 0 {
            Ok(FrameView::Separator)
        } else {
            Ok(FrameView::Message(m))
        },
    }
}

/// Relies on `String::from_utf8`: it succeeds exactly on UTF-8 bytes, and the
/// string then holds the characters that they encode.
#[verifier::external_body]
fn utf8_string(bytes: Vec<u8>) -> (r: Option<String>)
    ensures
        r is Some <==> valid_utf8(bytes@),
        r matches Some(s) ==> s@ == decode_utf8(bytes@),
{
    String::from_utf8(bytes).ok()
}

impl Command {
    /// Decodes the payload of a command frame.
    pub fn from_bytes(b: &[u8]) -> (r: Result<Command, ParseError>)
        ensures
            match r {
                Ok(c) => parse_command(b@) == Ok::<CommandView, ParseFailure>(c@),
                Err(e) => parse_command(b@) == Err::<CommandView, ParseFailure>(e@),
            },
    {
        let len = b.len();
        if len == 0 || len < 1 + b[0] as usize {
            return Err(ParseError::Truncated);
        }
        let n = b[0] as usize;
        let name = &b[1..1 + n];
        if bytes_eq(name, &error_name_bytes()) {
            if len < 2 + n {
                return Err(ParseError::Truncated);
            }
            let text = copy_range(b, 2 + n, len);
            match utf8_string(text) {
                Some(s) => Ok(Command::Error(s)),
                None => Err(ParseError::InvalidReason),
            }
        } else if bytes_eq(name, &ready_name_bytes()) {
            let st_key = socket_type_key_bytes();
            let id_key = identity_key_bytes();
            let mut socket_type: Option<Vec<u8>> = None;
            let mut identity: Option<Vec<u8>> = None;
            let mut pos: usize = 1 + n;
            while pos < len
                invariant
                    len == b@.len(),
                    1 + n <= pos,
                    n == b@[0],
                    b@.subrange(1, 1 + n) == ready_name(),
                    st_key@ == socket_type_key(),
                    id_key@ == identity_key(),
                    scan_props(b@, pos as int, option_view(socket_type), option_view(identity))
                        == scan_props(b@, 1 + n, None, None),
                decreases len - pos,
            {
                let klen = b[pos] as usize;
                if len - pos < 1 + klen + 4 {
                    assert(scan_props(b@, pos as int, option_view(socket_type), option_view(identity)) is None);
                    return Err(ParseError::Truncated);
                }
                let kstart = pos + 1;
                let vstart = kstart + klen + 4;
                let vlen = read_u32_be(b, kstart + klen) as usize;
                if len - vstart < vlen {
                    assert(scan_props(b@, pos as int, option_view(socket_type), option_view(identity)) is None);
                    return Err(ParseError::Truncated);
                }
                let end = vstart + vlen;
                let key = &b[kstart..kstart + klen];
                let value = copy_range(b, vstart, end);
                assert(b@.subrange(kstart + klen, vstart as int) == b@.subrange(
                    pos + 1 + klen,
                    pos + 1 + klen + 4,
                ));
                if bytes_eq(key, &st_key) {
                    socket_type = Some(value);
                } else if bytes_eq(key, &id_key) {
                    identity = Some(value);
                }
                pos = end;
            }
            assert(scan_props(b@, pos as int, option_view(socket_type), option_view(identity))
                == Some((option_view(socket_type), option_view(identity))));
            match socket_type {
                Some(socket_type) => Ok(Command::Ready { socket_type, identity }),
                None => Err(ParseError::MissingSocketType),
            }
        } else {
            Err(ParseError::UnsupportedCommand(copy_range(b, 1, 1 + n)))
        }
    }
}

impl Frame {
    /// The logical frame that a raw frame stands for.
    pub fn from_raw(f: RawFrame) -> (r: Result<Frame, ParseError>)
        ensures
            match r {
                Ok(fr) => project(f@) == Ok::<FrameView, ParseFailure>(fr@),
                Err(e) => project(f@) == Err::<FrameView, ParseFailure>(e@),
            },
    {
        match f {
            RawFrame::Command(b) => match Command::from_bytes(b.as_slice()) {
                Ok(c) => Ok(Frame::Command(c)),
                Err(e) => Err(e),
            },
            RawFrame::Message(m) => {
                if m.len() == 0 {
                    Ok(Frame::Separator)
                } else {
                    Ok(Frame::Message(m))
                }
            },
        }
    }
}

impl From<Command> for Frame {
    fn from(cmd: Command) -> (r: Frame) {
        Frame::Command(cmd)
    }
}

impl vstd::std_specs::convert::FromSpecImpl<Command> for Frame {
    open spec fn obeys_from_spec() -> bool {
        true
    }

    open spec fn from_spec(cmd: Command) -> Frame {
        Frame::Command(cmd)
    }
}

impl From<Vec<u8>> for Frame {
    fn from(msg: Vec<u8>) -> (r: Frame) {
        Frame::Message(msg)
    }
}

impl vstd::std_specs::convert::FromSpecImpl<Vec<u8>> for Frame {
    open spec fn obeys_from_spec() -> bool {
        true
    }

    open spec fn from_spec(msg: Vec<u8>) -> Frame {
        Frame::Message(msg)
    }
}

impl TryFrom<RawFrame> for Frame {
    type Error = ParseError;

    /// The logical frame that a raw frame stands for, as `from_raw`.
    fn try_from(f: RawFrame) -> (r: Result<Frame, ParseError>)
        ensures
            match r {
                Ok(fr) => project(f@) == Ok::<FrameView, ParseFailure>(fr@),
                Err(e) => project(f@) == Err::<FrameView, ParseFailure>(e@),
            },
    {
        Frame::from_raw(f)
    }
}

/// What `try_from` returns is stated over views in its own `ensures`; no
/// spec value of a frame, which holds vectors, is built from a raw frame.
impl vstd::std_specs::convert::TryFromSpecImpl<RawFrame> for Frame {
    open spec fn obeys_try_from_spec() -> bool {
        false
    }

    open spec fn try_from_spec(f: RawFrame) -> Result<Frame, ParseError> {
        vstd::pervasive::arbitrary()
    }
}

// ---------------------------------------------------------------------------
// Laws
// ---------------------------------------------------------------------------

/// A frame with no flag but possibly the command bit, written by
/// `frame_wire` and followed by any bytes `rest`, decodes to exactly its
/// payload and kind and takes exactly its own bytes; the big-size bit is set
/// exactly when the payload has 256 bytes or more.
pub proof fn lemma_frame_wire_decode(flags: u8, payload: Seq<u8>, rest: Seq<u8>)
    requires
        flags == 0u8 || flags == 0b100u8,
        payload.len() <= u64::MAX,
    ensures
        raw_decode(frame_wire(flags, payload) + rest) == Some(
            (raw_of(flags, payload), frame_wire(flags, payload).len() as int),
        ),
        is_big_bits(frame_wire(flags, payload)[0]) <==> payload.len() >= 256,
{
    let f = frame_wire(flags, payload);
    let w = f + rest;
    assert(0u8 & 0b010u8 == 0u8 && 0b100u8 & 0b010u8 == 0u8) by (bit_vector);
    assert((0u8 | 0b010u8) & 0b010u8 != 0u8 && (0b100u8 | 0b010u8) & 0b010u8 != 0u8)
        by (bit_vector);
    assert((0u8 | 0b010u8) & 0b100u8 == 0u8 && (0b100u8 | 0b010u8) & 0b100u8 != 0u8)
        by (bit_vector);
    assert(0u8 & 0b100u8 == 0u8 && 0b100u8 & 0b100u8 != 0u8) by (bit_vector);
    assert(w[0] == f[0]);
    assert(is_command_bits(w[0]) == is_command_bits(flags)) by {
        if payload.len() >= 256 {
            assert(f[0] == flags | 0b010u8);
        } else {
            assert(f[0] == flags);
        }
    }
    if payload.len() < 256 {
        assert(w[1] == f[1]);
        assert(f[1] as int == payload.len());
        assert(header_len(w) == 2 && declared_size(w) == payload.len());
        assert(w.subrange(2, f.len() as int) =~= payload);
    } else {
        let n = payload.len() as u64;
        lemma_u64_be_round_trip(n);
        assert(w.subrange(1, 9) =~= u64_be(n));
        assert(header_len(w) == 9 && declared_size(w) == payload.len());
        assert(w.subrange(9, f.len() as int) =~= payload);
    }
}

/// Decoding the payload of a READY command gives it back, when its values fit
/// their four-byte length fields.
pub proof fn lemma_parse_ready_bytes(socket_type: Seq<u8>, identity: Option<Seq<u8>>)
    requires
        socket_type.len() <= u32::MAX,
        identity matches Some(id) ==> id.len() <= u32::MAX,
    ensures
        parse_command(command_bytes(CommandView::Ready { socket_type, identity })) == Ok::<
            CommandView,
            ParseFailure,
        >(CommandView::Ready { socket_type, identity }),
{
    let b = command_bytes(CommandView::Ready { socket_type, identity });
    assert(b[0] == 5u8);
    assert(error_name()[1] != ready_name()[1]);
    assert(b.subrange(1, 6) =~= ready_name());
    let st_len = socket_type.len() as u32;
    lemma_u32_be_round_trip(st_len);
    let end: int = 22 + socket_type.len() as int;
    assert(b[6] == 11u8);
    assert(b.subrange(7, 18) =~= socket_type_key());
    assert(b.subrange(18, 22) =~= u32_be(st_len));
    assert(b.subrange(22, end) =~= socket_type);
    assert(socket_type_key() != identity_key()) by {
        assert(socket_type_key().len() != identity_key().len());
    }
    match identity {
        None => {
            assert(b.len() == end);
            assert(scan_props(b, end, Some(socket_type), None) == Some(
                (Some(socket_type), None::<Seq<u8>>),
            ));
        },
        Some(id) => {
            let id_len = id.len() as u32;
            lemma_u32_be_round_trip(id_len);
            let end2: int = end + 13 + id.len() as int;
            assert(b.len() == end2);
            assert(b[end] == 8u8);
            assert(b.subrange(end + 1, end + 9) =~= identity_key());
            assert(b.subrange(end + 9, end + 13) =~= u32_be(id_len));
            assert(b.subrange(end + 13, end2) =~= id);
            assert(scan_props(b, end2, Some(socket_type), Some(id)) == Some(
                (Some(socket_type), Some(id)),
            ));
            assert(scan_props(b, end, Some(socket_type), None) == Some(
                (Some(socket_type), Some(id)),
            ));
        },
    }
    assert(scan_props(b, 6, None, None) == scan_props(b, end, Some(socket_type), None));
}

/// Decoding the payload of an ERROR command gives its text back.
pub proof fn lemma_parse_error_bytes(reason: Seq<char>)
    ensures
        parse_command(command_bytes(CommandView::Error(reason))) == Ok::<
            CommandView,
            ParseFailure,
        >(CommandView::Error(reason)),
{
    let b = command_bytes(CommandView::Error(reason));
    assert(b[0] == 5u8);
    assert(b.subrange(1, 6) =~= error_name());
    assert(b.subrange(7, b.len() as int) =~= encode_utf8(reason));
    encode_utf8_valid_utf8(reason);
    encode_utf8_decode_utf8(reason);
}

/// Round trip of commands: for every command whose values fit their length
/// fields, decoding the bytes of its frame gives a command frame over its
/// payload, and projecting that raw frame gives the command back.
pub proof fn lemma_command_round_trip(c: CommandView)
    requires
        c matches CommandView::Ready { socket_type, identity } ==> {
            &&& socket_type.len() <= u32::MAX
            &&& identity matches Some(id) ==> id.len() <= u32::MAX
        },
        command_bytes(c).len() <= u64::MAX,
    ensures
        raw_decode(frame_bytes(FrameView::Command(c))) == Some(
            (
                RawFrameView::Command(command_bytes(c)),
                frame_bytes(FrameView::Command(c)).len() as int,
            ),
        ),
        project(RawFrameView::Command(command_bytes(c))) == Ok::<FrameView, ParseFailure>(
            FrameView::Command(c),
        ),
{
    assert(0b100u8 & 0b100u8 != 0u8) by (bit_vector);
    lemma_frame_wire_decode(0b100u8, command_bytes(c), Seq::empty());
    assert(frame_bytes(FrameView::Command(c)) + Seq::<u8>::empty() =~= frame_bytes(FrameView::Command(c)));
    match c {
        CommandView::Ready { socket_type, identity } => lemma_parse_ready_bytes(
            socket_type,
            identity,
        ),
        CommandView::Error(reason) => lemma_parse_error_bytes(reason),
    }
}

/// Messages and the size threshold: the bytes of a message frame decode to
/// the very same payload; the one-byte size is used below 256 bytes and the
/// eight-byte size from 256 bytes on; a non-empty message stays a message.
pub proof fn lemma_message_round_trip(m: Seq<u8>)
    requires
        m.len() <= u64::MAX,
    ensures
        raw_decode(frame_bytes(FrameView::Message(m))) == Some(
            (RawFrameView::Message(m), frame_bytes(FrameView::Message(m)).len() as int),
        ),
        is_big_bits(frame_bytes(FrameView::Message(m))[0]) <==> m.len() >= 256,
        m.len() > 0 ==> project(RawFrameView::Message(m)) == Ok::<FrameView, ParseFailure>(
            FrameView::Message(m),
        ),
{
    assert(0u8 & 0b100u8 == 0u8) by (bit_vector);
    lemma_frame_wire_decode(0u8, m, Seq::empty());
    assert(frame_bytes(FrameView::Message(m)) + Seq::<u8>::empty() =~= frame_bytes(FrameView::Message(m)));
}

/// Separators: an empty message and the separator both encode to a frame
/// that decodes to an empty message, which projects to the separator and
/// never to an empty message.
pub proof fn lemma_separator_round_trip()
    ensures
        raw_decode(frame_bytes(FrameView::Message(Seq::empty()))) == Some(
            (RawFrameView::Message(Seq::empty()), 2int),
        ),
        raw_decode(frame_bytes(FrameView::Separator)) == Some(
            (RawFrameView::Message(Seq::empty()), 2int),
        ),
        project(RawFrameView::Message(Seq::empty())) == Ok::<FrameView, ParseFailure>(
            FrameView::Separator,
        ),
{
    assert(0u8 & 0b100u8 == 0u8) by (bit_vector);
    assert(1u8 & 0b100u8 == 0u8 && 1u8 & 0b010u8 == 0u8) by (bit_vector);
    lemma_frame_wire_decode(0u8, Seq::empty(), Seq::empty());
    assert(frame_bytes(FrameView::Message(Seq::empty())) + Seq::<u8>::empty() =~= frame_bytes(FrameView::Message(Seq::empty())));
    let s = frame_bytes(FrameView::Separator);
    assert(s.subrange(2, 2) =~= Seq::<u8>::empty());
}

/// Commands in a stream: the bytes of a command's frame, followed by any
/// other bytes, decode to a command frame that takes exactly the frame's own
/// bytes, and projecting it gives the command back; for every command whose
/// values fit their four-byte length fields.
pub proof fn lemma_command_frame_in_stream(c: CommandView, rest: Seq<u8>)
    requires
        c matches CommandView::Ready { socket_type, identity } ==> {
            &&& socket_type.len() <= u32::MAX
            &&& identity matches Some(id) ==> id.len() <= u32::MAX
        },
        command_bytes(c).len() <= u64::MAX,
    ensures
        raw_decode(frame_bytes(FrameView::Command(c)) + rest) == Some(
            (
                RawFrameView::Command(command_bytes(c)),
                frame_bytes(FrameView::Command(c)).len() as int,
            ),
        ),
        project(RawFrameView::Command(command_bytes(c))) == Ok::<FrameView, ParseFailure>(
            FrameView::Command(c),
        ),
{
    assert(0b100u8 & 0b100u8 != 0u8) by (bit_vector);
    lemma_frame_wire_decode(0b100u8, command_bytes(c), rest);
    lemma_command_round_trip(c);
}

} // verus!
