//! Fixed-layout wire primitives: the flags byte, frame headers, raw frames
//! and the 64-byte greeting.
use vstd::prelude::*;

use crate::errors::ConnectionError;

verus! {

// ---------------------------------------------------------------------------
// Big-endian integers
// ---------------------------------------------------------------------------

/// The eight big-endian bytes of `v`.
pub open spec fn u64_be(v: u64) -> Seq<u8> {
    seq![
        (v >> 56u64) as u8,
        (v >> 48u64) as u8,
        (v >> 40u64) as u8,
        (v >> 32u64) as u8,
        (v >> 24u64) as u8,
        (v >> 16u64) as u8,
        (v >> 8u64) as u8,
        v as u8,
    ]
}

/// The value of the first eight bytes of `b`, read big-endian.
pub open spec fn be_u64(b: Seq<u8>) -> u64 {
    (b[0] as u64) << 56u64 | (b[1] as u64) << 48u64 | (b[2] as u64) << 40u64 | (b[3] as u64)
        << 32u64 | (b[4] as u64) << 24u64 | (b[5] as u64) << 16u64 | (b[6] as u64) << 8u64
        | (b[7] as u64)
}

/// The four big-endian bytes of `v`.
pub open spec fn u32_be(v: u32) -> Seq<u8> {
    seq![(v >> 24u32) as u8, (v >> 16u32) as u8, (v >> 8u32) as u8, v as u8]
}

/// The value of the first four bytes of `b`, read big-endian.
pub open spec fn be_u32(b: Seq<u8>) -> u32 {
    (b[0] as u32) << 24u32 | (b[1] as u32) << 16u32 | (b[2] as u32) << 8u32 | (b[3] as u32)
}

pub proof fn lemma_u64_be_round_trip(v: u64)
    ensures
        u64_be(v).len() == 8,
        be_u64(u64_be(v)) == v,
{
    let b = u64_be(v);
    assert(b[0] == (v >> 56u64) as u8 && b[7] == v as u8);
    assert((((v >> 56u64) as u8) as u64) << 56u64 | (((v >> 48u64) as u8) as u64) << 48u64 | (((v
        >> 40u64) as u8) as u64) << 40u64 | (((v >> 32u64) as u8) as u64) << 32u64 | (((v
        >> 24u64) as u8) as u64) << 24u64 | (((v >> 16u64) as u8) as u64) << 16u64 | (((v
        >> 8u64) as u8) as u64) << 8u64 | ((v as u8) as u64) == v) by (bit_vector);
}

pub proof fn lemma_u32_be_round_trip(v: u32)
    ensures
        u32_be(v).len() == 4,
        be_u32(u32_be(v)) == v,
{
    let b = u32_be(v);
    assert(b[0] == (v >> 24u32) as u8 && b[3] == v as u8);
    assert((((v >> 24u32) as u8) as u32) << 24u32 | (((v >> 16u32) as u8) as u32) << 16u32 | (((v
        >> 8u32) as u8) as u32) << 8u32 | ((v as u8) as u32) == v) by (bit_vector);
}

/// Appends the eight big-endian bytes of `v`.
pub fn push_u64_be(buf: &mut Vec<u8>, v: u64)
    ensures
        final(buf)@ == old(buf)@ + u64_be(v),
{
    buf.push((v >> 56u64) as u8);
    buf.push((v >> 48u64) as u8);
    buf.push((v >> 40u64) as u8);
    buf.push((v >> 32u64) as u8);
    buf.push((v >> 24u64) as u8);
    buf.push((v >> 16u64) as u8);
    buf.push((v >> 8u64) as u8);
    buf.push(v as u8);
    assert(final(buf)@ =~= old(buf)@ + u64_be(v));
}

/// Appends the four big-endian bytes of `v`.
pub fn push_u32_be(buf: &mut Vec<u8>, v: u32)
    ensures
        final(buf)@ == old(buf)@ + u32_be(v),
{
    buf.push((v >> 24u32) as u8);
    buf.push((v >> 16u32) as u8);
    buf.push((v >> 8u32) as u8);
    buf.push(v as u8);
    assert(final(buf)@ =~= old(buf)@ + u32_be(v));
}

/// Reads eight big-endian bytes of `b` from `at`.
pub fn read_u64_be(b: &[u8], at: usize) -> (r: u64)
    requires
        at + 8 <= b@.len(),
    ensures
        r == be_u64(b@.subrange(at as int, at + 8)),
{
    (b[at] as u64) << 56u64 | (b[at + 1] as u64) << 48u64 | (b[at + 2] as u64) << 40u64 | (b[at
        + 3] as u64) << 32u64 | (b[at + 4] as u64) << 24u64 | (b[at + 5] as u64) << 16u64 | (b[at
        + 6] as u64) << 8u64 | (b[at + 7] as u64)
}

/// Reads four big-endian bytes of `b` from `at`.
pub fn read_u32_be(b: &[u8], at: usize) -> (r: u32)
    requires
        at + 4 <= b@.len(),
    ensures
        r == be_u32(b@.subrange(at as int, at + 4)),
{
    (b[at] as u32) << 24u32 | (b[at + 1] as u32) << 16u32 | (b[at + 2] as u32) << 8u32 | (b[at
        + 3] as u32)
}

/// Appends all of `src` to `buf`.
pub fn append_bytes(buf: &mut Vec<u8>, src: &[u8])
    ensures
        final(buf)@ == old(buf)@ + src@,
{
    let mut i: usize = 0;
    while i < src.len()
        invariant
            i <= src@.len(),
            buf@ == old(buf)@ + src@.subrange(0, i as int),
        decreases src@.len() - i,
    {
        buf.push(src[i]);
        i = i + 1;
        assert(buf@ =~= old(buf)@ + src@.subrange(0, i as int));
    }
    assert(src@.subrange(0, i as int) =~= src@);
}

/// A copy of `b[start..end]`.
pub fn copy_range(b: &[u8], start: usize, end: usize) -> (r: Vec<u8>)
    requires
        start <= end <= b@.len(),
    ensures
        r@ == b@.subrange(start as int, end as int),
{
    let mut r: Vec<u8> = Vec::new();
    let mut i: usize = start;
    while i < end
        invariant
            start <= i <= end <= b@.len(),
            r@ == b@.subrange(start as int, i as int),
        decreases end - i,
    {
        r.push(b[i]);
        i = i + 1;
        assert(r@ =~= b@.subrange(start as int, i as int));
    }
    r
}

/// Whether the two byte strings are equal.
pub fn bytes_eq(a: &[u8], b: &[u8]) -> (r: bool)
    ensures
        r == (a@ == b@),
{
    if a.len() != b.len() {
        return false;
    }
    let mut i: usize = 0;
    while i < a.len()
        invariant
            i <= a@.len() == b@.len(),
            forall|j: int| 0 <= j < i ==> a@[j] == b@[j],
        decreases a@.len() - i,
    {
        if a[i] != b[i] {
            return false;
        }
        i = i + 1;
    }
    assert(a@ =~= b@);
    true
}

// ---------------------------------------------------------------------------
// Flags
// ---------------------------------------------------------------------------

/// The flags byte that starts every frame.
///
/// Bit 2 marks a command (clear: a message), bit 1 an eight-byte size field
/// (clear: one byte), bit 0 that more frames follow (clear: the last one).
#[derive(Debug, Clone, Copy, PartialEq, Eq, Structural)]
pub struct Flags(pub u8);

pub open spec fn is_command_bits(b: u8) -> bool {
    b & 0b100u8 != 0
}

pub open spec fn is_big_bits(b: u8) -> bool {
    b & 0b010u8 != 0
}

pub open spec fn is_more_bits(b: u8) -> bool {
    b & 0b001u8 != 0
}

impl Flags {
    /// The flags with no bit set.
    pub fn default() -> (r: Self)
        ensures
            r.0 == 0,
    {
        Flags(0)
    }

    /// Sets the command bit and keeps the two others.
    pub fn command(self) -> (r: Self)
        ensures
            r.0 == self.0 | 0b100u8,
    {
        Flags(self.0 | 0b100u8)
    }

    /// Clears the command bit and keeps the two others.
    pub fn message(self) -> (r: Self)
        ensures
            r.0 == self.0 & 0b011u8,
    {
        Flags(self.0 & 0b011u8)
    }

    /// Sets the big-size bit and keeps the two others.
    pub fn big(self) -> (r: Self)
        ensures
            r.0 == self.0 | 0b010u8,
    {
        Flags(self.0 | 0b010u8)
    }

    /// Clears the big-size bit and keeps the two others.
    pub fn small(self) -> (r: Self)
        ensures
            r.0 == self.0 & 0b101u8,
    {
        Flags(self.0 & 0b101u8)
    }

    /// Sets the more-frames bit and keeps the two others.
    pub fn more(self) -> (r: Self)
        ensures
            r.0 == self.0 | 0b001u8,
    {
        Flags(self.0 | 0b001u8)
    }

    /// Clears the more-frames bit and keeps the two others.
    pub fn last(self) -> (r: Self)
        ensures
            r.0 == self.0 & 0b110u8,
    {
        Flags(self.0 & 0b110u8)
    }

    pub fn is_command(&self) -> (r: bool)
        ensures
            r == is_command_bits(self.0),
    {
        self.0 & 0b100u8 > 0
    }

    pub fn is_message(&self) -> (r: bool)
        ensures
            r == !is_command_bits(self.0),
    {
        self.0 & 0b100u8 == 0
    }

    pub fn is_big(&self) -> (r: bool)
        ensures
            r == is_big_bits(self.0),
    {
        self.0 & 0b010u8 > 0
    }

    pub fn is_small(&self) -> (r: bool)
        ensures
            r == !is_big_bits(self.0),
    {
        self.0 & 0b010u8 == 0
    }

    pub fn is_more(&self) -> (r: bool)
        ensures
            r == is_more_bits(self.0),
    {
        self.0 & 0b001u8 > 0
    }

    /// The length of a frame header that starts with these flags: the flags
    /// byte and a size field of eight bytes when the big bit is set, else one.
    pub fn header_len(&self) -> (r: usize)
        ensures
            r == if is_big_bits(self.0) {
                9usize
            } else {
                2usize
            },
    {
        if self.0 & 0b010u8 > 0 {
            9
        } else {
            2
        }
    }

    pub fn is_last(&self) -> (r: bool)
        ensures
            r == !is_more_bits(self.0),
    {
        self.0 & 0b001u8 == 0
    }
}


// ---------------------------------------------------------------------------
// Frame headers and raw frames
// ---------------------------------------------------------------------------

/// A type that can stand in the size field of a frame header.
pub trait FrameSize: Sized {
    /// The size that the field holds.
    spec fn spec_value(&self) -> nat;

    /// The bytes of the field on the wire.
    spec fn spec_wire(&self) -> Seq<u8>;

    fn to_u64(&self) -> (r: u64)
        ensures
            r as nat == self.spec_value(),
    ;

    fn append_wire(&self, buf: &mut Vec<u8>)
        ensures
            final(buf)@ == old(buf)@ + self.spec_wire(),
    ;
}

impl FrameSize for u8 {
    open spec fn spec_value(&self) -> nat {
        *self as nat
    }

    open spec fn spec_wire(&self) -> Seq<u8> {
        seq![*self]
    }

    fn to_u64(&self) -> (r: u64) {
        *self as u64
    }

    fn append_wire(&self, buf: &mut Vec<u8>) {
        buf.push(*self);
        assert(final(buf)@ =~= old(buf)@ + seq![*self]);
    }
}

impl FrameSize for u64 {
    open spec fn spec_value(&self) -> nat {
        *self as nat
    }

    open spec fn spec_wire(&self) -> Seq<u8> {
        u64_be(*self)
    }

    fn to_u64(&self) -> (r: u64) {
        *self
    }

    fn append_wire(&self, buf: &mut Vec<u8>) {
        push_u64_be(buf, *self);
    }
}

/// A frame header: the flags byte and the size field.
pub struct FrameType<S: FrameSize> {
    pub flags: Flags,
    pub size: S,
}

/// What a raw frame holds, as a mathematical value.
pub enum RawFrameView {
    Command(Seq<u8>),
    Message(Seq<u8>),
}

/// A frame as read from the wire: its kind and its payload.
#[derive(Debug, PartialEq, Eq)]
pub enum RawFrame {
    Command(Vec<u8>),
    Message(Vec<u8>),
}

impl View for RawFrame {
    type V = RawFrameView;

    open spec fn view(&self) -> RawFrameView {
        match self {
            RawFrame::Command(b) => RawFrameView::Command(b@),
            RawFrame::Message(b) => RawFrameView::Message(b@),
        }
    }
}

/// The raw frame of the given kind bits over `payload`.
pub open spec fn raw_of(flags: u8, payload: Seq<u8>) -> RawFrameView {
    if is_command_bits(flags) {
        RawFrameView::Command(payload)
    } else {
        RawFrameView::Message(payload)
    }
}

/// The header that starts `b`, and how long it is: a flags byte, then one
/// size byte, or eight when the flags have the big bit.
pub open spec fn header_len(b: Seq<u8>) -> int {
    if is_big_bits(b[0]) {
        9
    } else {
        2
    }
}

/// The payload size that the header at the start of `b` declares.
pub open spec fn declared_size(b: Seq<u8>) -> int {
    if is_big_bits(b[0]) {
        be_u64(b.subrange(1, 9)) as int
    } else {
        b[1] as int
    }
}

/// Decodes the frame at the start of `b`: the frame and the number of bytes it
/// takes, or `None` where `b` ends before the header or the payload does.
pub open spec fn raw_decode(b: Seq<u8>) -> Option<(RawFrameView, int)> {
    if b.len() == 0 || b.len() < header_len(b) || b.len() - header_len(b) < declared_size(b) {
        None
    } else {
        let end = header_len(b) + declared_size(b);
        Some((raw_of(b[0], b.subrange(header_len(b), end)), end))
    }
}

/// The wire form of a frame with the given flags (big bit clear) and payload:
/// a one-byte size under 256 bytes, else the big bit and an eight-byte size.
pub open spec fn frame_wire(flags: u8, payload: Seq<u8>) -> Seq<u8> {
    if payload.len() < 256 {
        seq![flags, payload.len() as u8] + payload
    } else {
        seq![flags | 0b010u8] + u64_be(payload.len() as u64) + payload
    }
}

impl<S: FrameSize> FrameType<S> {
    /// The header's bytes on the wire.
    pub fn as_bytes(&self) -> (r: Vec<u8>)
        ensures
            r@ == seq![self.flags.0] + self.size.spec_wire(),
    {
        let mut r: Vec<u8> = Vec::new();
        r.push(self.flags.0);
        self.size.append_wire(&mut r);
        assert(r@ =~= seq![self.flags.0] + self.size.spec_wire());
        r
    }

    /// The raw frame of this header over `payload`, which must hold exactly
    /// the declared size; a short payload is a cut-off frame.
    pub fn with_payload(self, payload: Vec<u8>) -> (r: Result<RawFrame, ConnectionError>)
        ensures
            r is Ok <==> payload@.len() == self.size.spec_value(),
            r matches Ok(f) ==> f@ == raw_of(self.flags.0, payload@),
            r matches Err(e) ==> e is IOError,
    {
        let n = self.size.to_u64();
        if payload.len() as u64 != n {
            return Err(ConnectionError::IOError("truncated frame".to_string()));
        }
        if self.flags.is_command() {
            Ok(RawFrame::Command(payload))
        } else {
            Ok(RawFrame::Message(payload))
        }
    }
}

impl FrameType<u8> {
    /// Reads a small header (flags and a one-byte size) from the start of `buf`.
    pub fn from_bytes(buf: &[u8]) -> (r: Self)
        requires
            buf@.len() >= 2,
        ensures
            r.flags.0 == buf@[0],
            r.size == buf@[1],
    {
        FrameType { flags: Flags(buf[0]), size: buf[1] }
    }
}

impl FrameType<u64> {
    /// Reads a big header (flags and an eight-byte size) from the start of `buf`.
    pub fn from_bytes(buf: &[u8]) -> (r: Self)
        requires
            buf@.len() >= 9,
        ensures
            r.flags.0 == buf@[0],
            r.size == be_u64(buf@.subrange(1, 9)),
    {
        FrameType { flags: Flags(buf[0]), size: read_u64_be(buf, 1) }
    }
}

impl RawFrame {
    /// The payload size that the header at the start of `buf` declares.
    pub fn declared_size(buf: &[u8]) -> (r: u64)
        requires
            buf@.len() >= 1,
            buf@.len() >= header_len(buf@),
        ensures
            r as int == declared_size(buf@),
    {
        if Flags(buf[0]).is_big() {
            read_u64_be(buf, 1)
        } else {
            buf[1] as u64
        }
    }

    /// Decodes the frame at the start of `buf`, returning it with the number of
    /// bytes it takes; a buffer that ends early is an I/O error.
    pub fn decode(buf: &[u8]) -> (r: Result<(RawFrame, usize), ConnectionError>)
        ensures
            match r {
                Ok((f, n)) => raw_decode(buf@) == Some((f@, n as int)),
                Err(e) => raw_decode(buf@) is None && e is IOError,
            },
    {
        if buf.len() == 0 {
            return Err(ConnectionError::IOError("truncated frame".to_string()));
        }
        let flags = Flags(buf[0]);
        let hl: usize = if flags.is_big() {
            9
        } else {
            2
        };
        if buf.len() < hl {
            return Err(ConnectionError::IOError("truncated frame".to_string()));
        }
        let size: u64 = if flags.is_big() {
            read_u64_be(buf, 1)
        } else {
            buf[1] as u64
        };
        let avail = buf.len() - hl;
        if (avail as u64) < size {
            return Err(ConnectionError::IOError("truncated frame".to_string()));
        }
        let end = hl + size as usize;
        let payload = copy_range(buf, hl, end);
        let f = if flags.is_command() {
            RawFrame::Command(payload)
        } else {
            RawFrame::Message(payload)
        };
        Ok((f, end))
    }
}

// ---------------------------------------------------------------------------
// Version, mechanism and greeting
// ---------------------------------------------------------------------------

/// A protocol version.
#[derive(Debug, Clone, Copy, PartialEq, Eq, Structural)]
pub struct Version {
    pub major: u8,
    pub minor: u8,
}

/// A security mechanism: its name, padded with zeros to twenty bytes.
#[derive(Debug, Clone, Copy, PartialEq, Eq)]
pub struct Mechanism(pub [u8; 20]);

/// The no-authentication mechanism, "NULL" padded with zeros.
pub open spec fn null_mechanism() -> Seq<u8> {
    seq![0x4eu8, 0x55u8, 0x4cu8, 0x4cu8] + Seq::new(16, |i: int| 0u8)
}

/// `arr` followed by zeros up to `N` bytes.
pub fn zerro_padded<const N: usize>(arr: &[u8]) -> (r: [u8; N])
    requires
        arr@.len() <= N,
    ensures
        r@ == arr@ + Seq::new((N - arr@.len()) as nat, |i: int| 0u8),
{
    let mut ret = [0u8; N];
    let mut i: usize = 0;
    while i < arr.len()
        invariant
            i <= arr@.len() <= N,
            ret@.len() == N,
            forall|j: int| 0 <= j < i ==> ret@[j] == arr@[j],
            forall|j: int| i <= j < N ==> ret@[j] == 0u8,
        decreases arr@.len() - i,
    {
        ret[i] = arr[i];
        i = i + 1;
    }
    assert(ret@ =~= arr@ + Seq::new((N - arr@.len()) as nat, |i: int| 0u8));
    ret
}

/// The bytes `b[at..at + N]` as an array.
pub fn read_array<const N: usize>(b: &[u8], at: usize) -> (r: [u8; N])
    requires
        at + N <= b@.len(),
    ensures
        r@ == b@.subrange(at as int, at + N),
{
    let len = b.len();
    let mut ret = [0u8; N];
    let mut i: usize = 0;
    while i < N
        invariant
            i <= N,
            len == b@.len(),
            at + N <= b@.len(),
            ret@.len() == N,
            forall|j: int| 0 <= j < i ==> ret@[j] == b@[at + j],
        decreases N - i,
    {
        ret[i] = b[at + i];
        i = i + 1;
    }
    assert(ret@ =~= b@.subrange(at as int, at + N));
    ret
}

impl Mechanism {
    /// The no-authentication mechanism, the only one supported.
    pub fn null() -> (r: Mechanism)
        ensures
            r.0@ == null_mechanism(),
    {
        let name: [u8; 4] = [0x4e, 0x55, 0x4c, 0x4c];
        let r = Mechanism(zerro_padded(&name));
        assert(r.0@ =~= null_mechanism());
        r
    }

    /// Negotiates against the mechanism that the peer announced: only the
    /// very same bytes agree.
    pub fn negotiate(&self, remote: &[u8]) -> (r: Result<(), ConnectionError>)
        ensures
            r is Ok <==> remote@ == self.0@,
            r matches Err(e) ==> e is MechanismMismatch,
    {
        if bytes_eq(&self.0, remote) {
            Ok(())
        } else {
            Err(ConnectionError::MechanismMismatch())
        }
    }
}

/// The 64-byte preamble that each peer sends before any frame.
#[derive(Debug, Clone, Copy, PartialEq, Eq)]
pub struct Greeting {
    pub signature: [u8; 10],
    pub version: Version,
    pub mechanism: Mechanism,
    pub as_server: u8,
    pub filler: [u8; 31],
}

/// The signature that starts every greeting sent.
pub open spec fn greeting_signature() -> Seq<u8> {
    seq![0xffu8, 0u8, 0u8, 0u8, 0u8, 0u8, 0u8, 0u8, 0u8, 0x7fu8]
}

/// The bytes of the greeting for version 3.0 and the NULL mechanism.
pub open spec fn default_greeting_bytes() -> Seq<u8> {
    greeting_signature() + seq![3u8, 0u8] + null_mechanism() + seq![0u8] + Seq::new(
        31,
        |i: int| 0u8,
    )
}

/// Whether the first eleven bytes of a peer's greeting are acceptable: the
/// signature starts with 0xFF, ends (offset 9) with its low bit set, and the
/// major version (offset 10) is at least 3.
pub open spec fn valid_prefix(b: Seq<u8>) -> bool {
    &&& b[0] == 0xffu8
    &&& b[9] & 1u8 != 0
    &&& b[10] >= 3
}

impl Greeting {
    /// The greeting's bytes on the wire, field after field.
    pub open spec fn spec_bytes(&self) -> Seq<u8> {
        self.signature@ + seq![self.version.major, self.version.minor] + self.mechanism.0@
            + seq![self.as_server] + self.filler@
    }

    /// The greeting for version 3.0 and the NULL mechanism, as a client.
    pub fn new() -> (r: Self)
        ensures
            r.spec_bytes() == default_greeting_bytes(),
            r.version == (Version { major: 3, minor: 0 }),
            r.mechanism.0@ == null_mechanism(),
    {
        let r = Greeting {
            signature: [0xff, 0, 0, 0, 0, 0, 0, 0, 0, 0x7f],
            version: Version { major: 3, minor: 0 },
            mechanism: Mechanism::null(),
            as_server: 0,
            filler: [0u8; 31],
        };
        assert(r.signature@ =~= greeting_signature());
        assert(r.filler@ =~= Seq::new(31, |i: int| 0u8));
        assert(r.spec_bytes() =~= default_greeting_bytes());
        r
    }

    /// The same greeting with another mechanism.
    pub fn with_mechanism(self, mechanism: Mechanism) -> (r: Self)
        ensures
            r == (Greeting { mechanism, ..self }),
    {
        let mut g = self;
        g.mechanism = mechanism;
        g
    }

    /// The 64 bytes of the greeting.
    pub fn as_bytes(&self) -> (r: Vec<u8>)
        ensures
            r@ == self.spec_bytes(),
            r@.len() == 64,
    {
        let mut r: Vec<u8> = Vec::new();
        append_bytes(&mut r, &self.signature);
        r.push(self.version.major);
        r.push(self.version.minor);
        append_bytes(&mut r, &self.mechanism.0);
        r.push(self.as_server);
        append_bytes(&mut r, &self.filler);
        assert(r@ =~= self.spec_bytes());
        r
    }

    /// Checks the first eleven bytes of a peer's greeting.
    pub fn check_prefix(b: &[u8]) -> (r: Result<(), ConnectionError>)
        requires
            b@.len() >= 11,
        ensures
            r is Ok <==> valid_prefix(b@),
            r matches Err(e) ==> e is VersionMismatch,
    {
        if b[0] == 0xff && b[9] & 1 > 0 && b[10] >= 3 {
            Ok(())
        } else {
            Err(ConnectionError::VersionMismatch())
        }
    }

    /// Decodes a peer's 64-byte greeting.
    pub fn from_bytes(buf: &[u8]) -> (r: Result<Self, ConnectionError>)
        requires
            buf@.len() == 64,
        ensures
            r is Ok <==> valid_prefix(buf@),
            r matches Ok(g) ==> g.spec_bytes() == buf@,
            r matches Err(e) ==> e is VersionMismatch,
    {
        match Self::check_prefix(buf) {
            Err(e) => Err(e),
            Ok(()) => {
                let g = Greeting {
                    signature: read_array(buf, 0),
                    version: Version { major: buf[10], minor: buf[11] },
                    mechanism: Mechanism(read_array(buf, 12)),
                    as_server: buf[32],
                    filler: read_array(buf, 33),
                };
                assert(g.spec_bytes() =~= buf@);
                Ok(g)
            },
        }
    }
}

impl Default for Greeting {
    fn default() -> (r: Self)
        ensures
            r.spec_bytes() == default_greeting_bytes(),
    {
        Self::new()
    }
}

/// Two greetings with the same bytes are the same greeting; so decoding the
/// encoding of the default greeting gives it back, as its prefix is valid.
pub proof fn lemma_greeting_round_trip(g: Greeting, h: Greeting)
    requires
        g.spec_bytes() == default_greeting_bytes(),
        h.spec_bytes() == g.spec_bytes(),
    ensures
        valid_prefix(g.spec_bytes()),
        h == g,
{
    let a = g.spec_bytes();
    assert(a[0] == 0xffu8 && a[9] == 0x7fu8 && a[10] == 3u8);
    assert(0x7fu8 & 1u8 != 0) by (bit_vector);
    assert(h.signature@ =~= a.subrange(0, 10));
    assert(g.signature@ =~= a.subrange(0, 10));
    assert(h.mechanism.0@ =~= a.subrange(12, 32));
    assert(g.mechanism.0@ =~= a.subrange(12, 32));
    assert(h.filler@ =~= a.subrange(33, 64));
    assert(g.filler@ =~= a.subrange(33, 64));
    assert(h.signature == g.signature);
    assert(h.mechanism.0 == g.mechanism.0);
    assert(h.filler == g.filler);
    assert(h.version.major == a[10] && g.version.major == a[10]);
    assert(h.version.minor == a[11] && g.version.minor == a[11]);
    assert(h.as_server == a[32] && g.as_server == a[32]);
    assert(h.mechanism == g.mechanism);
}

/// A buffer whose first byte is not 0xFF, or whose signature ends with its
/// low bit clear, or whose major version is below 3, is refused.
pub proof fn lemma_bad_prefix_refused(b: Seq<u8>)
    requires
        b.len() == 64,
        b[0] != 0xffu8 || b[9] & 1u8 == 0 || b[10] < 3,
    ensures
        !valid_prefix(b),
{
}

} // verus!
