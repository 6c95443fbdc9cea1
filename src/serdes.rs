//! Serialization and deserialization contracts shared by every BJNP record,
//! together with the error types that locate a defect in the wire stream.
//!
//! A record that can be written implements [`Serialize`]: its canonical bytes
//! are given by a spec function, and the executable methods are tied to it.
//! A record that can be read implements [`Deserialize`]; a record with a fixed
//! wire size implements [`SizedDeserialize`] and gets its [`Deserialize`]
//! behaviour from [`deserialize_sized`].
use core::ops::Range;
use vstd::prelude::*;

verus! {

/// Error pertaining only to the format of the bytes.
#[derive(Debug)]
pub enum FormatError {
    InvalidByte { byte: u8, offset: usize, message: &'static str },
    InvalidSlice { span: Range<usize>, message: &'static str },
}

/// Error pertaining to the format or to a buffer that is too short.
#[derive(Debug)]
pub enum ParseError {
    InvalidFormat(FormatError),
    UnexpectedEnd { expected: usize, actual: usize },
}

/// `x + by`, or `usize::MAX` where the sum does not fit.
pub open spec fn shifted(x: usize, by: usize) -> usize {
    if x + by > usize::MAX {
        usize::MAX
    } else {
        (x + by) as usize
    }
}

pub fn shift_by(x: usize, by: usize) -> (r: usize)
    ensures
        r == shifted(x, by),
{
    if x > usize::MAX - by {
        usize::MAX
    } else {
        x + by
    }
}

/// Errors whose location can be moved further into the stream, for use when a
/// parser delegates to a nested parser after consuming `by` bytes.
pub trait OffsetError: Sized {
    spec fn spec_offset_by(self, by: usize) -> Self;

    fn offset_by(self, by: usize) -> (r: Self)
        ensures
            r == self.spec_offset_by(by),
    ;
}

impl OffsetError for FormatError {
    open spec fn spec_offset_by(self, by: usize) -> FormatError {
        match self {
            FormatError::InvalidByte { byte, offset, message } => FormatError::InvalidByte {
                byte,
                offset: shifted(offset, by),
                message,
            },
            FormatError::InvalidSlice { span, message } => FormatError::InvalidSlice {
                span: Range { start: shifted(span.start, by), end: shifted(span.end, by) },
                message,
            },
        }
    }

    fn offset_by(self, by: usize) -> (r: FormatError) {
        match self {
            FormatError::InvalidByte { byte, offset, message } => FormatError::InvalidByte {
                byte,
                offset: shift_by(offset, by),
                message,
            },
            FormatError::InvalidSlice { span, message } => FormatError::InvalidSlice {
                span: Range { start: shift_by(span.start, by), end: shift_by(span.end, by) },
                message,
            },
        }
    }
}

impl OffsetError for ParseError {
    /// Format errors move as a whole; for a truncated buffer only the size that
    /// was expected moves, since the size found is that of the outer buffer.
    open spec fn spec_offset_by(self, by: usize) -> ParseError {
        match self {
            ParseError::InvalidFormat(e) => ParseError::InvalidFormat(e.spec_offset_by(by)),
            ParseError::UnexpectedEnd { expected, actual } => ParseError::UnexpectedEnd {
                expected: shifted(expected, by),
                actual,
            },
        }
    }

    fn offset_by(self, by: usize) -> (r: ParseError) {
        match self {
            ParseError::InvalidFormat(e) => ParseError::InvalidFormat(e.offset_by(by)),
            ParseError::UnexpectedEnd { expected, actual } => ParseError::UnexpectedEnd {
                expected: shift_by(expected, by),
                actual,
            },
        }
    }
}

impl<U> OffsetError for Result<U, ParseError> {
    open spec fn spec_offset_by(self, by: usize) -> Result<U, ParseError> {
        match self {
            Ok(u) => Ok(u),
            Err(e) => Err(e.spec_offset_by(by)),
        }
    }

    fn offset_by(self, by: usize) -> (r: Result<U, ParseError>) {
        match self {
            Ok(u) => Ok(u),
            Err(e) => Err(e.offset_by(by)),
        }
    }
}

/// A record with a canonical byte representation.
pub trait Serialize {
    /// The canonical bytes of `self`.
    spec fn spec_serialize(&self) -> Seq<u8>;

    /// Appends the canonical bytes of `self` to `writer`.
    fn serialize(&self, writer: &mut Vec<u8>)
        ensures
            final(writer)@ == old(writer)@ + self.spec_serialize(),
    ;

    /// The number of bytes `serialize` writes, without writing them.
    fn size(&self) -> (n: usize)
        requires
            self.spec_serialize().len() <= usize::MAX,
        ensures
            n == self.spec_serialize().len(),
    ;

    fn serialize_to_vec(&self) -> (v: Vec<u8>)
        ensures
            v@ == self.spec_serialize(),
    {
        let mut buffer: Vec<u8> = Vec::new();
        self.serialize(&mut buffer);
        assert(buffer@ =~= self.spec_serialize());
        buffer
    }
}

/// A record that can be parsed from a prefix of a buffer.
pub trait Deserialize: Sized {
    /// What parsing `buf` yields: the record and the number of bytes it takes
    /// from the front of `buf`, or the error.
    spec fn spec_deserialize(buf: Seq<u8>) -> Result<(Self, usize), ParseError>;

    fn deserialize(buffer: &[u8]) -> (r: Result<(Self, usize), ParseError>)
        ensures
            r == Self::spec_deserialize(buffer@),
    ;
}

/// A record whose wire form always takes the same number of bytes.
pub trait SizedDeserialize: Sized {
    spec fn spec_size() -> usize;

    /// What the first `spec_size()` bytes of a buffer decode to.
    spec fn spec_deserialize_exact(buf: Seq<u8>) -> Result<Self, FormatError>;

    fn size_exact() -> (n: usize)
        ensures
            n == Self::spec_size(),
    ;

    fn deserialize_exact(buffer: &[u8]) -> (r: Result<Self, FormatError>)
        requires
            buffer@.len() >= Self::spec_size(),
        ensures
            r == Self::spec_deserialize_exact(buffer@.subrange(0, Self::spec_size() as int)),
    ;
}

/// How a record of fixed size is read from the front of a buffer: a buffer
/// that is too short is reported as such, otherwise the record takes exactly
/// its size.
pub open spec fn spec_deserialize_sized<T: SizedDeserialize>(buf: Seq<u8>) -> Result<
    (T, usize),
    ParseError,
> {
    if buf.len() < T::spec_size() {
        Err(ParseError::UnexpectedEnd { expected: T::spec_size(), actual: buf.len() as usize })
    } else {
        match T::spec_deserialize_exact(buf.subrange(0, T::spec_size() as int)) {
            Ok(v) => Ok((v, T::spec_size())),
            Err(e) => Err(ParseError::InvalidFormat(e)),
        }
    }
}

pub fn deserialize_sized<T: SizedDeserialize>(buffer: &[u8]) -> (r: Result<(T, usize), ParseError>)
    ensures
        r == spec_deserialize_sized::<T>(buffer@),
{
    let size = T::size_exact();
    if buffer.len() < size {
        Err(ParseError::UnexpectedEnd { expected: size, actual: buffer.len() })
    } else {
        match T::deserialize_exact(buffer) {
            Ok(v) => Ok((v, size)),
            Err(e) => Err(ParseError::InvalidFormat(e)),
        }
    }
}

/// The empty payload: no bytes at all.
#[derive(Debug, Clone, Copy, PartialEq, Eq, Structural)]
pub struct Empty;

impl Serialize for Empty {
    open spec fn spec_serialize(&self) -> Seq<u8> {
        Seq::empty()
    }

    fn serialize(&self, writer: &mut Vec<u8>) {
        assert(writer@ =~= writer@ + Seq::<u8>::empty());
    }

    fn size(&self) -> (n: usize) {
        0
    }
}

impl Deserialize for Empty {
    open spec fn spec_deserialize(buf: Seq<u8>) -> Result<(Empty, usize), ParseError> {
        Ok((Empty, 0))
    }

    fn deserialize(buffer: &[u8]) -> (r: Result<(Empty, usize), ParseError>) {
        Ok((Empty, 0))
    }
}

/* Big-endian integers */

pub open spec fn u16_be(b0: u8, b1: u8) -> u16 {
    ((b0 as u16) << 8u16) | (b1 as u16)
}

pub open spec fn u16_be_bytes(v: u16) -> Seq<u8> {
    seq![(v >> 8u16) as u8, (v & 0xffu16) as u8]
}

pub open spec fn u32_be(b0: u8, b1: u8, b2: u8, b3: u8) -> u32 {
    ((b0 as u32) << 24u32) | ((b1 as u32) << 16u32) | ((b2 as u32) << 8u32) | (b3 as u32)
}

pub open spec fn u32_be_bytes(v: u32) -> Seq<u8> {
    seq![
        (v >> 24u32) as u8,
        ((v >> 16u32) & 0xffu32) as u8,
        ((v >> 8u32) & 0xffu32) as u8,
        (v & 0xffu32) as u8,
    ]
}

/// The big-endian `u16` that starts at `i` in `s`.
pub open spec fn u16_at(s: Seq<u8>, i: int) -> u16 {
    u16_be(s[i], s[i + 1])
}

/// The big-endian `u32` that starts at `i` in `s`.
pub open spec fn u32_at(s: Seq<u8>, i: int) -> u32 {
    u32_be(s[i], s[i + 1], s[i + 2], s[i + 3])
}

pub proof fn lemma_u16_be_round_trip(v: u16)
    ensures
        u16_at(u16_be_bytes(v), 0) == v,
{
    let b0 = (v >> 8u16) as u8;
    let b1 = (v & 0xffu16) as u8;
    assert(((b0 as u16) << 8u16) | (b1 as u16) == v) by (bit_vector)
        requires
            b0 == (v >> 8u16) as u8,
            b1 == (v & 0xffu16) as u8,
    ;
}

pub proof fn lemma_u32_be_round_trip(v: u32)
    ensures
        u32_at(u32_be_bytes(v), 0) == v,
{
    let b0 = (v >> 24u32) as u8;
    let b1 = ((v >> 16u32) & 0xffu32) as u8;
    let b2 = ((v >> 8u32) & 0xffu32) as u8;
    let b3 = (v & 0xffu32) as u8;
    assert(((b0 as u32) << 24u32) | ((b1 as u32) << 16u32) | ((b2 as u32) << 8u32) | (b3 as u32)
        == v) by (bit_vector)
        requires
            b0 == (v >> 24u32) as u8,
            b1 == ((v >> 16u32) & 0xffu32) as u8,
            b2 == ((v >> 8u32) & 0xffu32) as u8,
            b3 == (v & 0xffu32) as u8,
    ;
}

pub fn read_u16_be(buffer: &[u8], i: usize) -> (r: u16)
    requires
        i + 2 <= buffer@.len(),
    ensures
        r == u16_at(buffer@, i as int),
{
    ((buffer[i] as u16) << 8u16) | (buffer[i + 1] as u16)
}

pub fn read_u32_be(buffer: &[u8], i: usize) -> (r: u32)
    requires
        i + 4 <= buffer@.len(),
    ensures
        r == u32_at(buffer@, i as int),
{
    ((buffer[i] as u32) << 24u32) | ((buffer[i + 1] as u32) << 16u32) | ((buffer[i + 2] as u32)
        << 8u32) | (buffer[i + 3] as u32)
}

pub fn write_u16_be(writer: &mut Vec<u8>, v: u16)
    ensures
        final(writer)@ == old(writer)@ + u16_be_bytes(v),
{
    writer.push((v >> 8u16) as u8);
    writer.push((v & 0xffu16) as u8);
    assert(writer@ =~= old(writer)@ + u16_be_bytes(v));
}

pub fn write_u32_be(writer: &mut Vec<u8>, v: u32)
    ensures
        final(writer)@ == old(writer)@ + u32_be_bytes(v),
{
    writer.push((v >> 24u32) as u8);
    writer.push(((v >> 16u32) & 0xffu32) as u8);
    writer.push(((v >> 8u32) & 0xffu32) as u8);
    writer.push((v & 0xffu32) as u8);
    assert(writer@ =~= old(writer)@ + u32_be_bytes(v));
}

/// `n` zero bytes.
pub open spec fn zeros(n: nat) -> Seq<u8> {
    Seq::new(n, |i: int| 0u8)
}

pub fn write_zeros(writer: &mut Vec<u8>, n: usize)
    ensures
        final(writer)@ == old(writer)@ + zeros(n as nat),
{
    let mut i: usize = 0;
    while i < n
        invariant
            i <= n,
            writer@ == old(writer)@ + zeros(i as nat),
        decreases n - i,
    {
        writer.push(0u8);
        i = i + 1;
        assert(writer@ =~= old(writer)@ + zeros(i as nat));
    }
}

pub fn write_bytes(writer: &mut Vec<u8>, bytes: &[u8])
    ensures
        final(writer)@ == old(writer)@ + bytes@,
{
    let mut i: usize = 0;
    while i < bytes.len()
        invariant
            i <= bytes@.len(),
            writer@ == old(writer)@ + bytes@.subrange(0, i as int),
        decreases bytes@.len() - i,
    {
        writer.push(bytes[i]);
        i = i + 1;
        assert(writer@ =~= old(writer)@ + bytes@.subrange(0, i as int));
    }
    assert(bytes@.subrange(0, bytes@.len() as int) =~= bytes@);
}

/// Copies `buffer[start..end]` into a new vector.
pub fn copy_range(buffer: &[u8], start: usize, end: usize) -> (r: Vec<u8>)
    requires
        start <= end <= buffer@.len(),
    ensures
        r@ == buffer@.subrange(start as int, end as int),
{
    let mut out: Vec<u8> = Vec::new();
    let mut i: usize = start;
    while i < end
        invariant
            start <= i <= end <= buffer@.len(),
            out@ == buffer@.subrange(start as int, i as int),
        decreases end - i,
    {
        out.push(buffer[i]);
        i = i + 1;
        assert(out@ =~= buffer@.subrange(start as int, i as int));
    }
    out
}

} // verus!
