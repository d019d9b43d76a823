//! A read position over the bytes of a module file.

use super::ParseError;
use byteorder::{BigEndian, ByteOrder};
use vstd::prelude::*;
use vstd::slice::slice_subrange;
use vstd::utf8::{decode_utf8, valid_utf8};

verus! {

/// The number that two bytes make, the high byte first.
pub open spec fn be_u16(high: u8, low: u8) -> int {
    high * 256 + low
}

/// The signed value that a byte stands for in two's complement.
pub open spec fn as_signed(b: u8) -> i8 {
    if b < 128 {
        b as i8
    } else {
        (b - 256) as i8
    }
}

/// Calls `byteorder::BigEndian::read_u16`, which reads the first two bytes of
/// a slice as an unsigned big-endian number and panics on a shorter slice.
/// Trusted: the result is the first byte times 256 plus the second.
#[verifier::external_body]
fn big_endian_u16(buf: &[u8]) -> (r: u16)
    requires
        buf@.len() >= 2,
    ensures
        r == be_u16(buf@[0], buf@[1]),
{
    BigEndian::read_u16(buf)
}

/// Calls `core::str::from_utf8`, which checks that a slice is valid UTF-8 and
/// hands it back as a string slice. Trusted: the call succeeds exactly on
/// valid UTF-8, and the string then holds the characters that the bytes
/// encode.
#[verifier::external_body]
fn utf8_str(bytes: &[u8]) -> (r: Option<&str>)
    ensures
        r is Some <==> valid_utf8(bytes@),
        r matches Some(s) ==> s@ == decode_utf8(bytes@),
{
    core::str::from_utf8(bytes).ok()
}

/// The text that `bytes` encode in UTF-8, or the empty text where they
/// encode none.
pub open spec fn text_or_empty(bytes: Seq<u8>) -> Seq<char> {
    if valid_utf8(bytes) {
        decode_utf8(bytes)
    } else {
        Seq::empty()
    }
}

/// Decodes `bytes` as UTF-8; bytes that are no valid UTF-8 give the empty
/// string.
pub fn decode_text(bytes: &[u8]) -> (r: String)
    ensures
        r@ == text_or_empty(bytes@),
{
    match utf8_str(bytes) {
        Some(s) => String::from_str(s),
        None => String::new(),
    }
}

/// A read position in a byte slice. Reads go forward from the position and
/// fail, without moving, when fewer bytes are left than they ask for.
pub struct ByteReader<'a> {
    data: &'a [u8],
    pos: usize,
}

impl<'a> ByteReader<'a> {
    /// All the bytes under the reader, read or not.
    pub closed spec fn bytes(&self) -> Seq<u8> {
        self.data@
    }

    /// The offset of the next byte to read. It may lie behind the end.
    pub open spec fn position(&self) -> int {
        self.spec_offset() as int
    }

    /// The position, as the machine number that the reader holds.
    pub closed spec fn spec_offset(&self) -> usize {
        self.pos
    }

    /// How many bytes are left to read.
    pub open spec fn remaining(&self) -> int {
        if self.position() <= self.bytes().len() {
            self.bytes().len() - self.position()
        } else {
            0
        }
    }

    /// The `n` bytes from the position on.
    pub open spec fn upcoming(&self, n: int) -> Seq<u8> {
        Seq::new(n as nat, |i: int| self.bytes()[self.position() + i])
    }

    /// A reader at the start of `data`.
    pub fn new(data: &'a [u8]) -> (r: Self)
        ensures
            r.bytes() == data@,
            r.position() == 0,
    {
        ByteReader { data, pos: 0 }
    }

    /// The offset of the next byte to read.
    #[verifier::when_used_as_spec(spec_offset)]
    pub fn offset(&self) -> (r: usize)
        ensures
            r == self.spec_offset(),
    {
        self.pos
    }

    /// Moves the position to `pos`, counted from the start. A position
    /// behind the end is accepted; every read from there fails.
    pub fn seek(&mut self, pos: usize)
        ensures
            final(self).bytes() == old(self).bytes(),
            final(self).position() == pos,
    {
        self.pos = pos;
    }

    /// Reads the next `n` bytes. A read of no bytes succeeds at any position.
    pub fn read_exact(&mut self, n: usize) -> (r: Result<&'a [u8], ParseError>)
        ensures
            final(self).bytes() == old(self).bytes(),
            n <= old(self).remaining() ==> r is Ok && r->Ok_0@ == old(self).upcoming(n as int)
                && final(self).position() == old(self).position() + n,
            n > old(self).remaining() ==> r == Err::<&[u8], ParseError>(ParseError::Truncated)
                && final(self).position() == old(self).position(),
    {
        if n == 0 {
            let out = slice_subrange(self.data, 0, 0);
            return Ok(out);
        }
        if self.pos > self.data.len() || n > self.data.len() - self.pos {
            return Err(ParseError::Truncated);
        }
        let start = self.pos;
        let out = slice_subrange(self.data, start, start + n);
        self.pos = start + n;
        Ok(out)
    }

    /// Reads one byte.
    pub fn read_u8(&mut self) -> (r: Result<u8, ParseError>)
        ensures
            final(self).bytes() == old(self).bytes(),
            old(self).remaining() >= 1 ==> r == Ok::<u8, ParseError>(
                old(self).bytes()[old(self).position()],
            ) && final(self).position() == old(self).position() + 1,
            old(self).remaining() < 1 ==> r == Err::<u8, ParseError>(ParseError::Truncated)
                && final(self).position() == old(self).position(),
    {
        if self.pos >= self.data.len() {
            return Err(ParseError::Truncated);
        }
        let b = self.data[self.pos];
        self.pos = self.pos + 1;
        Ok(b)
    }

    /// Reads one byte as a signed number.
    pub fn read_i8(&mut self) -> (r: Result<i8, ParseError>)
        ensures
            final(self).bytes() == old(self).bytes(),
            old(self).remaining() >= 1 ==> r is Ok && r->Ok_0 == as_signed(
                old(self).bytes()[old(self).position()],
            ) && final(self).position() == old(self).position() + 1,
            old(self).remaining() < 1 ==> r == Err::<i8, ParseError>(ParseError::Truncated)
                && final(self).position() == old(self).position(),
    {
        match self.read_u8() {
            Ok(b) => Ok(to_signed(b)),
            Err(e) => Err(e),
        }
    }

    /// Reads two bytes as an unsigned big-endian number.
    pub fn read_u16_be(&mut self) -> (r: Result<u16, ParseError>)
        ensures
            final(self).bytes() == old(self).bytes(),
            old(self).remaining() >= 2 ==> r is Ok && r->Ok_0 == be_u16(
                old(self).bytes()[old(self).position()],
                old(self).bytes()[old(self).position() + 1],
            ) && final(self).position() == old(self).position() + 2,
            old(self).remaining() < 2 ==> r == Err::<u16, ParseError>(ParseError::Truncated)
                && final(self).position() == old(self).position(),
    {
        match self.read_exact(2) {
            Ok(buf) => Ok(big_endian_u16(buf)),
            Err(e) => Err(e),
        }
    }
}

/// Reinterprets a byte as a signed number, without changing its bits.
pub fn to_signed(b: u8) -> (r: i8)
    ensures
        r == as_signed(b),
{
    if b < 128 {
        b as i8
    } else {
        (b as i16 - 256) as i8
    }
}

} // verus!
