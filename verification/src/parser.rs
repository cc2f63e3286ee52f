//! The cursor-tracking byte parser.

use vstd::prelude::*;
use vstd::slice::{slice_index_get, slice_subrange};

use crate::decode::{
    as_signed, be_uint, le_uint, lemma_pow256_increases, lemma_pow256_values, pow256, scalar_value,
};
use crate::endianness::ParsingEndian;
use crate::errors::BytesParserError;

verus! {

/// Relies on `core::str::from_utf8`: it returns `Ok` exactly when the given
/// bytes are a well-formed UTF-8 encoding, and the returned string slice is
/// the decoding of those very bytes.
pub assume_specification<'a>[ core::str::from_utf8 ](v: &'a [u8]) -> (r: Result<
    &'a str,
    core::str::Utf8Error,
>)
    ensures
        r is Ok <==> vstd::utf8::valid_utf8(v@),
        r matches Ok(s) ==> s@ == vstd::utf8::decode_utf8(v@),
;

/// Relies on `char::from_u32`: it returns `Some` exactly when the value is a
/// valid Unicode scalar value (not a surrogate and at most `0x10FFFF`), and
/// the returned character is that scalar value.
pub assume_specification[ char::from_u32 ](v: u32) -> (r: Option<char>)
    ensures
        r is Some <==> vstd::utf8::is_scalar(v),
        r matches Some(c) ==> c as u32 == v,
;

/// A zero-copy bytes parser, useful when parsing bespoke binary protocols.
///
/// It wraps a reference to a byte-array, and adds a thin parsing layer: calls
/// to the `parse_*` methods read the bytes and update an internal cursor
/// sequentially. This makes for a very linear sequence of calls when
/// consuming, for example, messages of a bespoke binary protocol.
///
/// By default, parsing is done using the [`ParsingEndian::BE`] byte order,
/// but that can be configured.
///
/// The internal cursor progresses sequentially from position `0` (no bytes
/// parsed yet) to the maximum position of [`BytesParser::length`] (all bytes
/// parsed); the well-formedness predicate [`BytesParser::wf`] states that it
/// never leaves that range. Methods are provided to move the cursor around,
/// with error checking in case the cursor would be moved outside the
/// boundaries of the underlying array.
#[derive(Debug, Copy, Clone)]
pub struct BytesParser<'a> {
    buffer: &'a [u8],
    length: usize,
    cursor: usize,
    endian: ParsingEndian,
}

impl<'a> BytesParser<'a> {
    /// The bytes being parsed.
    pub closed spec fn spec_buffer(&self) -> Seq<u8> {
        self.buffer@
    }

    /// The byte count of the underlying array.
    pub closed spec fn spec_length(&self) -> int {
        self.length as int
    }

    /// The current cursor position.
    pub closed spec fn spec_position(&self) -> int {
        self.cursor as int
    }

    /// The byte order currently in use.
    pub closed spec fn spec_endian(&self) -> ParsingEndian {
        self.endian
    }

    /// The count of bytes not yet consumed.
    pub open spec fn spec_parseable(&self) -> int {
        self.spec_length() - self.spec_position()
    }

    /// Well-formedness: the recorded length is the length of the underlying
    /// array, and the cursor lies between 0 and that length, inclusive.
    ///
    /// Construction establishes this predicate and every operation preserves
    /// it, so it holds in every reachable state.
    pub open spec fn wf(&self) -> bool {
        &&& 0 <= self.spec_position() <= self.spec_length()
        &&& self.spec_length() == self.spec_buffer().len()
    }

    /// The `size` bytes of the buffer that start at the cursor.
    pub open spec fn spec_window(&self, size: int) -> Seq<u8> {
        self.spec_buffer().subrange(self.spec_position(), self.spec_position() + size)
    }

    /// True when the two parsers hold the same bytes, cursor, and byte order.
    pub open spec fn same_state(&self, other: &BytesParser<'a>) -> bool {
        &&& self.spec_buffer() == other.spec_buffer()
        &&& self.spec_length() == other.spec_length()
        &&& self.spec_position() == other.spec_position()
        &&& self.spec_endian() == other.spec_endian()
    }
}

impl<'a> vstd::std_specs::convert::FromSpecImpl<&'a [u8]> for BytesParser<'a> {
    open spec fn obeys_from_spec() -> bool {
        true
    }

    closed spec fn from_spec(bytes: &'a [u8]) -> BytesParser<'a> {
        BytesParser {
            buffer: bytes,
            length: bytes@.len() as usize,
            cursor: 0,
            endian: ParsingEndian::BE,
        }
    }
}

impl<'a> From<&'a [u8]> for BytesParser<'a> {
    /// Wraps the given bytes in a parser, with the cursor at the start and
    /// big-endian byte order. Zero-copy: the bytes are borrowed, not cloned.
    fn from(bytes: &'a [u8]) -> (r: Self)
        ensures
            r.wf(),
            r.spec_buffer() == bytes@,
            r.spec_length() == bytes@.len(),
            r.spec_position() == 0,
            r.spec_endian() == ParsingEndian::BE,
    {
        BytesParser { buffer: bytes, length: bytes.len(), cursor: 0, endian: ParsingEndian::default() }
    }
}

impl<'a> BytesParser<'a> {
    /// Length of the internal bytes array.
    pub fn length(&self) -> (r: usize)
        ensures
            r as int == self.spec_length(),
    {
        self.length
    }

    /// Returns `true` if the internal bytes array is empty.
    pub fn is_empty(&self) -> (r: bool)
        ensures
            r == (self.spec_length() == 0),
    {
        self.length == 0
    }

    /// Returns the 0-based position of the cursor.
    ///
    /// The index returned corresponds to the next byte that would be parsed.
    pub fn position(&self) -> (r: usize)
        ensures
            r as int == self.spec_position(),
    {
        self.cursor
    }

    /// Returns `true` if the internal cursor points at the very start of the
    /// bytes array.
    ///
    /// When first created, this will return `true`.
    pub fn is_at_start(&self) -> (r: bool)
        ensures
            r == (self.spec_position() == 0),
    {
        self.cursor == 0
    }

    /// Returns `true` if the internal cursor points at the very end of the
    /// bytes array.
    ///
    /// When all bytes have been parsed, this will return `true`.
    pub fn is_at_end(&self) -> (r: bool)
        ensures
            r == (self.spec_position() == self.spec_length()),
    {
        self.cursor == self.length
    }

    /// Returns the amount of bytes that can still be parsed.
    ///
    /// If [`BytesParser::is_at_start`] returns `true`, this returns the same
    /// as [`BytesParser::length`]; if [`BytesParser::is_at_end`] returns
    /// `true`, this returns `0`.
    pub fn parseable(&self) -> (r: usize)
        requires
            self.wf(),
        ensures
            r as int == self.spec_parseable(),
    {
        self.length - self.cursor
    }

    /// Reset the cursor to the very start of the bytes array.
    ///
    /// This can be used to re-parse bytes. After this is called,
    /// [`BytesParser::is_at_start`] will return `true`.
    pub fn reset(&mut self)
        requires
            old(self).wf(),
        ensures
            final(self).wf(),
            final(self).spec_position() == 0,
            final(self).spec_buffer() == old(self).spec_buffer(),
            final(self).spec_length() == old(self).spec_length(),
            final(self).spec_endian() == old(self).spec_endian(),
    {
        self.cursor = 0
    }

    /// Sets the [`ParsingEndian`] to be used when parsing scalar types from
    /// the internal bytes array.
    ///
    /// Only scalar parses issued after the call are affected.
    pub fn set_endian(&mut self, endian: ParsingEndian)
        requires
            old(self).wf(),
        ensures
            final(self).wf(),
            final(self).spec_endian() == endian,
            final(self).spec_buffer() == old(self).spec_buffer(),
            final(self).spec_length() == old(self).spec_length(),
            final(self).spec_position() == old(self).spec_position(),
    {
        self.endian = endian;
    }

    /// Read a `size`-byte unsigned scalar at the cursor under the active
    /// byte order, and advance the cursor past it.
    ///
    /// This is the one decode routine behind every `parse_*` scalar method;
    /// each of those merely checks that enough bytes remain and narrows the
    /// result to its own width.
    fn read_unsigned(&mut self, size: usize) -> (r: u128)
        requires
            old(self).wf(),
            1 <= size <= 16,
            size <= old(self).spec_parseable(),
        ensures
            final(self).wf(),
            final(self).spec_buffer() == old(self).spec_buffer(),
            final(self).spec_length() == old(self).spec_length(),
            final(self).spec_endian() == old(self).spec_endian(),
            final(self).spec_position() == old(self).spec_position() + size,
            r as nat == scalar_value(old(self).spec_endian(), old(self).spec_window(size as int)),
            r < pow256(size as nat),
    {
        proof {
            lemma_pow256_values();
        }
        let ghost bs = self.spec_window(size as int);
        let mut acc: u128 = 0;
        match self.endian {
            ParsingEndian::BE => {
                let mut i: usize = 0;
                while i < size
                    invariant
                        self.wf(),
                        1 <= size <= 16,
                        size <= self.spec_parseable(),
                        bs == self.spec_window(size as int),
                        0 <= i <= size,
                        acc as nat == be_uint(bs.take(i as int)),
                        acc < pow256(i as nat),
                        pow256(16) == 0x1_0000_0000_0000_0000_0000_0000_0000_0000,
                    decreases size - i,
                {
                    let b = *slice_index_get(self.buffer, self.cursor + i);
                    proof {
                        lemma_pow256_increases((i + 1) as nat, 16);
                        assert(bs.take(i + 1).drop_last() =~= bs.take(i as int));
                        assert(bs.take(i + 1).last() == bs[i as int]);
                        assert(bs[i as int] == self.spec_buffer()[self.spec_position() + i]);
                    }
                    acc = acc * 256 + (b as u128);
                    i = i + 1;
                }
                proof {
                    assert(bs.take(size as int) =~= bs);
                }
            },
            ParsingEndian::LE => {
                let mut j: usize = size;
                while j > 0
                    invariant
                        self.wf(),
                        1 <= size <= 16,
                        size <= self.spec_parseable(),
                        bs == self.spec_window(size as int),
                        0 <= j <= size,
                        acc as nat == le_uint(bs.skip(j as int)),
                        acc < pow256((size - j) as nat),
                        pow256(16) == 0x1_0000_0000_0000_0000_0000_0000_0000_0000,
                    decreases j,
                {
                    j = j - 1;
                    let b = *slice_index_get(self.buffer, self.cursor + j);
                    proof {
                        lemma_pow256_increases((size - j) as nat, 16);
                        assert(bs.skip(j as int).first() == bs[j as int]);
                        assert(bs.skip(j as int).drop_first() =~= bs.skip(j + 1));
                        assert(bs[j as int] == self.spec_buffer()[self.spec_position() + j]);
                    }
                    acc = acc * 256 + (b as u128);
                }
                proof {
                    assert(bs.skip(0) =~= bs);
                }
            },
        }
        self.cursor = self.cursor + size;
        acc
    }

    /// Parse a `u8` and update the internal cursor accordingly.
    ///
    /// It produces an error, and leaves the parser unchanged, if
    /// [`BytesParser::parseable`] returns an amount inferior to the amount of
    /// bytes occupied by a `u8`.
    pub fn parse_u8(&mut self) -> (r: Result<u8, BytesParserError>)
        requires
            old(self).wf(),
        ensures
            final(self).wf(),
            final(self).spec_buffer() == old(self).spec_buffer(),
            final(self).spec_length() == old(self).spec_length(),
            final(self).spec_endian() == old(self).spec_endian(),
            match r {
                Ok(v) => {
                    &&& old(self).spec_parseable() >= 1
                    &&& final(self).spec_position() == old(self).spec_position() + 1
                    &&& v as nat == scalar_value(old(self).spec_endian(), old(self).spec_window(1))
                },
                Err(e) => {
                    &&& old(self).spec_parseable() < 1
                    &&& final(self).same_state(old(self))
                    &&& e matches BytesParserError::NotEnoughBytesForTypeError(name)
                        && name@ == "u8"@
                },
            },
    {
        if self.parseable() < 1 {
            return Err(BytesParserError::NotEnoughBytesForTypeError("u8".to_owned()));
        }
        let v = self.read_unsigned(1);
        proof {
            lemma_pow256_values();
        }
        Ok(v as u8)
    }

    /// Parse a `u16` and update the internal cursor accordingly.
    ///
    /// It produces an error, and leaves the parser unchanged, if
    /// [`BytesParser::parseable`] returns an amount inferior to the amount of
    /// bytes occupied by a `u16`.
    pub fn parse_u16(&mut self) -> (r: Result<u16, BytesParserError>)
        requires
            old(self).wf(),
        ensures
            final(self).wf(),
            final(self).spec_buffer() == old(self).spec_buffer(),
            final(self).spec_length() == old(self).spec_length(),
            final(self).spec_endian() == old(self).spec_endian(),
            match r {
                Ok(v) => {
                    &&& old(self).spec_parseable() >= 2
                    &&& final(self).spec_position() == old(self).spec_position() + 2
                    &&& v as nat == scalar_value(old(self).spec_endian(), old(self).spec_window(2))
                },
                Err(e) => {
                    &&& old(self).spec_parseable() < 2
                    &&& final(self).same_state(old(self))
                    &&& e matches BytesParserError::NotEnoughBytesForTypeError(name)
                        && name@ == "u16"@
                },
            },
    {
        if self.parseable() < 2 {
            return Err(BytesParserError::NotEnoughBytesForTypeError("u16".to_owned()));
        }
        let v = self.read_unsigned(2);
        proof {
            lemma_pow256_values();
        }
        Ok(v as u16)
    }

    /// Parse a `u32` and update the internal cursor accordingly.
    ///
    /// It produces an error, and leaves the parser unchanged, if
    /// [`BytesParser::parseable`] returns an amount inferior to the amount of
    /// bytes occupied by a `u32`.
    pub fn parse_u32(&mut self) -> (r: Result<u32, BytesParserError>)
        requires
            old(self).wf(),
        ensures
            final(self).wf(),
            final(self).spec_buffer() == old(self).spec_buffer(),
            final(self).spec_length() == old(self).spec_length(),
            final(self).spec_endian() == old(self).spec_endian(),
            match r {
                Ok(v) => {
                    &&& old(self).spec_parseable() >= 4
                    &&& final(self).spec_position() == old(self).spec_position() + 4
                    &&& v as nat == scalar_value(old(self).spec_endian(), old(self).spec_window(4))
                },
                Err(e) => {
                    &&& old(self).spec_parseable() < 4
                    &&& final(self).same_state(old(self))
                    &&& e matches BytesParserError::NotEnoughBytesForTypeError(name)
                        && name@ == "u32"@
                },
            },
    {
        if self.parseable() < 4 {
            return Err(BytesParserError::NotEnoughBytesForTypeError("u32".to_owned()));
        }
        let v = self.read_unsigned(4);
        proof {
            lemma_pow256_values();
        }
        Ok(v as u32)
    }

    /// Parse a `u64` and update the internal cursor accordingly.
    ///
    /// It produces an error, and leaves the parser unchanged, if
    /// [`BytesParser::parseable`] returns an amount inferior to the amount of
    /// bytes occupied by a `u64`.
    pub fn parse_u64(&mut self) -> (r: Result<u64, BytesParserError>)
        requires
            old(self).wf(),
        ensures
            final(self).wf(),
            final(self).spec_buffer() == old(self).spec_buffer(),
            final(self).spec_length() == old(self).spec_length(),
            final(self).spec_endian() == old(self).spec_endian(),
            match r {
                Ok(v) => {
                    &&& old(self).spec_parseable() >= 8
                    &&& final(self).spec_position() == old(self).spec_position() + 8
                    &&& v as nat == scalar_value(old(self).spec_endian(), old(self).spec_window(8))
                },
                Err(e) => {
                    &&& old(self).spec_parseable() < 8
                    &&& final(self).same_state(old(self))
                    &&& e matches BytesParserError::NotEnoughBytesForTypeError(name)
                        && name@ == "u64"@
                },
            },
    {
        if self.parseable() < 8 {
            return Err(BytesParserError::NotEnoughBytesForTypeError("u64".to_owned()));
        }
        let v = self.read_unsigned(8);
        proof {
            lemma_pow256_values();
        }
        Ok(v as u64)
    }

    /// Parse a `u128` and update the internal cursor accordingly.
    ///
    /// It produces an error, and leaves the parser unchanged, if
    /// [`BytesParser::parseable`] returns an amount inferior to the amount of
    /// bytes occupied by a `u128`.
    pub fn parse_u128(&mut self) -> (r: Result<u128, BytesParserError>)
        requires
            old(self).wf(),
        ensures
            final(self).wf(),
            final(self).spec_buffer() == old(self).spec_buffer(),
            final(self).spec_length() == old(self).spec_length(),
            final(self).spec_endian() == old(self).spec_endian(),
            match r {
                Ok(v) => {
                    &&& old(self).spec_parseable() >= 16
                    &&& final(self).spec_position() == old(self).spec_position() + 16
                    &&& v as nat == scalar_value(old(self).spec_endian(), old(self).spec_window(16))
                },
                Err(e) => {
                    &&& old(self).spec_parseable() < 16
                    &&& final(self).same_state(old(self))
                    &&& e matches BytesParserError::NotEnoughBytesForTypeError(name)
                        && name@ == "u128"@
                },
            },
    {
        if self.parseable() < 16 {
            return Err(BytesParserError::NotEnoughBytesForTypeError("u128".to_owned()));
        }
        let v = self.read_unsigned(16);
        proof {
            lemma_pow256_values();
        }
        Ok(v)
    }

    /// Parse an `i8` and update the internal cursor accordingly.
    ///
    /// It produces an error, and leaves the parser unchanged, if
    /// [`BytesParser::parseable`] returns an amount inferior to the amount of
    /// bytes occupied by an `i8`.
    pub fn parse_i8(&mut self) -> (r: Result<i8, BytesParserError>)
        requires
            old(self).wf(),
        ensures
            final(self).wf(),
            final(self).spec_buffer() == old(self).spec_buffer(),
            final(self).spec_length() == old(self).spec_length(),
            final(self).spec_endian() == old(self).spec_endian(),
            match r {
                Ok(v) => {
                    &&& old(self).spec_parseable() >= 1
                    &&& final(self).spec_position() == old(self).spec_position() + 1
                    &&& v as int == as_signed(scalar_value(old(self).spec_endian(), old(self).spec_window(1)), 1)
                },
                Err(e) => {
                    &&& old(self).spec_parseable() < 1
                    &&& final(self).same_state(old(self))
                    &&& e matches BytesParserError::NotEnoughBytesForTypeError(name)
                        && name@ == "i8"@
                },
            },
    {
        if self.parseable() < 1 {
            return Err(BytesParserError::NotEnoughBytesForTypeError("i8".to_owned()));
        }
        let u = self.read_unsigned(1);
        proof {
            lemma_pow256_values();
        }
        let v: i8 = if u < 0x80 {
            u as i8
        } else {
            -((0xff - u) as i8) - 1
        };
        Ok(v)
    }

    /// Parse an `i16` and update the internal cursor accordingly.
    ///
    /// It produces an error, and leaves the parser unchanged, if
    /// [`BytesParser::parseable`] returns an amount inferior to the amount of
    /// bytes occupied by an `i16`.
    pub fn parse_i16(&mut self) -> (r: Result<i16, BytesParserError>)
        requires
            old(self).wf(),
        ensures
            final(self).wf(),
            final(self).spec_buffer() == old(self).spec_buffer(),
            final(self).spec_length() == old(self).spec_length(),
            final(self).spec_endian() == old(self).spec_endian(),
            match r {
                Ok(v) => {
                    &&& old(self).spec_parseable() >= 2
                    &&& final(self).spec_position() == old(self).spec_position() + 2
                    &&& v as int == as_signed(scalar_value(old(self).spec_endian(), old(self).spec_window(2)), 2)
                },
                Err(e) => {
                    &&& old(self).spec_parseable() < 2
                    &&& final(self).same_state(old(self))
                    &&& e matches BytesParserError::NotEnoughBytesForTypeError(name)
                        && name@ == "i16"@
                },
            },
    {
        if self.parseable() < 2 {
            return Err(BytesParserError::NotEnoughBytesForTypeError("i16".to_owned()));
        }
        let u = self.read_unsigned(2);
        proof {
            lemma_pow256_values();
        }
        let v: i16 = if u < 0x8000 {
            u as i16
        } else {
            -((0xffff - u) as i16) - 1
        };
        Ok(v)
    }

    /// Parse an `i32` and update the internal cursor accordingly.
    ///
    /// It produces an error, and leaves the parser unchanged, if
    /// [`BytesParser::parseable`] returns an amount inferior to the amount of
    /// bytes occupied by an `i32`.
    pub fn parse_i32(&mut self) -> (r: Result<i32, BytesParserError>)
        requires
            old(self).wf(),
        ensures
            final(self).wf(),
            final(self).spec_buffer() == old(self).spec_buffer(),
            final(self).spec_length() == old(self).spec_length(),
            final(self).spec_endian() == old(self).spec_endian(),
            match r {
                Ok(v) => {
                    &&& old(self).spec_parseable() >= 4
                    &&& final(self).spec_position() == old(self).spec_position() + 4
                    &&& v as int == as_signed(scalar_value(old(self).spec_endian(), old(self).spec_window(4)), 4)
                },
                Err(e) => {
                    &&& old(self).spec_parseable() < 4
                    &&& final(self).same_state(old(self))
                    &&& e matches BytesParserError::NotEnoughBytesForTypeError(name)
                        && name@ == "i32"@
                },
            },
    {
        if self.parseable() < 4 {
            return Err(BytesParserError::NotEnoughBytesForTypeError("i32".to_owned()));
        }
        let u = self.read_unsigned(4);
        proof {
            lemma_pow256_values();
        }
        let v: i32 = if u < 0x8000_0000 {
            u as i32
        } else {
            -((0xffff_ffff - u) as i32) - 1
        };
        Ok(v)
    }

    /// Parse an `i64` and update the internal cursor accordingly.
    ///
    /// It produces an error, and leaves the parser unchanged, if
    /// [`BytesParser::parseable`] returns an amount inferior to the amount of
    /// bytes occupied by an `i64`.
    pub fn parse_i64(&mut self) -> (r: Result<i64, BytesParserError>)
        requires
            old(self).wf(),
        ensures
            final(self).wf(),
            final(self).spec_buffer() == old(self).spec_buffer(),
            final(self).spec_length() == old(self).spec_length(),
            final(self).spec_endian() == old(self).spec_endian(),
            match r {
                Ok(v) => {
                    &&& old(self).spec_parseable() >= 8
                    &&& final(self).spec_position() == old(self).spec_position() + 8
                    &&& v as int == as_signed(scalar_value(old(self).spec_endian(), old(self).spec_window(8)), 8)
                },
                Err(e) => {
                    &&& old(self).spec_parseable() < 8
                    &&& final(self).same_state(old(self))
                    &&& e matches BytesParserError::NotEnoughBytesForTypeError(name)
                        && name@ == "i64"@
                },
            },
    {
        if self.parseable() < 8 {
            return Err(BytesParserError::NotEnoughBytesForTypeError("i64".to_owned()));
        }
        let u = self.read_unsigned(8);
        proof {
            lemma_pow256_values();
        }
        let v: i64 = if u < 0x8000_0000_0000_0000 {
            u as i64
        } else {
            -((0xffff_ffff_ffff_ffff - u) as i64) - 1
        };
        Ok(v)
    }

    /// Parse an `i128` and update the internal cursor accordingly.
    ///
    /// It produces an error, and leaves the parser unchanged, if
    /// [`BytesParser::parseable`] returns an amount inferior to the amount of
    /// bytes occupied by an `i128`.
    pub fn parse_i128(&mut self) -> (r: Result<i128, BytesParserError>)
        requires
            old(self).wf(),
        ensures
            final(self).wf(),
            final(self).spec_buffer() == old(self).spec_buffer(),
            final(self).spec_length() == old(self).spec_length(),
            final(self).spec_endian() == old(self).spec_endian(),
            match r {
                Ok(v) => {
                    &&& old(self).spec_parseable() >= 16
                    &&& final(self).spec_position() == old(self).spec_position() + 16
                    &&& v as int == as_signed(scalar_value(old(self).spec_endian(), old(self).spec_window(16)), 16)
                },
                Err(e) => {
                    &&& old(self).spec_parseable() < 16
                    &&& final(self).same_state(old(self))
                    &&& e matches BytesParserError::NotEnoughBytesForTypeError(name)
                        && name@ == "i128"@
                },
            },
    {
        if self.parseable() < 16 {
            return Err(BytesParserError::NotEnoughBytesForTypeError("i128".to_owned()));
        }
        let u = self.read_unsigned(16);
        proof {
            lemma_pow256_values();
        }
        let v: i128 = if u < 0x8000_0000_0000_0000_0000_0000_0000_0000 {
            u as i128
        } else {
            -((0xffff_ffff_ffff_ffff_ffff_ffff_ffff_ffff - u) as i128) - 1
        };
        Ok(v)
    }

    /// Parse a UTF-8 [`String`] of exactly `size` bytes and update the
    /// internal cursor accordingly.
    ///
    /// Binary protocols typically precede a string with an integer holding
    /// its size in bytes; there is no single standard for how that integer is
    /// encoded, hence the explicit `size` argument. Note that `size` counts
    /// bytes, not characters: UTF-8 may use several bytes per scalar value,
    /// so determining how many bytes to consume is left to the caller.
    ///
    /// It produces an error, and leaves the parser unchanged, if
    /// [`BytesParser::parseable`] returns an amount inferior to `size`, or if
    /// the extracted bytes are not a well-formed UTF-8 string.
    pub fn parse_str_utf8(&mut self, size: usize) -> (r: Result<String, BytesParserError>)
        requires
            old(self).wf(),
        ensures
            final(self).wf(),
            final(self).spec_buffer() == old(self).spec_buffer(),
            final(self).spec_length() == old(self).spec_length(),
            final(self).spec_endian() == old(self).spec_endian(),
            match r {
                Ok(s) => {
                    &&& old(self).spec_parseable() >= size
                    &&& vstd::utf8::valid_utf8(old(self).spec_window(size as int))
                    &&& s@ == vstd::utf8::decode_utf8(old(self).spec_window(size as int))
                    &&& final(self).spec_position() == old(self).spec_position() + size
                },
                Err(e) => match e {
                    BytesParserError::NotEnoughBytesForStringError(n) => {
                        &&& old(self).spec_parseable() < size
                        &&& n == size
                        &&& final(self).same_state(old(self))
                    },
                    BytesParserError::StringParseError(_) => {
                        &&& old(self).spec_parseable() >= size
                        &&& !vstd::utf8::valid_utf8(old(self).spec_window(size as int))
                        &&& final(self).same_state(old(self))
                    },
                    _ => false,
                },
            },
    {
        if self.parseable() < size {
            return Err(BytesParserError::NotEnoughBytesForStringError(size));
        }
        let slice = slice_subrange(self.buffer, self.cursor, self.cursor + size);
        match core::str::from_utf8(slice) {
            Ok(s) => {
                let owned = s.to_owned();
                self.cursor = self.cursor + size;
                Ok(owned)
            },
            Err(err) => Err(BytesParserError::StringParseError(err)),
        }
    }

    /// Parse a single [`char`] from a `u32` worth of bytes (4 bytes).
    ///
    /// The four bytes are decoded as a 32-bit unsigned scalar under the
    /// active byte order, and that value is then interpreted as a Unicode
    /// scalar value.
    ///
    /// This operation is the one exception to the rule that a failing
    /// operation leaves the cursor unchanged: when the four bytes decode to a
    /// value that is not a valid Unicode scalar value, the error is reported
    /// with the cursor already advanced past the four bytes consumed by the
    /// scalar decode.
    pub fn parse_char_u32(&mut self) -> (r: Result<char, BytesParserError>)
        requires
            old(self).wf(),
        ensures
            final(self).wf(),
            final(self).spec_buffer() == old(self).spec_buffer(),
            final(self).spec_length() == old(self).spec_length(),
            final(self).spec_endian() == old(self).spec_endian(),
            match r {
                Ok(c) => {
                    &&& old(self).spec_parseable() >= 4
                    &&& vstd::utf8::is_scalar(
                        scalar_value(old(self).spec_endian(), old(self).spec_window(4)) as u32,
                    )
                    &&& (c as u32) as nat == scalar_value(
                        old(self).spec_endian(),
                        old(self).spec_window(4),
                    )
                    &&& final(self).spec_position() == old(self).spec_position() + 4
                },
                Err(e) => match e {
                    BytesParserError::NotEnoughBytesForTypeError(name) => {
                        &&& old(self).spec_parseable() < 4
                        &&& name@ == "u32"@
                        &&& final(self).same_state(old(self))
                    },
                    BytesParserError::InvalidU32ForCharError => {
                        &&& old(self).spec_parseable() >= 4
                        &&& !vstd::utf8::is_scalar(
                            scalar_value(old(self).spec_endian(), old(self).spec_window(4)) as u32,
                        )
                        &&& final(self).spec_position() == old(self).spec_position() + 4
                    },
                    _ => false,
                },
            },
    {
        let u32value = self.parse_u32()?;
        match char::from_u32(u32value) {
            Some(c) => Ok(c),
            None => Err(BytesParserError::InvalidU32ForCharError),
        }
    }

    /// Move the internal cursor forward by `amount`.
    ///
    /// The new cursor position corresponds to the next byte that would be
    /// parsed. It produces an error, and leaves the parser unchanged, if the
    /// new cursor position would fall out-of-bound of the internal bytes
    /// array; a target exactly equal to the length is out-of-bound here, even
    /// though scalar parsing may leave the cursor there.
    pub fn move_forward(&mut self, amount: &usize) -> (r: Result<(), BytesParserError>)
        requires
            old(self).wf(),
        ensures
            final(self).wf(),
            final(self).spec_buffer() == old(self).spec_buffer(),
            final(self).spec_length() == old(self).spec_length(),
            final(self).spec_endian() == old(self).spec_endian(),
            match r {
                Ok(_) => {
                    &&& old(self).spec_position() + *amount < old(self).spec_length()
                    &&& final(self).spec_position() == old(self).spec_position() + *amount
                },
                Err(e) => {
                    &&& old(self).spec_position() + *amount >= old(self).spec_length()
                    &&& final(self).same_state(old(self))
                    &&& e matches BytesParserError::CursorOutOfBoundError(target, len, pos)
                    &&& len as int == old(self).spec_length()
                    &&& pos as int == old(self).spec_position()
                    &&& old(self).spec_position() + *amount <= isize::MAX as int
                        ==> target as int == old(self).spec_position() + *amount
                },
            },
    {
        if *amount < self.length - self.cursor {
            self.cursor = self.cursor + *amount;
            Ok(())
        } else {
            let target: isize = if self.cursor <= isize::MAX as usize && *amount
                <= isize::MAX as usize - self.cursor {
                (self.cursor + *amount) as isize
            } else {
                isize::MAX
            };
            Err(BytesParserError::CursorOutOfBoundError(target, self.length, self.cursor))
        }
    }

    /// Move the internal cursor backward by `amount`.
    ///
    /// The new cursor position corresponds to the next byte that would be
    /// parsed. It produces an error, and leaves the parser unchanged, if the
    /// new cursor position would fall before the start of the internal bytes
    /// array.
    pub fn move_backward(&mut self, amount: &usize) -> (r: Result<(), BytesParserError>)
        requires
            old(self).wf(),
        ensures
            final(self).wf(),
            final(self).spec_buffer() == old(self).spec_buffer(),
            final(self).spec_length() == old(self).spec_length(),
            final(self).spec_endian() == old(self).spec_endian(),
            match r {
                Ok(_) => {
                    &&& old(self).spec_position() - *amount >= 0
                    &&& final(self).spec_position() == old(self).spec_position() - *amount
                },
                Err(e) => {
                    &&& old(self).spec_position() - *amount < 0
                    &&& final(self).same_state(old(self))
                    &&& e matches BytesParserError::CursorOutOfBoundError(target, len, pos)
                    &&& len as int == old(self).spec_length()
                    &&& pos as int == old(self).spec_position()
                    &&& old(self).spec_position() - *amount >= isize::MIN as int
                        ==> target as int == old(self).spec_position() - *amount
                },
            },
    {
        if *amount <= self.cursor {
            self.cursor = self.cursor - *amount;
            Ok(())
        } else {
            let diff = *amount - self.cursor;
            let target: isize = if diff <= isize::MAX as usize {
                -(diff as isize)
            } else {
                isize::MIN
            };
            Err(BytesParserError::CursorOutOfBoundError(target, self.length, self.cursor))
        }
    }

    /// Move the internal cursor at `position`.
    ///
    /// The new cursor position corresponds to the next byte that would be
    /// parsed. It produces an error, and leaves the parser unchanged, if the
    /// given position falls out-of-bound of the internal bytes array; a
    /// position exactly equal to the length is out-of-bound here, even though
    /// scalar parsing may leave the cursor there.
    pub fn move_at(&mut self, position: &usize) -> (r: Result<(), BytesParserError>)
        requires
            old(self).wf(),
        ensures
            final(self).wf(),
            final(self).spec_buffer() == old(self).spec_buffer(),
            final(self).spec_length() == old(self).spec_length(),
            final(self).spec_endian() == old(self).spec_endian(),
            match r {
                Ok(_) => {
                    &&& *position < old(self).spec_length()
                    &&& final(self).spec_position() == *position
                },
                Err(e) => {
                    &&& *position >= old(self).spec_length()
                    &&& final(self).same_state(old(self))
                    &&& e matches BytesParserError::CursorOutOfBoundError(target, len, pos)
                    &&& len as int == old(self).spec_length()
                    &&& pos as int == old(self).spec_position()
                    &&& *position <= isize::MAX as int ==> target as int == *position
                },
            },
    {
        if *position < self.length {
            self.cursor = *position;
            Ok(())
        } else {
            let target: isize = if *position <= isize::MAX as usize {
                *position as isize
            } else {
                isize::MAX
            };
            Err(BytesParserError::CursorOutOfBoundError(target, self.length, self.cursor))
        }
    }

    /// Return the [`ParsingEndian`] currently used.
    pub fn endian(&self) -> (r: ParsingEndian)
        ensures
            r == self.spec_endian(),
    {
        self.endian
    }
}

/// Law: in every well-formed state the cursor lies between 0 and the length
/// of the bytes array, and the count of parseable bytes is exactly the length
/// minus the cursor position.
pub proof fn lemma_cursor_invariant<'a>(p: &BytesParser<'a>)
    requires
        p.wf(),
    ensures
        0 <= p.spec_position() <= p.spec_length(),
        p.spec_parseable() == p.spec_length() - p.spec_position(),
{
}

} // verus!
