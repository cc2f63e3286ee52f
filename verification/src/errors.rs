//! The closed set of failures that [`crate::BytesParser`] can produce.

use vstd::prelude::*;

verus! {

/// The standard library's UTF-8 validation error, carried through
/// [`BytesParserError::StringParseError`] as an opaque diagnostic.
#[verifier::external_type_specification]
#[verifier::external_body]
pub struct ExUtf8Error(core::str::Utf8Error);

/// All the errors that [`crate::BytesParser`] can potentially produce.
#[derive(Debug, Eq, PartialEq)]
pub enum BytesParserError {
    /// Not enough bytes left to parse a scalar of the named type.
    NotEnoughBytesForTypeError(String),
    /// Not enough bytes left to parse a string of the given size in bytes.
    NotEnoughBytesForStringError(usize),
    /// Not enough bytes left to cut a slice of the given size in bytes.
    NotEnoughBytesForSlice(usize),
    /// Moving the cursor to or by the given amount would place it
    /// out-of-bound: the fields carry the attempted position, the length of
    /// the bytes array, and the cursor position at the time of the call.
    CursorOutOfBoundError(isize, usize, usize),
    /// The extracted bytes are not a well-formed UTF-8 string.
    StringParseError(core::str::Utf8Error),
    /// A `u32` worth of bytes does not encode a valid Unicode code point.
    InvalidU32ForCharError,
}

} // verus!
