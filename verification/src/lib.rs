//! A cursor-tracking reader for decoding bespoke binary wire formats from an
//! in-memory byte buffer.
//!
//! The core type is [`BytesParser`]: it borrows a slice of bytes, keeps a
//! cursor, and exposes typed reads (fixed-width scalars, UTF-8 text, single
//! characters) together with cursor movement operations. Multi-byte scalars
//! are reconstructed according to a configurable [`ParsingEndian`], and every
//! fallible operation reports one of the closed set of [`BytesParserError`]
//! kinds instead of panicking.
//!
//! Every operation carries a contract that pins down the decoded value as a
//! function of the underlying bytes, the exact condition under which each
//! error is returned, and the cursor position afterwards. The numeric model
//! behind those contracts lives in [`decode`].

pub mod decode;
mod endianness;
mod errors;
mod parser;

pub use endianness::ParsingEndian;
pub use errors::BytesParserError;
pub use parser::BytesParser;
