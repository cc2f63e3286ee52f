//! Byte-order configuration for multi-byte scalar decoding.

use vstd::prelude::*;

verus! {

/// Controls which endian system to use when reconstructing multi-byte scalar
/// values from raw bytes.
///
/// The order in which the bytes of a scalar are read and weighted determines
/// the reconstructed value, so a parser must be told which convention the
/// encoder used.
#[derive(Debug, Copy, Clone, Eq, PartialEq, Structural)]
pub enum ParsingEndian {
    /// Big-endian byte order: the first byte read is the most significant.
    ///
    /// This is the default byte order.
    BE,
    /// Little-endian byte order: the first byte read is the least significant.
    LE,
}

impl Default for ParsingEndian {
    /// The default byte order is [`ParsingEndian::BE`].
    fn default() -> (r: Self)
        ensures
            r == ParsingEndian::BE,
    {
        ParsingEndian::BE
    }
}

} // verus!
