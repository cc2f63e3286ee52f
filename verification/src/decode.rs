//! The mathematical model of scalar decoding.
//!
//! A fixed-width scalar is a base-256 number written either big-endian (most
//! significant byte first) or little-endian (least significant byte first).
//! [`be_uint`] and [`le_uint`] give the value of a byte sequence under each
//! convention, [`as_signed`] reinterprets such a value in two's complement,
//! and [`be_bytes_of`] / [`le_bytes_of`] are the corresponding encodings.
//! The round-trip lemmas at the end state that decoding an encoding gives
//! the original value back.

use vstd::arithmetic::div_mod::{lemma_fundamental_div_mod, lemma_multiply_divide_lt};
use vstd::prelude::*;

use crate::endianness::ParsingEndian;

verus! {

/// 256 raised to the power `n`: the number of distinct values of an
/// `n`-byte scalar.
pub open spec fn pow256(n: nat) -> nat
    decreases n,
{
    if n == 0 {
        1
    } else {
        256 * pow256((n - 1) as nat)
    }
}

/// The value of `bs` read as an unsigned base-256 number, most significant
/// byte first.
pub open spec fn be_uint(bs: Seq<u8>) -> nat
    decreases bs.len(),
{
    if bs.len() == 0 {
        0
    } else {
        256 * be_uint(bs.drop_last()) + (bs.last() as nat)
    }
}

/// The value of `bs` read as an unsigned base-256 number, least significant
/// byte first.
pub open spec fn le_uint(bs: Seq<u8>) -> nat
    decreases bs.len(),
{
    if bs.len() == 0 {
        0
    } else {
        (bs.first() as nat) + 256 * le_uint(bs.drop_first())
    }
}

/// The value of `bs` read as an unsigned scalar under the byte order `e`.
pub open spec fn scalar_value(e: ParsingEndian, bs: Seq<u8>) -> nat {
    match e {
        ParsingEndian::BE => be_uint(bs),
        ParsingEndian::LE => le_uint(bs),
    }
}

/// The two's complement reinterpretation of the unsigned value `v` of a
/// `size`-byte scalar.
pub open spec fn as_signed(v: nat, size: nat) -> int {
    if 2 * v < pow256(size) {
        v as int
    } else {
        v - pow256(size)
    }
}

/// The unsigned `size`-byte representative of the signed value `x`:
/// the inverse of [`as_signed`].
pub open spec fn to_unsigned(x: int, size: nat) -> nat {
    if x >= 0 {
        x as nat
    } else {
        (x + pow256(size)) as nat
    }
}

/// The `n`-byte big-endian encoding of `v`.
pub open spec fn be_bytes_of(v: nat, n: nat) -> Seq<u8>
    decreases n,
{
    if n == 0 {
        Seq::empty()
    } else {
        be_bytes_of(v / 256, (n - 1) as nat).push((v % 256) as u8)
    }
}

/// The `n`-byte little-endian encoding of `v`.
pub open spec fn le_bytes_of(v: nat, n: nat) -> Seq<u8>
    decreases n,
{
    if n == 0 {
        Seq::empty()
    } else {
        seq![(v % 256) as u8] + le_bytes_of(v / 256, (n - 1) as nat)
    }
}

/// `pow256` is positive.
pub proof fn lemma_pow256_pos(n: nat)
    ensures
        pow256(n) >= 1,
    decreases n,
{
    if n > 0 {
        lemma_pow256_pos((n - 1) as nat);
    }
}

/// `pow256` is monotonic.
pub proof fn lemma_pow256_increases(a: nat, b: nat)
    requires
        a <= b,
    ensures
        pow256(a) <= pow256(b),
    decreases b,
{
    if a < b {
        lemma_pow256_increases(a, (b - 1) as nat);
        lemma_pow256_pos((b - 1) as nat);
    }
}

/// The values of `pow256` at the widths of the supported scalars.
pub proof fn lemma_pow256_values()
    ensures
        pow256(0) == 1,
        pow256(1) == 0x100,
        pow256(2) == 0x10000,
        pow256(4) == 0x1_0000_0000,
        pow256(8) == 0x1_0000_0000_0000_0000,
        pow256(16) == 0x1_0000_0000_0000_0000_0000_0000_0000_0000,
{
    reveal_with_fuel(pow256, 2);
    assert(pow256(0) == 1);
    assert(pow256(1) == 0x100);
    assert(pow256(2) == 0x10000);
    assert(pow256(3) == 0x100_0000);
    assert(pow256(4) == 0x1_0000_0000);
    assert(pow256(5) == 0x100_0000_0000);
    assert(pow256(6) == 0x1_0000_0000_0000);
    assert(pow256(7) == 0x100_0000_0000_0000);
    assert(pow256(8) == 0x1_0000_0000_0000_0000);
    assert(pow256(9) == 0x100_0000_0000_0000_0000);
    assert(pow256(10) == 0x1_0000_0000_0000_0000_0000);
    assert(pow256(11) == 0x100_0000_0000_0000_0000_0000);
    assert(pow256(12) == 0x1_0000_0000_0000_0000_0000_0000);
    assert(pow256(13) == 0x100_0000_0000_0000_0000_0000_0000);
    assert(pow256(14) == 0x1_0000_0000_0000_0000_0000_0000_0000);
    assert(pow256(15) == 0x100_0000_0000_0000_0000_0000_0000_0000);
    assert(pow256(16) == 0x1_0000_0000_0000_0000_0000_0000_0000_0000);
}

/// An `n`-byte sequence decodes, big-endian, to a value below `pow256(n)`.
pub proof fn lemma_be_uint_bound(bs: Seq<u8>)
    ensures
        be_uint(bs) < pow256(bs.len()),
    decreases bs.len(),
{
    if bs.len() > 0 {
        lemma_be_uint_bound(bs.drop_last());
    }
}

/// An `n`-byte sequence decodes, little-endian, to a value below `pow256(n)`.
pub proof fn lemma_le_uint_bound(bs: Seq<u8>)
    ensures
        le_uint(bs) < pow256(bs.len()),
    decreases bs.len(),
{
    if bs.len() > 0 {
        lemma_le_uint_bound(bs.drop_first());
    }
}

/// An `n`-byte sequence decodes to a value below `pow256(n)` under either
/// byte order.
pub proof fn lemma_scalar_value_bound(e: ParsingEndian, bs: Seq<u8>)
    ensures
        scalar_value(e, bs) < pow256(bs.len()),
{
    lemma_be_uint_bound(bs);
    lemma_le_uint_bound(bs);
}

/// The `n`-byte encoding of `v` under the byte order `e`.
pub open spec fn scalar_bytes_of(e: ParsingEndian, v: nat, n: nat) -> Seq<u8> {
    match e {
        ParsingEndian::BE => be_bytes_of(v, n),
        ParsingEndian::LE => le_bytes_of(v, n),
    }
}

/// Round trip: for any value that fits in `n` bytes, decoding its `n`-byte
/// big-endian encoding yields the value back.
pub proof fn lemma_round_trip_be(v: nat, n: nat)
    requires
        v < pow256(n),
    ensures
        be_bytes_of(v, n).len() == n,
        be_uint(be_bytes_of(v, n)) == v,
    decreases n,
{
    if n == 0 {
        assert(be_bytes_of(v, 0) =~= Seq::<u8>::empty());
    } else {
        let q = v / 256;
        let r = v % 256;
        lemma_multiply_divide_lt(v as int, 256, pow256((n - 1) as nat) as int);
        lemma_round_trip_be(q, (n - 1) as nat);
        lemma_fundamental_div_mod(v as int, 256);
        assert(be_bytes_of(v, n).drop_last() =~= be_bytes_of(q, (n - 1) as nat));
        assert(be_bytes_of(v, n).last() == r as u8);
    }
}

/// Round trip: for any value that fits in `n` bytes, decoding its `n`-byte
/// little-endian encoding yields the value back.
pub proof fn lemma_round_trip_le(v: nat, n: nat)
    requires
        v < pow256(n),
    ensures
        le_bytes_of(v, n).len() == n,
        le_uint(le_bytes_of(v, n)) == v,
    decreases n,
{
    if n == 0 {
        assert(le_bytes_of(v, 0) =~= Seq::<u8>::empty());
    } else {
        let q = v / 256;
        let r = v % 256;
        lemma_multiply_divide_lt(v as int, 256, pow256((n - 1) as nat) as int);
        lemma_round_trip_le(q, (n - 1) as nat);
        lemma_fundamental_div_mod(v as int, 256);
        assert(le_bytes_of(v, n).first() == r as u8);
        assert(le_bytes_of(v, n).drop_first() =~= le_bytes_of(q, (n - 1) as nat));
    }
}

/// Round trip under a chosen byte order: for any value that fits in `n`
/// bytes, decoding its `n`-byte encoding under `e` yields the value back.
pub proof fn lemma_scalar_round_trip(e: ParsingEndian, v: nat, n: nat)
    requires
        v < pow256(n),
    ensures
        scalar_bytes_of(e, v, n).len() == n,
        scalar_value(e, scalar_bytes_of(e, v, n)) == v,
{
    lemma_round_trip_be(v, n);
    lemma_round_trip_le(v, n);
}

/// Round trip for signed values: a signed value that fits in `n` bytes comes
/// back from its unsigned two's complement representative.
pub proof fn lemma_round_trip_signed(x: int, n: nat)
    requires
        -(pow256(n) as int) <= 2 * x < pow256(n) as int,
    ensures
        to_unsigned(x, n) < pow256(n),
        as_signed(to_unsigned(x, n), n) == x,
{
    lemma_pow256_pos(n);
}

} // verus!
