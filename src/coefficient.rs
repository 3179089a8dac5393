//! Facts about IEEE-754 binary64 encodings that the matrix rules rely on.
//!
//! A coefficient is stored as the 64-bit pattern of its double value. Of a
//! pattern, the engine only ever asks whether the value compares equal to 0
//! or to 1 under floating-point `==`, which the encoding settles exactly:
//! `+0.0` and `-0.0` are the two encodings of zero, and `1.0` has one encoding.

use vstd::prelude::*;

verus! {

/// The encoding of `+0.0`.
pub const ZERO: u64 = 0;

/// The encoding of `-0.0`: the sign bit alone.
pub const NEGATIVE_ZERO: u64 = 0x8000_0000_0000_0000;

/// The encoding of `1.0`.
pub const ONE: u64 = 0x3FF0_0000_0000_0000;

/// The canonical quiet NaN that a singular inverse is filled with.
pub const NAN: u64 = 0x7FF8_0000_0000_0000;

/// The value encoded by `b` compares equal to zero.
pub open spec fn is_zero(b: u64) -> bool {
    b == ZERO || b == NEGATIVE_ZERO
}

/// The value encoded by `b` compares equal to one.
pub open spec fn is_one(b: u64) -> bool {
    b == ONE
}

/// Whether the encoded value equals zero.
pub fn coefficient_is_zero(b: u64) -> (r: bool)
    ensures
        r == is_zero(b),
{
    b == ZERO || b == NEGATIVE_ZERO
}

/// Whether the encoded value equals one.
pub fn coefficient_is_one(b: u64) -> (r: bool)
    ensures
        r == is_one(b),
{
    b == ONE
}

} // verus!
