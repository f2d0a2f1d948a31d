//! Scalar coordinates, carried as IEEE-754 double-precision bit patterns.
//!
//! The verified core never performs floating-point arithmetic: it stores,
//! orders and rearranges scalar values.  A scalar is therefore kept as its
//! 64-bit pattern, and comparisons go through a sort key that is strictly
//! monotone in the numeric value over all non-NaN patterns (the classic
//! total-order key: a set sign bit flips the whole word, otherwise only the
//! sign bit is set).  Two patterns denote the same number exactly when they
//! are equal or are the two zeros, which [`normalize`] merges.

use vstd::prelude::*;

verus! {

/// Sign bit of a 64-bit float pattern.
pub const SIGN_MASK: u64 = 0x8000_0000_0000_0000;

/// Exponent bits of a 64-bit float pattern.
pub const EXPONENT_MASK: u64 = 0x7FF0_0000_0000_0000;

/// Fraction bits of a 64-bit float pattern.
pub const FRACTION_MASK: u64 = 0x000F_FFFF_FFFF_FFFF;

/// Everything but the sign bit of a 64-bit float pattern.
pub const MAGNITUDE_MASK: u64 = 0x7FFF_FFFF_FFFF_FFFF;

/// A scalar held as the bit pattern of an IEEE-754 double.
#[derive(Debug, Clone, Copy, PartialEq, Eq, Structural)]
pub struct Real64 {
    pub bits: u64,
}

/// True of the patterns that IEEE-754 reads as NaN: exponent all ones and a
/// non-zero fraction.
pub open spec fn spec_is_nan(a: Real64) -> bool {
    a.bits & EXPONENT_MASK == EXPONENT_MASK && a.bits & FRACTION_MASK != 0
}

/// True of the two zero patterns (positive and negative zero).
pub open spec fn spec_is_zero(a: Real64) -> bool {
    a.bits & MAGNITUDE_MASK == 0
}

/// The canonical pattern for a value: negative zero becomes positive zero,
/// every other pattern stands for itself.
pub open spec fn normalize(a: Real64) -> Real64 {
    if spec_is_zero(a) {
        Real64 { bits: 0 }
    } else {
        a
    }
}

/// Total-order sort key: strictly monotone in the numeric value over all
/// non-NaN patterns, with negative zero below positive zero.
pub open spec fn sort_key(a: Real64) -> u64 {
    if a.bits & SIGN_MASK == SIGN_MASK {
        !a.bits
    } else {
        a.bits | SIGN_MASK
    }
}

/// Numeric `<=` on patterns: the key order of the canonical patterns.  On
/// non-NaN patterns this agrees with the IEEE-754 `<=` of the values.
pub open spec fn num_le(a: Real64, b: Real64) -> bool {
    sort_key(normalize(a)) <= sort_key(normalize(b))
}

/// Numeric `<` on patterns, as [`num_le`].
pub open spec fn num_lt(a: Real64, b: Real64) -> bool {
    sort_key(normalize(a)) < sort_key(normalize(b))
}

impl Real64 {
    /// Wraps a raw 64-bit float pattern.
    pub fn from_bits(bits: u64) -> (r: Real64)
        ensures
            r.bits == bits,
    {
        Real64 { bits }
    }

    /// The raw 64-bit float pattern.
    pub fn bits(&self) -> (r: u64)
        ensures
            r == self.bits,
    {
        self.bits
    }

    /// Whether the pattern is a NaN.
    pub fn is_nan(&self) -> (r: bool)
        ensures
            r == spec_is_nan(*self),
    {
        self.bits & EXPONENT_MASK == EXPONENT_MASK && self.bits & FRACTION_MASK != 0
    }

    /// Numeric `<=` against another pattern.
    pub fn num_le(&self, other: &Real64) -> (r: bool)
        ensures
            r == num_le(*self, *other),
    {
        key(normal(*self)) <= key(normal(*other))
    }

    /// Numeric `<` against another pattern.
    pub fn num_lt(&self, other: &Real64) -> (r: bool)
        ensures
            r == num_lt(*self, *other),
    {
        key(normal(*self)) < key(normal(*other))
    }

    /// The sort key of the canonical pattern: ordering these keys as
    /// unsigned integers orders the values numerically.
    pub fn order_key(&self) -> (r: u64)
        ensures
            r == sort_key(normalize(*self)),
    {
        key(normal(*self))
    }
}

/// Executable form of [`normalize`].
fn normal(a: Real64) -> (r: Real64)
    ensures
        r == normalize(a),
{
    if a.bits & MAGNITUDE_MASK == 0 {
        Real64 { bits: 0 }
    } else {
        a
    }
}

/// Executable form of [`sort_key`].
fn key(a: Real64) -> (r: u64)
    ensures
        r == sort_key(a),
{
    if a.bits & SIGN_MASK == SIGN_MASK {
        !a.bits
    } else {
        a.bits | SIGN_MASK
    }
}

} // verus!
