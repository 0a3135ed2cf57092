//! Dollar amounts carried as IEEE 754 binary64 bit patterns.
//!
//! The library never performs floating-point arithmetic. It moves prices and
//! values around and decides whether a value is strictly positive, all of
//! which can be done on the bit pattern alone.

use vstd::prelude::*;

verus! {

/// The bit pattern of positive infinity: the largest pattern with a clear sign
/// bit that is not a NaN.
pub const POSITIVE_INFINITY_BITS: u64 = 0x7FF0_0000_0000_0000;

/// The bit pattern of negative zero: the sign bit alone.
pub const NEGATIVE_ZERO_BITS: u64 = 0x8000_0000_0000_0000;

/// A dollar amount: the bit pattern of a binary64 number.
#[derive(Clone, Copy, Debug, PartialEq, Eq, Structural)]
pub struct Usd {
    pub bits: u64,
}

impl Usd {
    /// Whether the number is strictly greater than zero: the sign bit is
    /// clear, the pattern is not that of zero, and it is not a NaN.
    pub open spec fn positive(self) -> bool {
        0 < self.bits <= POSITIVE_INFINITY_BITS
    }

    /// Whether the number is zero, of either sign.
    pub open spec fn zero(self) -> bool {
        self.bits == 0 || self.bits == NEGATIVE_ZERO_BITS
    }

    /// Wraps a bit pattern.
    pub fn from_bits(bits: u64) -> (r: Usd)
        ensures
            r == (Usd { bits }),
    {
        Usd { bits }
    }

    /// Unwraps the bit pattern.
    pub fn to_bits(self) -> (r: u64)
        ensures
            r == self.bits,
    {
        self.bits
    }

    /// Decides `positive` on the bit pattern.
    pub fn is_positive(self) -> (r: bool)
        ensures
            r == self.positive(),
    {
        0 < self.bits && self.bits <= POSITIVE_INFINITY_BITS
    }
}

} // verus!
