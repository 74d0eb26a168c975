//! Fitness scores. A score is carried as the IEEE-754 binary64 bit pattern of the
//! value a simulation reported, and ordered by the total order on those values, with
//! every NaN ranked below every number.

use vstd::prelude::*;

verus! {

/// Two to the 52nd: the weight of the lowest exponent bit.
pub const EXPONENT_UNIT: u64 = 0x10_0000_0000_0000;

/// The sign bit.
pub const SIGN_BIT: u64 = 0x8000_0000_0000_0000;

/// A fitness score, as the bit pattern of a binary64 floating-point value.
#[derive(Clone, Copy, Debug, Default, PartialEq, Eq, Structural, Hash)]
pub struct Score {
    pub bits: u64,
}

/// Whether a bit pattern is a NaN: every exponent bit set and a nonzero mantissa.
pub open spec fn is_nan_bits(bits: u64) -> bool {
    (bits / EXPONENT_UNIT) % 2048 == 2047 && bits % EXPONENT_UNIT != 0
}

/// The position of a non-NaN value in the total order on binary64 values: negative
/// values have their magnitude bits reversed, non-negative ones sit above all of them.
pub open spec fn order_key(bits: u64) -> int {
    if bits >= SIGN_BIT {
        u64::MAX - bits
    } else {
        bits + SIGN_BIT
    }
}

/// A score's rank: its place in the total order, or -1 for a NaN, below every number.
pub open spec fn rank(s: Score) -> int {
    if is_nan_bits(s.bits) {
        -1
    } else {
        order_key(s.bits)
    }
}

impl Score {
    pub fn from_bits(bits: u64) -> (r: Self)
        ensures
            r.bits == bits,
    {
        Score { bits }
    }

    pub fn to_bits(&self) -> (r: u64)
        ensures
            r == self.bits,
    {
        self.bits
    }

    /// Whether the score is a NaN.
    pub fn is_nan(&self) -> (r: bool)
        ensures
            r == is_nan_bits(self.bits),
    {
        (self.bits / EXPONENT_UNIT) % 2048 == 2047 && self.bits % EXPONENT_UNIT != 0
    }

    /// Whether this score ranks strictly above `other`.
    pub fn beats(&self, other: &Score) -> (r: bool)
        ensures
            r == (rank(*self) > rank(*other)),
    {
        let a_nan = self.is_nan();
        let b_nan = other.is_nan();
        if a_nan {
            false
        } else if b_nan {
            true
        } else {
            let ka = if self.bits >= SIGN_BIT { u64::MAX - self.bits } else { self.bits + SIGN_BIT };
            let kb = if other.bits >= SIGN_BIT { u64::MAX - other.bits } else { other.bits + SIGN_BIT };
            ka > kb
        }
    }
}

/// Distinct non-NaN bit patterns have distinct ranks, so the order on numbers is total.
pub proof fn lemma_rank_injective(a: Score, b: Score)
    requires
        !is_nan_bits(a.bits),
        !is_nan_bits(b.bits),
        a.bits != b.bits,
    ensures
        rank(a) != rank(b),
{
}

} // verus!
