//! The ranking score of a record and the order that scores are ranked in.
use vstd::prelude::*;

verus! {

/// A ranking score, held as the 32 bits of an IEEE 754 single-precision
/// number: a sign bit, then the exponent and the fraction.
///
/// The scoring arithmetic happens outside this library. Here a score is
/// carried, stored and ranked.
#[derive(Clone, Copy, Debug, PartialEq, Eq, Structural)]
pub struct Score {
    pub bits: u32,
}

/// The bits below the sign bit.
pub const MAGNITUDE_MASK: u32 = 0x7fff_ffff;

/// The sign bit.
pub const SIGN_MASK: u32 = 0x8000_0000;

/// The magnitude of an infinity: every larger magnitude is not a number.
pub const INFINITY_MAGNITUDE: u32 = 0x7f80_0000;

impl Score {
    /// The bits without the sign.
    pub open spec fn magnitude(self) -> u32 {
        self.bits & MAGNITUDE_MASK
    }

    /// Whether the sign bit is set.
    pub open spec fn is_negative(self) -> bool {
        self.bits & SIGN_MASK != 0
    }

    /// Whether the bits stand for no number.
    pub open spec fn is_nan(self) -> bool {
        self.magnitude() > INFINITY_MAGNITUDE
    }

    /// The place of a score in the ranking order.
    ///
    /// Among numbers of one sign the magnitudes order as the numbers do, so a
    /// negative number ranks at minus its magnitude and the two zeros rank
    /// alike. What is not a number ranks below every number.
    pub open spec fn rank(self) -> int {
        if self.is_nan() {
            -0x8000_0000
        } else if self.is_negative() {
            -(self.magnitude() as int)
        } else {
            self.magnitude() as int
        }
    }

    /// The score of a record that was never launched.
    pub fn zero() -> (s: Score)
        ensures
            s.bits == 0,
            s.rank() == 0,
    {
        assert(0u32 & 0x7fff_ffffu32 == 0u32) by (bit_vector);
        assert(0u32 & 0x8000_0000u32 == 0u32) by (bit_vector);
        Score { bits: 0 }
    }

    /// The score that the given bits stand for.
    pub fn from_bits(bits: u32) -> (s: Score)
        ensures
            s.bits == bits,
    {
        Score { bits }
    }

    /// The bits of the score.
    pub fn to_bits(self) -> (bits: u32)
        ensures
            bits == self.bits,
    {
        self.bits
    }

    /// Computes the place of the score in the ranking order.
    pub fn rank_value(self) -> (r: i64)
        ensures
            r == self.rank(),
            -0x8000_0000 <= r <= 0x7f80_0000,
    {
        let bits: u32 = self.bits;
        let magnitude: u32 = bits & MAGNITUDE_MASK;
        assert(bits & 0x7fff_ffffu32 <= 0x7fff_ffffu32) by (bit_vector);
        if magnitude > INFINITY_MAGNITUDE {
            -0x8000_0000
        } else if bits & SIGN_MASK != 0 {
            -(magnitude as i64)
        } else {
            magnitude as i64
        }
    }

    /// Whether this score ranks strictly below the other.
    pub fn ranks_below(self, other: Score) -> (r: bool)
        ensures
            r == (self.rank() < other.rank()),
    {
        self.rank_value() < other.rank_value()
    }
}

/// Scores of one sign rank by their magnitudes, every positive number ranks
/// above every negative one, and what is not a number ranks lowest.
pub proof fn lemma_rank_order(a: Score, b: Score)
    ensures
        a.is_nan() && !b.is_nan() ==> a.rank() < b.rank(),
        !a.is_nan() && !b.is_nan() && !a.is_negative() && !b.is_negative() ==> (a.rank()
            <= b.rank() <==> a.magnitude() <= b.magnitude()),
        !a.is_nan() && !b.is_nan() && a.is_negative() && b.is_negative() ==> (a.rank()
            <= b.rank() <==> a.magnitude() >= b.magnitude()),
        !a.is_nan() && !b.is_nan() && a.is_negative() && !b.is_negative() ==> a.rank()
            <= b.rank(),
{
    let x = a.bits;
    let y = b.bits;
    assert(x & 0x7fff_ffffu32 <= 0x7fff_ffffu32) by (bit_vector);
    assert(y & 0x7fff_ffffu32 <= 0x7fff_ffffu32) by (bit_vector);
}

} // verus!
