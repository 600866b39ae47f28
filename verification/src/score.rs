//! Confidence scores, held by the bit pattern of a double-precision number.
use vstd::prelude::*;

verus! {

/// A confidence score: the bit pattern of an IEEE 754 double. The patterns are compared as the
/// numbers that they stand for: both zeros are equal, and a pattern that is not a number compares
/// to nothing.
#[derive(Clone, Copy, Debug, PartialEq, Eq, Structural, Hash)]
pub struct Score {
    pub bits: u64,
}

/// The pattern of positive infinity: larger magnitudes are not numbers.
pub const INFINITY_BITS: u64 = 0x7ff0_0000_0000_0000;

/// The sign bit alone, which is also the number of magnitudes.
pub const SIGN_BIT: u64 = 0x8000_0000_0000_0000;

impl Score {
    /// The pattern without its sign bit.
    pub open spec fn magnitude(self) -> int {
        if self.bits >= SIGN_BIT {
            self.bits - SIGN_BIT
        } else {
            self.bits as int
        }
    }

    /// Whether the pattern stands for a number, infinities included.
    pub open spec fn is_number(self) -> bool {
        self.magnitude() <= INFINITY_BITS
    }

    /// Whether the pattern stands for a finite number.
    pub open spec fn is_finite_number(self) -> bool {
        self.magnitude() < INFINITY_BITS
    }

    /// The rank of the number among the doubles: numbers are ordered as their ranks are.
    pub open spec fn rank(self) -> int {
        if self.bits >= SIGN_BIT {
            -self.magnitude()
        } else {
            self.magnitude()
        }
    }

    /// Whether both are numbers and this one is no smaller than `other`.
    pub open spec fn reaches(self, other: Score) -> bool {
        self.is_number() && other.is_number() && self.rank() >= other.rank()
    }

    /// Whether both are numbers and this one is smaller than `other`.
    pub open spec fn falls_below(self, other: Score) -> bool {
        self.is_number() && other.is_number() && self.rank() < other.rank()
    }

    fn magnitude_bits(&self) -> (r: u64)
        ensures
            r == self.magnitude(),
    {
        if self.bits >= SIGN_BIT {
            self.bits - SIGN_BIT
        } else {
            self.bits
        }
    }

    /// The comparison `self < other`.
    pub fn below(&self, other: &Score) -> (r: bool)
        ensures
            r == self.falls_below(*other),
    {
        let mine: u64 = self.magnitude_bits();
        let theirs: u64 = other.magnitude_bits();
        if mine > INFINITY_BITS || theirs > INFINITY_BITS {
            return false;
        }
        let negative = self.bits >= SIGN_BIT;
        let other_negative = other.bits >= SIGN_BIT;
        if negative && other_negative {
            mine > theirs
        } else if negative {
            mine > 0 || theirs > 0
        } else if other_negative {
            false
        } else {
            mine < theirs
        }
    }

    /// The comparison `self >= other`.
    pub fn at_least(&self, other: &Score) -> (r: bool)
        ensures
            r == self.reaches(*other),
    {
        if self.magnitude_bits() > INFINITY_BITS || other.magnitude_bits() > INFINITY_BITS {
            return false;
        }
        !self.below(other)
    }

    /// Whether the score is a finite number.
    pub fn is_finite(&self) -> (r: bool)
        ensures
            r == self.is_finite_number(),
    {
        self.magnitude_bits() < INFINITY_BITS
    }
}

/// Of two numbers, one reaches the other exactly if it does not fall below it; what is not a number
/// does neither.
pub proof fn law_scores_compare(a: Score, b: Score)
    ensures
        a.is_number() && b.is_number() ==> a.reaches(b) != a.falls_below(b),
        !(a.is_number() && b.is_number()) ==> !a.reaches(b) && !a.falls_below(b),
{
}

} // verus!
