//! IEEE-754 binary64 numbers, held by their bit pattern.
//!
//! Verified code has no floating-point arithmetic, so a sample value travels
//! through this library as the 64 bits of its encoding. Everything the
//! library decides about a number (its sign, whether it is a NaN, how two
//! numbers compare) is read off those bits with integer arithmetic alone.
use vstd::prelude::*;

verus! {

/// The sign bit of the encoding; also the pattern of negative zero.
pub const SIGN_BIT: u64 = 0x8000_0000_0000_0000;

/// The pattern of positive infinity. Larger magnitudes are NaNs.
pub const INFINITY_BITS: u64 = 0x7FF0_0000_0000_0000;

/// The pattern of `1.0`.
pub const ONE_BITS: u64 = 0x3FF0_0000_0000_0000;

/// A binary64 number, identified by its encoding.
#[derive(Clone, Copy, Debug, PartialEq, Eq, Structural)]
pub struct Double {
    pub bits: u64,
}

impl Double {
    /// The encoding with the sign bit cleared.
    pub open spec fn magnitude(self) -> u64 {
        if self.bits >= SIGN_BIT {
            (self.bits - SIGN_BIT) as u64
        } else {
            self.bits
        }
    }

    /// Whether the sign bit is set.
    pub open spec fn negative(self) -> bool {
        self.bits >= SIGN_BIT
    }

    /// Whether the number is a NaN: exponent all ones, fraction not zero.
    pub open spec fn nan(self) -> bool {
        self.magnitude() > INFINITY_BITS
    }

    /// Whether the number is positive or negative infinity.
    pub open spec fn infinite(self) -> bool {
        self.magnitude() == INFINITY_BITS
    }

    /// Whether the number is positive or negative zero.
    pub open spec fn zero(self) -> bool {
        self.magnitude() == 0
    }

    /// The place of a number on the number line, as an integer.
    ///
    /// Among numbers that are not NaNs, a larger magnitude pattern is a
    /// larger absolute value, so mirroring the negative patterns below zero
    /// gives an integer that grows exactly as the number does. Both zeros
    /// have ordinal 0.
    pub open spec fn ordinal(self) -> int {
        if self.negative() {
            -(self.magnitude() as int)
        } else {
            self.magnitude() as int
        }
    }

    /// The key of the NaN-last order: the ordinal, with every NaN placed
    /// just above positive infinity.
    pub open spec fn rank(self) -> int {
        if self.nan() {
            INFINITY_BITS as int + 1
        } else {
            self.ordinal()
        }
    }

    /// Numeric `<`: false whenever either side is a NaN.
    pub open spec fn less(self, other: Double) -> bool {
        !self.nan() && !other.nan() && self.ordinal() < other.ordinal()
    }

    /// Numeric `==`: false whenever either side is a NaN; the two zeros are
    /// equal.
    pub open spec fn same(self, other: Double) -> bool {
        !self.nan() && !other.nan() && self.ordinal() == other.ordinal()
    }

    /// Numeric `>=`: false whenever either side is a NaN.
    pub open spec fn at_least(self, other: Double) -> bool {
        !self.nan() && !other.nan() && self.ordinal() >= other.ordinal()
    }

    /// Numeric `> 0`.
    pub open spec fn positive(self) -> bool {
        !self.nan() && !self.negative() && !self.zero()
    }

    /// The number with its sign bit cleared.
    pub open spec fn absolute(self) -> Double {
        Double { bits: self.magnitude() }
    }

    /// The number with its sign bit flipped.
    pub open spec fn negated(self) -> Double {
        if self.bits >= SIGN_BIT {
            Double { bits: (self.bits - SIGN_BIT) as u64 }
        } else {
            Double { bits: (self.bits + SIGN_BIT) as u64 }
        }
    }

    /// Wraps an encoding.
    pub fn from_bits(bits: u64) -> (d: Double)
        ensures
            d.bits == bits,
    {
        Double { bits }
    }

    /// The encoding.
    pub fn to_bits(self) -> (bits: u64)
        ensures
            bits == self.bits,
    {
        self.bits
    }

    /// Positive zero.
    pub fn zero_value() -> (d: Double)
        ensures
            d.bits == 0,
    {
        Double { bits: 0 }
    }

    /// Whether the sign bit is set; true of negative zero too.
    pub fn is_sign_negative(self) -> (b: bool)
        ensures
            b == self.negative(),
    {
        self.bits >= SIGN_BIT
    }

    /// The absolute value.
    pub fn abs(self) -> (d: Double)
        ensures
            d == self.absolute(),
    {
        if self.bits >= SIGN_BIT {
            Double { bits: self.bits - SIGN_BIT }
        } else {
            self
        }
    }

    /// The negation.
    pub fn neg(self) -> (d: Double)
        ensures
            d == self.negated(),
    {
        if self.bits >= SIGN_BIT {
            Double { bits: self.bits - SIGN_BIT }
        } else {
            Double { bits: self.bits + SIGN_BIT }
        }
    }

    /// Whether the number is a NaN.
    pub fn is_nan(self) -> (b: bool)
        ensures
            b == self.nan(),
    {
        self.abs().bits > INFINITY_BITS
    }

    /// Whether the number is an infinity.
    pub fn is_infinite(self) -> (b: bool)
        ensures
            b == self.infinite(),
    {
        self.abs().bits == INFINITY_BITS
    }

    /// Whether the number is a zero.
    pub fn is_zero(self) -> (b: bool)
        ensures
            b == self.zero(),
    {
        self.abs().bits == 0
    }

    /// Whether the number is greater than zero.
    pub fn is_positive(self) -> (b: bool)
        ensures
            b == self.positive(),
    {
        0 < self.bits && self.bits <= INFINITY_BITS
    }

    /// Numeric `<`.
    pub fn lt(self, other: Double) -> (b: bool)
        ensures
            b == self.less(other),
    {
        if self.is_nan() || other.is_nan() {
            return false;
        }
        let a: u64 = self.abs().bits;
        let c: u64 = other.abs().bits;
        if self.is_sign_negative() {
            if other.is_sign_negative() {
                c < a
            } else {
                a > 0 || c > 0
            }
        } else {
            !other.is_sign_negative() && a < c
        }
    }

    /// Numeric `>=`.
    pub fn ge(self, other: Double) -> (b: bool)
        ensures
            b == self.at_least(other),
    {
        if self.is_nan() || other.is_nan() {
            return false;
        }
        !self.lt(other)
    }

    /// Numeric `==`.
    pub fn eq_value(self, other: Double) -> (b: bool)
        ensures
            b == self.same(other),
    {
        if self.is_nan() || other.is_nan() {
            return false;
        }
        !self.lt(other) && !other.lt(self)
    }
}

/// Taking the absolute value forgets exactly the sign: a number and its
/// negation have the same absolute value, and the absolute value of a number
/// that is not negative is the number itself.
pub proof fn lemma_absolute_of_negated(d: Double)
    ensures
        d.negated().absolute() == d.absolute(),
        d.negated().negated() == d,
        d.negated().nan() == d.nan(),
        !d.negative() ==> d.absolute() == d,
{
}

/// The ordinal of a negation is the negated ordinal.
pub proof fn lemma_ordinal_of_negated(d: Double)
    ensures
        d.negated().ordinal() == -d.ordinal(),
{
}

} // verus!
