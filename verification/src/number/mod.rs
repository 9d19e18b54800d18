//! Numbers of the language: IEEE 754 binary64 values, computed on their encodings.
//!
//! A [`Number`] holds the 64 bits of a binary64 value: one sign bit, eleven
//! bits of biased exponent and fifty-two bits of fraction. Every operation
//! of the language on numbers is integer arithmetic on these fields.

use vstd::prelude::*;

pub mod arith;
pub mod compare;
pub mod decimal;
pub mod power;
pub mod round;

verus! {

/// The sign bit of an encoding.
pub const SIGN_BIT: u64 = 0x8000_0000_0000_0000;

/// The encoding of positive infinity: every exponent bit set, no fraction bit.
pub const INFINITY_BITS: u64 = 0x7ff0_0000_0000_0000;

/// The lowest exponent bit, which is also the implicit leading bit of the
/// significand of a normal number.
pub const HIDDEN_BIT: u64 = 0x0010_0000_0000_0000;

/// The encoding this library gives to a result that is not a number.
pub const NAN_BITS: u64 = 0x7ff8_0000_0000_0000;

/// A number, held as the 64 bits of its IEEE 754 binary64 encoding.
#[derive(Clone, Copy, Debug)]
pub struct Number {
    pub bits: u64,
}

impl Number {
    /// The encoding without its sign bit.
    pub open spec fn magnitude(self) -> u64 {
        if self.bits >= SIGN_BIT {
            (self.bits - SIGN_BIT) as u64
        } else {
            self.bits
        }
    }

    /// Whether the sign bit is set (also for zero and for a NaN).
    pub open spec fn is_negative(self) -> bool {
        self.bits >= SIGN_BIT
    }

    /// Whether the encoding stands for no number.
    pub open spec fn is_nan(self) -> bool {
        self.magnitude() > INFINITY_BITS
    }

    /// Whether the number is positive or negative infinity.
    pub open spec fn is_infinite(self) -> bool {
        self.magnitude() == INFINITY_BITS
    }

    /// Whether the number is zero, subnormal or normal.
    pub open spec fn is_finite(self) -> bool {
        self.magnitude() < INFINITY_BITS
    }

    /// Whether the number is positive or negative zero.
    pub open spec fn is_zero(self) -> bool {
        self.magnitude() == 0
    }

    /// The integer `m` of a finite number `(-1)^s * m * 2^e`, below `2^53`.
    pub open spec fn significand(self) -> nat {
        if self.magnitude() < HIDDEN_BIT {
            self.magnitude() as nat
        } else {
            (HIDDEN_BIT + self.magnitude() % HIDDEN_BIT) as nat
        }
    }

    /// The integer `e` of a finite number `(-1)^s * m * 2^e`.
    pub open spec fn exponent(self) -> int {
        if self.magnitude() < HIDDEN_BIT {
            -1074
        } else {
            self.magnitude() / HIDDEN_BIT - 1075
        }
    }

    /// The number with the given encoding.
    pub fn from_bits(bits: u64) -> (n: Number)
        ensures
            n.bits == bits,
    {
        Number { bits }
    }

    /// The encoding of the number.
    pub fn to_bits(self) -> (bits: u64)
        ensures
            bits == self.bits,
    {
        self.bits
    }

    /// Positive zero.
    pub fn zero() -> (n: Number)
        ensures
            n.bits == 0,
    {
        Number { bits: 0 }
    }

    /// The encoding without its sign bit.
    pub fn magnitude_bits(self) -> (m: u64)
        ensures
            m == self.magnitude(),
    {
        if self.bits >= SIGN_BIT {
            self.bits - SIGN_BIT
        } else {
            self.bits
        }
    }

    /// Whether the sign bit is set.
    pub fn sign_bit(self) -> (negative: bool)
        ensures
            negative == self.is_negative(),
    {
        self.bits >= SIGN_BIT
    }

    /// Whether the number is positive or negative zero.
    pub fn is_zero_value(self) -> (zero: bool)
        ensures
            zero == self.is_zero(),
    {
        self.magnitude_bits() == 0
    }

    /// Whether the encoding stands for no number.
    pub fn is_not_a_number(self) -> (nan: bool)
        ensures
            nan == self.is_nan(),
    {
        self.magnitude_bits() > INFINITY_BITS
    }

    /// The number with the opposite sign: only the sign bit changes.
    pub fn negate(self) -> (n: Number)
        ensures
            n == self.negated(),
    {
        if self.bits >= SIGN_BIT {
            Number { bits: self.bits - SIGN_BIT }
        } else {
            Number { bits: self.bits + SIGN_BIT }
        }
    }

    /// The number with the same magnitude and the opposite sign.
    pub open spec fn negated(self) -> Number {
        if self.bits >= SIGN_BIT {
            Number { bits: (self.bits - SIGN_BIT) as u64 }
        } else {
            Number { bits: (self.bits + SIGN_BIT) as u64 }
        }
    }
}

} // verus!
