//! Equality and order of numbers.

use vstd::prelude::*;
use crate::number::Number;

verus! {

impl Number {
    /// Where the number stands among the others: its magnitude, negated for
    /// a set sign bit. The encodings of binary64 grow with the magnitude of
    /// the value, so this orders all numbers but NaN, and both zeros get 0.
    pub open spec fn rank(self) -> int {
        if self.is_negative() {
            -(self.magnitude() as int)
        } else {
            self.magnitude() as int
        }
    }

    /// Equality of numbers: nothing equals a NaN, the two zeros are equal.
    pub open spec fn equals(self, other: Number) -> bool {
        !self.is_nan() && !other.is_nan() && self.rank() == other.rank()
    }

    /// Strict order of numbers: a NaN is neither below nor above anything.
    pub open spec fn below(self, other: Number) -> bool {
        !self.is_nan() && !other.is_nan() && self.rank() < other.rank()
    }

    /// Order of numbers: below or equal.
    pub open spec fn at_most(self, other: Number) -> bool {
        !self.is_nan() && !other.is_nan() && self.rank() <= other.rank()
    }

    /// Whether `self == other` as numbers.
    pub fn is_equal(self, other: Number) -> (r: bool)
        ensures
            r == self.equals(other),
    {
        if self.is_not_a_number() || other.is_not_a_number() {
            false
        } else if self.sign_bit() == other.sign_bit() {
            self.magnitude_bits() == other.magnitude_bits()
        } else {
            self.magnitude_bits() == 0 && other.magnitude_bits() == 0
        }
    }

    /// Whether `self < other` as numbers.
    pub fn is_below(self, other: Number) -> (r: bool)
        ensures
            r == self.below(other),
    {
        if self.is_not_a_number() || other.is_not_a_number() {
            false
        } else if self.sign_bit() {
            if other.sign_bit() {
                self.magnitude_bits() > other.magnitude_bits()
            } else {
                self.magnitude_bits() != 0 || other.magnitude_bits() != 0
            }
        } else {
            if other.sign_bit() {
                false
            } else {
                self.magnitude_bits() < other.magnitude_bits()
            }
        }
    }

    /// Whether `self <= other` as numbers.
    pub fn is_at_most(self, other: Number) -> (r: bool)
        ensures
            r == self.at_most(other),
    {
        self.is_below(other) || self.is_equal(other)
    }
}

impl PartialEq for Number {
    fn eq(&self, other: &Number) -> (r: bool) {
        self.is_equal(*other)
    }
}

impl vstd::std_specs::cmp::PartialEqSpecImpl for Number {
    open spec fn obeys_eq_spec() -> bool {
        true
    }

    open spec fn eq_spec(&self, other: &Number) -> bool {
        self.equals(*other)
    }
}

} // verus!
