//! The four operations on numbers, and the passage between numbers and
//! integers.

use vstd::prelude::*;
use vstd::arithmetic::power2::pow2;
use crate::number::power::{bit_length, lemma_large_powers, lemma_power_grows, power_of_two};
use crate::number::round::{
    lemma_rounded_rescale, round_quotient, rounded, signed_infinity, signed_zero,
};
use crate::number::{Number, HIDDEN_BIT, INFINITY_BITS, NAN_BITS, SIGN_BIT};

verus! {

/// The integer `m` with the sign that `negative` tells.
pub open spec fn signed(negative: bool, m: nat) -> int {
    if negative {
        -(m as int)
    } else {
        m as int
    }
}

/// The sum of the finite numbers `(-1)^sa * ma * 2^ea` and
/// `(-1)^sb * mb * 2^eb`: the exact sum, a multiple of the lower of the two
/// powers, rounded. An exact zero is negative only if both numbers are.
pub open spec fn finite_sum(sa: bool, ma: nat, ea: int, sb: bool, mb: nat, eb: int) -> Number {
    let e = if ea <= eb {
        ea
    } else {
        eb
    };
    let exact = signed(sa, ma) * pow2((ea - e) as nat) + signed(sb, mb) * pow2((eb - e) as nat);
    if exact == 0 {
        signed_zero(sa && sb)
    } else if exact < 0 {
        rounded(true, (-exact) as nat, 1, e)
    } else {
        rounded(false, exact as nat, 1, e)
    }
}

/// The encoding that every operation gives to a result that is no number.
pub open spec fn not_a_number() -> Number {
    Number { bits: NAN_BITS }
}

impl Number {
    /// `self + other`: the exact sum of two finite numbers, rounded.
    /// Infinities of opposite signs have no sum.
    pub open spec fn sum(self, other: Number) -> Number {
        if self.is_nan() || other.is_nan() {
            not_a_number()
        } else if self.is_infinite() {
            if other.is_infinite() && self.is_negative() != other.is_negative() {
                not_a_number()
            } else {
                self
            }
        } else if other.is_infinite() {
            other
        } else {
            finite_sum(
                self.is_negative(),
                self.significand(),
                self.exponent(),
                other.is_negative(),
                other.significand(),
                other.exponent(),
            )
        }
    }

    /// `self - other`: the sum of `self` and the negated `other`.
    pub open spec fn difference(self, other: Number) -> Number {
        self.sum(other.negated())
    }

    /// `self * other`: the exact product of two finite numbers, rounded.
    /// Zero times infinity is no number.
    pub open spec fn product(self, other: Number) -> Number {
        let negative = self.is_negative() != other.is_negative();
        if self.is_nan() || other.is_nan() {
            not_a_number()
        } else if self.is_infinite() || other.is_infinite() {
            if self.is_zero() || other.is_zero() {
                not_a_number()
            } else {
                signed_infinity(negative)
            }
        } else {
            rounded(
                negative,
                self.significand() * other.significand(),
                1,
                self.exponent() + other.exponent(),
            )
        }
    }

    /// `self / other`: the exact quotient of two finite numbers, rounded.
    /// Zero by zero and infinity by infinity are no numbers; another number
    /// by zero is infinite.
    pub open spec fn quotient(self, other: Number) -> Number {
        let negative = self.is_negative() != other.is_negative();
        if self.is_nan() || other.is_nan() {
            not_a_number()
        } else if self.is_infinite() {
            if other.is_infinite() {
                not_a_number()
            } else {
                signed_infinity(negative)
            }
        } else if other.is_infinite() {
            signed_zero(negative)
        } else if other.is_zero() {
            if self.is_zero() {
                not_a_number()
            } else {
                signed_infinity(negative)
            }
        } else {
            rounded(
                negative,
                self.significand(),
                other.significand(),
                self.exponent() - other.exponent(),
            )
        }
    }

    /// The integer part of the magnitude of a finite number.
    pub open spec fn whole_magnitude(self) -> nat {
        if self.exponent() >= 0 {
            self.significand() * pow2(self.exponent() as nat)
        } else {
            self.significand() / pow2((-self.exponent()) as nat)
        }
    }

    /// The number cut to an integer toward zero, and held to the range of
    /// `i64`; no number gives 0.
    pub open spec fn truncated(self) -> i64 {
        if self.is_nan() {
            0
        } else if self.is_negative() {
            if self.is_infinite() || self.whole_magnitude() >= 0x8000_0000_0000_0000 {
                i64::MIN
            } else {
                (-(self.whole_magnitude() as int)) as i64
            }
        } else {
            if self.is_infinite() || self.whole_magnitude() > 0x7fff_ffff_ffff_ffff {
                i64::MAX
            } else {
                self.whole_magnitude() as i64
            }
        }
    }

    /// The number nearest to the integer `i`.
    pub open spec fn of_integer(i: int) -> Number {
        if i < 0 {
            rounded(true, (-i) as nat, 1, 0)
        } else {
            rounded(false, i as nat, 1, 0)
        }
    }
}

} // verus!

verus! {

/// The zero with the given sign.
pub fn zero_of(negative: bool) -> (r: Number)
    ensures
        r == signed_zero(negative),
{
    if negative {
        Number { bits: SIGN_BIT }
    } else {
        Number { bits: 0 }
    }
}

/// The infinity with the given sign.
pub fn infinity_of(negative: bool) -> (r: Number)
    ensures
        r == signed_infinity(negative),
{
    if negative {
        Number { bits: SIGN_BIT + INFINITY_BITS }
    } else {
        Number { bits: INFINITY_BITS }
    }
}

/// The sum of two finite numbers, the one with the higher exponent first.
fn add_parts(sa: bool, ma: u64, ea: i32, sb: bool, mb: u64, eb: i32) -> (r: Number)
    requires
        -1074 <= eb <= ea <= 971,
        ma < 0x0020_0000_0000_0000,
        mb < 0x0020_0000_0000_0000,
        ea > -1074 ==> ma >= 0x0010_0000_0000_0000,
    ensures
        r == finite_sum(sa, ma as nat, ea as int, sb, mb as nat, eb as int),
{
    proof {
        lemma_large_powers();
    }
    let gap: i32 = ea - eb;
    if gap <= 64 {
        let power: u128 = power_of_two(gap as u32);
        proof {
            lemma_power_grows(gap as nat, 64);
            assert(ma * power < 0x0020_0000_0000_0000 * 0x1_0000_0000_0000_0000)
                by (nonlinear_arith)
                requires
                    ma < 0x0020_0000_0000_0000,
                    0 < power <= 0x1_0000_0000_0000_0000,
            ;
            assert(signed(sa, ma as nat) * power == signed(sa, (ma * power) as nat))
                by (nonlinear_arith);
            assert(signed(sb, mb as nat) * pow2(0) == signed(sb, mb as nat)) by (nonlinear_arith)
                requires
                    pow2(0) == 1,
            ;
        }
        let high: u128 = (ma as u128) * power;
        let low: u128 = mb as u128;
        if sa == sb {
            let total: u128 = high + low;
            if total == 0 {
                zero_of(sa)
            } else {
                round_quotient(sa, total, false, eb, Ghost(total as nat), Ghost(1nat))
            }
        } else if high > low {
            round_quotient(sa, high - low, false, eb, Ghost((high - low) as nat), Ghost(1nat))
        } else if high < low {
            round_quotient(sb, low - high, false, eb, Ghost((low - high) as nat), Ghost(1nat))
        } else {
            zero_of(false)
        }
    } else {
        // the lower number is less than a sixteenth of the last place of
        // the higher: it can only break a tie
        let base: u128 = (ma as u128) * 16;
        let ghost den = pow2((gap - 4) as nat);
        let ghost high = ma * pow2(gap as nat);
        proof {
            vstd::arithmetic::power2::lemma_pow2_adds(4, (gap - 4) as nat);
            vstd::arithmetic::power2::lemma2_to64();
            vstd::arithmetic::power2::lemma_pow2_pos((gap - 4) as nat);
            lemma_power_grows(53, (gap - 4) as nat);
            assert(high == base * den) by (nonlinear_arith)
                requires
                    high == ma * (16 * den),
                    base == ma * 16,
            ;
            assert(signed(sa, ma as nat) * pow2(gap as nat) == signed(sa, high as nat))
                by (nonlinear_arith)
                requires
                    high == ma * pow2(gap as nat),
            ;
            assert(signed(sb, mb as nat) * pow2(0) == signed(sb, mb as nat)) by (nonlinear_arith)
                requires
                    pow2(0) == 1,
            ;
            assert(base * den >= den * 0x0100_0000_0000_0000) by (nonlinear_arith)
                requires
                    base >= 0x0100_0000_0000_0000,
                    den > 0,
            ;
        }
        let inexact: bool = mb != 0;
        let whole: u128 = if inexact && sa != sb {
            base - 1
        } else {
            base
        };
        let ghost num: nat = if sa == sb {
            (high + mb) as nat
        } else {
            (high - mb) as nat
        };
        proof {
            let rest: int = if !inexact {
                0
            } else if sa == sb {
                mb as int
            } else {
                den - mb
            };
            assert(num == den * whole + rest) by (nonlinear_arith)
                requires
                    high == base * den,
                    num == if sa == sb {
                        high + mb
                    } else {
                        high - mb
                    },
                    high >= mb,
                    whole == if inexact && sa != sb {
                        base - 1
                    } else {
                        base as int
                    },
                    rest == if !inexact {
                        0
                    } else if sa == sb {
                        mb as int
                    } else {
                        den - mb
                    },
                    inexact == (mb != 0),
            ;
            vstd::arithmetic::div_mod::lemma_fundamental_div_mod_converse(
                num as int,
                den as int,
                whole as int,
                rest,
            );
            lemma_rounded_rescale(sa, num, 1, eb as int, 0, (gap - 4) as nat);
            assert(num * pow2(0) == num) by (nonlinear_arith)
                requires
                    pow2(0) == 1,
            ;
            assert(1 * den == den) by (nonlinear_arith);
        }
        round_quotient(sa, whole, inexact, ea - 4, Ghost(num), Ghost(den))
    }
}

impl Number {
    /// `self + other`.
    pub fn plus(self, other: Number) -> (r: Number)
        ensures
            r == self.sum(other),
    {
        if self.is_not_a_number() || other.is_not_a_number() {
            return Number { bits: NAN_BITS };
        }
        if self.is_infinity() {
            if other.is_infinity() && self.sign_bit() != other.sign_bit() {
                return Number { bits: NAN_BITS };
            }
            return self;
        }
        if other.is_infinity() {
            return other;
        }
        let (ma, ea) = self.parts();
        let (mb, eb) = other.parts();
        if ea >= eb {
            add_parts(self.sign_bit(), ma, ea, other.sign_bit(), mb, eb)
        } else {
            add_parts(other.sign_bit(), mb, eb, self.sign_bit(), ma, ea)
        }
    }

    /// `self - other`.
    pub fn minus(self, other: Number) -> (r: Number)
        ensures
            r == self.difference(other),
    {
        self.plus(other.negate())
    }

    /// Whether the number is positive or negative infinity.
    pub fn is_infinity(self) -> (infinite: bool)
        ensures
            infinite == self.is_infinite(),
    {
        self.magnitude_bits() == INFINITY_BITS
    }

    /// The significand and the exponent of a finite number.
    pub fn parts(self) -> (p: (u64, i32))
        requires
            self.is_finite(),
        ensures
            p.0 == self.significand(),
            p.1 == self.exponent(),
            p.0 < 0x0020_0000_0000_0000,
            -1074 <= p.1 <= 971,
            p.1 > -1074 ==> p.0 >= 0x0010_0000_0000_0000,
            p.0 == 0 <==> self.is_zero(),
    {
        let magnitude: u64 = self.magnitude_bits();
        if magnitude < HIDDEN_BIT {
            (magnitude, -1074)
        } else {
            (HIDDEN_BIT + magnitude % HIDDEN_BIT, ((magnitude / HIDDEN_BIT) as i32) - 1075)
        }
    }

    /// `self * other`.
    pub fn times(self, other: Number) -> (r: Number)
        ensures
            r == self.product(other),
    {
        let negative: bool = self.sign_bit() != other.sign_bit();
        if self.is_not_a_number() || other.is_not_a_number() {
            return Number { bits: NAN_BITS };
        }
        if self.is_infinity() || other.is_infinity() {
            if self.is_zero_value() || other.is_zero_value() {
                return Number { bits: NAN_BITS };
            }
            return infinity_of(negative);
        }
        let (ma, ea) = self.parts();
        let (mb, eb) = other.parts();
        let wide_a: u128 = ma as u128;
        let wide_b: u128 = mb as u128;
        assert(wide_a * wide_b < 0x0100_0000_0000_0000_0000_0000_0000_0000) by (nonlinear_arith)
            requires
                wide_a < 0x0020_0000_0000_0000,
                wide_b < 0x0020_0000_0000_0000,
        ;
        let product: u128 = wide_a * wide_b;
        round_quotient(negative, product, false, ea + eb, Ghost(product as nat), Ghost(1nat))
    }

    /// `self / other`.
    pub fn divided_by(self, other: Number) -> (r: Number)
        ensures
            r == self.quotient(other),
    {
        let negative: bool = self.sign_bit() != other.sign_bit();
        if self.is_not_a_number() || other.is_not_a_number() {
            return Number { bits: NAN_BITS };
        }
        if self.is_infinity() {
            if other.is_infinity() {
                return Number { bits: NAN_BITS };
            }
            return infinity_of(negative);
        }
        if other.is_infinity() {
            return zero_of(negative);
        }
        if other.is_zero_value() {
            if self.is_zero_value() {
                return Number { bits: NAN_BITS };
            }
            return infinity_of(negative);
        }
        let (ma, ea) = self.parts();
        let (mb, eb) = other.parts();
        if ma == 0 {
            return zero_of(negative);
        }
        // the dividend with 53 binary digits, and 64 more places
        let digits: u32 = bit_length(ma as u128);
        proof {
            lemma_large_powers();
            if digits > 53 {
                lemma_power_grows(53, (digits - 1) as nat);
            }
        }
        let lift: u32 = 117 - digits;
        let power: u128 = power_of_two(lift);
        let wide: u128 = ma as u128;
        proof {
            vstd::arithmetic::power2::lemma_pow2_adds(digits as nat, lift as nat);
            vstd::arithmetic::power2::lemma_pow2_adds((digits - 1) as nat, lift as nat);
            vstd::arithmetic::power2::lemma_pow2_adds(64, 53);
            vstd::arithmetic::power2::lemma_pow2_adds(64, 52);
            assert(wide * power < pow2(digits as nat) * power) by (nonlinear_arith)
                requires
                    wide < pow2(digits as nat),
                    power > 0,
            ;
            assert(wide * power >= pow2((digits - 1) as nat) * power) by (nonlinear_arith)
                requires
                    wide >= pow2((digits - 1) as nat),
                    power > 0,
            ;
        }
        let scaled: u128 = wide * power;
        let divisor: u128 = mb as u128;
        let whole: u128 = scaled / divisor;
        let inexact: bool = scaled % divisor != 0;
        proof {
            // 2^116 <= scaled < 2^117 and 0 < divisor < 2^53
            vstd::arithmetic::div_mod::lemma_fundamental_div_mod(scaled as int, divisor as int);
            vstd::arithmetic::div_mod::lemma_mod_bound(scaled as int, divisor as int);
            assert(whole >= 0x0020_0000_0000_0000) by (nonlinear_arith)
                requires
                    scaled == divisor * whole + scaled % divisor,
                    scaled % divisor < divisor,
                    scaled >= 0x0010_0000_0000_0000_0000_0000_0000_0000,
                    0 < divisor < 0x0020_0000_0000_0000,
            ;
            assert(whole <= scaled) by (nonlinear_arith)
                requires
                    scaled == divisor * whole + scaled % divisor,
                    scaled % divisor >= 0,
                    divisor >= 1,
                    whole >= 0,
            ;
            lemma_rounded_rescale(
                negative,
                ma as nat,
                mb as nat,
                ea - eb,
                lift as nat,
                0,
            );
            assert(mb * pow2(0) == mb) by (nonlinear_arith)
                requires
                    pow2(0) == 1,
            ;
        }
        round_quotient(
            negative,
            whole,
            inexact,
            ea - eb - (lift as i32),
            Ghost(scaled as nat),
            Ghost(mb as nat),
        )
    }

    /// The number as an integer: cut toward zero, held to the range.
    pub fn to_integer(self) -> (i: i64)
        ensures
            i == self.truncated(),
    {
        if self.is_not_a_number() {
            return 0;
        }
        let negative: bool = self.sign_bit();
        if self.is_infinity() {
            return if negative {
                i64::MIN
            } else {
                i64::MAX
            };
        }
        let (m, e) = self.parts();
        proof {
            lemma_large_powers();
        }
        if e > 10 {
            proof {
                // a normal number of 2^63 at least
                lemma_power_grows(11, e as nat);
                vstd::arithmetic::power2::lemma_pow2_adds(52, 11);
                assert(m * pow2(e as nat) >= pow2(52) * pow2(11)) by (nonlinear_arith)
                    requires
                        m >= pow2(52),
                        pow2(e as nat) >= pow2(11),
                ;
            }
            return if negative {
                i64::MIN
            } else {
                i64::MAX
            };
        }
        let whole: u64 = if e >= 0 {
            let power: u128 = power_of_two(e as u32);
            proof {
                lemma_power_grows(e as nat, 10);
                vstd::arithmetic::power2::lemma_pow2_adds(53, 10);
                assert(m * power < pow2(53) * pow2(10)) by (nonlinear_arith)
                    requires
                        m < pow2(53),
                        0 < power <= pow2(10),
                ;
            }
            ((m as u128) * power) as u64
        } else if e < -63 {
            proof {
                lemma_power_grows(53, (-e) as nat);
                vstd::arithmetic::div_mod::lemma_basic_div(m as int, pow2((-e) as nat) as int);
            }
            0
        } else {
            let power: u128 = power_of_two((-e) as u32);
            ((m as u128) / power) as u64
        };
        if negative {
            if whole == 0 {
                0
            } else {
                -((whole - 1) as i64) - 1
            }
        } else {
            whole as i64
        }
    }

    /// The number nearest to `i`.
    pub fn from_integer(i: i64) -> (n: Number)
        ensures
            n == Number::of_integer(i as int),
    {
        let negative: bool = i < 0;
        let magnitude: u128 = if negative {
            ((-(i + 1)) as u128) + 1
        } else {
            i as u128
        };
        round_quotient(negative, magnitude, false, 0, Ghost(magnitude as nat), Ghost(1nat))
    }
}

} // verus!
