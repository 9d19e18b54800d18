//! Numbers from decimal digits.

use vstd::prelude::*;
use vstd::arithmetic::power2::pow2;
use crate::number::power::{bit_length, lemma_large_powers, lemma_power_grows, power_of_two};
use crate::number::round::{lemma_rounded_rescale, round_quotient, rounded};
use crate::number::Number;

verus! {

/// The most decimal places that [`Number::from_decimal`] takes.
pub const MAX_PLACES: u32 = 19;

/// `10^k`.
pub open spec fn pow10(k: nat) -> nat
    decreases k,
{
    if k == 0 {
        1
    } else {
        10 * pow10((k - 1) as nat)
    }
}

/// Powers of ten grow with the exponent, and `10^19` is below `2^64`.
pub proof fn lemma_pow10_bound(k: nat)
    requires
        k <= 19,
    ensures
        0 < pow10(k) <= 10_000_000_000_000_000_000,
    decreases 19 - k,
{
    reveal_with_fuel(pow10, 20);
}

/// `10^k`.
pub fn power_of_ten(k: u32) -> (p: u128)
    requires
        k <= MAX_PLACES,
    ensures
        p == pow10(k as nat),
        0 < p <= 10_000_000_000_000_000_000,
{
    let mut p: u128 = 1;
    let mut i: u32 = 0;
    while i < k
        invariant
            i <= k <= MAX_PLACES,
            p == pow10(i as nat),
        decreases k - i,
    {
        proof {
            lemma_pow10_bound(i as nat);
            lemma_pow10_bound((i + 1) as nat);
        }
        p = p * 10;
        i += 1;
    }
    proof {
        lemma_pow10_bound(k as nat);
    }
    p
}

impl Number {
    /// The number nearest to `digits / 10^places`: the value of a decimal
    /// literal whose digits, without the point, are `digits` and of which
    /// `places` stand behind the point.
    pub fn from_decimal(digits: u64, places: u32) -> (n: Number)
        requires
            places <= MAX_PLACES,
        ensures
            n == rounded(false, digits as nat, pow10(places as nat), 0),
    {
        let den: u128 = power_of_ten(places);
        if digits == 0 {
            return Number { bits: 0 };
        }
        // the digits with 120 binary digits, so that the quotient has
        // more than 53
        let len: u32 = bit_length(digits as u128);
        proof {
            lemma_large_powers();
            if len > 64 {
                lemma_power_grows(64, (len - 1) as nat);
            }
        }
        let lift: u32 = 120 - len;
        let power: u128 = power_of_two(lift);
        let wide: u128 = digits as u128;
        proof {
            vstd::arithmetic::power2::lemma_pow2_adds(len as nat, lift as nat);
            vstd::arithmetic::power2::lemma_pow2_adds((len - 1) as nat, lift as nat);
            vstd::arithmetic::power2::lemma_pow2_adds(64, 55);
            assert(wide * power < pow2(len as nat) * power) by (nonlinear_arith)
                requires
                    wide < pow2(len as nat),
                    power > 0,
            ;
            assert(wide * power >= pow2((len - 1) as nat) * power) by (nonlinear_arith)
                requires
                    wide >= pow2((len - 1) as nat),
                    power > 0,
            ;
        }
        let scaled: u128 = wide * power;
        let whole: u128 = scaled / den;
        let inexact: bool = scaled % den != 0;
        proof {
            vstd::arithmetic::div_mod::lemma_fundamental_div_mod(scaled as int, den as int);
            vstd::arithmetic::div_mod::lemma_mod_bound(scaled as int, den as int);
            assert(whole >= 0x0020_0000_0000_0000) by (nonlinear_arith)
                requires
                    scaled == den * whole + scaled % den,
                    scaled % den < den,
                    scaled >= 0x0080_0000_0000_0000_0000_0000_0000_0000,
                    0 < den <= 10_000_000_000_000_000_000,
            ;
            assert(whole <= scaled) by (nonlinear_arith)
                requires
                    scaled == den * whole + scaled % den,
                    scaled % den >= 0,
                    den >= 1,
                    whole >= 0,
            ;
            lemma_rounded_rescale(false, digits as nat, den as nat, 0, lift as nat, 0);
            assert(den * pow2(0) == den) by (nonlinear_arith)
                requires
                    pow2(0) == 1,
            ;
        }
        round_quotient(
            false,
            whole,
            inexact,
            -(lift as i32),
            Ghost(scaled as nat),
            Ghost(den as nat),
        )
    }
}

} // verus!
