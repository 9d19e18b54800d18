//! Rounding of exact values to binary64: to the nearest number, a tie to the
//! one with an even significand.

use vstd::prelude::*;
use vstd::arithmetic::power2::pow2;
use crate::number::power::{
    between_powers, bit_length, lemma_large_powers, lemma_log2_scales, lemma_log2_unique,
    lemma_power_grows, power_of_two,
};
use crate::number::{Number, HIDDEN_BIT, INFINITY_BITS, SIGN_BIT};

verus! {

/// The integer `k` with `2^k <= n / d < 2^(k + 1)`, for positive `n` and `d`.
pub open spec fn floor_log2(n: nat, d: nat) -> int
    decreases
            (if n < d {
                1nat
            } else {
                0nat
            }),
            (if n < d {
                d - n
            } else {
                n - d
            }),
{
    if n == 0 || d == 0 {
        0
    } else if n < d {
        floor_log2(2 * n, d) - 1
    } else if n >= 2 * d {
        floor_log2(n, 2 * d) + 1
    } else {
        0
    }
}

/// The integer nearest to `n / d`; of two that are equally near, the even one.
pub open spec fn nearest_even(n: nat, d: nat) -> nat {
    let q = n / d;
    let r = n % d;
    if 2 * r > d || (2 * r == d && q % 2 == 1) {
        q + 1
    } else {
        q
    }
}

/// The zero with the given sign.
pub open spec fn signed_zero(negative: bool) -> Number {
    if negative {
        Number { bits: SIGN_BIT }
    } else {
        Number { bits: 0 }
    }
}

/// The infinity with the given sign.
pub open spec fn signed_infinity(negative: bool) -> Number {
    if negative {
        Number { bits: (SIGN_BIT + INFINITY_BITS) as u64 }
    } else {
        Number { bits: INFINITY_BITS }
    }
}

/// The exponent of the last place of the binary64 numbers around a value
/// whose leading bit has the exponent `top`: 52 places below it, and never
/// below the exponent of the subnormal numbers.
pub open spec fn last_place(top: int) -> int {
    if top - 52 < -1074 {
        -1074
    } else {
        top - 52
    }
}

/// The number `(-1)^negative * m * 2^q`, where `q` is the exponent of the
/// last place and `m <= 2^53`. The fields of the encoding are consecutive,
/// so a significand of `2^52` or `2^53` carries into the exponent by plain
/// addition; what lies beyond the largest finite number is infinity.
pub open spec fn encoded(negative: bool, m: nat, q: int) -> Number {
    let magnitude = (q + 1074) * HIDDEN_BIT + m;
    if magnitude >= INFINITY_BITS {
        signed_infinity(negative)
    } else if negative {
        Number { bits: (SIGN_BIT + magnitude) as u64 }
    } else {
        Number { bits: magnitude as u64 }
    }
}

/// The binary64 number nearest to `(-1)^negative * (n / d) * 2^e`, for
/// `d > 0`: the value is cut at its last place and rounded there, a tie to
/// the even significand.
pub open spec fn rounded(negative: bool, n: nat, d: nat, e: int) -> Number {
    if n == 0 {
        signed_zero(negative)
    } else {
        let q = last_place(floor_log2(n, d) + e);
        let m = if e >= q {
            nearest_even(n * pow2((e - q) as nat), d)
        } else {
            nearest_even(n, d * pow2((q - e) as nat))
        };
        encoded(negative, m, q)
    }
}

} // verus!

verus! {

/// A product of a quotient and its divisor is divided without rounding.
pub proof fn lemma_nearest_exact(x: nat, d: nat)
    requires
        d > 0,
    ensures
        nearest_even(x * d, d) == x,
{
    vstd::arithmetic::div_mod::lemma_fundamental_div_mod_converse(
        (x * d) as int,
        d as int,
        x as int,
        0,
    );
}

/// A quotient below one half is rounded to zero.
pub proof fn lemma_nearest_small(n: nat, d: nat)
    requires
        2 * n < d,
    ensures
        nearest_even(n, d) == 0,
{
    vstd::arithmetic::div_mod::lemma_fundamental_div_mod_converse(n as int, d as int, 0, n as int);
}

/// Rounding a quotient by a power of two from the whole part of the
/// quotient: with `whole = num / den`, the part of `whole` below the power
/// is held against one half of the power, and on a tie the rest of
/// `num / den` decides before the evenness does.
pub proof fn lemma_nearest_cut(num: nat, den: nat, power: nat, half: nat)
    requires
        den > 0,
        half > 0,
        power == 2 * half,
    ensures
        nearest_even(num, den * power) == {
            let whole = num / den;
            let kept = whole / power;
            let rest = whole % power;
            if rest > half || (rest == half && (num % den != 0 || kept % 2 == 1)) {
                kept + 1
            } else {
                kept
            }
        },
{
    let whole = num / den;
    let kept = whole / power;
    let rest = whole % power;
    let low = num % den;
    vstd::arithmetic::div_mod::lemma_div_denominator(num as int, den as int, power as int);
    vstd::arithmetic::div_mod::lemma_mod_breakdown(num as int, den as int, power as int);
    assert(num / (den * power) == kept);
    assert(num % (den * power) == den * rest + low);
    assert(0 <= low < den) by {
        vstd::arithmetic::div_mod::lemma_mod_bound(num as int, den as int);
    }
    assert(0 <= rest < power) by {
        vstd::arithmetic::div_mod::lemma_mod_bound(whole as int, power as int);
    }
    let r = den * rest + low;
    let d = den * power;
    assert(d == 2 * (den * half)) by (nonlinear_arith)
        requires
            d == den * power,
            power == 2 * half,
    ;
    if rest > half {
        assert(den * rest >= den * half + den) by (nonlinear_arith)
            requires
                rest >= half + 1,
                den > 0,
        ;
        assert(2 * r > d);
    } else if rest == half {
        assert(2 * r == d + 2 * low);
    } else {
        assert(den * rest + den <= den * half) by (nonlinear_arith)
            requires
                rest + 1 <= half,
                den > 0,
        ;
        assert(2 * r < d);
    }
}

/// The number `(-1)^negative * m * 2^q`.
pub fn encode(negative: bool, m: u64, q: i32) -> (r: Number)
    requires
        m <= 0x0020_0000_0000_0000,
        -1074 <= q,
    ensures
        r == encoded(negative, m as nat, q as int),
{
    let magnitude: u64 = if q >= 973 {
        INFINITY_BITS
    } else {
        let sum: u64 = ((q + 1074) as u64) * HIDDEN_BIT + m;
        if sum >= INFINITY_BITS {
            INFINITY_BITS
        } else {
            sum
        }
    };
    assert(q >= 973 ==> (q + 1074) * HIDDEN_BIT + m >= INFINITY_BITS);
    if negative {
        Number { bits: SIGN_BIT + magnitude }
    } else {
        Number { bits: magnitude }
    }
}

/// The whole part of a quotient with `len` binary digits puts the
/// quotient between the power of `len - 1` and the next.
pub proof fn lemma_quotient_between(num: nat, den: nat, len: nat)
    requires
        den > 0,
        len > 0,
        pow2((len - 1) as nat) <= num / den < pow2(len),
    ensures
        floor_log2(num, den) == len - 1,
        num > 0,
{
    let whole = num / den;
    let p = pow2((len - 1) as nat);
    vstd::arithmetic::div_mod::lemma_fundamental_div_mod(num as int, den as int);
    vstd::arithmetic::div_mod::lemma_mod_bound(num as int, den as int);
    vstd::arithmetic::power2::lemma_pow2_unfold(len);
    vstd::arithmetic::power2::lemma_pow2_pos((len - 1) as nat);
    assert(den * p <= den * whole) by (nonlinear_arith)
        requires
            p <= whole,
    ;
    assert(den * (whole + 1) <= den * (2 * p)) by (nonlinear_arith)
        requires
            whole + 1 <= 2 * p,
    ;
    assert(den * (whole + 1) == den * whole + den) by (nonlinear_arith);
    assert(den * (2 * p) == 2 * (den * p)) by (nonlinear_arith);
    assert(den * p > 0) by (nonlinear_arith)
        requires
            den > 0,
            p > 0,
    ;
    assert(between_powers(num, den, len - 1));
    lemma_log2_unique(num, den, len - 1);
}

/// The number nearest to `(num / den) * 2^e`, from the whole part of the
/// quotient and the word whether the quotient has a fraction. A quotient
/// with a fraction must have a whole part of more than 53 binary digits,
/// so that the fraction can only break a tie.
pub(crate) fn round_quotient(
    negative: bool,
    whole: u128,
    inexact: bool,
    e: i32,
    Ghost(num): Ghost<nat>,
    Ghost(den): Ghost<nat>,
) -> (r: Number)
    requires
        den > 0,
        whole == num / den,
        inexact == (num % den != 0),
        whole < 0x0100_0000_0000_0000_0000_0000_0000_0000,
        inexact ==> whole >= 0x0020_0000_0000_0000,
        -5000 <= e <= 5000,
    ensures
        r == rounded(negative, num, den, e as int),
{
    proof {
        lemma_large_powers();
        vstd::arithmetic::div_mod::lemma_fundamental_div_mod(num as int, den as int);
    }
    if whole == 0 {
        assert(num == 0) by (nonlinear_arith)
            requires
                num == den * 0 + 0,
        ;
        return encode(negative, 0, -1074);
    }
    let len: u32 = bit_length(whole);
    proof {
        lemma_quotient_between(num, den, len as nat);
        if inexact && len <= 53 {
            lemma_power_grows(len as nat, 53);
        }
    }
    let top: i32 = (len as i32) - 1 + e;
    let q: i32 = if top - 52 < -1074 {
        -1074
    } else {
        top - 52
    };
    assert(q == last_place(floor_log2(num, den) + e));
    let m: u64 = if e >= q {
        let lift: u32 = (e - q) as u32;
        let power: u128 = power_of_two(lift);
        proof {
            // the lifted whole part stays below 2^53, and is the quotient
            vstd::arithmetic::power2::lemma_pow2_adds(len as nat, lift as nat);
            lemma_power_grows((len + lift) as nat, 53);
            assert(whole * power < pow2(len as nat) * power) by (nonlinear_arith)
                requires
                    whole < pow2(len as nat),
                    power > 0,
            ;
            assert(num == den * whole);
            assert(num * pow2(lift as nat) == (whole * power) * den) by (nonlinear_arith)
                requires
                    num == den * whole,
                    power == pow2(lift as nat),
            ;
            lemma_nearest_exact((whole * power) as nat, den);
        }
        (whole * power) as u64
    } else {
        let cut: i32 = q - e;
        if cut > 121 {
            proof {
                let power = pow2(cut as nat);
                lemma_power_grows(121, cut as nat);
                vstd::arithmetic::power2::lemma_pow2_adds(120, 1);
                vstd::arithmetic::div_mod::lemma_mod_bound(num as int, den as int);
                assert(2 * num < den * power) by (nonlinear_arith)
                    requires
                        num < den * whole + den,
                        whole + 1 <= pow2(120),
                        2 * pow2(120) <= power,
                        den > 0,
                ;
                lemma_nearest_small(num, den * power);
            }
            0
        } else {
            let power: u128 = power_of_two(cut as u32);
            let half: u128 = power / 2;
            let kept: u128 = whole / power;
            let rest: u128 = whole % power;
            proof {
                vstd::arithmetic::power2::lemma_pow2_unfold(cut as nat);
                vstd::arithmetic::power2::lemma_pow2_pos((cut - 1) as nat);
                lemma_nearest_cut(num, den, power as nat, half as nat);
                // what is kept stays below 2^53
                if len >= 53 {
                    lemma_power_grows((len - 53) as nat, cut as nat);
                    vstd::arithmetic::power2::lemma_pow2_adds((len - 53) as nat, 53);
                    assert(whole < pow2(53) * power) by (nonlinear_arith)
                        requires
                            whole < pow2((len - 53) as nat) * pow2(53),
                            pow2((len - 53) as nat) <= power,
                    ;
                } else {
                    lemma_power_grows(len as nat, 53);
                    assert(whole < pow2(53) * power) by (nonlinear_arith)
                        requires
                            whole < pow2(53),
                            power >= 1,
                    ;
                }
                vstd::arithmetic::div_mod::lemma_div_by_multiple_is_strongly_ordered(
                    whole as int,
                    (pow2(53) * power) as int,
                    pow2(53) as int,
                    power as int,
                );
                vstd::arithmetic::div_mod::lemma_div_by_multiple(pow2(53) as int, power as int);
            }
            assert(kept < 0x0020_0000_0000_0000);
            let up: bool = rest > half || (rest == half && (inexact || kept % 2 == 1));
            if up {
                (kept + 1) as u64
            } else {
                kept as u64
            }
        }
    };
    encode(negative, m, q)
}

/// A common factor of dividend and divisor does not change the rounded
/// quotient.
pub proof fn lemma_nearest_scaled(x: nat, y: nat, c: nat)
    requires
        y > 0,
        c > 0,
    ensures
        nearest_even(x * c, y * c) == nearest_even(x, y),
{
    vstd::arithmetic::div_mod::lemma_div_multiples_vanish_quotient(c as int, x as int, y as int);
    vstd::arithmetic::div_mod::lemma_truncate_middle(x as int, c as int, y as int);
    assert(x * c == c * x) by (nonlinear_arith);
    assert(y * c == c * y) by (nonlinear_arith);
    let r = x % y;
    assert((x * c) / (y * c) == x / y);
    assert((x * c) % (y * c) == c * r);
    assert(2 * (c * r) > c * y <==> 2 * r > y) by (nonlinear_arith)
        requires
            c > 0,
    ;
    assert(2 * (c * r) == c * y <==> 2 * r == y) by (nonlinear_arith)
        requires
            c > 0,
    ;
}

/// The value at its last place, as a dividend and a divisor: the value
/// `(n / d) * 2^t` is `n * 2^t / d` or `n / (d * 2^-t)`.
pub open spec fn at_last_place(n: nat, d: nat, t: int) -> (nat, nat) {
    if t >= 0 {
        (n * pow2(t as nat), d)
    } else {
        (n, d * pow2((-t) as nat))
    }
}

/// Powers of two moved between the dividend, the divisor and the exponent
/// leave the value at its last place a common factor apart.
proof fn lemma_last_place_rescaled(n: nat, d: nat, t: int, a: nat, b: nat)
    requires
        d > 0,
    ensures
        ({
            let (x, y) = at_last_place(n, d, t);
            let (x2, y2) = at_last_place(n * pow2(a), d * pow2(b), t - a + b);
            &&& y > 0
            &&& y2 > 0
            &&& nearest_even(x2, y2) == nearest_even(x, y)
        }),
{
    let t2 = t - a + b;
    let (x, y) = at_last_place(n, d, t);
    let (x2, y2) = at_last_place(n * pow2(a), d * pow2(b), t2);
    let pa = pow2(a);
    let pb = pow2(b);
    vstd::arithmetic::power2::lemma_pow2_pos(a);
    vstd::arithmetic::power2::lemma_pow2_pos(b);
    if t >= 0 && t2 >= 0 {
        // a + t2 == t + b
        let pt = pow2(t as nat);
        let pt2 = pow2(t2 as nat);
        vstd::arithmetic::power2::lemma_pow2_adds(a, t2 as nat);
        vstd::arithmetic::power2::lemma_pow2_adds(t as nat, b);
        assert((n * pa) * pt2 == (n * pt) * pb) by (nonlinear_arith)
            requires
                pa * pt2 == pt * pb,
        ;
        lemma_nearest_scaled(x, y, pb);
    } else if t >= 0 && t2 < 0 {
        // a - t == b - t2 > 0
        let pt = pow2(t as nat);
        let pm = pow2((-t2) as nat);
        let c = pow2((a - t) as nat);
        vstd::arithmetic::power2::lemma_pow2_pos((a - t) as nat);
        vstd::arithmetic::power2::lemma_pow2_adds(t as nat, (a - t) as nat);
        vstd::arithmetic::power2::lemma_pow2_adds(b, (-t2) as nat);
        assert(n * pa == (n * pt) * c) by (nonlinear_arith)
            requires
                pa == pt * c,
        ;
        assert((d * pb) * pm == d * c) by (nonlinear_arith)
            requires
                c == pb * pm,
        ;
        lemma_nearest_scaled(x, y, c);
    } else if t < 0 && t2 >= 0 {
        // b == (a + t2) + (-t)
        let pm = pow2((-t) as nat);
        let pt2 = pow2(t2 as nat);
        let c = pow2((a + t2) as nat);
        vstd::arithmetic::power2::lemma_pow2_pos((-t) as nat);
        vstd::arithmetic::power2::lemma_pow2_pos((a + t2) as nat);
        vstd::arithmetic::power2::lemma_pow2_adds(a, t2 as nat);
        vstd::arithmetic::power2::lemma_pow2_adds((-t) as nat, (a + t2) as nat);
        assert((n * pa) * pt2 == n * c) by (nonlinear_arith)
            requires
                c == pa * pt2,
        ;
        assert(d * pb == (d * pm) * c) by (nonlinear_arith)
            requires
                pb == pm * c,
        ;
        assert(d * pm > 0) by (nonlinear_arith)
            requires
                d > 0,
                pm > 0,
        ;
        lemma_nearest_scaled(x, y, c);
    } else {
        // b - t2 == a - t
        let pm = pow2((-t) as nat);
        let pm2 = pow2((-t2) as nat);
        vstd::arithmetic::power2::lemma_pow2_pos((-t) as nat);
        vstd::arithmetic::power2::lemma_pow2_adds(b, (-t2) as nat);
        vstd::arithmetic::power2::lemma_pow2_adds((-t) as nat, a);
        assert((d * pb) * pm2 == (d * pm) * pa) by (nonlinear_arith)
            requires
                pb * pm2 == pm * pa,
        ;
        assert(d * pm > 0) by (nonlinear_arith)
            requires
                d > 0,
                pm > 0,
        ;
        lemma_nearest_scaled(x, y, pa);
    }
    assert(y > 0) by (nonlinear_arith)
        requires
            d > 0,
            y == d || (t < 0 && y == d * pow2((-t) as nat) && pow2((-t) as nat) > 0),
    {
        if t < 0 {
            vstd::arithmetic::power2::lemma_pow2_pos((-t) as nat);
        }
    }
    assert(d * pb > 0) by (nonlinear_arith)
        requires
            d > 0,
            pb > 0,
    ;
    if t2 < 0 {
        vstd::arithmetic::power2::lemma_pow2_pos((-t2) as nat);
        assert((d * pb) * pow2((-t2) as nat) > 0) by (nonlinear_arith)
            requires
                d * pb > 0,
                pow2((-t2) as nat) > 0,
        ;
    }
}

/// Rounding sees the value only: powers of two can be moved between the
/// dividend, the divisor and the exponent.
pub proof fn lemma_rounded_rescale(negative: bool, n: nat, d: nat, e: int, a: nat, b: nat)
    requires
        d > 0,
    ensures
        rounded(negative, n * pow2(a), d * pow2(b), e - a + b) == rounded(negative, n, d, e),
{
    if n == 0 {
        assert(n * pow2(a) == 0) by (nonlinear_arith)
            requires
                n == 0,
        ;
    } else {
        lemma_log2_scales(n, d, a, b);
        let q = last_place(floor_log2(n, d) + e);
        lemma_last_place_rescaled(n, d, e - q, a, b);
    }
}

} // verus!
