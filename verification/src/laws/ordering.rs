//! The order of numbers is the order of their values.

use vstd::prelude::*;
use vstd::arithmetic::power2::{lemma_pow2_adds, lemma_pow2_pos, pow2};
use crate::number::arith::signed;
use crate::number::power::{lemma_large_powers, lemma_power_grows};
use crate::number::{Number, HIDDEN_BIT};

verus! {

/// The value of a finite number in units of `2^-1074`, of which every
/// finite number is a whole multiple.
pub open spec fn in_units(x: Number) -> int {
    signed(x.is_negative(), x.significand()) * pow2((x.exponent() + 1074) as nat)
}

/// The magnitude of the value of a finite number in units of `2^-1074`.
pub open spec fn magnitude_in_units(x: Number) -> nat {
    x.significand() * pow2((x.exponent() + 1074) as nat)
}

/// The value of a finite number lies between the powers of two that its
/// exponent field names; that of a subnormal number is its field of
/// fraction.
proof fn lemma_units_bounds(x: Number)
    requires
        x.is_finite(),
    ensures
        x.magnitude() < HIDDEN_BIT ==> magnitude_in_units(x) == x.magnitude(),
        x.magnitude() >= HIDDEN_BIT ==> pow2((x.magnitude() / HIDDEN_BIT + 51) as nat)
            <= magnitude_in_units(x) < pow2((x.magnitude() / HIDDEN_BIT + 52) as nat),
        x.magnitude() >= HIDDEN_BIT ==> magnitude_in_units(x) == (HIDDEN_BIT + x.magnitude()
            % HIDDEN_BIT) * pow2((x.magnitude() / HIDDEN_BIT - 1) as nat),
{
    lemma_large_powers();
    let m = x.significand();
    if x.magnitude() < HIDDEN_BIT {
        assert(m * pow2(0) == m) by (nonlinear_arith)
            requires
                pow2(0) == 1,
        ;
    } else {
        let field = (x.magnitude() / HIDDEN_BIT) as nat;
        let p = pow2((field - 1) as nat);
        lemma_pow2_pos((field - 1) as nat);
        lemma_pow2_adds(52, (field - 1) as nat);
        lemma_pow2_adds(53, (field - 1) as nat);
        assert(pow2(52) * p <= m * p) by (nonlinear_arith)
            requires
                pow2(52) <= m,
                p > 0,
        ;
        assert(m * p < pow2(53) * p) by (nonlinear_arith)
            requires
                m < pow2(53),
                p > 0,
        ;
    }
}

/// The encodings of finite numbers grow with the magnitudes of their
/// values.
pub proof fn lemma_magnitude_orders_values(a: Number, b: Number)
    requires
        a.is_finite(),
        b.is_finite(),
    ensures
        a.magnitude() < b.magnitude() <==> magnitude_in_units(a) < magnitude_in_units(b),
        a.magnitude() == b.magnitude() <==> magnitude_in_units(a) == magnitude_in_units(b),
{
    lemma_large_powers();
    lemma_units_bounds(a);
    lemma_units_bounds(b);
    let fa = (a.magnitude() / HIDDEN_BIT) as nat;
    let fb = (b.magnitude() / HIDDEN_BIT) as nat;
    if fa < fb {
        lemma_power_grows(52, fb + 51);
        lemma_power_grows(fa + 52, fb + 51);
    } else if fb < fa {
        lemma_power_grows(52, fa + 51);
        lemma_power_grows(fb + 52, fa + 51);
    } else if fa > 0 {
        let p = pow2((fa - 1) as nat);
        let ma = (HIDDEN_BIT + a.magnitude() % HIDDEN_BIT) as int;
        let mb = (HIDDEN_BIT + b.magnitude() % HIDDEN_BIT) as int;
        lemma_pow2_pos((fa - 1) as nat);
        assert(ma < mb <==> ma * p < mb * p) by (nonlinear_arith)
            requires
                p > 0,
        ;
        assert(ma == mb <==> ma * p == mb * p) by (nonlinear_arith)
            requires
                p > 0,
        ;
    }
}

/// Of two finite numbers, one is below the other exactly if its value is
/// the smaller, and they are equal exactly if their values are: the order
/// that the encodings give is that of the values.
pub proof fn law_order_is_that_of_values(a: Number, b: Number)
    requires
        a.is_finite(),
        b.is_finite(),
    ensures
        a.below(b) <==> in_units(a) < in_units(b),
        a.equals(b) <==> in_units(a) == in_units(b),
        a.at_most(b) <==> in_units(a) <= in_units(b),
{
    lemma_magnitude_orders_values(a, b);
    let zero = Number { bits: 0 };
    lemma_magnitude_orders_values(a, zero);
    lemma_magnitude_orders_values(b, zero);
    assert(zero.significand() == 0 && zero.exponent() == -1074);
    assert(magnitude_in_units(zero) == 0) by (nonlinear_arith)
        requires
            magnitude_in_units(zero) == 0 * pow2(0),
    ;
    let ua = magnitude_in_units(a) as int;
    let ub = magnitude_in_units(b) as int;
    let pa = pow2((a.exponent() + 1074) as nat) as int;
    let pb = pow2((b.exponent() + 1074) as nat) as int;
    assert(in_units(a) == if a.is_negative() {
        -ua
    } else {
        ua
    }) by (nonlinear_arith)
        requires
            ua == a.significand() * pa,
            in_units(a) == signed(a.is_negative(), a.significand()) * pa,
    ;
    assert(in_units(b) == if b.is_negative() {
        -ub
    } else {
        ub
    }) by (nonlinear_arith)
        requires
            ub == b.significand() * pb,
            in_units(b) == signed(b.is_negative(), b.significand()) * pb,
    ;
}

} // verus!
