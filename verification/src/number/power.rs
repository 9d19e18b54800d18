//! Powers of two, and where a quotient lies among them.

use vstd::prelude::*;
use vstd::arithmetic::power2::{
    lemma2_to64, lemma2_to64_rest, lemma_pow2_adds, lemma_pow2_pos, lemma_pow2_strictly_increases,
    lemma_pow2_unfold, pow2,
};
use crate::number::round::floor_log2;

verus! {

/// The largest exponent whose power of two this module computes.
pub const MAX_POWER: u32 = 126;

/// The powers of two that this library names, as numbers.
pub proof fn lemma_large_powers()
    ensures
        pow2(126) == 0x4000_0000_0000_0000_0000_0000_0000_0000,
        pow2(120) == 0x0100_0000_0000_0000_0000_0000_0000_0000,
        pow2(119) == 0x0080_0000_0000_0000_0000_0000_0000_0000,
        pow2(0) == 1,
        pow2(1) == 2,
        pow2(52) == 0x0010_0000_0000_0000,
        pow2(53) == 0x0020_0000_0000_0000,
        pow2(63) == 0x8000_0000_0000_0000,
        pow2(64) == 0x1_0000_0000_0000_0000,
{
    lemma2_to64();
    lemma2_to64_rest();
    lemma_pow2_adds(64, 62);
    lemma_pow2_adds(64, 56);
    lemma_pow2_adds(64, 55);
}

/// Powers of two grow with the exponent.
pub proof fn lemma_power_grows(a: nat, b: nat)
    requires
        a <= b,
    ensures
        pow2(a) <= pow2(b),
        pow2(a) > 0,
{
    lemma_pow2_pos(a);
    if a < b {
        lemma_pow2_strictly_increases(a, b);
    }
}

/// `2^k`.
pub fn power_of_two(k: u32) -> (p: u128)
    requires
        k <= MAX_POWER,
    ensures
        p == pow2(k as nat),
        p > 0,
{
    let mut p: u128 = 1;
    let mut i: u32 = 0;
    proof {
        lemma_large_powers();
    }
    while i < k
        invariant
            i <= k <= MAX_POWER,
            p == pow2(i as nat),
            p > 0,
        decreases k - i,
    {
        proof {
            lemma_pow2_unfold((i + 1) as nat);
            lemma_power_grows((i + 1) as nat, 126);
            lemma_large_powers();
        }
        p = p * 2;
        i += 1;
    }
    p
}

/// The number of binary digits of `n`: 0 for 0, and else the `len` with
/// `2^(len - 1) <= n < 2^len`.
pub fn bit_length(n: u128) -> (len: u32)
    requires
        n < 0x0100_0000_0000_0000_0000_0000_0000_0000,
    ensures
        len <= 120,
        n == 0 <==> len == 0,
        len > 0 ==> pow2((len - 1) as nat) <= n < pow2(len as nat),
{
    let mut p: u128 = 1;
    let mut len: u32 = 0;
    proof {
        lemma_large_powers();
    }
    while p <= n
        invariant
            n < 0x0100_0000_0000_0000_0000_0000_0000_0000,
            len <= 120,
            p == pow2(len as nat),
            p > 0,
            len > 0 ==> 0 < pow2((len - 1) as nat) <= n,
            len == 0 ==> p == 1,
        decreases 121 - len,
    {
        proof {
            lemma_large_powers();
            if len >= 120 {
                lemma_power_grows(120, len as nat);
            }
            lemma_pow2_unfold((len + 1) as nat);
            lemma_pow2_pos(len as nat);
        }
        p = p * 2;
        len += 1;
    }
    len
}

/// Whether `2^k <= n / d < 2^(k + 1)`, for positive `n` and `d` and any
/// integer `k`, said without fractions.
pub open spec fn between_powers(n: nat, d: nat, k: int) -> bool {
    if k >= 0 {
        d * pow2(k as nat) <= n < 2 * (d * pow2(k as nat))
    } else {
        d <= n * pow2((-k) as nat) < 2 * d
    }
}

/// The exponent between whose power and the next a quotient lies is its
/// `floor_log2`.
pub proof fn lemma_log2_unique(n: nat, d: nat, k: int)
    requires
        d > 0,
        between_powers(n, d, k),
    ensures
        floor_log2(n, d) == k,
    decreases
            (if k >= 0 {
                k
            } else {
                -k
            }),
{
    lemma_large_powers();
    if k > 0 {
        lemma_pow2_unfold(k as nat);
        lemma_pow2_pos((k - 1) as nat);
        let p = pow2((k - 1) as nat);
        assert(pow2(k as nat) == 2 * p);
        assert(d * (2 * p) == (2 * d) * p) by (nonlinear_arith);
        assert(2 * d <= d * (2 * p)) by (nonlinear_arith)
            requires
                p >= 1,
                d > 0,
        ;
        lemma_log2_unique(n, 2 * d, k - 1);
    } else if k < 0 {
        let j = (-k) as nat;
        lemma_pow2_unfold(j);
        lemma_pow2_pos((j - 1) as nat);
        let p = pow2((j - 1) as nat);
        assert(pow2(j) == 2 * p);
        assert(n * (2 * p) == (2 * n) * p) by (nonlinear_arith);
        assert(n * 2 <= n * (2 * p)) by (nonlinear_arith)
            requires
                p >= 1,
        ;
        assert(n < d);
        assert(n > 0) by (nonlinear_arith)
            requires
                d <= n * pow2(j),
                d > 0,
        ;
        if k + 1 == 0 {
            assert(p == 1);
        }
        lemma_log2_unique(2 * n, d, k + 1);
    }
}

/// A quotient of positive numbers lies between the power of its
/// `floor_log2` and the next.
pub proof fn lemma_log2_exists(n: nat, d: nat)
    requires
        n > 0,
        d > 0,
    ensures
        between_powers(n, d, floor_log2(n, d)),
    decreases
            (if n < d {
                1nat
            } else {
                0nat
            }),
            (if n < d {
                d - n
            } else {
                n - d
            }),
{
    lemma_large_powers();
    if n < d {
        lemma_log2_exists(2 * n, d);
        lemma_between_undoubled(n, d, floor_log2(2 * n, d));
    } else if n >= 2 * d {
        lemma_log2_exists(n, 2 * d);
        lemma_between_unhalved(n, d, floor_log2(n, 2 * d));
    } else {
        assert(d * pow2(0) == d) by (nonlinear_arith)
            requires
                pow2(0) == 1,
        ;
    }
}

/// Where twice the dividend lies, the dividend lies one power lower.
pub proof fn lemma_between_undoubled(n: nat, d: nat, k: int)
    requires
        between_powers(2 * n, d, k),
    ensures
        between_powers(n, d, k - 1),
{
    lemma_large_powers();
    if k >= 1 {
        let p = pow2((k - 1) as nat);
        lemma_pow2_unfold(k as nat);
        assert(d * (2 * p) == 2 * (d * p)) by (nonlinear_arith);
    } else {
        let j = (-k) as nat;
        let p = pow2(j);
        lemma_pow2_unfold(j + 1);
        assert(n * (2 * p) == (2 * n) * p) by (nonlinear_arith);
        if j == 0 {
            assert(d * p == d) by (nonlinear_arith)
                requires
                    p == 1,
            ;
            assert((2 * n) * p == 2 * n) by (nonlinear_arith)
                requires
                    p == 1,
            ;
        }
    }
}

/// Where the dividend lies over twice the divisor, it lies one power
/// higher over the divisor.
pub proof fn lemma_between_unhalved(n: nat, d: nat, k: int)
    requires
        between_powers(n, 2 * d, k),
    ensures
        between_powers(n, d, k + 1),
{
    lemma_large_powers();
    if k >= 0 {
        let p = pow2(k as nat);
        lemma_pow2_unfold((k + 1) as nat);
        assert(d * (2 * p) == (2 * d) * p) by (nonlinear_arith);
    } else {
        let j = (-k) as nat;
        let p = pow2((j - 1) as nat);
        lemma_pow2_unfold(j);
        assert(n * (2 * p) == 2 * (n * p)) by (nonlinear_arith);
        if j == 1 {
            assert(d * pow2(0) == d) by (nonlinear_arith)
                requires
                    pow2(0) == 1,
            ;
            assert(n * p == n) by (nonlinear_arith)
                requires
                    p == 1,
            ;
        }
    }
}

/// Twice the dividend lies one power higher.
pub proof fn lemma_between_doubled(n: nat, d: nat, k: int)
    requires
        between_powers(n, d, k),
    ensures
        between_powers(2 * n, d, k + 1),
{
    lemma_large_powers();
    if k >= 0 {
        let p = pow2(k as nat);
        lemma_pow2_unfold((k + 1) as nat);
        assert(d * (2 * p) == 2 * (d * p)) by (nonlinear_arith);
    } else {
        let j = (-k) as nat;
        let p = pow2((j - 1) as nat);
        lemma_pow2_unfold(j);
        assert(n * (2 * p) == (2 * n) * p) by (nonlinear_arith);
        if j == 1 {
            assert(d * pow2(0) == d) by (nonlinear_arith)
                requires
                    pow2(0) == 1,
            ;
            assert((2 * n) * p == 2 * n) by (nonlinear_arith)
                requires
                    p == 1,
            ;
        }
    }
}

/// Twice the divisor lies one power lower.
pub proof fn lemma_between_halved(n: nat, d: nat, k: int)
    requires
        between_powers(n, d, k),
    ensures
        between_powers(n, 2 * d, k - 1),
{
    lemma_large_powers();
    if k >= 1 {
        lemma_pow2_unfold(k as nat);
        assert(d * (2 * pow2((k - 1) as nat)) == (2 * d) * pow2((k - 1) as nat))
            by (nonlinear_arith);
    } else {
        let j = (-k) as nat;
        lemma_pow2_unfold(j + 1);
        assert(n * (2 * pow2(j)) == 2 * (n * pow2(j))) by (nonlinear_arith);
        if j == 0 {
            assert(d * pow2(0) == d) by (nonlinear_arith)
                requires
                    pow2(0) == 1,
            ;
            assert(n * pow2(0) == n) by (nonlinear_arith)
                requires
                    pow2(0) == 1,
            ;
        }
    }
}

/// `floor_log2` moves with the powers of two in the dividend and in the
/// divisor.
pub proof fn lemma_log2_scales(n: nat, d: nat, a: nat, b: nat)
    requires
        n > 0,
        d > 0,
    ensures
        floor_log2(n * pow2(a), d * pow2(b)) == floor_log2(n, d) + a - b,
        n * pow2(a) > 0,
        d * pow2(b) > 0,
    decreases a + b,
{
    lemma_large_powers();
    lemma_pow2_pos(a);
    lemma_pow2_pos(b);
    assert(n * pow2(a) > 0) by (nonlinear_arith)
        requires
            n > 0,
            pow2(a) > 0,
    ;
    assert(d * pow2(b) > 0) by (nonlinear_arith)
        requires
            d > 0,
            pow2(b) > 0,
    ;
    if a > 0 {
        lemma_log2_scales(n, d, (a - 1) as nat, b);
        let n1 = n * pow2((a - 1) as nat);
        let d1 = d * pow2(b);
        lemma_pow2_unfold(a);
        assert(n * (2 * pow2((a - 1) as nat)) == 2 * n1) by (nonlinear_arith)
            requires
                n1 == n * pow2((a - 1) as nat),
        ;
        lemma_log2_exists(n1, d1);
        lemma_between_doubled(n1, d1, floor_log2(n1, d1));
        lemma_log2_unique(2 * n1, d1, floor_log2(n1, d1) + 1);
    } else if b > 0 {
        lemma_log2_scales(n, d, a, (b - 1) as nat);
        let n1 = n * pow2(a);
        let d1 = d * pow2((b - 1) as nat);
        lemma_pow2_unfold(b);
        assert(d * (2 * pow2((b - 1) as nat)) == 2 * d1) by (nonlinear_arith)
            requires
                d1 == d * pow2((b - 1) as nat),
        ;
        lemma_log2_exists(n1, d1);
        lemma_between_halved(n1, d1, floor_log2(n1, d1));
        lemma_log2_unique(n1, 2 * d1, floor_log2(n1, d1) - 1);
    } else {
        assert(n * pow2(0) == n) by (nonlinear_arith)
            requires
                pow2(0) == 1,
        ;
        assert(d * pow2(0) == d) by (nonlinear_arith)
            requires
                pow2(0) == 1,
        ;
    }
}

} // verus!
