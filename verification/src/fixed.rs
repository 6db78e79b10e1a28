//! Fixed-point scalar arithmetic.
//!
//! A raw `i64` value `v` stands for the real number `v / ONE`. All scalar
//! arithmetic of the renderer is expressed with the exact integer operations
//! below, so every rounding step is pinned down in the contracts.
use vstd::arithmetic::div_mod::{
    lemma_div_is_ordered, lemma_div_multiples_vanish, lemma_div_pos_is_pos,
};
use vstd::arithmetic::mul::lemma_mul_is_commutative;
use vstd::prelude::*;

verus! {

/// One unit in the fixed-point scale: raw value `v` stands for `v / 1_000_000`.
pub const ONE: i64 = 1_000_000;

/// Truncating (round-toward-zero) division, the semantics of Rust's `/`
/// on signed integers when the divisor is positive.
pub open spec fn div_trunc(n: int, d: int) -> int {
    if n >= 0 {
        n / d
    } else {
        -((-n) / d)
    }
}

/// Floor of the square root of a nonnegative integer.
pub open spec fn sqrt_floor(n: int) -> int
    decreases n,
{
    if n <= 0 {
        0
    } else {
        let s = sqrt_floor(n - 1);
        if (s + 1) * (s + 1) <= n {
            s + 1
        } else {
            s
        }
    }
}

/// `sqrt_floor(n)` is the unique integer `s >= 0` with `s * s <= n < (s + 1) * (s + 1)`.
pub proof fn lemma_sqrt_floor_props(n: int)
    requires
        n >= 0,
    ensures
        0 <= sqrt_floor(n),
        sqrt_floor(n) * sqrt_floor(n) <= n,
        n < (sqrt_floor(n) + 1) * (sqrt_floor(n) + 1),
    decreases n,
{
    if n > 0 {
        lemma_sqrt_floor_props(n - 1);
        let s = sqrt_floor(n - 1);
        if (s + 1) * (s + 1) <= n {
            assert(n == (s + 1) * (s + 1));
            assert((s + 1) * (s + 1) < (s + 2) * (s + 2)) by (nonlinear_arith)
                requires
                    s >= 0,
            ;
        }
    }
}

/// Any integer satisfying the floor-square-root bracketing equals `sqrt_floor`.
pub proof fn lemma_sqrt_floor_unique(n: int, r: int)
    requires
        n >= 0,
        r >= 0,
        r * r <= n,
        n < (r + 1) * (r + 1),
    ensures
        r == sqrt_floor(n),
{
    lemma_sqrt_floor_props(n);
    let s = sqrt_floor(n);
    if r < s {
        assert((r + 1) * (r + 1) <= s * s) by (nonlinear_arith)
            requires
                0 <= r + 1 <= s,
        ;
    }
    if s < r {
        assert((s + 1) * (s + 1) <= r * r) by (nonlinear_arith)
            requires
                0 <= s + 1 <= r,
        ;
    }
}

/// The floor square root never decreases when its argument grows.
pub proof fn lemma_sqrt_floor_monotonic(a: int, b: int)
    requires
        0 <= a <= b,
    ensures
        sqrt_floor(a) <= sqrt_floor(b),
{
    lemma_sqrt_floor_props(a);
    lemma_sqrt_floor_props(b);
    let sa = sqrt_floor(a);
    let sb = sqrt_floor(b);
    if sb < sa {
        assert((sb + 1) * (sb + 1) <= sa * sa) by (nonlinear_arith)
            requires
                0 <= sb + 1 <= sa,
        ;
    }
}

/// A magnitude bound on truncating division: `|n| <= m * d` gives `|n / d| <= m`.
pub proof fn lemma_div_trunc_bound(n: int, d: int, m: int)
    requires
        d >= 1,
        m >= 0,
        -(m * d) <= n <= m * d,
    ensures
        -m <= div_trunc(n, d) <= m,
        n >= 0 ==> div_trunc(n, d) >= 0,
        n <= 0 ==> div_trunc(n, d) <= 0,
{
    if n >= 0 {
        lemma_div_pos_is_pos(n, d);
        lemma_div_is_ordered(n, m * d, d);
        lemma_div_multiples_vanish(m, d);
        lemma_mul_is_commutative(m, d);
    } else {
        lemma_div_pos_is_pos(-n, d);
        lemma_div_is_ordered(-n, m * d, d);
        lemma_div_multiples_vanish(m, d);
        lemma_mul_is_commutative(m, d);
    }
}

/// Dividing an exact multiple is exact: `(x * d) / d == x`.
pub proof fn lemma_div_trunc_exact(x: int, d: int)
    requires
        d >= 1,
    ensures
        div_trunc(x * d, d) == x,
{
    if x >= 0 {
        lemma_div_multiples_vanish(x, d);
        lemma_mul_is_commutative(x, d);
    } else {
        lemma_div_multiples_vanish(-x, d);
        lemma_mul_is_commutative(-x, d);
        assert(-(x * d) == -x * d) by (nonlinear_arith);
    }
}

/// Truncating division leaves a remainder smaller than the divisor:
/// `|n - (n / d) * d| <= d - 1`.
pub proof fn lemma_div_trunc_remainder(n: int, d: int)
    requires
        d >= 1,
    ensures
        -(d - 1) <= n - div_trunc(n, d) * d <= d - 1,
{
    if n >= 0 {
        vstd::arithmetic::div_mod::lemma_remainder(n, d);
    } else {
        vstd::arithmetic::div_mod::lemma_remainder(-n, d);
        assert(div_trunc(n, d) * d == -((-n) / d * d)) by (nonlinear_arith)
            requires
                div_trunc(n, d) == -((-n) / d),
        ;
    }
}

/// The product of two attenuation factors in `[0, ONE]` never amplifies:
/// the fixed-point product is at most either factor, and stays in `[0, ONE]`.
pub proof fn lemma_fp_mul_non_amplifying(a: int, b: int)
    requires
        0 <= a <= ONE,
        0 <= b <= ONE,
    ensures
        0 <= div_trunc(a * b, ONE as int),
        div_trunc(a * b, ONE as int) <= a,
        div_trunc(a * b, ONE as int) <= b,
        div_trunc(a * b, ONE as int) <= ONE,
{
    assert(a * b >= 0 && a * b <= a * ONE && a * b <= b * ONE) by (nonlinear_arith)
        requires
            0 <= a <= ONE,
            0 <= b <= ONE,
    ;
    lemma_div_pos_is_pos(a * b, ONE as int);
    lemma_div_is_ordered(a * b, a * ONE, ONE as int);
    lemma_div_is_ordered(a * b, b * ONE, ONE as int);
    lemma_div_trunc_exact(a, ONE as int);
    lemma_div_trunc_exact(b, ONE as int);
}

/// Floor square root of a nonnegative 128-bit integer below `2^126`,
/// by bisection on the bracketing invariant.
pub fn isqrt(n: u128) -> (r: u64)
    requires
        n < 85070591730234615865843651857942052864,  // 2^126
    ensures
        r * r <= n < (r + 1) * (r + 1),
        r == sqrt_floor(n as int),
{
    let mut lo: u128 = 0;
    let mut hi: u128 = 9223372036854775808;  // 2^63
    proof {
        assert(hi * hi == 85070591730234615865843651857942052864) by (nonlinear_arith)
            requires
                hi == 9223372036854775808,
        ;
    }
    while lo + 1 < hi
        invariant
            lo < hi,
            hi <= 9223372036854775808,
            lo * lo <= n,
            n < hi * hi,
        decreases hi - lo,
    {
        let mid: u128 = lo + (hi - lo) / 2;
        proof {
            assert(lo < mid < hi);
            assert(mid * mid < 85070591730234615865843651857942052864) by (nonlinear_arith)
                requires
                    mid < 9223372036854775808,
            ;
        }
        if mid * mid <= n {
            lo = mid;
        } else {
            hi = mid;
        }
    }
    proof {
        lemma_sqrt_floor_unique(n as int, lo as int);
    }
    lo as u64
}

/// Fixed-point multiplication, truncated toward zero.
pub fn fp_mul(a: i64, b: i64) -> (r: i64)
    requires
        -(i64::MAX as int) * (ONE as int) <= (a as int) * (b as int) <= (i64::MAX as int) * (
        ONE as int),
    ensures
        r == div_trunc((a as int) * (b as int), ONE as int),
{
    proof {
        assert((a as int) * (b as int) <= 85070591730234615865843651857942052864 && (a as int) * (
        b as int) >= -85070591730234615865843651857942052864) by (nonlinear_arith)
            requires
                i64::MIN <= a <= i64::MAX,
                i64::MIN <= b <= i64::MAX,
        ;
        lemma_div_trunc_bound((a as int) * (b as int), ONE as int, i64::MAX as int);
    }
    let wide: i128 = (a as i128) * (b as i128);
    let q: i128 = wide / (ONE as i128);
    q as i64
}

/// Fixed-point division by a positive divisor, truncated toward zero.
pub fn fp_div(n: i64, d: i64) -> (r: i64)
    requires
        d >= 1,
        -(i64::MAX as int) * (d as int) <= (n as int) * (ONE as int) <= (i64::MAX as int) * (
        d as int),
    ensures
        r == div_trunc((n as int) * (ONE as int), d as int),
{
    proof {
        lemma_div_trunc_bound((n as int) * (ONE as int), d as int, i64::MAX as int);
    }
    let wide: i128 = (n as i128) * (ONE as i128);
    let q: i128 = wide / (d as i128);
    q as i64
}

/// Fixed-point square root of a value in `[0, ONE]` (used for gamma correction):
/// the result `r` satisfies `r / ONE == sqrt(c / ONE)` up to truncation.
pub fn fp_sqrt(c: i64) -> (r: i64)
    requires
        0 <= c <= ONE,
    ensures
        r == sqrt_floor((c as int) * (ONE as int)),
        0 <= r <= ONE,
{
    let wide: u128 = (c as u128) * (ONE as u128);
    let r: u64 = isqrt(wide);
    proof {
        lemma_sqrt_floor_props(wide as int);
        assert(sqrt_floor(wide as int) <= ONE) by {
            if sqrt_floor(wide as int) > ONE {
                assert((ONE + 1) * (ONE + 1) <= sqrt_floor(wide as int) * sqrt_floor(wide as int))
                    by (nonlinear_arith)
                    requires
                        0 <= (ONE as int) + 1 <= sqrt_floor(wide as int),
                ;
            }
        }
    }
    r as i64
}

} // verus!
