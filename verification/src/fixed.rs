use vstd::arithmetic::div_mod::{
    lemma_div_is_ordered, lemma_div_multiples_vanish, lemma_div_nonincreasing,
    lemma_div_pos_is_pos, lemma_fundamental_div_mod,
};
use vstd::prelude::*;

verus! {

/// Fixed-point unit: every scalar quantity of the motion model (angles in
/// radians, lengths, speeds, blend fractions) is a signed integer counting
/// millionths, so the model's decimal constants (0.1, 1.5, 200.0) are exact.
pub const SCALE: i64 = 1_000_000;

/// Magnitude of an integer.
pub open spec fn mag(x: int) -> int {
    if x >= 0 {
        x
    } else {
        -x
    }
}

/// Division rounded toward zero, the rounding every scalar operation of this
/// library uses; meaningful for positive `d`.
pub open spec fn trunc_div(n: int, d: int) -> int {
    if n >= 0 {
        n / d
    } else {
        -((-n) / d)
    }
}

/// Product of two fixed-point scalars: `a * b / SCALE`, rounded toward zero.
pub open spec fn mul_fx(a: int, b: int) -> int {
    trunc_div(a * b, SCALE as int)
}

/// `x` clamped into `[lo, hi]`.
pub open spec fn clamp_int(x: int, lo: int, hi: int) -> int {
    if x < lo {
        lo
    } else if x > hi {
        hi
    } else {
        x
    }
}

/// Rounding toward zero never grows a magnitude: `|n / d| * d <= |n|`,
/// `|n / d| <= |n|`, and the sign of `n` is kept.
pub proof fn lemma_trunc_div_props(n: int, d: int)
    requires
        0 < d,
    ensures
        mag(trunc_div(n, d)) * d <= mag(n),
        mag(trunc_div(n, d)) <= mag(n),
        n >= 0 ==> 0 <= trunc_div(n, d) <= n,
        n <= 0 ==> n <= trunc_div(n, d) <= 0,
        mag(n) < d ==> trunc_div(n, d) == 0,
{
    if n >= 0 {
        lemma_fundamental_div_mod(n, d);
        lemma_div_pos_is_pos(n, d);
        lemma_div_nonincreasing(n, d);
        assert(d * (n / d) <= n);
        assert((n / d) * d == d * (n / d)) by (nonlinear_arith);
        if n < d {
            assert(n / d == 0) by {
                vstd::arithmetic::div_mod::lemma_basic_div(n, d);
            }
        }
    } else {
        lemma_fundamental_div_mod(-n, d);
        lemma_div_pos_is_pos(-n, d);
        lemma_div_nonincreasing(-n, d);
        assert(d * ((-n) / d) <= -n);
        assert(((-n) / d) * d == d * ((-n) / d)) by (nonlinear_arith);
        if -n < d {
            assert((-n) / d == 0) by {
                vstd::arithmetic::div_mod::lemma_basic_div(-n, d);
            }
        }
    }
}

/// For a nonnegative scalar and a fraction `0 <= k <= SCALE`, the scaled
/// product `v * k / SCALE` stays within `[0, v]`.
pub proof fn lemma_fraction_below(v: int, k: int)
    requires
        0 <= v,
        0 <= k <= SCALE as int,
    ensures
        0 <= mul_fx(v, k) <= v,
{
    let s: int = SCALE as int;
    assert(v * k >= 0) by (nonlinear_arith)
        requires
            v >= 0,
            k >= 0;
    assert(v * k <= v * s) by (nonlinear_arith)
        requires
            v >= 0,
            k <= s;
    lemma_trunc_div_props(v * k, s);
    lemma_div_is_ordered(v * k, v * s, s);
    lemma_div_multiples_vanish(v, s);
    assert(v * s == s * v) by (nonlinear_arith);
}

/// One damping step on a scalar, `x - x * k / SCALE` for a fraction
/// `0 <= k <= SCALE`, keeps its sign and never grows its magnitude; the full
/// fraction `k == SCALE` lands exactly on zero.
pub proof fn lemma_damp_comp(x: int, k: int)
    requires
        0 <= k <= SCALE as int,
    ensures
        mag(x - mul_fx(x, k)) <= mag(x),
        x >= 0 ==> 0 <= x - mul_fx(x, k) <= x,
        x <= 0 ==> x <= x - mul_fx(x, k) <= 0,
        k == SCALE as int ==> x - mul_fx(x, k) == 0,
{
    let s: int = SCALE as int;
    if x >= 0 {
        lemma_fraction_below(x, k);
        if k == s {
            assert(x * s == s * x) by (nonlinear_arith);
            lemma_div_multiples_vanish(x, s);
        }
    } else {
        lemma_fraction_below(-x, k);
        assert((-x) * k == -(x * k)) by (nonlinear_arith);
        assert(mul_fx(-x, k) == -mul_fx(x, k));
        if k == s {
            assert((-x) * s == s * (-x)) by (nonlinear_arith);
            lemma_div_multiples_vanish(-x, s);
        }
    }
}

/// A bound on both factors bounds the truncated quotient of their product:
/// `|a * b / d| * d <= ma * mb`.
pub proof fn lemma_mul_div_bound(a: int, b: int, d: int, ma: int, mb: int)
    requires
        0 < d,
        mag(a) <= ma,
        mag(b) <= mb,
    ensures
        mag(trunc_div(a * b, d)) * d <= ma * mb,
{
    assert(mag(a * b) == mag(a) * mag(b)) by (nonlinear_arith);
    assert(mag(a) * mag(b) <= ma * mb) by (nonlinear_arith)
        requires
            0 <= mag(a) <= ma,
            0 <= mag(b) <= mb;
    lemma_trunc_div_props(a * b, d);
}

/// A bound on both factors bounds the scaled product:
/// `|a * b / SCALE| * SCALE <= ma * mb`.
pub proof fn lemma_mul_fx_bound(a: int, b: int, ma: int, mb: int)
    requires
        mag(a) <= ma,
        mag(b) <= mb,
    ensures
        mag(mul_fx(a, b)) * (SCALE as int) <= ma * mb,
{
    lemma_mul_div_bound(a, b, SCALE as int, ma, mb);
}

/// Truncating multiply-divide on machine integers: computes `a * b / d`
/// rounded toward zero, exactly as `trunc_div` describes it.
pub fn mul_div_trunc(a: i64, b: i64, d: i64) -> (r: i64)
    requires
        0 < d,
        mag(trunc_div(a as int * b as int, d as int)) <= i64::MAX as int,
    ensures
        r as int == trunc_div(a as int * b as int, d as int),
{
    let neg: bool = (a < 0) != (b < 0);
    let ua: u128 = if a >= 0 {
        a as u128
    } else {
        (-(a as i128)) as u128
    };
    let ub: u128 = if b >= 0 {
        b as u128
    } else {
        (-(b as i128)) as u128
    };
    let ud: u128 = d as u128;
    proof {
        assert(ua == mag(a as int));
        assert(ub == mag(b as int));
        assert(ua <= 0x8000_0000_0000_0000u128);
        assert(ub <= 0x8000_0000_0000_0000u128);
        assert(ua * ub <= 0x8000_0000_0000_0000u128 * 0x8000_0000_0000_0000u128)
            by (nonlinear_arith)
            requires
                ua <= 0x8000_0000_0000_0000u128,
                ub <= 0x8000_0000_0000_0000u128;
    }
    let p: u128 = ua * ub;
    let q: u128 = p / ud;
    proof {
        assert(p == mag(a as int * b as int)) by (nonlinear_arith)
            requires
                p == mag(a as int) * mag(b as int);
        lemma_div_pos_is_pos(p as int, d as int);
        if neg && ((a as int * b as int) > 0) {
            assert(false) by (nonlinear_arith)
                requires
                    (a < 0) != (b < 0),
                    (a as int * b as int) > 0;
        }
        if !neg && ((a as int * b as int) < 0) {
            assert(false) by (nonlinear_arith)
                requires
                    (a < 0) == (b < 0),
                    (a as int * b as int) < 0;
        }
        assert(q == mag(a as int * b as int) / (d as int));
        assert(mag(trunc_div(a as int * b as int, d as int)) == q);
    }
    if neg {
        let r: i64 = -(q as i64);
        r
    } else {
        let r: i64 = q as i64;
        r
    }
}

/// Division of a machine integer by a positive divisor, rounded toward zero.
pub fn div_trunc(n: i64, d: i64) -> (r: i64)
    requires
        0 < d,
        i64::MIN < n,
    ensures
        r as int == trunc_div(n as int, d as int),
{
    proof {
        lemma_trunc_div_props(n as int, d as int);
        assert(n as int * 1 == n as int);
    }
    mul_div_trunc(n, 1, d)
}

/// `a * b / SCALE` on machine integers, rounded toward zero.
pub fn scalar_mul_fx(a: i64, b: i64) -> (r: i64)
    requires
        mag(mul_fx(a as int, b as int)) <= i64::MAX as int,
    ensures
        r as int == mul_fx(a as int, b as int),
{
    mul_div_trunc(a, b, SCALE)
}

/// `x` clamped into `[lo, hi]` on machine integers.
pub fn clamp_i64(x: i64, lo: i64, hi: i64) -> (r: i64)
    requires
        lo <= hi,
    ensures
        r as int == clamp_int(x as int, lo as int, hi as int),
{
    if x < lo {
        lo
    } else if x > hi {
        hi
    } else {
        x
    }
}

} // verus!
