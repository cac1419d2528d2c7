use crate::fixed::{
    clamp_i64, clamp_int, div_trunc, lemma_mul_fx_bound, mag, mul_fx, scalar_mul_fx, trunc_div,
    SCALE,
};
use vstd::arithmetic::div_mod::{
    lemma_fundamental_div_mod, lemma_fundamental_div_mod_converse, lemma_mod_bound,
};
use vstd::prelude::*;

verus! {

/// One full turn in fixed-point microradians.
pub const TWO_PI: i64 = 6_283_185;

/// A quarter turn; `HALF_PI == 2 * QUARTER_PI` exactly, which the argument
/// reduction below relies on.
pub const HALF_PI: i64 = 1_570_796;

/// An eighth of a turn, the half-width of the polynomial window.
pub const QUARTER_PI: i64 = 785_398;

/// Degree-7 sine polynomial, valid on the window `[-QUARTER_PI, QUARTER_PI]`:
/// `x - x^3/6 + x^5/120 - x^7/5040`, every step rounded toward zero.
pub open spec fn sin_poly(x: int) -> int {
    let x2 = mul_fx(x, x);
    let x3 = mul_fx(x2, x);
    let x5 = mul_fx(x3, x2);
    let x7 = mul_fx(x5, x2);
    x - trunc_div(x3, 6) + trunc_div(x5, 120) - trunc_div(x7, 5040)
}

/// Degree-8 cosine polynomial, valid on the same window:
/// `1 - x^2/2 + x^4/24 - x^6/720 + x^8/40320`, every step rounded toward zero.
pub open spec fn cos_poly(x: int) -> int {
    let x2 = mul_fx(x, x);
    let x4 = mul_fx(x2, x2);
    let x6 = mul_fx(x4, x2);
    let x8 = mul_fx(x6, x2);
    SCALE as int - trunc_div(x2, 2) + trunc_div(x4, 24) - trunc_div(x6, 720) + trunc_div(
        x8,
        40320,
    )
}

/// The angle folded into `[0, TWO_PI)`.
pub open spec fn angle_rem(a: int) -> int {
    a % (TWO_PI as int)
}

/// Which quarter-turn window the folded angle falls in (0 through 4; 4 is
/// the sliver just below a full turn and wraps back onto window 0).
pub open spec fn octant(a: int) -> int {
    (angle_rem(a) + QUARTER_PI as int) / (HALF_PI as int)
}

/// Distance from the centre of the chosen window, in `[-QUARTER_PI, QUARTER_PI]`.
pub open spec fn residual(a: int) -> int {
    angle_rem(a) - octant(a) * (HALF_PI as int)
}

/// Fixed-point sine and cosine of an angle in microradians: fold into a
/// quarter-turn window, evaluate the window polynomials, clamp into
/// `[-SCALE, SCALE]`, and undo the fold.
pub open spec fn sin_cos_fx(a: int) -> (int, int) {
    let k = if octant(a) == 4 {
        0int
    } else {
        octant(a)
    };
    let r = residual(a);
    let sp = clamp_int(sin_poly(r), -(SCALE as int), SCALE as int);
    let cp = clamp_int(cos_poly(r), -(SCALE as int), SCALE as int);
    if k == 0 {
        (sp, cp)
    } else if k == 1 {
        (cp, -sp)
    } else if k == 2 {
        (-sp, -cp)
    } else {
        (-cp, sp)
    }
}

/// Sine of the folded angle, spec shorthand.
pub open spec fn sin_fx(a: int) -> int {
    sin_cos_fx(a).0
}

/// Cosine of the folded angle, spec shorthand.
pub open spec fn cos_fx(a: int) -> int {
    sin_cos_fx(a).1
}

/// Window polynomial for sine, on machine integers.
fn sin_poly_ex(x: i64) -> (r: i64)
    requires
        mag(x as int) <= QUARTER_PI as int,
    ensures
        r as int == sin_poly(x as int),
{
    proof {
        let q: int = QUARTER_PI as int;
        lemma_mul_fx_bound(x as int, x as int, q, q);
        let x2: int = mul_fx(x as int, x as int);
        lemma_mul_fx_bound(x2, x as int, q, q);
        let x3: int = mul_fx(x2, x as int);
        lemma_mul_fx_bound(x3, x2, q, q);
        let x5: int = mul_fx(x3, x2);
        lemma_mul_fx_bound(x5, x2, q, q);
        crate::fixed::lemma_trunc_div_props(x3, 6);
        crate::fixed::lemma_trunc_div_props(x5, 120);
        crate::fixed::lemma_trunc_div_props(mul_fx(x5, x2), 5040);
    }
    let x2: i64 = scalar_mul_fx(x, x);
    let x3: i64 = scalar_mul_fx(x2, x);
    let x5: i64 = scalar_mul_fx(x3, x2);
    let x7: i64 = scalar_mul_fx(x5, x2);
    x - div_trunc(x3, 6) + div_trunc(x5, 120) - div_trunc(x7, 5040)
}

/// Window polynomial for cosine, on machine integers.
fn cos_poly_ex(x: i64) -> (r: i64)
    requires
        mag(x as int) <= QUARTER_PI as int,
    ensures
        r as int == cos_poly(x as int),
{
    proof {
        let q: int = QUARTER_PI as int;
        lemma_mul_fx_bound(x as int, x as int, q, q);
        let x2: int = mul_fx(x as int, x as int);
        lemma_mul_fx_bound(x2, x2, q, q);
        let x4: int = mul_fx(x2, x2);
        lemma_mul_fx_bound(x4, x2, q, q);
        let x6: int = mul_fx(x4, x2);
        lemma_mul_fx_bound(x6, x2, q, q);
        crate::fixed::lemma_trunc_div_props(x2, 2);
        crate::fixed::lemma_trunc_div_props(x4, 24);
        crate::fixed::lemma_trunc_div_props(x6, 720);
        crate::fixed::lemma_trunc_div_props(mul_fx(x6, x2), 40320);
    }
    let x2: i64 = scalar_mul_fx(x, x);
    let x4: i64 = scalar_mul_fx(x2, x2);
    let x6: i64 = scalar_mul_fx(x4, x2);
    let x8: i64 = scalar_mul_fx(x6, x2);
    SCALE - div_trunc(x2, 2) + div_trunc(x4, 24) - div_trunc(x6, 720) + div_trunc(x8, 40320)
}

/// Fixed-point sine and cosine of an angle in microradians, total over all
/// of `i64` and always within `[-SCALE, SCALE]`.
pub fn sin_cos(angle: i64) -> (sc: (i64, i64))
    ensures
        sc.0 as int == sin_fx(angle as int),
        sc.1 as int == cos_fx(angle as int),
        -(SCALE as int) <= sc.0 as int <= SCALE as int,
        -(SCALE as int) <= sc.1 as int <= SCALE as int,
{
    let rem: i64 = if angle >= 0 {
        let m: u64 = (angle as u64) % (TWO_PI as u64);
        proof {
            lemma_mod_bound(angle as int, TWO_PI as int);
        }
        m as i64
    } else {
        let u: u128 = (-(angle as i128)) as u128;
        let m: u128 = u % (TWO_PI as u128);
        proof {
            lemma_mod_bound(u as int, TWO_PI as int);
            lemma_fundamental_div_mod(u as int, TWO_PI as int);
            let qq: int = (u as int) / (TWO_PI as int);
            if m == 0 {
                lemma_fundamental_div_mod_converse(angle as int, TWO_PI as int, -qq, 0);
            } else {
                lemma_fundamental_div_mod_converse(
                    angle as int,
                    TWO_PI as int,
                    -qq - 1,
                    TWO_PI as int - m as int,
                );
            }
        }
        if m == 0 {
            0
        } else {
            TWO_PI - (m as i64)
        }
    };
    proof {
        lemma_mod_bound(angle as int, TWO_PI as int);
        assert(rem as int == angle_rem(angle as int));
        assert(0 <= rem < TWO_PI);
    }
    let k: i64 = ((rem + QUARTER_PI) as u64 / (HALF_PI as u64)) as i64;
    proof {
        let x: int = rem as int + QUARTER_PI as int;
        lemma_fundamental_div_mod(x, HALF_PI as int);
        lemma_mod_bound(x, HALF_PI as int);
        assert(k as int == octant(angle as int));
        assert(0 <= k <= 4) by {
            if k as int >= 5 {
                assert(x >= 5 * (HALF_PI as int));
            }
        }
    }
    let r: i64 = rem - k * HALF_PI;
    proof {
        assert(r as int == residual(angle as int));
        assert(-(QUARTER_PI as int) <= r as int <= QUARTER_PI as int);
    }
    let kk: i64 = if k == 4 {
        0
    } else {
        k
    };
    let sp: i64 = clamp_i64(sin_poly_ex(r), -SCALE, SCALE);
    let cp: i64 = clamp_i64(cos_poly_ex(r), -SCALE, SCALE);
    if kk == 0 {
        (sp, cp)
    } else if kk == 1 {
        (cp, -sp)
    } else if kk == 2 {
        (-sp, -cp)
    } else {
        (-cp, sp)
    }
}

} // verus!
