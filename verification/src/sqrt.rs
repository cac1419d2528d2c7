use vstd::prelude::*;

verus! {

/// Largest integer whose square does not exceed `s`.
pub open spec fn sqrt_floor(s: nat) -> nat
    decreases s,
{
    if s == 0 {
        0
    } else {
        let r: nat = sqrt_floor((s - 1) as nat);
        if (r + 1) * (r + 1) <= s {
            r + 1
        } else {
            r
        }
    }
}

/// Smallest integer whose square is at least `s`.
pub open spec fn sqrt_ceil(s: nat) -> nat {
    if sqrt_floor(s) * sqrt_floor(s) == s {
        sqrt_floor(s)
    } else {
        sqrt_floor(s) + 1
    }
}

/// `sqrt_floor(s)` brackets `s`: its square is at most `s`, the next square
/// is beyond it.
pub proof fn lemma_sqrt_floor(s: nat)
    ensures
        sqrt_floor(s) * sqrt_floor(s) <= s,
        s < (sqrt_floor(s) + 1) * (sqrt_floor(s) + 1),
    decreases s,
{
    if s == 0 {
        assert(sqrt_floor(0) == 0);
        assert(s < (sqrt_floor(s) + 1) * (sqrt_floor(s) + 1)) by (nonlinear_arith)
            requires
                s == 0,
                sqrt_floor(s) == 0;
    } else {
        lemma_sqrt_floor((s - 1) as nat);
        let r: nat = sqrt_floor((s - 1) as nat);
        assert(r * r <= s - 1);
        assert(s - 1 < (r + 1) * (r + 1));
        if (r + 1) * (r + 1) <= s {
            assert(sqrt_floor(s) == r + 1);
            assert((r + 1) * (r + 1) < (r + 2) * (r + 2)) by (nonlinear_arith);
        } else {
            assert(sqrt_floor(s) == r);
        }
    }
}

/// Only one integer square brackets `s` from below.
pub proof fn lemma_sqrt_floor_unique(s: nat, m: nat)
    requires
        m * m <= s,
        s < (m + 1) * (m + 1),
    ensures
        m == sqrt_floor(s),
{
    lemma_sqrt_floor(s);
    let r: nat = sqrt_floor(s);
    if m < r {
        assert((m + 1) * (m + 1) <= r * r) by (nonlinear_arith)
            requires
                m + 1 <= r;
        assert(false);
    }
    if r < m {
        assert((r + 1) * (r + 1) <= m * m) by (nonlinear_arith)
            requires
                r + 1 <= m;
        assert(false);
    }
}

/// `sqrt_ceil(s)` brackets `s` from above; for positive `s` the previous
/// square is strictly below it.
pub proof fn lemma_sqrt_ceil(s: nat)
    ensures
        s <= sqrt_ceil(s) * sqrt_ceil(s),
        s >= 1 ==> 1 <= sqrt_ceil(s),
        s >= 1 ==> (sqrt_ceil(s) - 1) * (sqrt_ceil(s) - 1) < s,
{
    lemma_sqrt_floor(s);
    let f: nat = sqrt_floor(s);
    if f * f == s {
        if s >= 1 {
            assert(f >= 1) by (nonlinear_arith)
                requires
                    f * f >= 1;
            assert((f - 1) * (f - 1) < f * f) by (nonlinear_arith)
                requires
                    f >= 1;
        }
    }
}

/// Floor square root of a machine integer, by bisection.
pub fn sqrt_floor_u128(s: u128) -> (r: u128)
    requires
        s < 0x4000_0000_0000_0000_0000_0000_0000_0000u128,
    ensures
        r as nat == sqrt_floor(s as nat),
        r * r <= s,
{
    let mut lo: u128 = 0;
    let mut hi: u128 = 0x8000_0000_0000_0000u128;
    proof {
        assert(hi as int * hi as int == 0x4000_0000_0000_0000_0000_0000_0000_0000int);
    }
    while hi - lo > 1
        invariant
            lo < hi,
            hi <= 0x8000_0000_0000_0000u128,
            (lo as nat) * (lo as nat) <= s as nat,
            (s as nat) < (hi as nat) * (hi as nat),
        decreases hi - lo,
    {
        let mid: u128 = lo + (hi - lo) / 2;
        proof {
            assert((mid as int) * (mid as int) <= 0x4000_0000_0000_0000_0000_0000_0000_0000int)
                by (nonlinear_arith)
                requires
                    mid <= 0x8000_0000_0000_0000u128;
        }
        if mid * mid <= s {
            lo = mid;
        } else {
            hi = mid;
        }
    }
    proof {
        assert(hi == lo + 1);
        lemma_sqrt_floor_unique(s as nat, lo as nat);
    }
    lo
}

/// Ceiling square root of a machine integer.
pub fn sqrt_ceil_u128(s: u128) -> (r: u128)
    requires
        s < 0x4000_0000_0000_0000_0000_0000_0000_0000u128,
    ensures
        r as nat == sqrt_ceil(s as nat),
        s <= r * r,
{
    let f: u128 = sqrt_floor_u128(s);
    proof {
        lemma_sqrt_floor(s as nat);
        lemma_sqrt_ceil(s as nat);
        assert(f as int * f as int <= s);
        assert((f as int) < 0x8000_0000_0000_0000int) by (nonlinear_arith)
            requires
                f as int * f as int <= s as int,
                (s as int) < 0x4000_0000_0000_0000_0000_0000_0000_0000int,
                f as int >= 0;
    }
    if f * f == s {
        f
    } else {
        f + 1
    }
}

} // verus!
