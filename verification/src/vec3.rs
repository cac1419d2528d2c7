use crate::fixed::{lemma_mul_fx_bound, mag, mul_fx, scalar_mul_fx};
use vstd::prelude::*;

verus! {

/// A three-component vector of fixed-point scalars.
#[derive(Clone, Copy, PartialEq, Eq, Structural, Debug)]
pub struct Vec3Fx {
    pub x: i64,
    pub y: i64,
    pub z: i64,
}

/// The mathematical value of a vector: its components as unbounded integers.
pub open spec fn ivec(v: Vec3Fx) -> (int, int, int) {
    (v.x as int, v.y as int, v.z as int)
}

/// All three components of `a` have magnitude at most `m`.
pub open spec fn bounded3(a: (int, int, int), m: int) -> bool {
    mag(a.0) <= m && mag(a.1) <= m && mag(a.2) <= m
}

pub open spec fn add3(a: (int, int, int), b: (int, int, int)) -> (int, int, int) {
    (a.0 + b.0, a.1 + b.1, a.2 + b.2)
}

pub open spec fn neg3(a: (int, int, int)) -> (int, int, int) {
    (-a.0, -a.1, -a.2)
}

pub open spec fn dot3(a: (int, int, int), b: (int, int, int)) -> int {
    a.0 * b.0 + a.1 * b.1 + a.2 * b.2
}

/// Squared Euclidean length.
pub open spec fn norm_sq3(a: (int, int, int)) -> int {
    dot3(a, a)
}

/// Each component scaled by the fixed-point factor `k`.
pub open spec fn scale3_fx(a: (int, int, int), k: int) -> (int, int, int) {
    (mul_fx(a.0, k), mul_fx(a.1, k), mul_fx(a.2, k))
}

/// Fixed-point cross product of two scale-`SCALE` vectors: every product is
/// rounded toward zero before the difference is taken.
pub open spec fn cross3_fx(a: (int, int, int), b: (int, int, int)) -> (int, int, int) {
    (
        mul_fx(a.1, b.2) - mul_fx(a.2, b.1),
        mul_fx(a.2, b.0) - mul_fx(a.0, b.2),
        mul_fx(a.0, b.1) - mul_fx(a.1, b.0),
    )
}

/// A squared length is never negative.
pub proof fn lemma_norm_sq_nonneg(a: (int, int, int))
    ensures
        norm_sq3(a) >= 0,
        a == (0int, 0int, 0int) ==> norm_sq3(a) == 0,
{
    assert(a.0 * a.0 >= 0) by (nonlinear_arith);
    assert(a.1 * a.1 >= 0) by (nonlinear_arith);
    assert(a.2 * a.2 >= 0) by (nonlinear_arith);
}

/// Each component bounds its own square's share of the squared length.
pub proof fn lemma_component_sq_le_norm_sq(a: (int, int, int))
    ensures
        a.0 * a.0 <= norm_sq3(a),
        a.1 * a.1 <= norm_sq3(a),
        a.2 * a.2 <= norm_sq3(a),
{
    assert(a.0 * a.0 >= 0) by (nonlinear_arith);
    assert(a.1 * a.1 >= 0) by (nonlinear_arith);
    assert(a.2 * a.2 >= 0) by (nonlinear_arith);
}

/// Shrinking every component's magnitude shrinks the squared length.
pub proof fn lemma_norm_sq_mono(a: (int, int, int), b: (int, int, int))
    requires
        mag(a.0) <= mag(b.0),
        mag(a.1) <= mag(b.1),
        mag(a.2) <= mag(b.2),
    ensures
        norm_sq3(a) <= norm_sq3(b),
{
    assert(a.0 * a.0 <= b.0 * b.0) by (nonlinear_arith)
        requires
            mag(a.0) <= mag(b.0);
    assert(a.1 * a.1 <= b.1 * b.1) by (nonlinear_arith)
        requires
            mag(a.1) <= mag(b.1);
    assert(a.2 * a.2 <= b.2 * b.2) by (nonlinear_arith)
        requires
            mag(a.2) <= mag(b.2);
}

impl Vec3Fx {
    /// Builds a vector from its components.
    pub fn new(x: i64, y: i64, z: i64) -> (v: Vec3Fx)
        ensures
            ivec(v) == (x as int, y as int, z as int),
    {
        Vec3Fx { x, y, z }
    }

    /// The zero vector.
    pub fn zero() -> (v: Vec3Fx)
        ensures
            ivec(v) == (0int, 0int, 0int),
    {
        Vec3Fx { x: 0, y: 0, z: 0 }
    }

    /// Component-wise sum.
    pub fn plus(&self, other: &Vec3Fx) -> (r: Vec3Fx)
        requires
            mag(self.x + other.x) <= i64::MAX as int,
            mag(self.y + other.y) <= i64::MAX as int,
            mag(self.z + other.z) <= i64::MAX as int,
        ensures
            ivec(r) == add3(ivec(*self), ivec(*other)),
    {
        Vec3Fx { x: self.x + other.x, y: self.y + other.y, z: self.z + other.z }
    }

    /// Component-wise negation.
    pub fn negated(&self) -> (r: Vec3Fx)
        requires
            mag(self.x as int) <= i64::MAX as int,
            mag(self.y as int) <= i64::MAX as int,
            mag(self.z as int) <= i64::MAX as int,
        ensures
            ivec(r) == neg3(ivec(*self)),
    {
        Vec3Fx { x: -self.x, y: -self.y, z: -self.z }
    }

    /// Every component scaled by the fixed-point factor `k`.
    pub fn scaled_fx(&self, k: i64) -> (r: Vec3Fx)
        requires
            mag(mul_fx(self.x as int, k as int)) <= i64::MAX as int,
            mag(mul_fx(self.y as int, k as int)) <= i64::MAX as int,
            mag(mul_fx(self.z as int, k as int)) <= i64::MAX as int,
        ensures
            ivec(r) == scale3_fx(ivec(*self), k as int),
    {
        Vec3Fx {
            x: scalar_mul_fx(self.x, k),
            y: scalar_mul_fx(self.y, k),
            z: scalar_mul_fx(self.z, k),
        }
    }

    /// Fixed-point cross product of two scale-`SCALE` vectors.
    pub fn cross_fx(&self, other: &Vec3Fx) -> (r: Vec3Fx)
        requires
            bounded3(ivec(*self), 2_000_000_000_000),
            bounded3(ivec(*other), 2_000_000_000_000),
        ensures
            ivec(r) == cross3_fx(ivec(*self), ivec(*other)),
            bounded3(ivec(r), 8_000_000_000_000_000_000),
    {
        proof {
            let m: int = 2_000_000_000_000;
            lemma_mul_fx_bound(self.x as int, other.y as int, m, m);
            lemma_mul_fx_bound(self.x as int, other.z as int, m, m);
            lemma_mul_fx_bound(self.y as int, other.x as int, m, m);
            lemma_mul_fx_bound(self.y as int, other.z as int, m, m);
            lemma_mul_fx_bound(self.z as int, other.x as int, m, m);
            lemma_mul_fx_bound(self.z as int, other.y as int, m, m);
        }
        let x: i64 = scalar_mul_fx(self.y, other.z) - scalar_mul_fx(self.z, other.y);
        let y: i64 = scalar_mul_fx(self.z, other.x) - scalar_mul_fx(self.x, other.z);
        let z: i64 = scalar_mul_fx(self.x, other.y) - scalar_mul_fx(self.y, other.x);
        Vec3Fx { x, y, z }
    }

    /// Squared Euclidean length, exact in a wide integer.
    pub fn norm_sq(&self) -> (s: i128)
        requires
            bounded3(ivec(*self), 0x4000_0000_0000_0000),
        ensures
            s as int == norm_sq3(ivec(*self)),
            s >= 0,
    {
        proof {
            lemma_norm_sq_nonneg(ivec(*self));
            let m: int = 0x4000_0000_0000_0000;
            assert(self.x as int * self.x as int <= m * m) by (nonlinear_arith)
                requires
                    mag(self.x as int) <= m;
            assert(self.y as int * self.y as int <= m * m) by (nonlinear_arith)
                requires
                    mag(self.y as int) <= m;
            assert(self.z as int * self.z as int <= m * m) by (nonlinear_arith)
                requires
                    mag(self.z as int) <= m;
            assert(self.x as int * self.x as int >= 0) by (nonlinear_arith);
            assert(self.y as int * self.y as int >= 0) by (nonlinear_arith);
            assert(self.z as int * self.z as int >= 0) by (nonlinear_arith);
        }
        let xx: i128 = (self.x as i128) * (self.x as i128);
        let yy: i128 = (self.y as i128) * (self.y as i128);
        let zz: i128 = (self.z as i128) * (self.z as i128);
        xx + yy + zz
    }
}

} // verus!
