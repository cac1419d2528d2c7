use crate::fixed::{lemma_mul_fx_bound, mag, mul_fx, scalar_mul_fx, trunc_div, SCALE};
use crate::trig::{cos_fx, sin_fx};
use crate::vec3::{add3, cross3_fx, ivec, scale3_fx, Vec3Fx};
use vstd::prelude::*;

verus! {

/// Largest quaternion component the rotation operations accept; rotations
/// produced here stay near unit length, far below this.
pub const QUAT_RANGE: i64 = 1_000_000_000;

/// A quaternion of fixed-point scalars, scale `SCALE`.
#[derive(Clone, Copy, PartialEq, Eq, Structural, Debug)]
pub struct QuatFx {
    pub x: i64,
    pub y: i64,
    pub z: i64,
    pub w: i64,
}

/// The mathematical value of a quaternion.
pub open spec fn iquat(q: QuatFx) -> (int, int, int, int) {
    (q.x as int, q.y as int, q.z as int, q.w as int)
}

/// All four components of `a` have magnitude at most `m`.
pub open spec fn bounded4(a: (int, int, int, int), m: int) -> bool {
    mag(a.0) <= m && mag(a.1) <= m && mag(a.2) <= m && mag(a.3) <= m
}

/// Fixed-point Hamilton product, every term rounded toward zero.
pub open spec fn quat_mul(a: (int, int, int, int), b: (int, int, int, int)) -> (int, int, int, int) {
    (
        mul_fx(a.3, b.0) + mul_fx(a.0, b.3) + mul_fx(a.1, b.2) - mul_fx(a.2, b.1),
        mul_fx(a.3, b.1) - mul_fx(a.0, b.2) + mul_fx(a.1, b.3) + mul_fx(a.2, b.0),
        mul_fx(a.3, b.2) + mul_fx(a.0, b.1) - mul_fx(a.1, b.0) + mul_fx(a.2, b.3),
        mul_fx(a.3, b.3) - mul_fx(a.0, b.0) - mul_fx(a.1, b.1) - mul_fx(a.2, b.2),
    )
}

/// Half of an angle, rounded toward zero.
pub open spec fn half(a: int) -> int {
    trunc_div(a, 2)
}

/// Rotation about the x axis by `a` microradians.
pub open spec fn axis_quat_x(a: int) -> (int, int, int, int) {
    (sin_fx(half(a)), 0, 0, cos_fx(half(a)))
}

/// Rotation about the y axis by `a` microradians.
pub open spec fn axis_quat_y(a: int) -> (int, int, int, int) {
    (0, sin_fx(half(a)), 0, cos_fx(half(a)))
}

/// Rotation about the z axis by `a` microradians.
pub open spec fn axis_quat_z(a: int) -> (int, int, int, int) {
    (0, 0, sin_fx(half(a)), cos_fx(half(a)))
}

/// The x-then-y-then-z Euler composition of the three axis rotations.
pub open spec fn from_euler_spec(ax: int, ay: int, az: int) -> (int, int, int, int) {
    quat_mul(quat_mul(axis_quat_x(ax), axis_quat_y(ay)), axis_quat_z(az))
}

/// A vector carried through the rotation `q`: `v + w * t + q.xyz x t` with
/// `t = 2 * (q.xyz x v)`, every product rounded toward zero.
pub open spec fn rotate_vec(q: (int, int, int, int), v: (int, int, int)) -> (int, int, int) {
    let qv = (q.0, q.1, q.2);
    let c = cross3_fx(qv, v);
    let t = (2 * c.0, 2 * c.1, 2 * c.2);
    add3(add3(v, scale3_fx(t, q.3)), cross3_fx(qv, t))
}

/// Component bounds on both factors bound every component of their Hamilton
/// product: four terms, each at most `ma * mb / SCALE`.
pub proof fn lemma_quat_mul_bound(a: (int, int, int, int), b: (int, int, int, int), ma: int, mb: int)
    requires
        bounded4(a, ma),
        bounded4(b, mb),
    ensures
        mag(quat_mul(a, b).0) * (SCALE as int) <= 4 * (ma * mb),
        mag(quat_mul(a, b).1) * (SCALE as int) <= 4 * (ma * mb),
        mag(quat_mul(a, b).2) * (SCALE as int) <= 4 * (ma * mb),
        mag(quat_mul(a, b).3) * (SCALE as int) <= 4 * (ma * mb),
{
    lemma_mul_fx_bound(a.0, b.0, ma, mb);
    lemma_mul_fx_bound(a.0, b.1, ma, mb);
    lemma_mul_fx_bound(a.0, b.2, ma, mb);
    lemma_mul_fx_bound(a.0, b.3, ma, mb);
    lemma_mul_fx_bound(a.1, b.0, ma, mb);
    lemma_mul_fx_bound(a.1, b.1, ma, mb);
    lemma_mul_fx_bound(a.1, b.2, ma, mb);
    lemma_mul_fx_bound(a.1, b.3, ma, mb);
    lemma_mul_fx_bound(a.2, b.0, ma, mb);
    lemma_mul_fx_bound(a.2, b.1, ma, mb);
    lemma_mul_fx_bound(a.2, b.2, ma, mb);
    lemma_mul_fx_bound(a.2, b.3, ma, mb);
    lemma_mul_fx_bound(a.3, b.0, ma, mb);
    lemma_mul_fx_bound(a.3, b.1, ma, mb);
    lemma_mul_fx_bound(a.3, b.2, ma, mb);
    lemma_mul_fx_bound(a.3, b.3, ma, mb);
}

impl QuatFx {
    /// Builds a quaternion from its components.
    pub fn new(x: i64, y: i64, z: i64, w: i64) -> (q: QuatFx)
        ensures
            iquat(q) == (x as int, y as int, z as int, w as int),
    {
        QuatFx { x, y, z, w }
    }

    /// The identity rotation.
    pub fn identity() -> (q: QuatFx)
        ensures
            iquat(q) == (0int, 0int, 0int, SCALE as int),
    {
        QuatFx { x: 0, y: 0, z: 0, w: SCALE }
    }

    /// Hamilton product `self * other`.
    pub fn multiply(&self, other: &QuatFx) -> (r: QuatFx)
        requires
            bounded4(iquat(*self), QUAT_RANGE as int),
            bounded4(iquat(*other), QUAT_RANGE as int),
        ensures
            iquat(r) == quat_mul(iquat(*self), iquat(*other)),
            bounded4(iquat(r), 4_000_000_000_000),
    {
        proof {
            let m: int = QUAT_RANGE as int;
            lemma_mul_fx_bound(self.x as int, other.x as int, m, m);
            lemma_mul_fx_bound(self.x as int, other.y as int, m, m);
            lemma_mul_fx_bound(self.x as int, other.z as int, m, m);
            lemma_mul_fx_bound(self.x as int, other.w as int, m, m);
            lemma_mul_fx_bound(self.y as int, other.x as int, m, m);
            lemma_mul_fx_bound(self.y as int, other.y as int, m, m);
            lemma_mul_fx_bound(self.y as int, other.z as int, m, m);
            lemma_mul_fx_bound(self.y as int, other.w as int, m, m);
            lemma_mul_fx_bound(self.z as int, other.x as int, m, m);
            lemma_mul_fx_bound(self.z as int, other.y as int, m, m);
            lemma_mul_fx_bound(self.z as int, other.z as int, m, m);
            lemma_mul_fx_bound(self.z as int, other.w as int, m, m);
            lemma_mul_fx_bound(self.w as int, other.x as int, m, m);
            lemma_mul_fx_bound(self.w as int, other.y as int, m, m);
            lemma_mul_fx_bound(self.w as int, other.z as int, m, m);
            lemma_mul_fx_bound(self.w as int, other.w as int, m, m);
        }
        let rx: i64 = scalar_mul_fx(self.w, other.x) + scalar_mul_fx(self.x, other.w)
            + scalar_mul_fx(self.y, other.z) - scalar_mul_fx(self.z, other.y);
        let ry: i64 = scalar_mul_fx(self.w, other.y) - scalar_mul_fx(self.x, other.z)
            + scalar_mul_fx(self.y, other.w) + scalar_mul_fx(self.z, other.x);
        let rz: i64 = scalar_mul_fx(self.w, other.z) + scalar_mul_fx(self.x, other.y)
            - scalar_mul_fx(self.y, other.x) + scalar_mul_fx(self.z, other.w);
        let rw: i64 = scalar_mul_fx(self.w, other.w) - scalar_mul_fx(self.x, other.x)
            - scalar_mul_fx(self.y, other.y) - scalar_mul_fx(self.z, other.z);
        QuatFx { x: rx, y: ry, z: rz, w: rw }
    }

    /// The x-then-y-then-z Euler rotation, each angle in microradians.
    pub fn from_euler(ax: i64, ay: i64, az: i64) -> (r: QuatFx)
        requires
            i64::MIN < ax,
            i64::MIN < ay,
            i64::MIN < az,
        ensures
            iquat(r) == from_euler_spec(ax as int, ay as int, az as int),
            bounded4(iquat(r), 100_000_000),
    {
        let (sx, cx) = crate::trig::sin_cos(crate::fixed::div_trunc(ax, 2));
        let (sy, cy) = crate::trig::sin_cos(crate::fixed::div_trunc(ay, 2));
        let (sz, cz) = crate::trig::sin_cos(crate::fixed::div_trunc(az, 2));
        let qx = QuatFx { x: sx, y: 0, z: 0, w: cx };
        let qy = QuatFx { x: 0, y: sy, z: 0, w: cy };
        let qz = QuatFx { x: 0, y: 0, z: sz, w: cz };
        let xy = qx.multiply(&qy);
        proof {
            lemma_quat_mul_bound(iquat(qx), iquat(qy), SCALE as int, SCALE as int);
            lemma_quat_mul_bound(iquat(xy), iquat(qz), 4_000_000, SCALE as int);
        }
        xy.multiply(&qz)
    }

    /// A vector carried through this rotation.
    pub fn rotate_vec3(&self, v: &Vec3Fx) -> (r: Vec3Fx)
        requires
            bounded4(iquat(*self), 2_000_000),
            crate::vec3::bounded3(ivec(*v), 2_000_000),
        ensures
            ivec(r) == rotate_vec(iquat(*self), ivec(*v)),
            crate::vec3::bounded3(ivec(r), 100_000_000),
    {
        let qv = Vec3Fx { x: self.x, y: self.y, z: self.z };
        let c = qv.cross_fx(v);
        proof {
            let m: int = 2_000_000;
            lemma_mul_fx_bound(self.y as int, v.z as int, m, m);
            lemma_mul_fx_bound(self.z as int, v.y as int, m, m);
            lemma_mul_fx_bound(self.z as int, v.x as int, m, m);
            lemma_mul_fx_bound(self.x as int, v.z as int, m, m);
            lemma_mul_fx_bound(self.x as int, v.y as int, m, m);
            lemma_mul_fx_bound(self.y as int, v.x as int, m, m);
        }
        let t = Vec3Fx { x: 2 * c.x, y: 2 * c.y, z: 2 * c.z };
        proof {
            lemma_mul_fx_bound(t.x as int, self.w as int, 16_000_000, 2_000_000);
            lemma_mul_fx_bound(t.y as int, self.w as int, 16_000_000, 2_000_000);
            lemma_mul_fx_bound(t.z as int, self.w as int, 16_000_000, 2_000_000);
        }
        let wt = t.scaled_fx(self.w);
        let ct = qv.cross_fx(&t);
        proof {
            let m: int = 2_000_000;
            let mt: int = 16_000_000;
            lemma_mul_fx_bound(self.y as int, t.z as int, m, mt);
            lemma_mul_fx_bound(self.z as int, t.y as int, m, mt);
            lemma_mul_fx_bound(self.z as int, t.x as int, m, mt);
            lemma_mul_fx_bound(self.x as int, t.z as int, m, mt);
            lemma_mul_fx_bound(self.x as int, t.y as int, m, mt);
            lemma_mul_fx_bound(self.y as int, t.x as int, m, mt);
        }
        let vt = v.plus(&wt);
        vt.plus(&ct)
    }
}

} // verus!
