use crate::fixed::{lemma_mul_fx_bound, mag, mul_fx, scalar_mul_fx, SCALE};
use crate::quat::{bounded4, from_euler_spec, iquat, quat_mul, QuatFx};
use crate::vec3::{add3, bounded3, ivec, Vec3Fx};
use vstd::prelude::*;

verus! {

/// Largest axis component `rotate` accepts.
pub const AXIS_LIMIT: i64 = 1_000_000_000;

/// Largest single rotation step `rotate` accepts, in microradians.
pub const TURN_LIMIT: i64 = 1_000_000_000_000;

/// Placement of a body: its world position, its scale, and its rotation.
/// The renderer reads all three at draw time; the motion model only ever
/// adds position deltas and composes rotation steps onto them.
pub struct Transform {
    /// World position, scale `SCALE`.
    pub position: Vec3Fx,
    /// Per-axis scale factor, scale `SCALE`.
    pub scale: Vec3Fx,
    /// Accumulated rotation, scale `SCALE`.
    pub rotation: QuatFx,
}

impl Transform {
    /// Builds a transform from its parts.
    pub fn new(position: Vec3Fx, scale: Vec3Fx, rotation: QuatFx) -> (t: Transform)
        ensures
            t.position == position,
            t.scale == scale,
            t.rotation == rotation,
    {
        Transform { position, scale, rotation }
    }

    /// Composes one rotation step onto the accumulated rotation: an Euler
    /// rotation by `axis * angle`, multiplied from the left.
    pub fn rotate(&mut self, angle: i64, axis: Vec3Fx)
        requires
            bounded3(ivec(axis), AXIS_LIMIT as int),
            mag(angle as int) <= TURN_LIMIT as int,
            bounded4(iquat(old(self).rotation), crate::quat::QUAT_RANGE as int),
        ensures
            iquat(final(self).rotation) == quat_mul(
                from_euler_spec(
                    mul_fx(axis.x as int, angle as int),
                    mul_fx(axis.y as int, angle as int),
                    mul_fx(axis.z as int, angle as int),
                ),
                iquat(old(self).rotation),
            ),
            final(self).position == old(self).position,
            final(self).scale == old(self).scale,
    {
        proof {
            lemma_mul_fx_bound(axis.x as int, angle as int, AXIS_LIMIT as int, TURN_LIMIT as int);
            lemma_mul_fx_bound(axis.y as int, angle as int, AXIS_LIMIT as int, TURN_LIMIT as int);
            lemma_mul_fx_bound(axis.z as int, angle as int, AXIS_LIMIT as int, TURN_LIMIT as int);
        }
        let rx: i64 = scalar_mul_fx(axis.x, angle);
        let ry: i64 = scalar_mul_fx(axis.y, angle);
        let rz: i64 = scalar_mul_fx(axis.z, angle);
        let step = QuatFx::from_euler(rx, ry, rz);
        self.rotation = step.multiply(&self.rotation);
    }

    /// Multiplies the per-axis scale factors.
    pub fn rescale(&mut self, x: i64, y: i64, z: i64)
        requires
            bounded3(ivec(old(self).scale), 2_000_000_000_000),
            mag(x as int) <= 2_000_000_000_000,
            mag(y as int) <= 2_000_000_000_000,
            mag(z as int) <= 2_000_000_000_000,
        ensures
            final(self).scale.x as int == mul_fx(old(self).scale.x as int, x as int),
            final(self).scale.y as int == mul_fx(old(self).scale.y as int, y as int),
            final(self).scale.z as int == mul_fx(old(self).scale.z as int, z as int),
            final(self).position == old(self).position,
            final(self).rotation == old(self).rotation,
    {
        proof {
            let m: int = 2_000_000_000_000;
            lemma_mul_fx_bound(self.scale.x as int, x as int, m, m);
            lemma_mul_fx_bound(self.scale.y as int, y as int, m, m);
            lemma_mul_fx_bound(self.scale.z as int, z as int, m, m);
        }
        self.scale = Vec3Fx::new(
            scalar_mul_fx(self.scale.x, x),
            scalar_mul_fx(self.scale.y, y),
            scalar_mul_fx(self.scale.z, z),
        );
    }

    /// Adds a translation to the position.
    pub fn translate(&mut self, translation: Vec3Fx)
        requires
            mag(old(self).position.x + translation.x) <= i64::MAX as int,
            mag(old(self).position.y + translation.y) <= i64::MAX as int,
            mag(old(self).position.z + translation.z) <= i64::MAX as int,
        ensures
            ivec(final(self).position) == add3(ivec(old(self).position), ivec(translation)),
            final(self).scale == old(self).scale,
            final(self).rotation == old(self).rotation,
    {
        self.position = self.position.plus(&translation);
    }
}

} // verus!
