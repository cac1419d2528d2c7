use crate::camera::{DT_LIMIT, POS_LIMIT};
use crate::fixed::lemma_mul_fx_bound;
use crate::player::{Rgba, SPEED_LIMIT};
use crate::vec3::{add3, bounded3, ivec, scale3_fx, Vec3Fx};
use vstd::prelude::*;

verus! {

/// A projectile: a colored box flying along a fixed velocity.
pub struct Bullet {
    pub size: Vec3Fx,
    pub color: Rgba,
    pub velocity: Vec3Fx,
    pub pos: Vec3Fx,
    pub origin: Vec3Fx,
}

impl Bullet {
    /// Builds a bullet from its parts.
    pub fn new(size: Vec3Fx, color: Rgba, velocity: Vec3Fx, pos: Vec3Fx, origin: Vec3Fx) -> (b:
        Bullet)
        ensures
            b.size == size,
            b.color == color,
            b.velocity == velocity,
            b.pos == pos,
            b.origin == origin,
    {
        Bullet { size, color, velocity, pos, origin }
    }

    /// One tick of straight flight: the position advances by
    /// `velocity * dt`.
    pub fn update(&mut self, dt: i64)
        requires
            bounded3(ivec(old(self).velocity), SPEED_LIMIT as int),
            bounded3(ivec(old(self).pos), POS_LIMIT as int),
            0 <= dt <= DT_LIMIT,
        ensures
            ivec(final(self).pos) == add3(
                ivec(old(self).pos),
                scale3_fx(ivec(old(self).velocity), dt as int),
            ),
            final(self).size == old(self).size,
            final(self).color == old(self).color,
            final(self).velocity == old(self).velocity,
            final(self).origin == old(self).origin,
    {
        proof {
            lemma_mul_fx_bound(self.velocity.x as int, dt as int, SPEED_LIMIT as int, DT_LIMIT as int);
            lemma_mul_fx_bound(self.velocity.y as int, dt as int, SPEED_LIMIT as int, DT_LIMIT as int);
            lemma_mul_fx_bound(self.velocity.z as int, dt as int, SPEED_LIMIT as int, DT_LIMIT as int);
        }
        let delta = self.velocity.scaled_fx(dt);
        self.pos = self.pos.plus(&delta);
    }
}

} // verus!
