use crate::camera::{CameraState, DT_LIMIT, POS_LIMIT, SCALE_SQ};
use crate::fixed::{
    clamp_i64, clamp_int, div_trunc, lemma_damp_comp, lemma_mul_div_bound, lemma_mul_fx_bound,
    mag, mul_div_trunc, mul_fx, scalar_mul_fx, trunc_div, SCALE,
};
use crate::input::KeyFlags;
use crate::quat::{bounded4, from_euler_spec, iquat, quat_mul, rotate_vec};
use crate::sqrt::{lemma_sqrt_ceil, sqrt_ceil, sqrt_ceil_u128, sqrt_floor, sqrt_floor_u128};
use crate::transform::Transform;
use crate::vec3::{
    add3, bounded3, cross3_fx, ivec, lemma_component_sq_le_norm_sq, lemma_norm_sq_mono,
    lemma_norm_sq_nonneg, neg3, norm_sq3, scale3_fx, Vec3Fx,
};
use vstd::prelude::*;

verus! {

/// Thrust gained per second of held input, 200 units of speed.
pub const ACCELERATION: i64 = 200_000_000;

/// Largest speed cap a player may be built with (one million units per
/// second).
pub const SPEED_LIMIT: i64 = 1_000_000_000_000;

/// Largest single force magnitude `add_force` accepts.
pub const FORCE_LIMIT: i64 = 1_000_000_000_000;

/// Largest force-direction component `add_force` accepts; directions are
/// meant to be unit vectors and are not renormalized here.
pub const DIR_LIMIT: i64 = 2_000_000;

/// Largest damping rate a player may carry (a thousand per second).
pub const POWER_LIMIT: i64 = 1_000_000_000;

/// A color, eight bits per channel.
#[derive(Clone, Copy, PartialEq, Eq, Structural, Debug)]
pub struct Rgba {
    pub r: u8,
    pub g: u8,
    pub b: u8,
    pub a: u8,
}

/// Velocity after one force lands, before the speed cap:
/// `v + dir * amount`.
pub open spec fn forced_vel(v: (int, int, int), dir: (int, int, int), amount: int) -> (
    int,
    int,
    int,
) {
    add3(v, scale3_fx(dir, amount))
}

/// The speed cap: a velocity whose squared length exceeds `max * max` is
/// scaled by `max` over the ceiling square root of its squared length,
/// which preserves its direction and caps its length; anything slower
/// passes unchanged.
pub open spec fn capped_vel(v: (int, int, int), max: int) -> (int, int, int) {
    if norm_sq3(v) <= max * max {
        v
    } else {
        let m = sqrt_ceil(norm_sq3(v) as nat) as int;
        (trunc_div(v.0 * max, m), trunc_div(v.1 * max, m), trunc_div(v.2 * max, m))
    }
}

/// Velocity after one whole `add_force` call.
pub open spec fn add_force_vel(v: (int, int, int), dir: (int, int, int), amount: int, max: int) -> (
    int,
    int,
    int,
) {
    capped_vel(forced_vel(v, dir, amount), max)
}

/// The damping fraction for one tick: `power * dt` clamped into `[0, 1]`.
pub open spec fn damp_fraction(power: int, dt: int) -> int {
    clamp_int(mul_fx(power, dt), 0, SCALE as int)
}

/// One damping step on a scalar: blend toward zero by the fraction `k`.
pub open spec fn damped_comp(x: int, k: int) -> int {
    x - mul_fx(x, k)
}

/// One damping step on a velocity.
pub open spec fn damped_vel(v: (int, int, int), k: int) -> (int, int, int) {
    (damped_comp(v.0, k), damped_comp(v.1, k), damped_comp(v.2, k))
}

/// The player's rigid-body state: a force-fed, speed-capped, self-damping
/// velocity, plus an orientation record for the visual body.
pub struct Player {
    /// Accumulated velocity; its length never exceeds `max_speed`.
    pub velocity: Vec3Fx,
    /// The speed cap, fixed at spawn.
    pub max_speed: i64,
    /// The body's color, read by the renderer.
    pub color: Rgba,
    /// Euler angles of the body, settable by callers; scale `SCALE`.
    pub yaw: i64,
    pub pitch: i64,
    pub roll: i64,
    /// Body-frame axes, fixed at spawn; scale `SCALE`.
    pub front: Vec3Fx,
    pub right: Vec3Fx,
    pub up: Vec3Fx,
    /// True from the first tick after a tick with no force until the next
    /// force lands; arms the damping.
    pub stabilizing: bool,
    /// Damping rate per second; scale `SCALE`.
    pub stabilizer_power: i64,
}

/// The player invariant: the caps are in range and the velocity obeys its
/// cap, in squared length and in every component.
pub open spec fn player_wf(p: Player) -> bool {
    &&& 0 <= p.max_speed <= SPEED_LIMIT as int
    &&& 0 <= p.stabilizer_power <= POWER_LIMIT as int
    &&& norm_sq3(ivec(p.velocity)) <= (p.max_speed as int) * (p.max_speed as int)
    &&& bounded3(ivec(p.velocity), p.max_speed as int)
}

/// A velocity within the squared cap is within the cap in every component.
proof fn lemma_comps_within_cap(v: (int, int, int), max: int)
    requires
        norm_sq3(v) <= max * max,
        0 <= max,
    ensures
        bounded3(v, max),
{
    lemma_component_sq_le_norm_sq(v);
    assert(mag(v.0) <= max) by (nonlinear_arith)
        requires
            v.0 * v.0 <= max * max,
            0 <= max;
    assert(mag(v.1) <= max) by (nonlinear_arith)
        requires
            v.1 * v.1 <= max * max,
            0 <= max;
    assert(mag(v.2) <= max) by (nonlinear_arith)
        requires
            v.2 * v.2 <= max * max,
            0 <= max;
}

impl Player {
    /// Spawns a player at rest, facing along the world z axis, with damping
    /// rate one.
    pub fn new(color: Rgba, max_speed: i64) -> (p: Player)
        requires
            0 <= max_speed <= SPEED_LIMIT,
        ensures
            player_wf(p),
            ivec(p.velocity) == (0int, 0int, 0int),
            p.max_speed == max_speed,
            p.color == color,
            p.yaw == 0 && p.pitch == 0 && p.roll == 0,
            ivec(p.front) == (0int, 0int, SCALE as int),
            ivec(p.right) == (SCALE as int, 0int, 0int),
            ivec(p.up) == (0int, SCALE as int, 0int),
            p.stabilizing == false,
            p.stabilizer_power == SCALE,
    {
        let p = Player {
            velocity: Vec3Fx::zero(),
            max_speed,
            color,
            yaw: 0,
            pitch: 0,
            roll: 0,
            front: Vec3Fx::new(0, 0, SCALE),
            right: Vec3Fx::new(SCALE, 0, 0),
            up: Vec3Fx::new(0, SCALE, 0),
            stabilizing: false,
            stabilizer_power: SCALE,
        };
        proof {
            lemma_norm_sq_nonneg(ivec(p.velocity));
            assert(0 <= (max_speed as int) * (max_speed as int)) by (nonlinear_arith);
        }
        p
    }

    /// Accumulates one force into the velocity, then applies the speed cap;
    /// any nonzero direction disarms the damping for this tick.
    pub fn add_force(&mut self, dir: Vec3Fx, amount: i64)
        requires
            player_wf(*old(self)),
            bounded3(ivec(dir), DIR_LIMIT as int),
            mag(amount as int) <= FORCE_LIMIT as int,
        ensures
            player_wf(*final(self)),
            ivec(final(self).velocity) == add_force_vel(
                ivec(old(self).velocity),
                ivec(dir),
                amount as int,
                old(self).max_speed as int,
            ),
            norm_sq3(ivec(final(self).velocity)) <= (old(self).max_speed as int) * (
            old(self).max_speed as int),
            final(self).stabilizing == if ivec(dir) == (0int, 0int, 0int) {
                old(self).stabilizing
            } else {
                false
            },
            ivec(dir) == (0int, 0int, 0int) ==> final(self).velocity == old(self).velocity,
            final(self).max_speed == old(self).max_speed,
            final(self).color == old(self).color,
            final(self).yaw == old(self).yaw,
            final(self).pitch == old(self).pitch,
            final(self).roll == old(self).roll,
            final(self).front == old(self).front,
            final(self).right == old(self).right,
            final(self).up == old(self).up,
            final(self).stabilizer_power == old(self).stabilizer_power,
    {
        proof {
            lemma_mul_fx_bound(dir.x as int, amount as int, DIR_LIMIT as int, FORCE_LIMIT as int);
            lemma_mul_fx_bound(dir.y as int, amount as int, DIR_LIMIT as int, FORCE_LIMIT as int);
            lemma_mul_fx_bound(dir.z as int, amount as int, DIR_LIMIT as int, FORCE_LIMIT as int);
        }
        let delta = dir.scaled_fx(amount);
        let vmid = self.velocity.plus(&delta);
        let ghost vm = ivec(vmid);
        proof {
            assert(bounded3(vm, 3_000_000_000_000));
        }
        let s: i128 = vmid.norm_sq();
        proof {
            assert(0 <= (self.max_speed as int) * (self.max_speed as int)
                <= 1_000_000_000_000_000_000_000_000) by (nonlinear_arith)
                requires
                    0 <= self.max_speed as int <= 1_000_000_000_000;
        }
        let ms: i128 = (self.max_speed as i128) * (self.max_speed as i128);
        proof {
            assert(ms as int == (self.max_speed as int) * (self.max_speed as int));
            assert(ms >= 0) by (nonlinear_arith)
                requires
                    ms as int == (self.max_speed as int) * (self.max_speed as int);
            assert(vm.0 * vm.0 <= 9_000_000_000_000_000_000_000_000) by (nonlinear_arith)
                requires
                    mag(vm.0) <= 3_000_000_000_000;
            assert(vm.1 * vm.1 <= 9_000_000_000_000_000_000_000_000) by (nonlinear_arith)
                requires
                    mag(vm.1) <= 3_000_000_000_000;
            assert(vm.2 * vm.2 <= 9_000_000_000_000_000_000_000_000) by (nonlinear_arith)
                requires
                    mag(vm.2) <= 3_000_000_000_000;
            assert(s as int <= 27_000_000_000_000_000_000_000_000);
        }
        if s > ms {
            let m128: u128 = sqrt_ceil_u128(s as u128);
            proof {
                lemma_sqrt_ceil(s as nat);
                assert(m128 as int == sqrt_ceil(norm_sq3(vm) as nat) as int);
                let m: int = m128 as int;
                let max: int = self.max_speed as int;
                // the cap scale fits comfortably in a machine word
                assert(m <= 6_000_000_000_000) by (nonlinear_arith)
                    requires
                        (m - 1) * (m - 1) < s as int,
                        s as int <= 27_000_000_000_000_000_000_000_000,
                        m >= 1;
                // every component is within the scale, so scaling by
                // max / m keeps every component within max
                lemma_component_sq_le_norm_sq(vm);
                assert(mag(vm.0) <= m) by (nonlinear_arith)
                    requires
                        vm.0 * vm.0 <= m * m,
                        m >= 1;
                assert(mag(vm.1) <= m) by (nonlinear_arith)
                    requires
                        vm.1 * vm.1 <= m * m,
                        m >= 1;
                assert(mag(vm.2) <= m) by (nonlinear_arith)
                    requires
                        vm.2 * vm.2 <= m * m,
                        m >= 1;
                lemma_mul_div_bound(vm.0, max, m, m, max);
                lemma_mul_div_bound(vm.1, max, m, m, max);
                lemma_mul_div_bound(vm.2, max, m, m, max);
                assert(mag(trunc_div(vm.0 * max, m)) <= max) by (nonlinear_arith)
                    requires
                        mag(trunc_div(vm.0 * max, m)) * m <= m * max,
                        m >= 1,
                        max >= 0;
                assert(mag(trunc_div(vm.1 * max, m)) <= max) by (nonlinear_arith)
                    requires
                        mag(trunc_div(vm.1 * max, m)) * m <= m * max,
                        m >= 1,
                        max >= 0;
                assert(mag(trunc_div(vm.2 * max, m)) <= max) by (nonlinear_arith)
                    requires
                        mag(trunc_div(vm.2 * max, m)) * m <= m * max,
                        m >= 1,
                        max >= 0;
            }
            let nx: i64 = mul_div_trunc(vmid.x, self.max_speed, m128 as i64);
            let ny: i64 = mul_div_trunc(vmid.y, self.max_speed, m128 as i64);
            let nz: i64 = mul_div_trunc(vmid.z, self.max_speed, m128 as i64);
            self.velocity = Vec3Fx::new(nx, ny, nz);
            proof {
                let m: int = m128 as int;
                let max: int = self.max_speed as int;
                let w = ivec(self.velocity);
                // squared: m^2 |w|^2 <= |vm|^2 max^2 <= m^2 max^2, so
                // |w|^2 <= max^2
                lemma_mul_div_bound(vm.0, max, m, mag(vm.0), max);
                lemma_mul_div_bound(vm.1, max, m, mag(vm.1), max);
                lemma_mul_div_bound(vm.2, max, m, mag(vm.2), max);
                assert((w.0 * w.0) * (m * m) <= (vm.0 * vm.0) * (max * max)) by (nonlinear_arith)
                    requires
                        mag(w.0) * m <= mag(vm.0) * max,
                        m >= 1,
                        max >= 0;
                assert((w.1 * w.1) * (m * m) <= (vm.1 * vm.1) * (max * max)) by (nonlinear_arith)
                    requires
                        mag(w.1) * m <= mag(vm.1) * max,
                        m >= 1,
                        max >= 0;
                assert((w.2 * w.2) * (m * m) <= (vm.2 * vm.2) * (max * max)) by (nonlinear_arith)
                    requires
                        mag(w.2) * m <= mag(vm.2) * max,
                        m >= 1,
                        max >= 0;
                assert((w.0 * w.0 + w.1 * w.1 + w.2 * w.2) * (m * m) == (w.0 * w.0) * (m * m) + (
                w.1 * w.1) * (m * m) + (w.2 * w.2) * (m * m)) by (nonlinear_arith);
                assert((vm.0 * vm.0 + vm.1 * vm.1 + vm.2 * vm.2) * (max * max) == (vm.0 * vm.0) * (
                max * max) + (vm.1 * vm.1) * (max * max) + (vm.2 * vm.2) * (max * max))
                    by (nonlinear_arith);
                assert(norm_sq3(vm) * (max * max) <= (m * m) * (max * max)) by (nonlinear_arith)
                    requires
                        norm_sq3(vm) <= m * m,
                        max * max >= 0;
                assert(norm_sq3(w) <= max * max) by (nonlinear_arith)
                    requires
                        norm_sq3(w) * (m * m) <= (m * m) * (max * max),
                        m >= 1;
            }
        } else {
            self.velocity = vmid;
        }
        proof {
            lemma_comps_within_cap(ivec(self.velocity), self.max_speed as int);
            if ivec(dir) == (0int, 0int, 0int) {
                assert(0int * (amount as int) == 0);
                assert(trunc_div(0, SCALE as int) == 0) by {
                    vstd::arithmetic::div_mod::lemma_basic_div(0, SCALE as int);
                }
                assert(vm == ivec(old(self).velocity));
            }
        }
        if !(dir.x == 0 && dir.y == 0 && dir.z == 0) {
            self.stabilizing = false;
        }
    }

    /// One damping step: blends the velocity toward zero by the fraction
    /// `power * dt`, clamped to at most all of it. Never grows the speed.
    pub fn stabilize(&mut self, dt: i64)
        requires
            player_wf(*old(self)),
            mag(dt as int) <= DT_LIMIT as int,
        ensures
            player_wf(*final(self)),
            ivec(final(self).velocity) == damped_vel(
                ivec(old(self).velocity),
                damp_fraction(old(self).stabilizer_power as int, dt as int),
            ),
            norm_sq3(ivec(final(self).velocity)) <= norm_sq3(ivec(old(self).velocity)),
            mag(final(self).velocity.x as int) <= mag(old(self).velocity.x as int),
            mag(final(self).velocity.y as int) <= mag(old(self).velocity.y as int),
            mag(final(self).velocity.z as int) <= mag(old(self).velocity.z as int),
            old(self).velocity.x >= 0 ==> 0 <= final(self).velocity.x <= old(self).velocity.x,
            old(self).velocity.x <= 0 ==> old(self).velocity.x <= final(self).velocity.x <= 0,
            old(self).velocity.y >= 0 ==> 0 <= final(self).velocity.y <= old(self).velocity.y,
            old(self).velocity.y <= 0 ==> old(self).velocity.y <= final(self).velocity.y <= 0,
            old(self).velocity.z >= 0 ==> 0 <= final(self).velocity.z <= old(self).velocity.z,
            old(self).velocity.z <= 0 ==> old(self).velocity.z <= final(self).velocity.z <= 0,
            damp_fraction(old(self).stabilizer_power as int, dt as int) == SCALE as int
                ==> ivec(final(self).velocity) == (0int, 0int, 0int),
            ivec(old(self).velocity) == (0int, 0int, 0int) ==> final(self).velocity == old(
                self,
            ).velocity,
            final(self).stabilizing == old(self).stabilizing,
            final(self).max_speed == old(self).max_speed,
            final(self).color == old(self).color,
            final(self).yaw == old(self).yaw,
            final(self).pitch == old(self).pitch,
            final(self).roll == old(self).roll,
            final(self).front == old(self).front,
            final(self).right == old(self).right,
            final(self).up == old(self).up,
            final(self).stabilizer_power == old(self).stabilizer_power,
    {
        proof {
            lemma_mul_fx_bound(
                self.stabilizer_power as int,
                dt as int,
                POWER_LIMIT as int,
                DT_LIMIT as int,
            );
        }
        let k: i64 = clamp_i64(scalar_mul_fx(self.stabilizer_power, dt), 0, SCALE);
        proof {
            lemma_mul_fx_bound(self.velocity.x as int, k as int, SPEED_LIMIT as int, SCALE as int);
            lemma_mul_fx_bound(self.velocity.y as int, k as int, SPEED_LIMIT as int, SCALE as int);
            lemma_mul_fx_bound(self.velocity.z as int, k as int, SPEED_LIMIT as int, SCALE as int);
            lemma_damp_comp(self.velocity.x as int, k as int);
            lemma_damp_comp(self.velocity.y as int, k as int);
            lemma_damp_comp(self.velocity.z as int, k as int);
            lemma_norm_sq_mono(
                damped_vel(ivec(self.velocity), k as int),
                ivec(self.velocity),
            );
        }
        self.velocity = Vec3Fx::new(
            self.velocity.x - scalar_mul_fx(self.velocity.x, k),
            self.velocity.y - scalar_mul_fx(self.velocity.y, k),
            self.velocity.z - scalar_mul_fx(self.velocity.z, k),
        );
    }

    /// One simulation tick: integrate the position by `velocity * dt`, then
    /// either damp (if the damping was armed) or arm the damping for the
    /// next tick. At rest with damping armed, this is a no-op on position
    /// and velocity.
    pub fn update(&mut self, transform: &mut Transform, dt: i64)
        requires
            player_wf(*old(self)),
            0 <= dt <= DT_LIMIT,
            bounded3(ivec(old(transform).position), POS_LIMIT as int),
        ensures
            player_wf(*final(self)),
            ivec(final(transform).position) == add3(
                ivec(old(transform).position),
                scale3_fx(ivec(old(self).velocity), dt as int),
            ),
            old(self).stabilizing ==> ivec(final(self).velocity) == damped_vel(
                ivec(old(self).velocity),
                damp_fraction(old(self).stabilizer_power as int, dt as int),
            ),
            !old(self).stabilizing ==> final(self).velocity == old(self).velocity,
            final(self).stabilizing,
            norm_sq3(ivec(final(self).velocity)) <= norm_sq3(ivec(old(self).velocity)),
            (ivec(old(self).velocity) == (0int, 0int, 0int) && old(self).stabilizing) ==> (
            final(transform).position == old(transform).position && final(self).velocity == old(
                self,
            ).velocity),
            final(transform).rotation == old(transform).rotation,
            final(transform).scale == old(transform).scale,
            final(self).max_speed == old(self).max_speed,
            final(self).color == old(self).color,
            final(self).stabilizer_power == old(self).stabilizer_power,
            final(self).front == old(self).front,
            final(self).right == old(self).right,
            final(self).up == old(self).up,
            final(self).yaw == old(self).yaw,
            final(self).pitch == old(self).pitch,
            final(self).roll == old(self).roll,
    {
        proof {
            lemma_mul_fx_bound(self.velocity.x as int, dt as int, SPEED_LIMIT as int, DT_LIMIT as int);
            lemma_mul_fx_bound(self.velocity.y as int, dt as int, SPEED_LIMIT as int, DT_LIMIT as int);
            lemma_mul_fx_bound(self.velocity.z as int, dt as int, SPEED_LIMIT as int, DT_LIMIT as int);
            if ivec(self.velocity) == (0int, 0int, 0int) {
                assert(trunc_div(0, SCALE as int) == 0) by {
                    vstd::arithmetic::div_mod::lemma_basic_div(0, SCALE as int);
                }
            }
        }
        let delta = self.velocity.scaled_fx(dt);
        transform.translate(delta);
        if self.stabilizing {
            self.stabilize(dt);
        } else {
            self.stabilizing = true;
        }
        proof {
            lemma_norm_sq_nonneg(ivec(self.velocity));
        }
    }

    /// The body's Euler angles gathered into a vector.
    pub fn get_yaw_pitch_roll(&self) -> (r: Vec3Fx)
        ensures
            ivec(r) == (self.yaw as int, self.pitch as int, self.roll as int),
    {
        Vec3Fx::new(self.yaw, self.pitch, self.roll)
    }

    /// Sets the body's Euler angles.
    pub fn set_yaw_pitch_roll(&mut self, yaw: i64, pitch: i64, roll: i64)
        ensures
            final(self).yaw == yaw,
            final(self).pitch == pitch,
            final(self).roll == roll,
            final(self).velocity == old(self).velocity,
            final(self).max_speed == old(self).max_speed,
            final(self).color == old(self).color,
            final(self).front == old(self).front,
            final(self).right == old(self).right,
            final(self).up == old(self).up,
            final(self).stabilizing == old(self).stabilizing,
            final(self).stabilizer_power == old(self).stabilizer_power,
    {
        self.yaw = yaw;
        self.pitch = pitch;
        self.roll = roll;
    }

    /// The body's up axis.
    pub fn get_up_vector(&self) -> (r: Vec3Fx)
        ensures
            r == self.up,
    {
        self.up
    }
}

/// Damping law: one damping step by any fraction in `[0, 1]` never grows
/// the speed, neither the squared length nor any single component, so
/// repeated damping drives the speed monotonically downward.
pub proof fn lemma_damping_monotone(v: (int, int, int), k: int)
    requires
        0 <= k <= SCALE as int,
    ensures
        norm_sq3(damped_vel(v, k)) <= norm_sq3(v),
        mag(damped_vel(v, k).0) <= mag(v.0),
        mag(damped_vel(v, k).1) <= mag(v.1),
        mag(damped_vel(v, k).2) <= mag(v.2),
        k == SCALE as int ==> damped_vel(v, k) == (0int, 0int, 0int),
{
    lemma_damp_comp(v.0, k);
    lemma_damp_comp(v.1, k);
    lemma_damp_comp(v.2, k);
    lemma_norm_sq_mono(damped_vel(v, k), v);
}

/// A basis vector brought from scale `SCALE * SCALE` down to a unit-length
/// direction at scale `SCALE`.
pub open spec fn unit_dir(v: (int, int, int)) -> (int, int, int) {
    (
        trunc_div(v.0, SCALE as int),
        trunc_div(v.1, SCALE as int),
        trunc_div(v.2, SCALE as int),
    )
}

/// One conditional force: if the request is held, one `add_force` lands,
/// else nothing changes.
pub open spec fn force_step(
    v: (int, int, int),
    st: bool,
    on: bool,
    dir: (int, int, int),
    amount: int,
    max: int,
) -> ((int, int, int), bool) {
    if on {
        (
            add_force_vel(v, dir, amount, max),
            if dir == (0int, 0int, 0int) {
                st
            } else {
                false
            },
        )
    } else {
        (v, st)
    }
}

/// The velocity and damping flag after the whole input pass: the six
/// directional requests resolved against the camera basis, in the fixed
/// order forward, back, left, right, up, down.
pub open spec fn input_outcome(
    v0: (int, int, int),
    st0: bool,
    f: (int, int, int),
    r: (int, int, int),
    u: (int, int, int),
    keys: KeyFlags,
    amount: int,
    max: int,
) -> ((int, int, int), bool) {
    let s1 = force_step(v0, st0, keys.forward, f, amount, max);
    let s2 = force_step(s1.0, s1.1, keys.back, neg3(f), amount, max);
    let s3 = force_step(s2.0, s2.1, keys.left, neg3(r), amount, max);
    let s4 = force_step(s3.0, s3.1, keys.right, r, amount, max);
    let s5 = force_step(s4.0, s4.1, keys.up, u, amount, max);
    force_step(s5.0, s5.1, keys.down, neg3(u), amount, max)
}

/// Resolves the held directional requests against the camera's current
/// basis and feeds each as a force of `dt * ACCELERATION` into the player.
pub fn player_input(player: &mut Player, camera: &CameraState, keys: &KeyFlags, dt: i64)
    requires
        player_wf(*old(player)),
        bounded3(ivec(camera.front), 2 * SCALE_SQ as int),
        bounded3(ivec(camera.right), 2 * SCALE_SQ as int),
        bounded3(ivec(camera.up), 2 * SCALE_SQ as int),
        0 <= dt <= DT_LIMIT,
    ensures
        player_wf(*final(player)),
        (ivec(final(player).velocity), final(player).stabilizing) == input_outcome(
            ivec(old(player).velocity),
            old(player).stabilizing,
            unit_dir(ivec(camera.front)),
            unit_dir(ivec(camera.right)),
            unit_dir(ivec(camera.up)),
            *keys,
            mul_fx(dt as int, ACCELERATION as int),
            old(player).max_speed as int,
        ),
        norm_sq3(ivec(final(player).velocity)) <= (old(player).max_speed as int) * (
        old(player).max_speed as int),
        (!keys.forward && !keys.back && !keys.left && !keys.right && !keys.up && !keys.down)
            ==> *final(player) == *old(player),
        final(player).max_speed == old(player).max_speed,
        final(player).color == old(player).color,
        final(player).stabilizer_power == old(player).stabilizer_power,
        final(player).front == old(player).front,
        final(player).right == old(player).right,
        final(player).up == old(player).up,
        final(player).yaw == old(player).yaw,
        final(player).pitch == old(player).pitch,
        final(player).roll == old(player).roll,
{
    proof {
        let s: int = SCALE as int;
        crate::fixed::lemma_trunc_div_props(camera.front.x as int, s);
        crate::fixed::lemma_trunc_div_props(camera.front.y as int, s);
        crate::fixed::lemma_trunc_div_props(camera.front.z as int, s);
        crate::fixed::lemma_trunc_div_props(camera.right.x as int, s);
        crate::fixed::lemma_trunc_div_props(camera.right.y as int, s);
        crate::fixed::lemma_trunc_div_props(camera.right.z as int, s);
        crate::fixed::lemma_trunc_div_props(camera.up.x as int, s);
        crate::fixed::lemma_trunc_div_props(camera.up.y as int, s);
        crate::fixed::lemma_trunc_div_props(camera.up.z as int, s);
        lemma_mul_fx_bound(dt as int, ACCELERATION as int, DT_LIMIT as int, ACCELERATION as int);
        lemma_norm_sq_nonneg(ivec(old(player).velocity));
    }
    let fd = Vec3Fx::new(
        div_trunc(camera.front.x, SCALE),
        div_trunc(camera.front.y, SCALE),
        div_trunc(camera.front.z, SCALE),
    );
    let rd = Vec3Fx::new(
        div_trunc(camera.right.x, SCALE),
        div_trunc(camera.right.y, SCALE),
        div_trunc(camera.right.z, SCALE),
    );
    let ud = Vec3Fx::new(
        div_trunc(camera.up.x, SCALE),
        div_trunc(camera.up.y, SCALE),
        div_trunc(camera.up.z, SCALE),
    );
    let amount: i64 = scalar_mul_fx(dt, ACCELERATION);
    if keys.forward {
        player.add_force(fd, amount);
    }
    if keys.back {
        player.add_force(fd.negated(), amount);
    }
    if keys.left {
        player.add_force(rd.negated(), amount);
    }
    if keys.right {
        player.add_force(rd, amount);
    }
    if keys.up {
        player.add_force(ud, amount);
    }
    if keys.down {
        player.add_force(ud.negated(), amount);
    }
}

/// The body's current facing: the world z axis carried through its
/// accumulated rotation.
pub open spec fn facing_of(q: (int, int, int, int)) -> (int, int, int) {
    rotate_vec(q, (0int, 0int, SCALE as int))
}

/// The twist vector that nudges the facing toward the camera's heading: the
/// cross product of the two, which for unit vectors has the length of the
/// sine of the angle between them and points along the turn axis.
pub open spec fn twist_of(q: (int, int, int, int), front: (int, int, int)) -> (int, int, int) {
    cross3_fx(facing_of(q), unit_dir(front))
}

/// The rotation step for one tick: the twist's length, ten times over,
/// scaled by the tick length.
pub open spec fn turn_angle(twist: (int, int, int), dt: int) -> int {
    mul_fx(10 * (sqrt_floor(norm_sq3(twist) as nat) as int), dt)
}

/// One player tick: twist the visual rotation toward the camera's heading
/// by an angle proportional to the angular distance and the tick length,
/// then integrate position and damping.
pub fn update_player(player: &mut Player, transform: &mut Transform, camera: &CameraState, dt: i64)
    requires
        player_wf(*old(player)),
        0 <= dt <= DT_LIMIT,
        bounded3(ivec(old(transform).position), POS_LIMIT as int),
        bounded4(iquat(old(transform).rotation), 2_000_000),
        bounded3(ivec(camera.front), 2 * SCALE_SQ as int),
    ensures
        player_wf(*final(player)),
        iquat(final(transform).rotation) == quat_mul(
            from_euler_spec(
                mul_fx(
                    twist_of(iquat(old(transform).rotation), ivec(camera.front)).0,
                    turn_angle(twist_of(iquat(old(transform).rotation), ivec(camera.front)), dt as int),
                ),
                mul_fx(
                    twist_of(iquat(old(transform).rotation), ivec(camera.front)).1,
                    turn_angle(twist_of(iquat(old(transform).rotation), ivec(camera.front)), dt as int),
                ),
                mul_fx(
                    twist_of(iquat(old(transform).rotation), ivec(camera.front)).2,
                    turn_angle(twist_of(iquat(old(transform).rotation), ivec(camera.front)), dt as int),
                ),
            ),
            iquat(old(transform).rotation),
        ),
        ivec(final(transform).position) == add3(
            ivec(old(transform).position),
            scale3_fx(ivec(old(player).velocity), dt as int),
        ),
        old(player).stabilizing ==> ivec(final(player).velocity) == damped_vel(
            ivec(old(player).velocity),
            damp_fraction(old(player).stabilizer_power as int, dt as int),
        ),
        !old(player).stabilizing ==> final(player).velocity == old(player).velocity,
        final(player).stabilizing,
        norm_sq3(ivec(final(player).velocity)) <= norm_sq3(ivec(old(player).velocity)),
        final(transform).scale == old(transform).scale,
        final(player).max_speed == old(player).max_speed,
        final(player).color == old(player).color,
        final(player).stabilizer_power == old(player).stabilizer_power,
{
    proof {
        let s: int = SCALE as int;
        crate::fixed::lemma_trunc_div_props(camera.front.x as int, s);
        crate::fixed::lemma_trunc_div_props(camera.front.y as int, s);
        crate::fixed::lemma_trunc_div_props(camera.front.z as int, s);
    }
    let facing = transform.rotation.rotate_vec3(&Vec3Fx::new(0, 0, SCALE));
    let heading = Vec3Fx::new(
        div_trunc(camera.front.x, SCALE),
        div_trunc(camera.front.y, SCALE),
        div_trunc(camera.front.z, SCALE),
    );
    proof {
        lemma_mul_fx_bound(facing.x as int, heading.y as int, 100_000_000, 2_000_000);
        lemma_mul_fx_bound(facing.x as int, heading.z as int, 100_000_000, 2_000_000);
        lemma_mul_fx_bound(facing.y as int, heading.x as int, 100_000_000, 2_000_000);
        lemma_mul_fx_bound(facing.y as int, heading.z as int, 100_000_000, 2_000_000);
        lemma_mul_fx_bound(facing.z as int, heading.x as int, 100_000_000, 2_000_000);
        lemma_mul_fx_bound(facing.z as int, heading.y as int, 100_000_000, 2_000_000);
    }
    let twist = facing.cross_fx(&heading);
    proof {
        assert(bounded3(ivec(twist), 400_000_000));
        assert(twist.x as int * twist.x as int <= 160_000_000_000_000_000) by (nonlinear_arith)
            requires
                mag(twist.x as int) <= 400_000_000;
        assert(twist.y as int * twist.y as int <= 160_000_000_000_000_000) by (nonlinear_arith)
            requires
                mag(twist.y as int) <= 400_000_000;
        assert(twist.z as int * twist.z as int <= 160_000_000_000_000_000) by (nonlinear_arith)
            requires
                mag(twist.z as int) <= 400_000_000;
    }
    let tn: i128 = twist.norm_sq();
    let tl128: u128 = sqrt_floor_u128(tn as u128);
    proof {
        crate::sqrt::lemma_sqrt_floor(tn as nat);
        assert(tl128 < 1_000_000_000) by (nonlinear_arith)
            requires
                (tl128 as int) * (tl128 as int) <= tn as int,
                tn as int <= 480_000_000_000_000_000,
                tl128 >= 0;
        lemma_mul_fx_bound(10 * (tl128 as int), dt as int, 10_000_000_000, DT_LIMIT as int);
    }
    let tl: i64 = tl128 as i64;
    let angle: i64 = scalar_mul_fx(10 * tl, dt);
    transform.rotate(angle, twist);
    player.update(transform, dt);
}

} // verus!
