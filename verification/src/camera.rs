use crate::fixed::{
    clamp_i64, clamp_int, lemma_mul_div_bound, lemma_mul_fx_bound, mag, mul_div_trunc, mul_fx,
    scalar_mul_fx, trunc_div, SCALE,
};
use crate::input::MouseInput;
use crate::trig::{cos_fx, sin_cos, sin_fx};
use crate::vec3::{bounded3, dot3, ivec, norm_sq3, Vec3Fx};
use vstd::prelude::*;

verus! {

/// Radians of turn per pixel of pointer travel per second: 0.1.
pub const LOOK_SPEED: i64 = 100_000;

/// Hard bound on pitch, 1.5 rad, just short of the poles.
pub const PITCH_LIMIT: i64 = 1_500_000;

/// `SCALE * SCALE`: the unit of the basis vectors, which carry products of
/// two fixed-point trigonometric values.
pub const SCALE_SQ: i64 = 1_000_000_000_000;

/// Largest pointer displacement accepted in one tick (one million pixels).
pub const MOUSE_LIMIT: i64 = 1_000_000_000_000;

/// Longest tick accepted, ten seconds.
pub const DT_LIMIT: i64 = 10_000_000;

/// Largest accumulated angle the update accepts, far beyond any reachable
/// turn count but small enough that one more step cannot overflow.
pub const ANGLE_RANGE: i64 = 1_000_000_000_000_000_000;

/// Largest follow-offset component accepted (one million units).
pub const OFFSET_LIMIT: i64 = 1_000_000_000_000;

/// Largest world-position component accepted (one billion units).
pub const POS_LIMIT: i64 = 1_000_000_000_000_000;

/// One pointer-look increment: `delta * dt * speed`, left to right, each
/// product rounded toward zero.
pub open spec fn look_step(delta: int, dt: int, speed: int) -> int {
    mul_fx(mul_fx(delta, dt), speed)
}

/// Yaw after one update: raw accumulation, never clamped or wrapped.
pub open spec fn yaw_after(yaw: int, dx: int, dt: int) -> int {
    yaw + look_step(dx, dt, LOOK_SPEED as int)
}

/// Pitch after one update: accumulate with inverted sense, then clamp hard
/// into `[-PITCH_LIMIT, PITCH_LIMIT]`.
pub open spec fn pitch_after(pitch: int, dy: int, dt: int) -> int {
    clamp_int(
        pitch + look_step(dy, dt, -(LOOK_SPEED as int)),
        -(PITCH_LIMIT as int),
        PITCH_LIMIT as int,
    )
}

/// Forward basis vector, at scale `SCALE_SQ`, from the trigonometric values
/// of yaw and pitch: `(cos yaw * cos pitch, sin pitch, sin yaw * cos pitch)`.
pub open spec fn front_vec(cy: int, sy: int, cp: int, sp: int) -> (int, int, int) {
    (cy * cp, sp * (SCALE as int), sy * cp)
}

/// Right basis vector, at scale `SCALE_SQ`. It is the normalized cross
/// product of the forward vector with the world up axis, which for this
/// forward vector reduces to `(-sin yaw, 0, cos yaw)` exactly.
pub open spec fn right_vec(cy: int, sy: int) -> (int, int, int) {
    (-(sy * (SCALE as int)), 0, cy * (SCALE as int))
}

/// Up basis vector, at scale `SCALE_SQ`: the cross product of right and
/// forward, `(-cos yaw * sin pitch, cos pitch, -sin yaw * sin pitch)`.
pub open spec fn up_vec(cy: int, sy: int, cp: int, sp: int) -> (int, int, int) {
    (-(cy * sp), cp * (SCALE as int), -(sy * sp))
}

/// The camera's world position: the target position plus the follow offset
/// carried along the basis, `forward * offset.z - right * offset.x
/// + up * offset.y`, each basis weight brought back to scale `SCALE`.
pub open spec fn camera_pos3(
    target: (int, int, int),
    front: (int, int, int),
    right: (int, int, int),
    up: (int, int, int),
    offset: (int, int, int),
) -> (int, int, int) {
    let s2 = (SCALE_SQ) as int;
    (
        target.0 + trunc_div(front.0 * offset.2, s2) + trunc_div(-right.0 * offset.0, s2)
            + trunc_div(up.0 * offset.1, s2),
        target.1 + trunc_div(front.1 * offset.2, s2) + trunc_div(-right.1 * offset.0, s2)
            + trunc_div(up.1 * offset.1, s2),
        target.2 + trunc_div(front.2 * offset.2, s2) + trunc_div(-right.2 * offset.0, s2)
            + trunc_div(up.2 * offset.1, s2),
    )
}

/// Free-look camera state: accumulated angles, the derived orthogonal basis,
/// a fixed follow offset, and the resulting world position.
pub struct CameraState {
    /// Fixed displacement from the tracked target, in the target's basis:
    /// lateral, vertical, longitudinal; scale `SCALE`.
    pub camera_offset: Vec3Fx,
    /// World position, recomputed every update; scale `SCALE`.
    pub camera_position: Vec3Fx,
    /// Forward basis vector, derived from yaw and pitch; scale `SCALE_SQ`.
    pub front: Vec3Fx,
    /// Right basis vector, derived; scale `SCALE_SQ`.
    pub right: Vec3Fx,
    /// Up basis vector, derived; scale `SCALE_SQ`.
    pub up: Vec3Fx,
    /// Accumulated yaw, microradians; never wrapped.
    pub yaw: i64,
    /// Accumulated pitch, microradians; clamped by every update.
    pub pitch: i64,
    /// Roll, kept for future use; no update touches it.
    pub roll: i64,
}

impl CameraState {
    /// Builds a camera from explicit parts.
    pub fn new(
        camera_offset: Vec3Fx,
        camera_position: Vec3Fx,
        front: Vec3Fx,
        right: Vec3Fx,
        up: Vec3Fx,
        yaw: i64,
        pitch: i64,
        roll: i64,
    ) -> (c: CameraState)
        ensures
            c.camera_offset == camera_offset,
            c.camera_position == camera_position,
            c.front == front,
            c.right == right,
            c.up == up,
            c.yaw == yaw,
            c.pitch == pitch,
            c.roll == roll,
    {
        CameraState { camera_offset, camera_position, front, right, up, yaw, pitch, roll }
    }
}

/// One camera tick: integrate the pointer delta into yaw and pitch, clamp
/// pitch hard, rebuild the whole basis from the two angles alone, and place
/// the camera at the target plus the basis-weighted follow offset.
pub fn update_camera(
    camera: &mut CameraState,
    mouse_input: &MouseInput,
    dt: i64,
    target_position: Vec3Fx,
)
    requires
        mag(old(camera).yaw as int) <= ANGLE_RANGE as int,
        mag(old(camera).pitch as int) <= ANGLE_RANGE as int,
        mag(mouse_input.mouse_delta.x as int) <= MOUSE_LIMIT as int,
        mag(mouse_input.mouse_delta.y as int) <= MOUSE_LIMIT as int,
        0 <= dt <= DT_LIMIT,
        bounded3(ivec(old(camera).camera_offset), OFFSET_LIMIT as int),
        bounded3(ivec(target_position), POS_LIMIT as int),
    ensures
        final(camera).yaw as int == yaw_after(
            old(camera).yaw as int,
            mouse_input.mouse_delta.x as int,
            dt as int,
        ),
        final(camera).pitch as int == pitch_after(
            old(camera).pitch as int,
            mouse_input.mouse_delta.y as int,
            dt as int,
        ),
        -(PITCH_LIMIT as int) <= final(camera).pitch as int <= PITCH_LIMIT as int,
        ivec(final(camera).front) == front_vec(
            cos_fx(final(camera).yaw as int),
            sin_fx(final(camera).yaw as int),
            cos_fx(final(camera).pitch as int),
            sin_fx(final(camera).pitch as int),
        ),
        ivec(final(camera).right) == right_vec(
            cos_fx(final(camera).yaw as int),
            sin_fx(final(camera).yaw as int),
        ),
        ivec(final(camera).up) == up_vec(
            cos_fx(final(camera).yaw as int),
            sin_fx(final(camera).yaw as int),
            cos_fx(final(camera).pitch as int),
            sin_fx(final(camera).pitch as int),
        ),
        ivec(final(camera).camera_position) == camera_pos3(
            ivec(target_position),
            ivec(final(camera).front),
            ivec(final(camera).right),
            ivec(final(camera).up),
            ivec(old(camera).camera_offset),
        ),
        bounded3(ivec(final(camera).front), SCALE_SQ as int),
        bounded3(ivec(final(camera).right), SCALE_SQ as int),
        bounded3(ivec(final(camera).up), SCALE_SQ as int),
        final(camera).camera_offset == old(camera).camera_offset,
        final(camera).roll == old(camera).roll,
{
    let dx: i64 = mouse_input.mouse_delta.x;
    let dy: i64 = mouse_input.mouse_delta.y;
    proof {
        lemma_mul_fx_bound(dx as int, dt as int, MOUSE_LIMIT as int, DT_LIMIT as int);
        lemma_mul_fx_bound(dy as int, dt as int, MOUSE_LIMIT as int, DT_LIMIT as int);
    }
    let sx: i64 = scalar_mul_fx(dx, dt);
    let sy_step: i64 = scalar_mul_fx(dy, dt);
    proof {
        lemma_mul_fx_bound(sx as int, LOOK_SPEED as int, 10_000_000_000_000, LOOK_SPEED as int);
        lemma_mul_fx_bound(
            sy_step as int,
            -(LOOK_SPEED as int),
            10_000_000_000_000,
            LOOK_SPEED as int,
        );
    }
    let yaw_inc: i64 = scalar_mul_fx(sx, LOOK_SPEED);
    let pitch_inc: i64 = scalar_mul_fx(sy_step, -LOOK_SPEED);
    camera.yaw = camera.yaw + yaw_inc;
    camera.pitch = clamp_i64(camera.pitch + pitch_inc, -PITCH_LIMIT, PITCH_LIMIT);

    let (sin_yaw, cos_yaw) = sin_cos(camera.yaw);
    let (sin_pitch, cos_pitch) = sin_cos(camera.pitch);
    proof {
        let s: int = SCALE as int;
        assert(mag(cos_yaw as int * cos_pitch as int) <= s * s) by (nonlinear_arith)
            requires
                mag(cos_yaw as int) <= s,
                mag(cos_pitch as int) <= s;
        assert(mag(sin_yaw as int * cos_pitch as int) <= s * s) by (nonlinear_arith)
            requires
                mag(sin_yaw as int) <= s,
                mag(cos_pitch as int) <= s;
        assert(mag(cos_yaw as int * sin_pitch as int) <= s * s) by (nonlinear_arith)
            requires
                mag(cos_yaw as int) <= s,
                mag(sin_pitch as int) <= s;
        assert(mag(sin_yaw as int * sin_pitch as int) <= s * s) by (nonlinear_arith)
            requires
                mag(sin_yaw as int) <= s,
                mag(sin_pitch as int) <= s;
        assert(mag(sin_pitch as int * s) <= s * s) by (nonlinear_arith)
            requires
                mag(sin_pitch as int) <= s;
        assert(mag(cos_pitch as int * s) <= s * s) by (nonlinear_arith)
            requires
                mag(cos_pitch as int) <= s;
        assert(mag(sin_yaw as int * s) <= s * s) by (nonlinear_arith)
            requires
                mag(sin_yaw as int) <= s;
        assert(mag(cos_yaw as int * s) <= s * s) by (nonlinear_arith)
            requires
                mag(cos_yaw as int) <= s;
        assert(s * s == SCALE_SQ as int);
    }
    camera.front = Vec3Fx::new(cos_yaw * cos_pitch, sin_pitch * SCALE, sin_yaw * cos_pitch);
    camera.right = Vec3Fx::new(-(sin_yaw * SCALE), 0, cos_yaw * SCALE);
    camera.up = Vec3Fx::new(-(cos_yaw * sin_pitch), cos_pitch * SCALE, -(sin_yaw * sin_pitch));

    proof {
        let s2: int = SCALE_SQ as int;
        let off = ivec(camera.camera_offset);
        lemma_mul_div_bound(camera.front.x as int, off.2, s2, s2, OFFSET_LIMIT as int);
        lemma_mul_div_bound(camera.front.y as int, off.2, s2, s2, OFFSET_LIMIT as int);
        lemma_mul_div_bound(camera.front.z as int, off.2, s2, s2, OFFSET_LIMIT as int);
        lemma_mul_div_bound(-(camera.right.x as int), off.0, s2, s2, OFFSET_LIMIT as int);
        lemma_mul_div_bound(-(camera.right.y as int), off.0, s2, s2, OFFSET_LIMIT as int);
        lemma_mul_div_bound(-(camera.right.z as int), off.0, s2, s2, OFFSET_LIMIT as int);
        lemma_mul_div_bound(camera.up.x as int, off.1, s2, s2, OFFSET_LIMIT as int);
        lemma_mul_div_bound(camera.up.y as int, off.1, s2, s2, OFFSET_LIMIT as int);
        lemma_mul_div_bound(camera.up.z as int, off.1, s2, s2, OFFSET_LIMIT as int);
    }
    let px: i64 = target_position.x + mul_div_trunc(camera.front.x, camera.camera_offset.z, SCALE_SQ)
        + mul_div_trunc(-camera.right.x, camera.camera_offset.x, SCALE_SQ)
        + mul_div_trunc(camera.up.x, camera.camera_offset.y, SCALE_SQ);
    let py: i64 = target_position.y + mul_div_trunc(camera.front.y, camera.camera_offset.z, SCALE_SQ)
        + mul_div_trunc(-camera.right.y, camera.camera_offset.x, SCALE_SQ)
        + mul_div_trunc(camera.up.y, camera.camera_offset.y, SCALE_SQ);
    let pz: i64 = target_position.z + mul_div_trunc(camera.front.z, camera.camera_offset.z, SCALE_SQ)
        + mul_div_trunc(-camera.right.z, camera.camera_offset.x, SCALE_SQ)
        + mul_div_trunc(camera.up.z, camera.camera_offset.y, SCALE_SQ);
    camera.camera_position = Vec3Fx::new(px, py, pz);
}

/// The derived basis is orthogonal: forward-right and right-up exactly, for
/// every pair of trigonometric values; forward-up exactly whenever the yaw
/// pair lies on the circle of radius `SCALE`, with the residue written out
/// otherwise.
pub proof fn lemma_basis_orthogonal(cy: int, sy: int, cp: int, sp: int)
    ensures
        dot3(front_vec(cy, sy, cp, sp), right_vec(cy, sy)) == 0,
        dot3(right_vec(cy, sy), up_vec(cy, sy, cp, sp)) == 0,
        dot3(front_vec(cy, sy, cp, sp), up_vec(cy, sy, cp, sp)) == cp * sp * ((SCALE as int)
            * (SCALE as int) - (cy * cy + sy * sy)),
        (cy * cy + sy * sy == (SCALE as int) * (SCALE as int)) ==> dot3(
            front_vec(cy, sy, cp, sp),
            up_vec(cy, sy, cp, sp),
        ) == 0,
{
    let s: int = SCALE as int;
    let ps: int = cp * sp;
    assert((cy * cp) * (-(sy * s)) + (sp * s) * 0 + (sy * cp) * (cy * s) == 0) by (nonlinear_arith);
    assert((-(sy * s)) * (-(cy * sp)) + 0 * (cp * s) + (cy * s) * (-(sy * sp)) == 0)
        by (nonlinear_arith);
    assert((cy * cp) * (-(cy * sp)) == -((cy * cy) * ps)) by (nonlinear_arith)
        requires
            ps == cp * sp;
    assert((sy * cp) * (-(sy * sp)) == -((sy * sy) * ps)) by (nonlinear_arith)
        requires
            ps == cp * sp;
    assert((sp * s) * (cp * s) == (s * s) * ps) by (nonlinear_arith)
        requires
            ps == cp * sp;
    assert(-((cy * cy) * ps) + (s * s) * ps + -((sy * sy) * ps) == (s * s - (cy * cy + sy * sy))
        * ps) by (nonlinear_arith);
    assert((s * s - (cy * cy + sy * sy)) * ps == cp * sp * (s * s - (cy * cy + sy * sy)))
        by (nonlinear_arith)
        requires
            ps == cp * sp;
    if cy * cy + sy * sy == s * s {
        assert(cp * sp * (s * s - (cy * cy + sy * sy)) == 0) by (nonlinear_arith)
            requires
                cy * cy + sy * sy == s * s;
    }
}

/// The basis an update leaves behind, built from the fixed-point sine and
/// cosine of the final yaw and pitch, is orthogonal: exactly so between
/// forward and right and between right and up, for every pair of angles.
pub proof fn lemma_updated_basis_orthogonal(yaw: int, pitch: int)
    ensures
        dot3(
            front_vec(cos_fx(yaw), sin_fx(yaw), cos_fx(pitch), sin_fx(pitch)),
            right_vec(cos_fx(yaw), sin_fx(yaw)),
        ) == 0,
        dot3(
            right_vec(cos_fx(yaw), sin_fx(yaw)),
            up_vec(cos_fx(yaw), sin_fx(yaw), cos_fx(pitch), sin_fx(pitch)),
        ) == 0,
{
    lemma_basis_orthogonal(cos_fx(yaw), sin_fx(yaw), cos_fx(pitch), sin_fx(pitch));
}

/// On the unit circle the derived basis is exactly unit length: when both
/// trigonometric pairs satisfy `c*c + s*s == SCALE*SCALE`, each basis vector
/// has squared length exactly `SCALE^4` (the square of its scale).
pub proof fn lemma_basis_unit_on_circle(cy: int, sy: int, cp: int, sp: int)
    requires
        cy * cy + sy * sy == (SCALE as int) * (SCALE as int),
        cp * cp + sp * sp == (SCALE as int) * (SCALE as int),
    ensures
        norm_sq3(front_vec(cy, sy, cp, sp)) == (SCALE_SQ as int) * (SCALE_SQ as int),
        norm_sq3(right_vec(cy, sy)) == (SCALE_SQ as int) * (SCALE_SQ as int),
        norm_sq3(up_vec(cy, sy, cp, sp)) == (SCALE_SQ as int) * (SCALE_SQ as int),
{
    let s: int = SCALE as int;
    assert(SCALE_SQ as int == s * s);
    assert((cy * cp) * (cy * cp) == (cy * cy) * (cp * cp)) by (nonlinear_arith);
    assert((sy * cp) * (sy * cp) == (sy * sy) * (cp * cp)) by (nonlinear_arith);
    assert((sp * s) * (sp * s) == (sp * sp) * (s * s)) by (nonlinear_arith);
    assert((cy * cy) * (cp * cp) + (sy * sy) * (cp * cp) == (s * s) * (cp * cp))
        by (nonlinear_arith)
        requires
            cy * cy + sy * sy == s * s;
    assert((s * s) * (cp * cp) + (sp * sp) * (s * s) == (s * s) * (s * s)) by (nonlinear_arith)
        requires
            cp * cp + sp * sp == s * s;
    assert((-(sy * s)) * (-(sy * s)) == (sy * sy) * (s * s)) by (nonlinear_arith);
    assert((cy * s) * (cy * s) == (cy * cy) * (s * s)) by (nonlinear_arith);
    assert((sy * sy) * (s * s) + (cy * cy) * (s * s) == (s * s) * (s * s)) by (nonlinear_arith)
        requires
            cy * cy + sy * sy == s * s;
    assert((-(cy * sp)) * (-(cy * sp)) == (cy * cy) * (sp * sp)) by (nonlinear_arith);
    assert((-(sy * sp)) * (-(sy * sp)) == (sy * sy) * (sp * sp)) by (nonlinear_arith);
    assert((cp * s) * (cp * s) == (cp * cp) * (s * s)) by (nonlinear_arith);
    assert((cy * cy) * (sp * sp) + (sy * sy) * (sp * sp) == (s * s) * (sp * sp))
        by (nonlinear_arith)
        requires
            cy * cy + sy * sy == s * s;
    assert((s * s) * (sp * sp) + (cp * cp) * (s * s) == (s * s) * (s * s)) by (nonlinear_arith)
        requires
            cp * cp + sp * sp == s * s;
}

/// Near the unit circle the basis is unit length to first order: an error of
/// at most `e1` on the yaw pair and `e2` on the pitch pair moves each squared
/// length at most `SCALE^2 * (e1 + e2)` away from `SCALE^4`, and tilts
/// forward against up by at most `SCALE^2 * e1`.
pub proof fn lemma_basis_near_circle(cy: int, sy: int, cp: int, sp: int, e1: int, e2: int)
    requires
        mag(cy * cy + sy * sy - (SCALE as int) * (SCALE as int)) <= e1,
        mag(cp * cp + sp * sp - (SCALE as int) * (SCALE as int)) <= e2,
        mag(cy) <= SCALE as int,
        mag(sy) <= SCALE as int,
        mag(cp) <= SCALE as int,
        mag(sp) <= SCALE as int,
    ensures
        mag(norm_sq3(front_vec(cy, sy, cp, sp)) - (SCALE_SQ as int) * (SCALE_SQ as int)) <= (
        SCALE_SQ as int) * (e1 + e2),
        mag(norm_sq3(right_vec(cy, sy)) - (SCALE_SQ as int) * (SCALE_SQ as int)) <= (
        SCALE_SQ as int) * e1,
        mag(norm_sq3(up_vec(cy, sy, cp, sp)) - (SCALE_SQ as int) * (SCALE_SQ as int)) <= (
        SCALE_SQ as int) * (e1 + e2),
        mag(dot3(front_vec(cy, sy, cp, sp), up_vec(cy, sy, cp, sp))) <= (SCALE_SQ as int) * e1,
{
    let s: int = SCALE as int;
    let d1: int = cy * cy + sy * sy - s * s;
    let d2: int = cp * cp + sp * sp - s * s;
    assert(SCALE_SQ as int == s * s);
    assert((cy * cp) * (cy * cp) == (cy * cy) * (cp * cp)) by (nonlinear_arith);
    assert((sy * cp) * (sy * cp) == (sy * sy) * (cp * cp)) by (nonlinear_arith);
    assert((sp * s) * (sp * s) == (sp * sp) * (s * s)) by (nonlinear_arith);
    assert((cy * cy) * (cp * cp) + (sy * sy) * (cp * cp) == (s * s) * (cp * cp) + d1 * (cp * cp))
        by (nonlinear_arith)
        requires
            d1 == cy * cy + sy * sy - s * s;
    assert(mag(d1 * (cp * cp)) <= e1 * (s * s)) by (nonlinear_arith)
        requires
            mag(d1) <= e1,
            mag(cp) <= s,
            0 <= s;
    assert((s * s) * (cp * cp) + (sp * sp) * (s * s) == (s * s) * (s * s) + (s * s) * d2)
        by (nonlinear_arith)
        requires
            d2 == cp * cp + sp * sp - s * s;
    assert(mag((s * s) * d2) <= (s * s) * e2) by (nonlinear_arith)
        requires
            mag(d2) <= e2,
            0 <= s * s;

    assert((-(sy * s)) * (-(sy * s)) == (sy * sy) * (s * s)) by (nonlinear_arith);
    assert((cy * s) * (cy * s) == (cy * cy) * (s * s)) by (nonlinear_arith);
    assert((sy * sy) * (s * s) + (cy * cy) * (s * s) == (s * s) * (s * s) + d1 * (s * s))
        by (nonlinear_arith)
        requires
            d1 == cy * cy + sy * sy - s * s;
    assert(mag(d1 * (s * s)) <= e1 * (s * s)) by (nonlinear_arith)
        requires
            mag(d1) <= e1,
            0 <= s * s;

    assert((-(cy * sp)) * (-(cy * sp)) == (cy * cy) * (sp * sp)) by (nonlinear_arith);
    assert((-(sy * sp)) * (-(sy * sp)) == (sy * sy) * (sp * sp)) by (nonlinear_arith);
    assert((cp * s) * (cp * s) == (cp * cp) * (s * s)) by (nonlinear_arith);
    assert((cy * cy) * (sp * sp) + (sy * sy) * (sp * sp) == (s * s) * (sp * sp) + d1 * (sp * sp))
        by (nonlinear_arith)
        requires
            d1 == cy * cy + sy * sy - s * s;
    assert(mag(d1 * (sp * sp)) <= e1 * (s * s)) by (nonlinear_arith)
        requires
            mag(d1) <= e1,
            mag(sp) <= s,
            0 <= s;
    assert((s * s) * (sp * sp) + (cp * cp) * (s * s) == (s * s) * (s * s) + (s * s) * d2)
        by (nonlinear_arith)
        requires
            d2 == cp * cp + sp * sp - s * s;

    lemma_basis_orthogonal(cy, sy, cp, sp);
    assert(mag(cp * sp * (s * s - (cy * cy + sy * sy))) <= (s * s) * e1) by (nonlinear_arith)
        requires
            mag(cp) <= s,
            mag(sp) <= s,
            mag(cy * cy + sy * sy - s * s) <= e1,
            0 <= s;
}

} // verus!
