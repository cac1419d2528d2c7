use flightcore::camera::{CameraState, SCALE_SQ};
use flightcore::fixed::SCALE;
use flightcore::input::KeyFlags;
use flightcore::player::{player_input, update_player, Player, Rgba};
use flightcore::quat::QuatFx;
use flightcore::transform::Transform;
use flightcore::vec3::Vec3Fx;

fn blue() -> Rgba {
    Rgba { r: 0, g: 0, b: 255, a: 255 }
}

fn speed_sq(p: &Player) -> i128 {
    let x = p.velocity.x as i128;
    let y = p.velocity.y as i128;
    let z = p.velocity.z as i128;
    x * x + y * y + z * z
}

fn world_camera() -> CameraState {
    // identity orientation: forward +z, right +x, up +y
    CameraState::new(
        Vec3Fx::new(0, 0, -50 * SCALE),
        Vec3Fx::zero(),
        Vec3Fx::new(0, 0, SCALE_SQ),
        Vec3Fx::new(SCALE_SQ, 0, 0),
        Vec3Fx::new(0, SCALE_SQ, 0),
        0,
        0,
        0,
    )
}

#[test]
fn single_forward_force_lands_unclamped() {
    // max speed 200, one force of 50 along +z: speed exactly 50 along +z
    let mut p = Player::new(blue(), 200 * SCALE);
    p.add_force(Vec3Fx::new(0, 0, SCALE), 50 * SCALE);
    assert_eq!((p.velocity.x, p.velocity.y, p.velocity.z), (0, 0, 50 * SCALE));
}

#[test]
fn two_forward_forces_accumulate_unclamped() {
    let mut p = Player::new(blue(), 200 * SCALE);
    p.add_force(Vec3Fx::new(0, 0, SCALE), 50 * SCALE);
    p.add_force(Vec3Fx::new(0, 0, SCALE), 50 * SCALE);
    assert_eq!((p.velocity.x, p.velocity.y, p.velocity.z), (0, 0, 100 * SCALE));
}

#[test]
fn oversized_force_clamps_to_max_speed_exactly() {
    // one force of 300 on a fresh body with max speed 200: the cap scales
    // the velocity to exactly 200, direction preserved
    let mut p = Player::new(blue(), 200 * SCALE);
    p.add_force(Vec3Fx::new(0, 0, SCALE), 300 * SCALE);
    assert_eq!((p.velocity.x, p.velocity.y, p.velocity.z), (0, 0, 200 * SCALE));
}

#[test]
fn clamp_preserves_direction_off_axis() {
    // a 3-4-0 direction force far over the cap keeps its 3:4 shape
    let mut p = Player::new(blue(), 200 * SCALE);
    p.add_force(Vec3Fx::new(600_000, 800_000, 0), 1000 * SCALE);
    let x = p.velocity.x as f64 / SCALE as f64;
    let y = p.velocity.y as f64 / SCALE as f64;
    assert!(p.velocity.z == 0);
    assert!((x - 120.0).abs() < 1e-3);
    assert!((y - 160.0).abs() < 1e-3);
    let max_sq = (200i128 * SCALE as i128) * (200i128 * SCALE as i128);
    assert!(speed_sq(&p) <= max_sq);
}

#[test]
fn speed_never_exceeds_cap_over_force_sequences() {
    let mut p = Player::new(blue(), 200 * SCALE);
    let max_sq = (200i128 * SCALE as i128) * (200i128 * SCALE as i128);
    let dirs = [
        Vec3Fx::new(SCALE, 0, 0),
        Vec3Fx::new(0, SCALE, 0),
        Vec3Fx::new(0, 0, -SCALE),
        Vec3Fx::new(-600_000, 0, 800_000),
    ];
    let mut i: usize = 0;
    while i < 40 {
        p.add_force(dirs[i % dirs.len()], 70 * SCALE);
        assert!(speed_sq(&p) <= max_sq);
        i += 1;
    }
}

#[test]
fn zero_direction_force_keeps_velocity_and_flag() {
    let mut p = Player::new(blue(), 200 * SCALE);
    p.add_force(Vec3Fx::new(0, 0, SCALE), 50 * SCALE);
    let before = (p.velocity.x, p.velocity.y, p.velocity.z, p.stabilizing);
    p.add_force(Vec3Fx::zero(), 70 * SCALE);
    assert_eq!((p.velocity.x, p.velocity.y, p.velocity.z, p.stabilizing), before);
}

#[test]
fn nonzero_force_disarms_damping() {
    let mut p = Player::new(blue(), 200 * SCALE);
    let mut t = Transform::new(Vec3Fx::zero(), Vec3Fx::new(SCALE, SCALE, SCALE), QuatFx::identity());
    p.update(&mut t, SCALE / 2);
    assert!(p.stabilizing);
    p.add_force(Vec3Fx::new(0, 0, SCALE), 50 * SCALE);
    assert!(!p.stabilizing);
}

#[test]
fn damping_halves_velocity_each_half_second_tick() {
    // stabilizer power 1, dt = 0.5: each tick scales the velocity by
    // 1 - clamp(0.5, 0, 1) = 0.5; from (10, 0, 0): (5, 0, 0), then (2.5, 0, 0)
    let mut p = Player::new(blue(), 200 * SCALE);
    p.add_force(Vec3Fx::new(SCALE, 0, 0), 10 * SCALE);
    let mut t = Transform::new(Vec3Fx::zero(), Vec3Fx::new(SCALE, SCALE, SCALE), QuatFx::identity());
    // the force disarmed damping, so the first tick only re-arms it
    p.update(&mut t, SCALE / 2);
    assert_eq!(p.velocity.x, 10 * SCALE);
    p.update(&mut t, SCALE / 2);
    assert_eq!(p.velocity.x, 5 * SCALE);
    p.update(&mut t, SCALE / 2);
    assert_eq!(p.velocity.x, 2_500_000);
}

#[test]
fn damping_never_grows_speed() {
    let mut p = Player::new(blue(), 200 * SCALE);
    p.add_force(Vec3Fx::new(-600_000, 800_000, 0), 137 * SCALE);
    let mut t = Transform::new(Vec3Fx::zero(), Vec3Fx::new(SCALE, SCALE, SCALE), QuatFx::identity());
    let mut last = speed_sq(&p);
    let mut i: usize = 0;
    while i < 50 {
        p.update(&mut t, SCALE / 3);
        let now = speed_sq(&p);
        assert!(now <= last);
        last = now;
        i += 1;
    }
}

#[test]
fn damping_never_overshoots_past_zero() {
    // a one-millionth-unit residue blends toward zero but never flips sign
    let mut p = Player::new(blue(), 200 * SCALE);
    p.add_force(Vec3Fx::new(0, 0, 1), SCALE);
    assert_eq!(p.velocity.z, 1);
    let mut t = Transform::new(Vec3Fx::zero(), Vec3Fx::new(SCALE, SCALE, SCALE), QuatFx::identity());
    let mut i: usize = 0;
    while i < 20 {
        p.update(&mut t, SCALE / 2);
        assert!(0 <= p.velocity.z && p.velocity.z <= 1);
        i += 1;
    }
}

#[test]
fn cap_holds_at_the_largest_accepted_speed() {
    // a player built with the largest accepted cap still clamps exactly
    let max = flightcore::player::SPEED_LIMIT;
    let mut p = Player::new(blue(), max);
    p.add_force(Vec3Fx::new(0, 0, 2 * SCALE), max);
    let max_sq = (max as i128) * (max as i128);
    assert!(speed_sq(&p) <= max_sq);
    assert_eq!(p.velocity.z, max);
}

#[test]
fn full_damping_fraction_stops_the_body_in_one_tick() {
    let mut p = Player::new(blue(), 200 * SCALE);
    p.add_force(Vec3Fx::new(0, 0, SCALE), 123 * SCALE);
    let mut t = Transform::new(Vec3Fx::zero(), Vec3Fx::new(SCALE, SCALE, SCALE), QuatFx::identity());
    p.update(&mut t, SCALE); // re-arm
    p.update(&mut t, SCALE); // power * dt = 1.0: all of the velocity goes
    assert_eq!((p.velocity.x, p.velocity.y, p.velocity.z), (0, 0, 0));
}

#[test]
fn step_at_rest_changes_nothing() {
    // velocity zero and damping armed: position and velocity stay put
    let mut p = Player::new(blue(), 200 * SCALE);
    let mut t = Transform::new(
        Vec3Fx::new(3 * SCALE, 2 * SCALE, SCALE),
        Vec3Fx::new(SCALE, SCALE, SCALE),
        QuatFx::identity(),
    );
    p.update(&mut t, SCALE / 2); // arms damping
    let pos = (t.position.x, t.position.y, t.position.z);
    p.update(&mut t, SCALE / 2);
    assert_eq!((t.position.x, t.position.y, t.position.z), pos);
    assert_eq!((p.velocity.x, p.velocity.y, p.velocity.z), (0, 0, 0));
}

#[test]
fn position_integrates_velocity_times_dt() {
    let mut p = Player::new(blue(), 200 * SCALE);
    p.add_force(Vec3Fx::new(0, 0, SCALE), 50 * SCALE);
    let mut t = Transform::new(Vec3Fx::zero(), Vec3Fx::new(SCALE, SCALE, SCALE), QuatFx::identity());
    p.update(&mut t, SCALE / 2);
    assert_eq!((t.position.x, t.position.y, t.position.z), (0, 0, 25 * SCALE));
}

#[test]
fn no_keys_held_leaves_player_unchanged() {
    let cam = world_camera();
    let mut p = Player::new(blue(), 200 * SCALE);
    p.add_force(Vec3Fx::new(0, 0, SCALE), 50 * SCALE);
    let before = (p.velocity.x, p.velocity.y, p.velocity.z, p.stabilizing);
    player_input(&mut p, &cam, &KeyFlags::none(), SCALE / 60);
    assert_eq!((p.velocity.x, p.velocity.y, p.velocity.z, p.stabilizing), before);
}

#[test]
fn forward_key_accelerates_along_camera_front() {
    let cam = world_camera();
    let mut p = Player::new(blue(), 200 * SCALE);
    let mut keys = KeyFlags::none();
    keys.forward = true;
    // dt = 1 s, acceleration 200: one full-speed push along +z, capped at 200
    player_input(&mut p, &cam, &keys, SCALE);
    assert_eq!((p.velocity.x, p.velocity.y, p.velocity.z), (0, 0, 200 * SCALE));
    assert!(!p.stabilizing);
}

#[test]
fn opposed_keys_cancel() {
    let cam = world_camera();
    let mut p = Player::new(blue(), 200 * SCALE);
    let mut keys = KeyFlags::none();
    keys.left = true;
    keys.right = true;
    player_input(&mut p, &cam, &keys, SCALE / 2);
    assert_eq!((p.velocity.x, p.velocity.y, p.velocity.z), (0, 0, 0));
}

#[test]
fn update_player_turns_facing_toward_heading() {
    // the body faces +z; the camera looks along +x; one tick must turn the
    // rotation away from the identity, about the +y axis
    let cam = CameraState::new(
        Vec3Fx::new(0, 0, -50 * SCALE),
        Vec3Fx::zero(),
        Vec3Fx::new(SCALE_SQ, 0, 0),
        Vec3Fx::new(0, 0, -SCALE_SQ),
        Vec3Fx::new(0, SCALE_SQ, 0),
        0,
        0,
        0,
    );
    let mut p = Player::new(blue(), 200 * SCALE);
    let mut t = Transform::new(Vec3Fx::zero(), Vec3Fx::new(SCALE, SCALE, SCALE), QuatFx::identity());
    update_player(&mut p, &mut t, &cam, SCALE / 60);
    assert!(t.rotation.y > 0);
    assert_eq!(t.rotation.x, 0);
    assert_eq!(t.rotation.z, 0);
    assert!(t.rotation.w > 0);
}

#[test]
fn update_player_aligned_leaves_rotation_alone() {
    // facing and heading agree: the twist is zero and the rotation stays
    let cam = world_camera();
    let mut p = Player::new(blue(), 200 * SCALE);
    let mut t = Transform::new(Vec3Fx::zero(), Vec3Fx::new(SCALE, SCALE, SCALE), QuatFx::identity());
    update_player(&mut p, &mut t, &cam, SCALE / 60);
    assert_eq!((t.rotation.x, t.rotation.y, t.rotation.z, t.rotation.w), (0, 0, 0, SCALE));
}

#[test]
fn yaw_pitch_roll_round_trip() {
    let mut p = Player::new(blue(), 200 * SCALE);
    p.set_yaw_pitch_roll(SCALE, -2 * SCALE, 3 * SCALE);
    let v = p.get_yaw_pitch_roll();
    assert_eq!((v.x, v.y, v.z), (SCALE, -2 * SCALE, 3 * SCALE));
}

#[test]
fn up_vector_is_world_up_at_spawn() {
    let p = Player::new(blue(), 200 * SCALE);
    let u = p.get_up_vector();
    assert_eq!((u.x, u.y, u.z), (0, SCALE, 0));
}
