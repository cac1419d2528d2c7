use flightcore::camera::{update_camera, CameraState, PITCH_LIMIT, SCALE_SQ};
use flightcore::fixed::SCALE;
use flightcore::input::{MouseInput, Vec2Fx};
use flightcore::vec3::Vec3Fx;

fn fresh_camera(yaw: i64, pitch: i64) -> CameraState {
    CameraState::new(
        Vec3Fx::new(0, 0, -50 * SCALE),
        Vec3Fx::zero(),
        Vec3Fx::new(0, 0, SCALE_SQ),
        Vec3Fx::new(SCALE_SQ, 0, 0),
        Vec3Fx::new(0, SCALE_SQ, 0),
        yaw,
        pitch,
        0,
    )
}

fn basis_f64(v: &Vec3Fx) -> [f64; 3] {
    let s2 = SCALE_SQ as f64;
    [v.x as f64 / s2, v.y as f64 / s2, v.z as f64 / s2]
}

fn dot_f64(a: [f64; 3], b: [f64; 3]) -> f64 {
    a[0] * b[0] + a[1] * b[1] + a[2] * b[2]
}

#[test]
fn yaw_accumulates_raw_without_wrap() {
    // pointer delta (1000 px, 0), dt = 1 s, look speed 0.1:
    // yaw grows by exactly 1000 * 1 * 0.1 = 100 radians.
    let mut cam = fresh_camera(0, 0);
    let input = MouseInput { mouse_delta: Vec2Fx::new(1000 * SCALE, 0) };
    update_camera(&mut cam, &input, SCALE, Vec3Fx::zero());
    assert_eq!(cam.yaw, 100 * SCALE);
}

#[test]
fn yaw_keeps_accumulating_past_full_turns() {
    let mut cam = fresh_camera(100 * SCALE, 0);
    let input = MouseInput { mouse_delta: Vec2Fx::new(1000 * SCALE, 0) };
    update_camera(&mut cam, &input, SCALE, Vec3Fx::zero());
    assert_eq!(cam.yaw, 200 * SCALE);
}

#[test]
fn pitch_clamps_at_upper_bound() {
    let mut cam = fresh_camera(0, 0);
    // a huge downward pointer delta turns into a pitch far above 1.5 rad
    let input = MouseInput { mouse_delta: Vec2Fx::new(0, -(100_000 * SCALE)) };
    update_camera(&mut cam, &input, SCALE, Vec3Fx::zero());
    assert_eq!(cam.pitch, PITCH_LIMIT);
}

#[test]
fn pitch_clamps_at_lower_bound() {
    let mut cam = fresh_camera(0, 0);
    let input = MouseInput { mouse_delta: Vec2Fx::new(0, 100_000 * SCALE) };
    update_camera(&mut cam, &input, SCALE, Vec3Fx::zero());
    assert_eq!(cam.pitch, -PITCH_LIMIT);
}

#[test]
fn pitch_does_not_accumulate_beyond_bound() {
    let mut cam = fresh_camera(0, 0);
    let input = MouseInput { mouse_delta: Vec2Fx::new(0, -(100_000 * SCALE)) };
    for _ in 0..5 {
        update_camera(&mut cam, &input, SCALE, Vec3Fx::zero());
        assert!(-PITCH_LIMIT <= cam.pitch && cam.pitch <= PITCH_LIMIT);
    }
    assert_eq!(cam.pitch, PITCH_LIMIT);
}

#[test]
fn basis_is_orthonormal_within_tolerance() {
    let yaws: [f64; 5] = [0.0, 1.18, -2.5, 3.9, 123.456];
    let pitches: [f64; 4] = [0.0, 0.7, -1.2, 1.5];
    for &yaw in yaws.iter() {
        for &pitch in pitches.iter() {
            let mut cam = fresh_camera((yaw * SCALE as f64) as i64, (pitch * SCALE as f64) as i64);
            let input = MouseInput { mouse_delta: Vec2Fx::new(0, 0) };
            update_camera(&mut cam, &input, SCALE, Vec3Fx::zero());
            let f = basis_f64(&cam.front);
            let r = basis_f64(&cam.right);
            let u = basis_f64(&cam.up);
            assert!((dot_f64(f, f).sqrt() - 1.0).abs() < 1e-5);
            assert!((dot_f64(r, r).sqrt() - 1.0).abs() < 1e-5);
            assert!((dot_f64(u, u).sqrt() - 1.0).abs() < 1e-5);
            assert!(dot_f64(f, r).abs() < 1e-5);
            assert!(dot_f64(r, u).abs() < 1e-5);
            assert!(dot_f64(f, u).abs() < 1e-5);
        }
    }
}

#[test]
fn basis_matches_reference_trigonometry() {
    let yaw = 1.18f64;
    let pitch = 0.35f64;
    let mut cam = fresh_camera((yaw * SCALE as f64) as i64, (pitch * SCALE as f64) as i64);
    let input = MouseInput { mouse_delta: Vec2Fx::new(0, 0) };
    update_camera(&mut cam, &input, SCALE, Vec3Fx::zero());
    let f = basis_f64(&cam.front);
    assert!((f[0] - yaw.cos() * pitch.cos()).abs() < 1e-4);
    assert!((f[1] - pitch.sin()).abs() < 1e-4);
    assert!((f[2] - yaw.sin() * pitch.cos()).abs() < 1e-4);
}

#[test]
fn camera_position_follows_target_with_offset() {
    // at yaw 0, pitch 0 the forward vector is +x, so the -50 unit
    // longitudinal offset puts the camera 50 units behind the target on x
    let mut cam = fresh_camera(0, 0);
    let input = MouseInput { mouse_delta: Vec2Fx::new(0, 0) };
    let target = Vec3Fx::new(7 * SCALE, SCALE, 3 * SCALE);
    update_camera(&mut cam, &input, SCALE, target);
    let x = cam.camera_position.x as f64 / SCALE as f64;
    let y = cam.camera_position.y as f64 / SCALE as f64;
    let z = cam.camera_position.z as f64 / SCALE as f64;
    assert!((x - (7.0 - 50.0)).abs() < 1e-4);
    assert!((y - 1.0).abs() < 1e-4);
    assert!((z - 3.0).abs() < 1e-4);
}

#[test]
fn camera_offset_and_roll_are_untouched() {
    let mut cam = fresh_camera(3 * SCALE, SCALE / 2);
    let offset_before = (cam.camera_offset.x, cam.camera_offset.y, cam.camera_offset.z);
    let input = MouseInput { mouse_delta: Vec2Fx::new(40 * SCALE, -20 * SCALE) };
    update_camera(&mut cam, &input, SCALE / 60, Vec3Fx::zero());
    assert_eq!((cam.camera_offset.x, cam.camera_offset.y, cam.camera_offset.z), offset_before);
    assert_eq!(cam.roll, 0);
}
