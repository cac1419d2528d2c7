use flightcore::fixed::SCALE;
use flightcore::projectiles::Bullet;
use flightcore::player::Rgba;
use flightcore::quat::QuatFx;
use flightcore::sqrt::{sqrt_ceil_u128, sqrt_floor_u128};
use flightcore::transform::Transform;
use flightcore::trig::{sin_cos, HALF_PI, TWO_PI};
use flightcore::vec3::Vec3Fx;

fn close(a: i64, reference: f64, tol: f64) -> bool {
    (a as f64 / SCALE as f64 - reference).abs() < tol
}

#[test]
fn sine_cosine_exact_at_zero() {
    let (s, c) = sin_cos(0);
    assert_eq!((s, c), (0, SCALE));
}

#[test]
fn sine_cosine_follow_reference_over_the_circle() {
    let mut angle: i64 = -7 * SCALE;
    while angle <= 7 * SCALE {
        let (s, c) = sin_cos(angle);
        let a = angle as f64 / SCALE as f64;
        assert!(close(s, a.sin(), 2e-5));
        assert!(close(c, a.cos(), 2e-5));
        assert!(-SCALE <= s && s <= SCALE);
        assert!(-SCALE <= c && c <= SCALE);
        angle += 10_007;
    }
}

#[test]
fn sine_cosine_handle_quarter_turns() {
    let (s1, c1) = sin_cos(HALF_PI);
    assert!(close(s1, 1.0, 2e-5));
    assert!(close(c1, 0.0, 2e-5));
    let (s2, c2) = sin_cos(2 * HALF_PI);
    assert!(close(s2, 0.0, 2e-5));
    assert!(close(c2, -1.0, 2e-5));
    let (s3, c3) = sin_cos(3 * HALF_PI);
    assert!(close(s3, -1.0, 2e-5));
    assert!(close(c3, 0.0, 2e-5));
    let (s4, c4) = sin_cos(TWO_PI);
    assert!(close(s4, 0.0, 2e-5));
    assert!(close(c4, 1.0, 2e-5));
}

#[test]
fn sine_cosine_accept_large_accumulated_angles() {
    let (s, c) = sin_cos(100 * SCALE);
    let a = 100.0f64;
    assert!(close(s, a.sin(), 1e-4));
    assert!(close(c, a.cos(), 1e-4));
}

#[test]
fn square_roots_bracket_their_argument() {
    let samples: [u128; 7] = [0, 1, 2, 15, 1 << 40, 90_000_000_000_000_000, 12_345_678_901_234_567];
    for &s in samples.iter() {
        let f = sqrt_floor_u128(s);
        let c = sqrt_ceil_u128(s);
        assert!(f * f <= s);
        assert!((f + 1) * (f + 1) > s);
        assert!(c * c >= s);
        if s > 0 {
            assert!((c - 1) * (c - 1) < s);
        }
    }
}

#[test]
fn square_root_exact_on_perfect_squares() {
    assert_eq!(sqrt_floor_u128(90_000_000_000_000_000), 300_000_000);
    assert_eq!(sqrt_ceil_u128(90_000_000_000_000_000), 300_000_000);
}

#[test]
fn translate_adds_componentwise() {
    let mut t = Transform::new(
        Vec3Fx::new(SCALE, 2 * SCALE, 3 * SCALE),
        Vec3Fx::new(SCALE, SCALE, SCALE),
        QuatFx::identity(),
    );
    t.translate(Vec3Fx::new(-SCALE, SCALE / 2, 10 * SCALE));
    assert_eq!((t.position.x, t.position.y, t.position.z), (0, 2_500_000, 13 * SCALE));
}

#[test]
fn rescale_multiplies_componentwise() {
    let mut t = Transform::new(
        Vec3Fx::zero(),
        Vec3Fx::new(3 * SCALE, SCALE, 2 * SCALE),
        QuatFx::identity(),
    );
    t.rescale(2 * SCALE, SCALE / 2, SCALE);
    assert_eq!((t.scale.x, t.scale.y, t.scale.z), (6 * SCALE, SCALE / 2, 2 * SCALE));
}

#[test]
fn zero_angle_rotation_is_identity() {
    let mut t = Transform::new(Vec3Fx::zero(), Vec3Fx::new(SCALE, SCALE, SCALE), QuatFx::identity());
    t.rotate(0, Vec3Fx::new(0, SCALE, 0));
    assert_eq!((t.rotation.x, t.rotation.y, t.rotation.z, t.rotation.w), (0, 0, 0, SCALE));
}

#[test]
fn quarter_turn_about_y_matches_reference() {
    let mut t = Transform::new(Vec3Fx::zero(), Vec3Fx::new(SCALE, SCALE, SCALE), QuatFx::identity());
    t.rotate(HALF_PI, Vec3Fx::new(0, SCALE, 0));
    let expected = (std::f64::consts::FRAC_PI_4).sin();
    assert!(close(t.rotation.y, expected, 1e-4));
    assert!(close(t.rotation.w, expected, 1e-4));
    assert_eq!(t.rotation.x, 0);
    assert_eq!(t.rotation.z, 0);
}

#[test]
fn rotation_carries_vectors() {
    // a quarter turn about y sends +z to +x
    let q = QuatFx::from_euler(0, HALF_PI, 0);
    let r = q.rotate_vec3(&Vec3Fx::new(0, 0, SCALE));
    assert!(close(r.x, 1.0, 1e-4));
    assert!(close(r.y, 0.0, 1e-4));
    assert!(close(r.z, 0.0, 1e-4));
}

#[test]
fn bullet_flies_straight() {
    let mut b = Bullet::new(
        Vec3Fx::new(SCALE, SCALE, SCALE),
        Rgba { r: 255, g: 120, b: 0, a: 255 },
        Vec3Fx::new(2 * SCALE, 0, -4 * SCALE),
        Vec3Fx::new(SCALE, SCALE, SCALE),
        Vec3Fx::new(SCALE, SCALE, SCALE),
    );
    b.update(SCALE / 2);
    assert_eq!((b.pos.x, b.pos.y, b.pos.z), (2 * SCALE, SCALE, -SCALE));
    b.update(SCALE / 2);
    assert_eq!((b.pos.x, b.pos.y, b.pos.z), (3 * SCALE, SCALE, -3 * SCALE));
}
