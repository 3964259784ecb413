use scene_core::fixed::{add_sat, div_fx, mul_fx, ONE};
use scene_core::physics::{RigidBody, Shape};
use scene_core::quat::{Quat, QONE, QONE_SQ, UNIT_SLACK};
use scene_core::vector::Vec3;

fn at_rest() -> RigidBody {
    RigidBody::new(Vec3::zero(), Quat::identity(), Vec3::zero(), Vec3::zero(), ONE)
}

fn norm_sq(q: Quat) -> i128 {
    let (w, x, y, z) = (q.w as i128, q.x as i128, q.y as i128, q.z as i128);
    w * w + x * x + y * y + z * z
}

fn magnitude(q: Quat) -> f64 {
    (norm_sq(q) as f64).sqrt() / QONE as f64
}

fn assert_unit(q: Quat) {
    let n = norm_sq(q);
    assert!(n <= QONE_SQ as i128, "norm too large: {}", n);
    assert!(n > QONE_SQ as i128 - UNIT_SLACK as i128, "norm too small: {}", n);
    assert!((magnitude(q) - 1.0).abs() < 1e-7);
}

#[test]
fn fixed_point_arithmetic() {
    assert_eq!(mul_fx(3 * ONE, ONE / 2), 3 * ONE / 2);
    assert_eq!(mul_fx(-3, ONE / 2), -1);
    assert_eq!(mul_fx(3, ONE / 2), 1);
    assert_eq!(mul_fx(i64::MAX, 2 * ONE), i64::MAX);
    assert_eq!(mul_fx(i64::MIN, 2 * ONE), i64::MIN);
    assert_eq!(div_fx(ONE, 2 * ONE), ONE / 2);
    assert_eq!(div_fx(-ONE, 3 * ONE), -21845);
    assert_eq!(div_fx(ONE, -3 * ONE), -21845);
    assert_eq!(div_fx(i64::MAX, 1), i64::MAX);
    assert_eq!(add_sat(i64::MAX, 1), i64::MAX);
    assert_eq!(add_sat(i64::MIN, -1), i64::MIN);
    assert_eq!(add_sat(5, -7), -2);
}

#[test]
fn vector_operations() {
    let v = Vec3::new(ONE, 2 * ONE, -3 * ONE);
    assert_eq!(v.add(Vec3::new(1, 1, 1)), Vec3::new(ONE + 1, 2 * ONE + 1, -3 * ONE + 1));
    assert_eq!(v.scale(ONE / 2), Vec3::new(ONE / 2, ONE, -3 * ONE / 2));
    assert_eq!(v.div_scalar(2 * ONE), Vec3::new(ONE / 2, ONE, -3 * ONE / 2));
    // (1, 2, -3) x (1, 0, 0) = (0, -3, -2)
    assert_eq!(v.cross(Vec3::unit_x()), Vec3::new(0, -3 * ONE, -2 * ONE));
    let big = Vec3::new(i64::MAX, i64::MIN, i64::MAX);
    assert_eq!(big.cross(Vec3::new(i64::MIN, i64::MAX, i64::MIN)).x, 281474976710655);
    assert_eq!(Vec3::new(0, i64::MAX, 0).cross(Vec3::new(0, 0, i64::MAX)).x, i64::MAX);
    assert_eq!(Vec3::new(0, i64::MIN, 0).cross(Vec3::new(0, 0, i64::MAX)).x, i64::MIN);
}

#[test]
fn euler_step_updates_velocity_then_position() {
    let mut b = at_rest();
    b.velocity = Vec3::new(ONE, 0, 0);
    b.acceleration = Vec3::new(0, -2 * ONE, 0);
    b.update(ONE / 2);
    assert_eq!(b.velocity, Vec3::new(ONE, -ONE, 0));
    assert_eq!(b.position, Vec3::new(ONE / 2, -ONE / 2, 0));
    assert_eq!(b.rotation, Quat::identity());
    b.update(ONE / 2);
    assert_eq!(b.velocity, Vec3::new(ONE, -2 * ONE, 0));
    assert_eq!(b.position, Vec3::new(ONE, -3 * ONE / 2, 0));
}

#[test]
fn rotation_step_is_renormalised() {
    let mut b = at_rest();
    b.angular_velocity = Vec3::new(0, 0, 2 * ONE);
    b.update(ONE / 2);
    assert_eq!(b.rotation, Quat { w: 240095970, x: 0, y: 0, z: 120047985 });
    let q = b.rotation;
    assert!((q.w as f64 / QONE as f64 - 0.8944272).abs() < 1e-6);
    assert!((q.z as f64 / QONE as f64 - 0.4472136).abs() < 1e-6);
    assert!((magnitude(q) - 1.0).abs() < 1e-6);
    assert_unit(b.rotation);
}

#[test]
fn rotation_stays_unit_over_many_steps() {
    let mut b = at_rest();
    b.angular_velocity = Vec3::new(3 * ONE, -5 * ONE, 7 * ONE);
    for i in 0..5000 {
        b.update(1092 + (i % 7));
        assert_unit(b.rotation);
    }
    b.angular_velocity = Vec3::new(i64::MAX, i64::MIN, i64::MAX);
    for _ in 0..50 {
        b.update(ONE);
        assert_unit(b.rotation);
    }
}

#[test]
fn integration_is_deterministic() {
    let dts = [1092, 1092, 2000, 17, 65536, 1092, 0, 4000];
    let run = || {
        let mut b = at_rest();
        b.velocity = Vec3::new(ONE / 3, 7, -ONE);
        b.acceleration = Vec3::new(0, -642908, 0);
        b.angular_velocity = Vec3::new(ONE / 5, ONE, -ONE / 7);
        let mut trace = Vec::new();
        for dt in dts.iter() {
            b.update(*dt);
            trace.push(b);
        }
        trace
    };
    assert_eq!(run(), run());
}

#[test]
fn quaternion_from_components() {
    assert_eq!(Quat::from_components(0, 0, 0, 0), None);
    assert_eq!(Quat::from_components(1, 0, 0, 0), Some(Quat::identity()));
    assert_eq!(Quat::from_components(0, 0, -5, 0), Some(Quat { w: 0, x: 0, y: -QONE, z: 0 }));
    let q = Quat::from_components(1000, 1000, 1000, 1000).unwrap();
    assert_eq!(q, Quat { w: QONE / 2, x: QONE / 2, y: QONE / 2, z: QONE / 2 });
    assert_unit(Quat::from_components(i32::MAX, i32::MIN, 3, -7).unwrap());
}

#[test]
fn add_force_divides_by_mass() {
    let mut b = at_rest();
    b.add_force(Vec3::new(ONE, 0, -4 * ONE));
    assert_eq!(b.acceleration, Vec3::new(ONE, 0, -4 * ONE));
    b.mass = 2 * ONE;
    b.add_force(Vec3::new(ONE, 0, 0));
    assert_eq!(b.acceleration, Vec3::new(ONE + ONE / 2, 0, -4 * ONE));
    assert_eq!(b.velocity, Vec3::zero());
}

#[test]
fn moment_of_inertia_of_box_and_sphere() {
    let b = at_rest();
    assert_eq!(b.moment_of_inertia(), Vec3::new(10922, 10922, 10922));
    let mut s = at_rest();
    s.shape = Shape::Sphere(ONE);
    assert_eq!(s.moment_of_inertia(), Vec3::new(26214, 26214, 26214));
    let mut long = at_rest();
    long.shape = Shape::Box(Vec3::new(2 * ONE, ONE, ONE));
    let i = long.moment_of_inertia();
    assert!(i.y > i.x);
    assert_eq!(i.y, i.z);
}

#[test]
fn torque_impulse_goes_through_inverse_inertia() {
    let mut b = at_rest();
    b.add_torque_impulse(Vec3::new(ONE, 0, -ONE));
    assert_eq!(b.angular_velocity, Vec3::new(6 * ONE, 0, -6 * ONE));
    let mut s = at_rest();
    s.shape = Shape::Sphere(ONE);
    s.add_torque_impulse(Vec3::new(0, ONE, 0));
    assert_eq!(s.angular_velocity, Vec3::new(0, 5 * ONE / 2, 0));
}

#[test]
fn half_rotation_step_is_bounded() {
    let mut b = at_rest();
    b.angular_velocity = Vec3::new(i64::MAX, 0, 0);
    b.update(ONE);
    // half step clamped to four radians about x: (1, 4, 0, 0) normalised
    assert_eq!(b.rotation, Quat { w: 65105161, x: 260420644, y: 0, z: 0 });
    assert_unit(b.rotation);
    assert_eq!(scene_core::quat::HALF_STEP_LIMIT, 4 * ONE);
}

#[test]
fn zero_time_step_changes_nothing() {
    let mut b = at_rest();
    b.velocity = Vec3::new(ONE, 2, 3);
    b.acceleration = Vec3::new(4, 5, 6);
    b.angular_velocity = Vec3::new(ONE, ONE, ONE);
    let before = b;
    b.update(0);
    assert_eq!(b, before);
}

#[test]
fn near_unit_rotation_stays_within_tolerance_after_a_step() {
    let s = |v: i32| v * 4096;
    let q = Quat::from_components(s(15782), s(-43542), s(-24121), s(39600)).unwrap();
    assert!((magnitude(q) - 1.0).abs() < 1e-6);
    let mut b = at_rest();
    b.rotation = q;
    b.angular_velocity = Vec3::new(-962, 154, 564);
    b.update(2 * ONE);
    assert!((magnitude(b.rotation) - 1.0).abs() < 1e-6);
    assert_unit(b.rotation);
}
