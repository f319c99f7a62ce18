use atum::math::angle::{Angle, PI};
use atum::math::length::Length;
use atum::math::scalar::SCALE;
use atum::math::trig::SinCos;
use atum::pose::{Pose, Vec2};
use atum::utils::angular_distance;

fn near(a: i64, b: i64, within: i64) -> bool {
    (a - b).abs() <= within
}

#[test]
fn new_pose_is_at_rest() {
    let pose = Pose::new(Length(1), Length(2), Angle(3));
    assert_eq!(
        pose,
        Pose { x: Length(1), y: Length(2), h: Angle(3), vf: 0, vs: 0, omega: 0 }
    );
    assert_eq!(pose.position(), Vec2::new(1, 2));
    assert_eq!(Pose::default(), Pose::new(Length(0), Length(0), Angle(0)));
}

#[test]
fn vector_accessors() {
    let v = Vec2::new(3_000_000i64, -4_000_000i64);
    assert_eq!(v.x(), 3_000_000);
    assert_eq!(v.y(), -4_000_000);
    assert_eq!(Vec2::from((1i64, 2i64)), Vec2::new(1, 2));
    assert_eq!(Vec2::new(Length(5), Length(6)).inches(), Vec2::new(5, 6));
}

#[test]
fn vector_length_and_magnitude() {
    let v = Vec2::new(3_000_000i64, -4_000_000i64);
    assert_eq!(v.length(), 5_000_000);
    assert_eq!(v.magnitude(), 5_000_000);
    assert_eq!(Vec2::new(0i64, 0i64).length(), 0);
}

#[test]
fn vector_distance() {
    let a = Vec2::new(1_000_000i64, 1_000_000i64);
    let b = Vec2::new(4_000_000i64, 5_000_000i64);
    assert_eq!(a.distance(b), 5_000_000);
    assert_eq!(b.distance(a), 5_000_000);
    assert_eq!(a.distance(a), 0);
}

#[test]
fn vector_dot_and_cross() {
    let a = Vec2::new(2_000_000i64, 3_000_000i64);
    let b = Vec2::new(4_000_000i64, 5_000_000i64);
    // 2 * 4 + 3 * 5 = 23
    assert_eq!(a.dot(b), 23_000_000);
    // 2 * 5 - 3 * 4 = -2
    assert_eq!(a.cross(b), -2_000_000);
    assert_eq!(b.cross(a), 2_000_000);
    assert_eq!(a.cross(a), 0);
}

#[test]
fn vector_operators() {
    let a = Vec2::new(2_000_000i64, 3_000_000i64);
    let b = Vec2::new(4_000_000i64, 5_000_000i64);
    assert_eq!(a + b, Vec2::new(6_000_000, 8_000_000));
    assert_eq!(a - b, Vec2::new(-2_000_000, -2_000_000));
    assert_eq!(a * 3_000_000, Vec2::new(6_000_000, 9_000_000));
    assert_eq!(a + 1_000_000, Vec2::new(3_000_000, 4_000_000));
    assert_eq!(a - 1_000_000, Vec2::new(1_000_000, 2_000_000));
}

#[test]
fn vector_angle() {
    assert!(near(Vec2::new(0i64, 1_000_000i64).angle(), PI / 2, 50));
    assert!(near(Vec2::new(-1_000_000i64, 0i64).angle(), PI, 50));
    assert!(near(Vec2::new(1_000_000i64, -1_000_000i64).angle(), -PI / 4, 50));
}

#[test]
fn vector_angular_distance_is_the_direction_from_the_other_point() {
    let from = Vec2::new(10_000_000i64, 10_000_000i64);
    let to = Vec2::new(10_000_000i64, 34_000_000i64);
    assert!(near(to.angular_distance(from), PI / 2, 50));
    assert!(near(from.angular_distance(to), -PI / 2, 50));
}

#[test]
fn rotating_by_a_given_sine_and_cosine() {
    let v = Vec2::new(3_000_000i64, 4_000_000i64);
    // a quarter turn counter-clockwise takes (3, 4) to (-4, 3)
    assert_eq!(v.rotated_by(SinCos { sin: SCALE, cos: 0 }), Vec2::new(-4_000_000, 3_000_000));
    // half a turn takes it to (-3, -4)
    assert_eq!(v.rotated_by(SinCos { sin: 0, cos: -SCALE }), Vec2::new(-3_000_000, -4_000_000));
    // no turn leaves it
    assert_eq!(v.rotated_by(SinCos { sin: 0, cos: SCALE }), v);
    // sin = 0.6, cos = 0.8: (3 * 0.8 - 4 * 0.6, 3 * 0.6 + 4 * 0.8) = (0, 5)
    assert_eq!(
        v.rotated_by(SinCos { sin: 600_000, cos: 800_000 }),
        Vec2::new(0, 5_000_000)
    );
}

#[test]
fn rotating_by_an_angle() {
    let v = Vec2::new(3_000_000i64, 4_000_000i64);
    let quarter = v.rotated(PI / 2);
    assert!(near(quarter.x, -4_000_000, 200) && near(quarter.y, 3_000_000, 200), "{:?}", quarter);
    let back = v.rotated(-PI / 2);
    assert!(near(back.x, 4_000_000, 200) && near(back.y, -3_000_000, 200), "{:?}", back);
}

#[test]
fn direction_from_a_pose_to_a_point() {
    let pose = Pose::new(Length(10_000_000), Length(10_000_000), Angle(0));
    let up = Vec2::new(Length(10_000_000), Length(34_000_000));
    assert!(near(angular_distance(pose, up).0, PI / 2, 50));
    let left = Vec2::new(Length(-14_000_000), Length(10_000_000));
    assert!(near(angular_distance(pose, left).0, PI, 50));
}
