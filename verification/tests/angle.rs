use atum::math::angle::{Angle, PI, TAU};
use atum::utils::{wrap, wrapped};

#[test]
fn wrap_brings_angle_into_half_open_turn() {
    assert_eq!(Angle(4_000_000).wrap(), Angle(4_000_000 - TAU));
    assert_eq!(Angle(-PI).wrap(), Angle(PI));
    assert_eq!(Angle(PI).wrap(), Angle(PI));
    assert_eq!(Angle(PI + 1).wrap(), Angle(-PI + 1));
    assert_eq!(Angle(-PI + 1).wrap(), Angle(-PI + 1));
    assert_eq!(Angle(0).wrap(), Angle(0));
    assert_eq!(Angle(7 * TAU + 5).wrap(), Angle(5));
    assert_eq!(Angle(-7 * TAU - 5).wrap(), Angle(-5));
}

#[test]
fn wrap_is_idempotent() {
    let samples: [i64; 12] = [
        0,
        1,
        -1,
        PI,
        -PI,
        PI + 1,
        TAU,
        -TAU,
        123_456_789_012,
        -987_654_321_098,
        i64::MAX,
        i64::MIN,
    ];
    for a in samples {
        let once = Angle(a).wrap();
        assert!(-PI < once.0 && once.0 <= PI, "{} wrapped to {}", a, once.0);
        assert_eq!(once.wrap(), once);
        assert_eq!((once.0 as i128 - a as i128).rem_euclid(TAU as i128), 0);
    }
}

#[test]
fn wrap_of_almost_a_full_turn_is_almost_zero() {
    // 359 degrees away is one degree away, the other way round
    let error = Angle::from_degrees(359_000_000).wrap();
    let one_degree = Angle::from_degrees(-1_000_000);
    assert!((error.0 - one_degree.0).abs() <= 2, "{}", error.0);
}

#[test]
fn free_wrap_functions_agree_with_the_method() {
    assert_eq!(wrap(Angle(4_000_000)), Angle(4_000_000).wrap());
    assert_eq!(wrapped(4_000_000), 4_000_000 - TAU);
    assert_eq!(wrapped(-PI), PI);
}

#[test]
fn degrees_to_radians() {
    assert_eq!(Angle::from_degrees(180_000_000), Angle(PI));
    assert_eq!(Angle::from_degrees(90_000_000), Angle(1_570_796));
    assert_eq!(Angle::from_degrees(-90_000_000), Angle(-1_570_796));
    assert_eq!(Angle::from_degrees(1_000_000), Angle(17_453));
    assert_eq!(Angle::from_degrees(0), Angle(0));
}

#[test]
fn radians_to_degrees() {
    assert_eq!(Angle(PI).as_degrees(), 180_000_000);
    assert_eq!(Angle(-PI).as_degrees(), -180_000_000);
    assert_eq!(Angle(0).as_degrees(), 0);
}

#[test]
fn revolutions() {
    assert_eq!(Angle::from_revolutions(1_000_000), Angle(TAU));
    assert_eq!(Angle::from_revolutions(500_000), Angle(PI));
    assert_eq!(Angle(TAU).as_revolutions(), 1_000_000);
    assert_eq!(Angle(PI).as_revolutions(), 500_000);
    assert_eq!(Angle(-PI).as_revolutions(), -500_000);
}

#[test]
fn radians_pass_through() {
    assert_eq!(Angle::from_radians(42).as_radians(), 42);
    assert_eq!(Angle::default(), Angle(0));
}

#[test]
fn angle_operators() {
    assert_eq!(Angle(3) + Angle(4), Angle(7));
    assert_eq!(Angle(3) - Angle(4), Angle(-1));
    assert_eq!(-Angle(3), Angle(-3));
    assert_eq!(Angle(3_000_000) * 2_000_000, Angle(6_000_000));
    assert_eq!(Angle(3_000_000) / 2_000_000, Angle(1_500_000));
    assert_eq!(Angle(3_000_000) / 0, Angle(0));
    assert_eq!(Angle(-3).abs(), Angle(3));
    assert_eq!(Angle(i64::MAX) + Angle(1), Angle(i64::MAX));
}
