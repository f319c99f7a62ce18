use atum::math::angle::{Angle, PI};
use atum::math::scalar::SCALE;
use atum::math::trig::{bearing, fit_point, from_cossin, from_phase, from_unit, to_phase, SinCos};

fn near(a: i64, b: i64, within: i64) -> bool {
    (a - b).abs() <= within
}

#[test]
fn phase_of_an_angle() {
    assert_eq!(to_phase(Angle(0)), 0);
    assert_eq!(to_phase(Angle(PI)), i32::MIN);
    assert_eq!(to_phase(Angle(-PI)), i32::MIN);
    // a quarter turn is a quarter of the phase range, up to the rounding of pi
    assert!(near(to_phase(Angle(PI / 2)) as i64, 1 << 30, 1 << 10));
    assert!(near(to_phase(Angle(-PI / 2)) as i64, -(1 << 30), 1 << 10));
}

#[test]
fn angle_of_a_phase() {
    assert_eq!(from_phase(0), Angle(0));
    assert_eq!(from_phase(i32::MIN), Angle(PI));
    assert!(near(from_phase(1 << 30).0, PI / 2, 1));
    assert!(near(from_phase(-(1 << 30)).0, -PI / 2, 1));
}

#[test]
fn unit_of_a_scaled_value() {
    assert_eq!(from_unit(0), 0);
    assert_eq!(from_unit(i32::MIN), -SCALE);
    assert_eq!(from_unit(1 << 30), SCALE / 2);
    assert_eq!(from_unit(-(1 << 30)), -SCALE / 2);
    assert_eq!(from_unit(i32::MAX), SCALE - 1);
}

#[test]
fn pair_of_cosine_and_sine_is_taken_apart() {
    let sc = from_cossin((1 << 30, -(1 << 30)));
    assert_eq!(sc, SinCos { sin: -SCALE / 2, cos: SCALE / 2 });
}

#[test]
fn sine_and_cosine_of_the_quarter_turns() {
    let within = 50;
    let zero = Angle(0).sin_cos();
    assert!(near(zero.sin, 0, within) && near(zero.cos, SCALE, within), "{:?}", zero);
    let quarter = Angle(PI / 2).sin_cos();
    assert!(near(quarter.sin, SCALE, within) && near(quarter.cos, 0, within), "{:?}", quarter);
    let half = Angle(PI).sin_cos();
    assert!(near(half.sin, 0, within) && near(half.cos, -SCALE, within), "{:?}", half);
    let back = Angle(-PI / 2).sin_cos();
    assert!(near(back.sin, -SCALE, within) && near(back.cos, 0, within), "{:?}", back);
}

#[test]
fn sine_and_cosine_agree_with_floating_point() {
    let mut a: i64 = -2 * PI;
    while a <= 2 * PI {
        let sc = Angle(a).sin_cos();
        let (s, c) = (a as f64 / 1e6).sin_cos();
        assert!(near(sc.sin, (s * 1e6) as i64, 50), "sin {} = {}", a, sc.sin);
        assert!(near(sc.cos, (c * 1e6) as i64, 50), "cos {} = {}", a, sc.cos);
        assert!(sc.sin.abs() <= SCALE && sc.cos.abs() <= SCALE);
        a += 98_765;
    }
}

#[test]
fn bearing_of_the_axes_and_diagonals() {
    let within = 50;
    assert!(near(bearing(0, 5_000_000).0, 0, within));
    assert!(near(bearing(5_000_000, 0).0, PI / 2, within));
    assert!(near(bearing(-5_000_000, 0).0, -PI / 2, within));
    assert!(near(bearing(0, -5_000_000).0, PI, within));
    assert!(near(bearing(3_000_000, 3_000_000).0, PI / 4, within));
    assert!(near(bearing(-3_000_000, -3_000_000).0, -3 * PI / 4, within));
    assert_eq!(bearing(0, 0), Angle(0));
}

#[test]
fn bearing_agrees_with_floating_point() {
    let points: [(i64, i64); 8] = [
        (24_000_000, 1_000_000),
        (1_000_000, 24_000_000),
        (-7_500_000, 3_250_000),
        (-1, -144_000_000),
        (144_000_000, -144_000_000),
        (10, 3),
        (-2_000_000_000_000, 1_000_000_000_000),
        (i64::MAX, i64::MAX),
    ];
    for (x, y) in points {
        let b = bearing(y, x).0;
        let f = ((y as f64).atan2(x as f64) * 1e6) as i64;
        assert!(near(b, f, 100), "bearing of ({}, {}) = {}, not {}", x, y, b, f);
        assert!(-PI < b && b <= PI);
    }
}

#[test]
fn points_are_halved_until_they_fit() {
    assert_eq!(fit_point(5, -7), (5, -7));
    assert_eq!(fit_point(i32::MAX as i64, i32::MIN as i64), (i32::MAX, i32::MIN));
    assert_eq!(fit_point(1 << 31, 4), (1 << 30, 2));
    assert_eq!(fit_point(-(1 << 33), 1 << 32), (i32::MIN, 1 << 30));
    assert_eq!(fit_point(i64::MAX, 0), (i32::MAX, 0));
}

#[test]
fn sine_and_cosine_are_defined_round_the_whole_turn() {
    let mut phase: i64 = i32::MIN as i64;
    while phase <= i32::MAX as i64 {
        let angle = from_phase(phase as i32);
        let sc = angle.sin_cos();
        assert!(sc.sin.abs() <= SCALE && sc.cos.abs() <= SCALE);
        // sine squared and cosine squared add up to one
        let norm = (sc.sin as i128 * sc.sin as i128 + sc.cos as i128 * sc.cos as i128) as f64 / 1e12;
        assert!((norm - 1.0).abs() < 1e-4, "phase {}: {:?}", phase, sc);
        phase += 1_234_567;
    }
    for angle in [i64::MIN, i64::MIN + 1, -1, 0, 1, i64::MAX - 1, i64::MAX] {
        let sc = Angle(angle).sin_cos();
        assert!(sc.sin.abs() <= SCALE && sc.cos.abs() <= SCALE);
    }
}

#[test]
fn bearing_is_defined_for_every_point() {
    let edge: [i64; 13] = [
        i64::MIN,
        i64::MIN + 1,
        i32::MIN as i64 - 1,
        i32::MIN as i64,
        i32::MIN as i64 + 1,
        -1,
        0,
        1,
        i32::MAX as i64 - 1,
        i32::MAX as i64,
        i32::MAX as i64 + 1,
        i64::MAX - 1,
        i64::MAX,
    ];
    for y in edge {
        for x in edge {
            let b = bearing(y, x).0;
            assert!(-PI < b && b <= PI, "bearing of ({}, {}) = {}", x, y, b);
        }
    }
    let mut y: i64 = -2_000_000_000;
    while y <= 2_000_000_000 {
        let mut x: i64 = -2_000_000_000;
        while x <= 2_000_000_000 {
            let b = bearing(y, x).0;
            if x != 0 || y != 0 {
                let f = ((y as f64).atan2(x as f64) * 1e6) as i64;
                let off = (b - f).abs().min((b - f).abs().abs_diff(2 * PI) as i64);
                assert!(off <= 100, "bearing of ({}, {}) = {}, not {}", x, y, b, f);
            }
            x += 87_654_321;
        }
        y += 76_543_210;
    }
}
