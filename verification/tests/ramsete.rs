use atum::math::angle::{Angle, PI};
use atum::math::length::Length;
use atum::math::scalar::SCALE;
use atum::math::trig::SinCos;
use atum::motion::profiling::trajectory::{ProfilePoint, Trajectory};
use atum::motion::ramsete::{normalize, to_motor_rpm, Ramsete, Tracking, HEAD_START, MAX_RPM};
use atum::motion::Command;
use atum::pose::{Pose, Vec2};

const NO_TURN: SinCos = SinCos { sin: 0, cos: SCALE };

fn sample(distance: i64, x: i64, y: i64, heading: i64, v: i64, w: i64) -> ProfilePoint {
    ProfilePoint {
        distance,
        position: Vec2::new(x, y),
        heading,
        linear_velocity: v,
        angular_velocity: w,
    }
}

fn tracker() -> Ramsete {
    // a wheel of diameter 1 / pi turns once per inch
    Ramsete { b: 2_000_000, zeta: 700_000, track_width: 12_000_000, wheel_diameter: 318_310, external_gearing: SCALE }
}

fn at(x: i64, y: i64, h: i64) -> Pose {
    Pose::new(Length(x), Length(y), Angle(h))
}

#[test]
fn motor_rpm_of_a_wheel_speed() {
    // 10 in/s on a wheel of 1 in circumference (diameter 1 / pi): 600 rpm
    let rpm = to_motor_rpm(10_000_000, 318_310, SCALE);
    assert!((rpm - 600_000_000).abs() <= 1_000, "{}", rpm);
    // pi in/s on a wheel of diameter 1 turns once a second
    assert_eq!(to_motor_rpm(3_141_593, 1_000_000, 1_000_000), 60_000_000);
    // geared down by two, the motor turns half as fast
    assert_eq!(to_motor_rpm(3_141_593, 1_000_000, 2_000_000), 30_000_000);
    assert_eq!(to_motor_rpm(-3_141_593, 1_000_000, 1_000_000), -60_000_000);
}

#[test]
fn motor_rpm_of_a_wheel_without_size_is_zero() {
    assert_eq!(to_motor_rpm(10_000_000, 0, SCALE), 0);
    assert_eq!(to_motor_rpm(10_000_000, 1_000_000, 0), 0);
}

#[test]
fn velocities_within_the_limit_are_left_alone() {
    assert_eq!(normalize(100_000_000, -450_000_000), (100_000_000, -450_000_000));
    assert_eq!(normalize(0, 0), (0, 0));
    assert_eq!(normalize(MAX_RPM, MAX_RPM), (MAX_RPM, MAX_RPM));
}

#[test]
fn velocities_beyond_the_limit_are_scaled_together() {
    // 900 is twice the limit: both are halved
    assert_eq!(normalize(900_000_000, 300_000_000), (450_000_000, 150_000_000));
    assert_eq!(normalize(-300_000_000, 900_000_000), (-150_000_000, 450_000_000));
    assert_eq!(normalize(-900_000_000, -900_000_000), (-450_000_000, -450_000_000));
    // the ratio of the two is kept
    let (l, r) = normalize(1_350_000_000, 450_000_000);
    assert_eq!((l, r), (450_000_000, 150_000_000));
}

#[test]
fn tracking_starts_with_a_head_start() {
    assert_eq!(
        Ramsete::start(at(1_000_000, 2_000_000, 0)),
        Tracking { prev_position: Vec2::new(1_000_000, 2_000_000), distance: HEAD_START }
    );
}

#[test]
fn robot_on_the_path_gets_the_profile_velocities() {
    let r = tracker();
    // on the sample, heading along it: v = 10 in/s, no turn: both sides 600 rpm, scaled to 450
    let speeds = r.wheel_speeds(sample(0, 0, 0, 0, 5_000_000, 0), at(0, 0, 0), NO_TURN, NO_TURN);
    assert!((speeds.0 - 300_000_000).abs() <= 1_000, "{:?}", speeds);
    assert_eq!(speeds.0, speeds.1);
}

#[test]
fn turning_profile_speeds_up_the_right_side() {
    let r = tracker();
    // w = 0.5 rad/s counter-clockwise at v = 2: the sides differ by 0.5 / 2 * 12 = 3 in/s each way
    let speeds =
        r.wheel_speeds(sample(0, 0, 0, 0, 2_000_000, 500_000), at(0, 0, 0), NO_TURN, NO_TURN);
    // left (2 - 3) * 60 rpm, right (2 + 3) * 60 rpm
    assert!((speeds.0 + 60_000_000).abs() <= 1_000, "{:?}", speeds);
    assert!((speeds.1 - 300_000_000).abs() <= 1_000, "{:?}", speeds);
}

#[test]
fn robot_behind_the_sample_speeds_up() {
    let r = tracker();
    let on = r.wheel_speeds(sample(0, 0, 0, 0, 2_000_000, 0), at(0, 0, 0), NO_TURN, NO_TURN);
    let behind =
        r.wheel_speeds(sample(0, 1_000_000, 0, 0, 2_000_000, 0), at(0, 0, 0), NO_TURN, NO_TURN);
    // gain k = 2 * 0.7 * sqrt(2 * 2^2) = 3.959797; one inch behind adds k in/s
    assert!(behind.0 > on.0 && behind.1 > on.1);
    assert_eq!(behind.0, behind.1);
    let added = (behind.0 - on.0) as f64 / 60e6;
    assert!((added - 3.959797).abs() < 0.001, "{}", added);
}

#[test]
fn robot_right_of_the_sample_steers_left() {
    let r = tracker();
    // the sample lies one inch to the left of the robot
    let speeds =
        r.wheel_speeds(sample(0, 0, 1_000_000, 0, 2_000_000, 0), at(0, 0, 0), NO_TURN, NO_TURN);
    assert!(speeds.1 > speeds.0, "{:?}", speeds);
    // b * v * sinc(0) * e_y = 2 * 2 * 1 * 1 = 4 rad/s, halved and times the track: 24 in/s.
    // The sides would run at (2 - 24) * 60 and (2 + 24) * 60 rpm; scaled down together,
    // the right side runs at the limit and the left at -22 / 26 of it.
    assert!((speeds.1 - MAX_RPM).abs() <= 1_000, "{:?}", speeds);
    assert!((speeds.0 + 380_769_231).abs() <= 1_000, "{:?}", speeds);
}

#[test]
fn follow_stops_at_the_last_sample() {
    let r = tracker();
    let trajectory = Trajectory::new(vec![
        sample(0, 0, 0, 0, 0, 0),
        sample(1_000_000, 1_000_000, 0, 0, 5_000_000, 0),
        sample(2_000_000, 2_000_000, 0, 0, 0, 0),
    ])
    .unwrap();
    let mut state = Ramsete::start(at(0, 0, 0));
    // the head start of 0.3 in puts the robot on the second sample
    let first = r.follow(&mut state, at(0, 0, 0), &trajectory);
    assert!(matches!(first, Command::Spin { .. }), "{:?}", first);
    assert_eq!(first.to_voltages(), None);
    assert_eq!(state.distance, HEAD_START);
    // 0.7 in on, the distance is 1.0: still the second sample
    let second = r.follow(&mut state, at(700_000, 0, 0), &trajectory);
    assert!(matches!(second, Command::Spin { .. }));
    assert_eq!(state.distance, 1_000_000);
    assert_eq!(state.prev_position, Vec2::new(700_000, 0));
    // one step further the last sample is the nearest one ahead
    let third = r.follow(&mut state, at(700_001, 0, 0), &trajectory);
    assert_eq!(third, Command::Stop);
    assert_eq!(third.to_voltages(), Some((0, 0)));
}

#[test]
fn follow_measures_the_distance_along_the_way_driven() {
    let r = tracker();
    let trajectory = Trajectory::new(vec![
        sample(0, 0, 0, 0, 0, 0),
        sample(100_000_000, 100_000_000, 0, 0, 0, 0),
    ])
    .unwrap();
    let mut state = Ramsete::start(at(0, 0, 0));
    r.follow(&mut state, at(3_000_000, 4_000_000, 0), &trajectory);
    assert_eq!(state.distance, HEAD_START + 5_000_000);
    r.follow(&mut state, at(0, 0, 0), &trajectory);
    assert_eq!(state.distance, HEAD_START + 10_000_000);
}

#[test]
fn follow_uses_the_heading_for_its_frame() {
    let r = tracker();
    let trajectory = Trajectory::new(vec![
        sample(0, 0, 0, 0, 0, 0),
        sample(10_000_000, 0, 10_000_000, PI / 2, 2_000_000, 0),
        sample(20_000_000, 0, 20_000_000, PI / 2, 0, 0),
    ])
    .unwrap();
    // heading up the y axis, the sample nine inches ahead: both sides run forward alike
    let mut state = Ramsete::start(at(0, 1_000_000, PI / 2));
    match r.follow(&mut state, at(0, 1_000_000, PI / 2), &trajectory) {
        Command::Spin { left, right } => {
            assert!(left > 0 && right > 0);
            assert!((left - right).abs() < 5_000_000, "{} {}", left, right);
        }
        other => panic!("{:?}", other),
    }
}
