use atum::controllers::pid::Pid;
use atum::math::angle::Angle;
use atum::math::length::Length;
use atum::motion::linear::{Linear, Travel};
use atum::motion::{Command, MAX_VOLTAGE};
use atum::pose::odometry::Odometry;
use atum::pose::{Pose, Vec2};

const TICK: i64 = 10_000;

fn moving(vf: i64) -> Pose {
    Pose { x: Length(0), y: Length(0), h: Angle(0), vf, vs: 0, omega: 0 }
}

fn primitive() -> Linear {
    Linear::new(Pid::new(2_000_000, 0, 0), Length(500_000), 2_000_000)
}

#[test]
fn new_primitive_has_default_settings() {
    let linear = primitive();
    assert_eq!(linear.timeout, None);
    assert_eq!(linear.speed, MAX_VOLTAGE);
    assert!(!linear.chain);
    assert_eq!(linear.tolerance, Length(500_000));
    assert_eq!(linear.velocity_tolerance, 2_000_000);
}

#[test]
fn settings_are_set_one_by_one() {
    let mut linear = primitive();
    linear.timeout(1_000_000);
    assert_eq!(linear.timeout, Some(1_000_000));
    linear.speed(500_000);
    assert_eq!(linear.speed, 6_000_000);
    linear.chain();
    assert!(linear.chain);
}

#[test]
fn settled_within_tolerance_and_at_rest() {
    let linear = primitive();
    assert!(linear.is_settled(499_999, 1_999_999, 0));
    assert!(!linear.is_settled(500_000, 1_999_999, 0));
    assert!(!linear.is_settled(499_999, 2_000_000, 0));
    assert!(!linear.is_settled(10_000_000, 0, i64::MAX));
}

#[test]
fn settled_when_time_is_up() {
    let mut linear = primitive();
    linear.timeout(1_000_000);
    assert!(!linear.is_settled(10_000_000, 50_000_000, 1_000_000));
    assert!(linear.is_settled(10_000_000, 50_000_000, 1_000_001));
}

#[test]
fn chained_move_settles_within_twice_the_tolerance_at_any_speed() {
    let mut linear = primitive();
    linear.chain();
    assert!(linear.is_settled(999_999, 50_000_000, 0));
    assert!(!linear.is_settled(1_000_000, 50_000_000, 0));
    assert!(!primitive().is_settled(999_999, 50_000_000, 0));
}

#[test]
fn drive_to_point_targets_the_distance_to_the_point() {
    let linear = primitive();
    let pose = Pose::new(Length(1_000_000), Length(2_000_000), Angle(0));
    let travel = linear.drive_to_point(pose, Vec2::new(Length(4_000_000), Length(6_000_000)));
    assert_eq!(travel, Travel { target: Length(5_000_000), traveled: Length(0), time: 0 });
}

#[test]
fn tick_drives_both_sides_with_the_controller_output() {
    let mut linear = primitive();
    let mut travel = Travel::new(Length(3_000_000));
    // no movement yet: error 3, command 2 * 3 = 6 V
    let command = linear.drive_distance(&mut travel, moving(0), TICK);
    assert_eq!(command, Command::Drive { left: 6_000_000, right: 6_000_000 });
    assert_eq!(travel, Travel { target: Length(3_000_000), traveled: Length(0), time: TICK });
    assert_eq!(linear.pid.prev_error, 3_000_000);
}

#[test]
fn tick_integrates_the_forward_velocity() {
    let mut linear = primitive();
    let mut travel = Travel::new(Length(3_000_000));
    // 50 in/s for 0.01 s are half an inch: error 2.5, command 5 V
    let command = linear.drive_distance(&mut travel, moving(50_000_000), TICK);
    assert_eq!(travel.traveled, Length(500_000));
    assert_eq!(command, Command::Drive { left: 5_000_000, right: 5_000_000 });
}

#[test]
fn voltage_is_held_to_the_speed_limit() {
    let mut linear = primitive();
    let mut travel = Travel::new(Length(24_000_000));
    assert_eq!(
        linear.drive_distance(&mut travel, moving(0), TICK),
        Command::Drive { left: MAX_VOLTAGE, right: MAX_VOLTAGE }
    );
    linear.speed(250_000);
    assert_eq!(
        linear.drive_distance(&mut travel, moving(0), TICK),
        Command::Drive { left: 3_000_000, right: 3_000_000 }
    );
    let mut back = Travel::new(Length(-24_000_000));
    assert_eq!(
        linear.drive_distance(&mut back, moving(0), TICK),
        Command::Drive { left: -3_000_000, right: -3_000_000 }
    );
}

#[test]
fn move_ends_in_the_tick_that_crosses_the_threshold() {
    let mut linear = primitive();
    let mut travel = Travel::new(Length(3_000_000));
    // the error falls by a quarter of an inch per tick, slowly enough to count as standing
    let mut ticks = 0;
    loop {
        let before = travel;
        let command = linear.drive_distance(&mut travel, moving(25_000_000 / 25), 250_000);
        ticks += 1;
        let error = (travel.target.0 - travel.traveled.0).abs();
        if error < 500_000 {
            assert_eq!(command, Command::Stop);
            assert_eq!(command.to_voltages(), Some((0, 0)));
            // one tick earlier the error was still outside
            assert!((before.target.0 - before.traveled.0).abs() >= 500_000);
            break;
        }
        assert!(matches!(command, Command::Drive { .. }));
        assert!(ticks < 100);
    }
    assert_eq!(ticks, 11);
}

#[test]
fn move_that_times_out_stops_with_zero_volts_before_it_settles() {
    let mut linear = primitive();
    linear.timeout(50_000);
    let mut travel = Travel::new(Length(24_000_000));
    let mut commands = Vec::new();
    loop {
        let command = linear.drive_distance(&mut travel, moving(0), TICK);
        commands.push(command);
        if command == Command::Stop {
            break;
        }
    }
    // five ticks reach the timeout, the sixth is past it
    assert_eq!(commands.len(), 6);
    assert_eq!(travel.time, 60_000);
    assert!(commands[..5].iter().all(|c| matches!(c, Command::Drive { .. })));
    assert_eq!(commands[5].to_voltages(), Some((0, 0)));
    // the robot is nowhere near its target
    assert_eq!(travel.traveled, Length(0));
}

#[test]
fn finished_move_puts_the_settings_back() {
    let mut linear = primitive();
    linear.timeout(5_000);
    linear.speed(500_000);
    linear.chain();
    let mut travel = Travel::new(Length(24_000_000));
    assert_eq!(linear.drive_distance(&mut travel, moving(0), TICK), Command::Stop);
    assert_eq!(linear.timeout, None);
    assert_eq!(linear.speed, MAX_VOLTAGE);
    assert!(!linear.chain);
}

#[test]
fn unfinished_move_keeps_the_settings() {
    let mut linear = primitive();
    linear.timeout(1_000_000);
    linear.speed(500_000);
    let mut travel = Travel::new(Length(24_000_000));
    assert!(matches!(
        linear.drive_distance(&mut travel, moving(0), TICK),
        Command::Drive { .. }
    ));
    assert_eq!(linear.timeout, Some(1_000_000));
    assert_eq!(linear.speed, 6_000_000);
}

#[test]
fn straight_drive_of_two_feet_arrives() {
    // a robot that runs at 5 in/s per volt, free to move
    let mut linear = Linear::new(Pid::new(2_000_000, 0, 0), Length(500_000), 2_000_000);
    let start = Pose::new(Length(0), Length(0), Angle(0));
    let mut odometry = Odometry::new(start, Length(0), Length(0));
    let mut travel =
        linear.drive_to_point(odometry.get_pose(), Vec2::new(Length(24_000_000), Length(0)));
    assert_eq!(travel.target, Length(24_000_000));
    let mut volts: f64 = 0.0;
    let mut last = Command::Drive { left: 0, right: 0 };
    for _ in 0..10_000 {
        let rolled = (volts * 5.0 * 0.01 * 1e6) as i64;
        odometry.update(Some(Length(rolled)), Some(Length(0)), Some(Angle(0)), TICK);
        last = linear.drive_distance(&mut travel, odometry.get_pose(), TICK);
        match last {
            Command::Drive { left, right } => {
                assert_eq!(left, right);
                assert!(left.abs() <= MAX_VOLTAGE);
                volts = left as f64 / 1e6;
            }
            _ => break,
        }
    }
    assert_eq!(last, Command::Stop);
    assert_eq!(last.to_voltages(), Some((0, 0)));
    let pose = odometry.get_pose();
    assert!((pose.x.0 - 24_000_000).abs() <= 500_000, "{:?}", pose);
    assert!(pose.y.0.abs() <= 1_000, "{:?}", pose);
}
