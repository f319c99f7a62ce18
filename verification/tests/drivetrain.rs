use atum::math::angle::Angle;
use atum::math::length::Length;
use atum::motion::MAX_VOLTAGE;
use atum::pose::odometry::Odometry;
use atum::pose::{Pose, Vec2};
use atum::subsystems::drivetrain::{
    apply_curve, arcade, differential, limit, DriveMode, Drivetrain,
};

fn base() -> Drivetrain {
    let odometry = Odometry::new(Pose::new(Length(1), Length(2), Angle(3)), Length(0), Length(0));
    Drivetrain::new(odometry, 1_625_000, 12_000_000)
}

fn stick(x: i64, y: i64) -> Vec2<i64> {
    Vec2::new(x, y)
}

#[test]
fn voltages_are_held_to_the_limit() {
    assert_eq!(limit(13_000_000), MAX_VOLTAGE);
    assert_eq!(limit(-13_000_000), -MAX_VOLTAGE);
    assert_eq!(limit(11_999_999), 11_999_999);
    assert_eq!(limit(i64::MIN), -MAX_VOLTAGE);
    let mut d = base();
    assert_eq!(d.set_voltages(20_000_000, -3_000_000), (MAX_VOLTAGE, -3_000_000));
    assert_eq!(d.get_voltages(), [MAX_VOLTAGE, -3_000_000]);
    assert_eq!(d.set_voltages(0, 0), (0, 0));
    assert_eq!(d.get_voltages(), [0, 0]);
}

#[test]
fn new_drivetrain_stands_still() {
    let d = base();
    assert_eq!(d.get_voltages(), [0, 0]);
    assert_eq!(d.get_pose(), Pose::new(Length(1), Length(2), Angle(3)));
}

#[test]
fn pose_can_be_anchored_anew() {
    let mut d = base();
    let pose = Pose::new(Length(84_000_000), Length(24_000_000), Angle(959_931));
    d.set_pose(pose);
    assert_eq!(d.get_pose(), pose);
    assert_eq!((d.r, d.track), (1_625_000, 12_000_000));
}

#[test]
fn arcade_mixing() {
    assert_eq!(arcade(5_000_000, 1_000_000), (6_000_000, 4_000_000));
    assert_eq!(arcade(0, -2_000_000), (-2_000_000, 2_000_000));
    assert_eq!(arcade(i64::MAX, 1), (i64::MAX, i64::MAX - 1));
}

#[test]
fn curve_of_degree_one_is_the_identity() {
    assert_eq!(apply_curve(500_000, 1), 500_000);
    assert_eq!(apply_curve(-500_000, 1), -500_000);
}

#[test]
fn curve_is_a_power_that_keeps_the_sign() {
    // 0.5^2 = 0.25, 0.5^3 = 0.125, 0.5^4 = 0.0625
    assert_eq!(apply_curve(500_000, 2), 250_000);
    assert_eq!(apply_curve(-500_000, 2), -250_000);
    assert_eq!(apply_curve(500_000, 3), 125_000);
    assert_eq!(apply_curve(-500_000, 3), -125_000);
    assert_eq!(apply_curve(500_000, 4), 62_500);
    assert_eq!(apply_curve(-500_000, 4), -62_500);
}

#[test]
fn curve_leaves_the_ends_and_the_middle() {
    for degree in 1..6 {
        assert_eq!(apply_curve(1_000_000, degree), 1_000_000);
        assert_eq!(apply_curve(-1_000_000, degree), -1_000_000);
        assert_eq!(apply_curve(0, degree), 0);
    }
}

#[test]
fn curve_is_odd() {
    for degree in 1..6 {
        let mut p = 0;
        while p <= 1_000_000 {
            assert_eq!(apply_curve(-p, degree), -apply_curve(p, degree));
            p += 12_345;
        }
    }
}

#[test]
fn arcade_sticks_give_voltages() {
    // power 0.5, turn 0.5 curved to 0.25: left 0.75, right 0.25 of 12 V
    let mode = DriveMode::Arcade { power: stick(900_000, 500_000), turn: stick(500_000, -900_000) };
    assert_eq!(differential(&mode), (9_000_000, 3_000_000));
    // turning the other way
    let mode = DriveMode::Arcade { power: stick(0, 500_000), turn: stick(-500_000, 0) };
    assert_eq!(differential(&mode), (3_000_000, 9_000_000));
}

#[test]
fn tank_sticks_give_voltages() {
    let mode = DriveMode::Tank { left: stick(900_000, 500_000), right: stick(900_000, -1_000_000) };
    assert_eq!(differential(&mode), (6_000_000, -12_000_000));
}

#[test]
fn drive_holds_stick_voltages_to_the_limit() {
    let mut d = base();
    // full power and full turn ask for 24 V on the left
    let mode = DriveMode::Arcade { power: stick(0, 1_000_000), turn: stick(1_000_000, 0) };
    assert_eq!(differential(&mode), (24_000_000, 0));
    assert_eq!(d.drive(&mode), (MAX_VOLTAGE, 0));
    assert_eq!(d.get_voltages(), [MAX_VOLTAGE, 0]);
}

#[test]
fn forward_speed_from_wheel_speeds() {
    let d = base();
    // tau * 1.625 * 60 rpm / 60 = 10.210177 in/s
    assert_eq!(d.velocity(60_000_000, 60_000_000), 10_210_177);
    assert_eq!(d.velocity(60_000_000, -60_000_000), 0);
    assert_eq!(d.velocity(120_000_000, 0), 10_210_177);
}

#[test]
fn turning_rate_from_wheel_speeds() {
    let d = base();
    // tau * 1.625 * (30 + 30) / 60 / 12 = 0.850848
    assert_eq!(d.angular_velocity(30_000_000, 30_000_000), 850_848);
    assert_eq!(d.angular_velocity(30_000_000, -30_000_000), 0);
}
