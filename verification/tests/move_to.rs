use atum::controllers::pid::Pid;
use atum::math::angle::{Angle, PI};
use atum::math::length::Length;
use atum::math::scalar::SCALE;
use atum::motion::move_to::{heading_off, target_bearing, MoveTo, Seek};
use atum::motion::{Command, Direction, MAX_VOLTAGE};
use atum::pose::odometry::Odometry;
use atum::pose::{Pose, Vec2};

const TICK: i64 = 10_000;

fn near(a: i64, b: i64, within: i64) -> bool {
    (a - b).abs() <= within
}

fn primitive() -> MoveTo {
    MoveTo::new(
        Pid::new(500_000, 0, 0),
        Pid::new(2_000_000, 0, 0),
        Length(500_000),
        2_000_000,
        Length(3_000_000),
    )
}

fn at(x: i64, y: i64, h: i64) -> Pose {
    Pose::new(Length(x), Length(y), Angle(h))
}

fn point(x: i64, y: i64) -> Vec2<Length> {
    Vec2::new(Length(x), Length(y))
}

#[test]
fn move_starts_with_no_time_spent() {
    assert_eq!(
        MoveTo::start(at(1, 2, 3)),
        Seek { time: 0, initial_heading: Angle(3) }
    );
}

#[test]
fn direction_knows_whether_it_is_reverse() {
    assert!(Direction::Reverse.is_reverse());
    assert!(!Direction::Forward.is_reverse());
}

#[test]
fn aim_is_the_bearing_or_half_a_turn_away() {
    assert_eq!(target_bearing(Angle(500_000), Direction::Forward), Angle(500_000));
    assert_eq!(target_bearing(Angle(500_000), Direction::Reverse), Angle(500_000 + PI).wrap());
    assert_eq!(target_bearing(Angle(0), Direction::Reverse), Angle(PI));
    assert_eq!(target_bearing(Angle(PI), Direction::Reverse), Angle(0));
}

#[test]
fn course_error_is_heading_less_aim() {
    assert_eq!(heading_off(at(0, 0, 700_000), Angle(500_000), Direction::Forward), Angle(200_000));
    assert_eq!(heading_off(at(0, 0, 300_000), Angle(500_000), Direction::Forward), Angle(-200_000));
    assert_eq!(heading_off(at(0, 0, PI), Angle(0), Direction::Reverse), Angle(0));
}

#[test]
fn robot_on_course_drives_straight() {
    let mut m = primitive();
    let mut state = MoveTo::start(at(0, 0, 0));
    // 10 in ahead: thrust 0.5 * 10 = 5 V, no turn
    let command = m.seek(
        &mut state,
        at(0, 0, 0),
        point(10_000_000, 0),
        TICK,
        2_000_000,
        Direction::Forward,
        Angle(0),
        SCALE,
    );
    assert_eq!(command, Command::Drive { left: 5_000_000, right: 5_000_000 });
    assert_eq!(state.time, TICK);
}

#[test]
fn robot_off_course_turns_toward_the_target_and_slows_down() {
    let mut m = primitive();
    let mut state = MoveTo::start(at(0, 0, 0));
    // target 10 in ahead along x, robot pointing 0.5 rad to the left of it:
    // thrust 5 V scaled by 0.8 = 4; turn 2 * 0.5 = 1, added left, taken off right
    let command = m.seek(
        &mut state,
        at(0, 0, 500_000),
        point(10_000_000, 0),
        TICK,
        2_000_000,
        Direction::Forward,
        Angle(0),
        800_000,
    );
    assert_eq!(command, Command::Drive { left: 5_000_000, right: 3_000_000 });
}

#[test]
fn sides_are_held_to_the_voltage_limit() {
    let mut m = MoveTo::new(
        Pid::new(5_000_000, 0, 0),
        Pid::new(20_000_000, 0, 0),
        Length(500_000),
        2_000_000,
        Length(3_000_000),
    );
    let mut state = MoveTo::start(at(0, 0, 0));
    // thrust held to 12 V, turn 20 V: left 32 and right -8 before the limit
    let command = m.seek(
        &mut state,
        at(0, 0, 1_000_000),
        point(100_000_000, 0),
        TICK,
        2_000_000,
        Direction::Forward,
        Angle(0),
        SCALE,
    );
    assert_eq!(command, Command::Drive { left: MAX_VOLTAGE, right: -8_000_000 });
}

#[test]
fn within_the_turn_threshold_the_robot_holds_its_first_heading() {
    let mut m = primitive();
    let mut state = Seek { time: 0, initial_heading: Angle(200_000) };
    // 2 in from the target, inside the threshold of 3: the bearing no longer counts
    let command = m.seek(
        &mut state,
        at(8_000_000, 0, 500_000),
        point(10_000_000, 0),
        TICK,
        2_000_000,
        Direction::Forward,
        Angle(0),
        SCALE,
    );
    // thrust 0.5 * 2 = 1; turn 2 * (0.5 - 0.2) = 0.6
    assert_eq!(command, Command::Drive { left: 1_600_000, right: 400_000 });
}

#[test]
fn move_stops_at_the_target() {
    let mut m = primitive();
    let mut state = MoveTo::start(at(0, 0, 0));
    let command = m.seek(
        &mut state,
        at(9_700_000, 0, 0),
        point(10_000_000, 0),
        TICK,
        2_000_000,
        Direction::Forward,
        Angle(0),
        SCALE,
    );
    assert_eq!(command, Command::Stop);
    assert_eq!(command.to_voltages(), Some((0, 0)));
    // the heading controller was not asked
    assert_eq!(m.angular, Pid::new(2_000_000, 0, 0));
    assert_eq!(m.linear.prev_error, 300_000);
}

#[test]
fn move_at_the_target_goes_on_while_the_robot_rolls() {
    let mut m = primitive();
    let mut state = MoveTo::start(at(0, 0, 0));
    let mut pose = at(9_700_000, 0, 0);
    pose.vf = -2_000_000;
    let command = m.seek(
        &mut state,
        pose,
        point(10_000_000, 0),
        TICK,
        2_000_000,
        Direction::Forward,
        Angle(0),
        SCALE,
    );
    assert!(matches!(command, Command::Drive { .. }));
}

#[test]
fn move_stops_when_time_is_up() {
    let mut m = primitive();
    let mut state = MoveTo::start(at(0, 0, 0));
    let mut ticks = 0;
    loop {
        let command = m.move_to_point(
            &mut state,
            at(0, 0, 0),
            point(10_000_000, 0),
            TICK,
            30_000,
            Direction::Forward,
        );
        ticks += 1;
        if command == Command::Stop {
            assert_eq!(command.to_voltages(), Some((0, 0)));
            break;
        }
        assert!(ticks < 100);
    }
    assert_eq!(ticks, 4);
    assert_eq!(state.time, 40_000);
}

#[test]
fn backing_up_to_a_point_at_the_side() {
    // the point lies a quarter turn to the left; backing up to it means facing away from it
    let pose = at(0, 0, 0);
    let target = point(0, 24_000_000);
    let raw = atum::utils::angular_distance(pose, target);
    assert!(near(raw.0, PI / 2, 50));
    let aim = target_bearing(raw, Direction::Reverse);
    assert!(near(aim.0, -PI / 2, 50));
    assert!(near((aim - raw).wrap().0.abs(), PI, 1));

    // a robot that already faces away from the point backs straight up to it
    let mut m = primitive();
    let facing_away = at(0, 0, aim.0);
    let mut state = MoveTo::start(facing_away);
    let command =
        m.move_to_point(&mut state, facing_away, target, TICK, 2_000_000, Direction::Reverse);
    match command {
        Command::Drive { left, right } => {
            // thrust 0.5 * 24 = 12 V, negated, scaled by the cosine of no error
            assert!(left < 0 && right < 0, "{:?}", command);
            assert!(near(left, -MAX_VOLTAGE, 1_000) && near(right, -MAX_VOLTAGE, 1_000));
        }
        _ => panic!("{:?}", command),
    }

    // the same robot driving forward would turn round instead
    let mut m = primitive();
    let mut state = MoveTo::start(facing_away);
    let command =
        m.move_to_point(&mut state, facing_away, target, TICK, 2_000_000, Direction::Forward);
    match command {
        Command::Drive { left, right } => assert!(left != right, "{:?}", command),
        _ => panic!("{:?}", command),
    }
}

#[test]
fn reversed_thrust_is_negative_whatever_the_heading() {
    let mut forward = primitive();
    let mut reverse = primitive();
    let mut s1 = MoveTo::start(at(0, 0, 0));
    let mut s2 = MoveTo::start(at(0, 0, 0));
    let pose = at(0, 0, 0);
    let target = point(0, 24_000_000);
    // with the turn controller off and full scaling, the command is the thrust alone
    forward.angular = Pid::new(0, 0, 0);
    reverse.angular = Pid::new(0, 0, 0);
    let f = forward.seek(&mut s1, pose, target, TICK, 2_000_000, Direction::Forward, Angle(PI / 2), SCALE);
    let r = reverse.seek(&mut s2, pose, target, TICK, 2_000_000, Direction::Reverse, Angle(PI / 2), SCALE);
    assert_eq!(f, Command::Drive { left: MAX_VOLTAGE, right: MAX_VOLTAGE });
    assert_eq!(r, Command::Drive { left: -MAX_VOLTAGE, right: -MAX_VOLTAGE });
}

#[test]
fn seeking_a_point_gets_there() {
    // a robot that runs at 5 in/s per volt and turns at 0.2 rad/s per volt of difference
    let mut m = primitive();
    m.turn_threshold = Length(1_000_000);
    let mut odometry = Odometry::new(at(0, 0, 0), Length(0), Length(0));
    let target = point(20_000_000, 10_000_000);
    let mut state = MoveTo::start(odometry.get_pose());
    let (mut speed, mut rate, mut sensor) = (0.0f64, 0.0f64, 0.0f64);
    let mut last = Command::Drive { left: 0, right: 0 };
    for _ in 0..5_000 {
        sensor += rate * 0.01;
        let rolled = (speed * 0.01 * 1e6) as i64;
        odometry.update(Some(Length(rolled)), Some(Length(0)), Some(Angle((sensor * 1e6) as i64)), TICK);
        last = m.move_to_point(
            &mut state,
            odometry.get_pose(),
            target,
            TICK,
            40_000_000,
            Direction::Forward,
        );
        match last {
            Command::Drive { left, right } => {
                speed = 5.0 * (left + right) as f64 / 2e6;
                rate = 0.2 * (right - left) as f64 / 1e6;
            }
            _ => break,
        }
    }
    assert_eq!(last, Command::Stop);
    let pose = odometry.get_pose();
    let off = Vec2::new(pose.x.0, pose.y.0).distance(target.inches());
    assert!(off < 500_000, "{:?}", pose);
}
