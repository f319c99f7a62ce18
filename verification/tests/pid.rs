use atum::controllers::pid::Pid;
use atum::hardware::motor_group::{MotorCommand, MotorController, MotorGroup};

#[test]
fn new_controller_has_no_history() {
    assert_eq!(
        Pid::new(1, 2, 3),
        Pid { kp: 1, ki: 2, kd: 3, integral: 0, prev_error: 0 }
    );
}

#[test]
fn proportional_term() {
    let mut pid = Pid::new(2_000_000, 0, 0);
    // 2 * 3 = 6
    assert_eq!(pid.output(3_000_000, 10_000), 6_000_000);
    assert_eq!(pid.output(-3_000_000, 10_000), -6_000_000);
}

#[test]
fn integral_term_gathers_error_times_time() {
    let mut pid = Pid::new(0, 4_000_000, 0);
    // integral = 3 * 0.5 = 1.5, command = 4 * 1.5 = 6
    assert_eq!(pid.output(3_000_000, 500_000), 6_000_000);
    assert_eq!(pid.integral, 1_500_000);
    // integral = 1.5 + 1 * 0.5 = 2, command = 8
    assert_eq!(pid.output(1_000_000, 500_000), 8_000_000);
    assert_eq!(pid.integral, 2_000_000);
}

#[test]
fn integral_is_never_cleared() {
    let mut pid = Pid::new(0, 1_000_000, 0);
    for _ in 0..10 {
        pid.output(1_000_000, 1_000_000);
    }
    assert_eq!(pid.integral, 10_000_000);
    pid.output(0, 1_000_000);
    assert_eq!(pid.integral, 10_000_000);
}

#[test]
fn derivative_term_is_the_rate_of_the_error() {
    let mut pid = Pid::new(0, 0, 2_000_000);
    // from 0 to 3 in half a second: rate 6, command 12
    assert_eq!(pid.output(3_000_000, 500_000), 12_000_000);
    assert_eq!(pid.prev_error, 3_000_000);
    // from 3 to 2 in a quarter of a second: rate -4, command -8
    assert_eq!(pid.output(2_000_000, 250_000), -8_000_000);
}

#[test]
fn all_three_terms_add_up() {
    let mut pid = Pid { kp: 1_000_000, ki: 2_000_000, kd: 500_000, integral: 1_000_000, prev_error: 1_000_000 };
    // p = 3; integral = 1 + 3 * 0.1 = 1.3, i = 2.6; rate = (3 - 1) / 0.1 = 20, d = 10
    assert_eq!(pid.output(3_000_000, 100_000), 15_600_000);
    assert_eq!(
        pid,
        Pid { kp: 1_000_000, ki: 2_000_000, kd: 500_000, integral: 1_300_000, prev_error: 3_000_000 }
    );
}

#[test]
fn no_elapsed_time_gives_no_derivative_and_no_integral() {
    let mut pid = Pid::new(1_000_000, 1_000_000, 1_000_000);
    assert_eq!(pid.output(3_000_000, 0), 3_000_000);
    assert_eq!(pid.integral, 0);
    assert_eq!(pid.prev_error, 3_000_000);
    assert_eq!(pid.output(5_000_000, -7), 5_000_000);
    assert_eq!(pid.integral, 0);
}

#[test]
fn feedforward_with_feedback_on_top() {
    let mut controller = MotorController::new(Pid::new(500_000, 0, 0), 1_000_000, 20_000, 5_000);
    // ff = 1 * 1 + 0.02 * 100 + 0.005 * 10 = 3.05; pid = 0.5 * (100 - 90) = 5
    assert_eq!(controller.output(100_000_000, 90_000_000, 10_000_000, 10_000), 8_050_000);
    assert_eq!(controller.pid.prev_error, 10_000_000);
}

#[test]
fn feedforward_follows_the_sign_of_the_target() {
    let mut controller = MotorController::new(Pid::new(0, 0, 0), 1_000_000, 20_000, 0);
    // -1 + 0.02 * -100 = -3
    assert_eq!(controller.output(-100_000_000, 0, 0, 10_000), -3_000_000);
}

#[test]
fn no_feedforward_for_a_target_of_next_to_nothing() {
    let mut controller = MotorController::new(Pid::new(1_000_000, 0, 0), 1_000_000, 20_000, 5_000);
    assert_eq!(controller.output(0, 0, 10_000_000, 10_000), 0);
    assert_eq!(controller.output(1, 0, 10_000_000, 10_000), 1);
    assert_eq!(controller.output(-1, 0, 10_000_000, 10_000), -1);
    // two steps are a target
    assert_eq!(controller.output(2, 0, 0, 10_000), 1_000_002);
}

#[test]
fn group_without_controller_hands_the_velocity_on() {
    let mut group = MotorGroup::new(None);
    assert_eq!(group.set_velocity(200_900_000, Some(0), 10_000), MotorCommand::Velocity(200));
    assert_eq!(group.set_velocity(-200_900_000, None, 10_000), MotorCommand::Velocity(-200));
    assert_eq!(group.set_velocity(i64::MAX, None, 10_000), MotorCommand::Velocity(i32::MAX));
    assert_eq!(group.set_velocity(i64::MIN, None, 10_000), MotorCommand::Velocity(i32::MIN));
    assert_eq!(group, MotorGroup::new(None));
}

#[test]
fn group_with_controller_gives_a_voltage() {
    let controller = MotorController::new(Pid::new(500_000, 0, 0), 1_000_000, 20_000, 5_000);
    let mut group = MotorGroup::new(Some(controller));
    // ff = 1 + 2 = 3 (no acceleration); pid = 0.5 * 10 = 5
    assert_eq!(
        group.set_velocity(100_000_000, Some(90_000_000), 10_000),
        MotorCommand::Voltage(8_000_000)
    );
    assert_eq!(group.motor_controller.unwrap().pid.prev_error, 10_000_000);
    // a motor that does not answer counts as standing: pid = 0.5 * 100 = 50
    assert_eq!(
        group.set_velocity(100_000_000, None, 10_000),
        MotorCommand::Voltage(53_000_000)
    );
}

#[test]
fn group_reports_the_mean_of_its_motors() {
    let group = MotorGroup::new(None);
    assert_eq!(group.voltage(&vec![1_000_000, 2_000_000, 6_000_000]), Some(3_000_000));
    assert_eq!(group.velocity(&vec![-1, -2]), Some(-1));
    assert_eq!(group.voltage(&vec![]), None);
}
