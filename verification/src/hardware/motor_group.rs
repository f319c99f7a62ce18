//! Velocity control of a motor: feedforward with a PID loop on top.

use vstd::prelude::*;
use crate::controllers::pid::Pid;
use crate::hardware::{average, mean};
use crate::math::scalar::{
    abs, diff, fx_abs, fx_diff, fx_prod, fx_sign, fx_sum, prod, sign, sum, tdiv, SCALE,
};

verus! {

/// A target whose magnitude is at most this counts as no target, and gets
/// no feedforward.
pub const STILL: i64 = 1;

/// Feedforward constants and the PID loop that corrects what they miss.
#[derive(Clone, Copy, Debug, PartialEq, Eq, Structural)]
pub struct MotorController {
    pub pid: Pid,
    pub ks: i64,
    pub kv: i64,
    pub ka: i64,
}

impl MotorController {
    /// The open-loop share of the command.
    pub open spec fn feedforward(self, target_rpm: i64, acceleration: i64) -> i64 {
        if abs(target_rpm) > STILL {
            sum(
                sum(prod(self.ks, sign(target_rpm)), prod(self.kv, target_rpm)),
                prod(self.ka, acceleration),
            )
        } else {
            0
        }
    }

    pub fn new(pid: Pid, ks: i64, kv: i64, ka: i64) -> (r: Self)
        ensures
            r == (MotorController { pid, ks, kv, ka }),
    {
        MotorController { pid, ks, kv, ka }
    }

    /// The voltage for a motor that turns at `actual_rpm` and should turn
    /// at `target_rpm`, `dt` seconds after the last call.
    pub fn output(&mut self, target_rpm: i64, actual_rpm: i64, acceleration: i64, dt: i64) -> (r:
        i64)
        ensures
            r == sum(
                old(self).feedforward(target_rpm, acceleration),
                old(self).pid.command(diff(target_rpm, actual_rpm), dt),
            ),
            *final(self) == (MotorController {
                pid: old(self).pid.after(diff(target_rpm, actual_rpm), dt),
                ..*old(self)
            }),
    {
        let error: i64 = fx_diff(target_rpm, actual_rpm);
        let ff: i64 = if fx_abs(target_rpm) > STILL {
            fx_sum(
                fx_sum(fx_prod(self.ks, fx_sign(target_rpm)), fx_prod(self.kv, target_rpm)),
                fx_prod(self.ka, acceleration),
            )
        } else {
            0
        };
        let pid: i64 = self.pid.output(error, dt);
        fx_sum(ff, pid)
    }
}

/// What one motor of a group is told.
#[derive(Clone, Copy, Debug, PartialEq, Eq, Structural)]
pub enum MotorCommand {
    /// Hold this voltage.
    Voltage(i64),
    /// Hold this many revolutions per minute with the motor's own
    /// controller.
    Velocity(i32),
}

/// A velocity in whole revolutions per minute, rounded toward zero and
/// held to the `i32` range.
pub open spec fn whole_rpm(velocity: i64) -> i32 {
    let whole = tdiv(velocity as int, SCALE as int);
    if whole > i32::MAX {
        i32::MAX
    } else if whole < i32::MIN {
        i32::MIN
    } else {
        whole as i32
    }
}

/// Motors that act as one, with the velocity controller they share, if
/// they have one.
#[derive(Clone, Copy, Debug, PartialEq, Eq, Structural)]
pub struct MotorGroup {
    pub motor_controller: Option<MotorController>,
}

impl MotorGroup {
    pub fn new(motor_controller: Option<MotorController>) -> (g: Self)
        ensures
            g.motor_controller == motor_controller,
    {
        MotorGroup { motor_controller }
    }

    /// What to tell a motor that should turn at `velocity`, `dt` seconds
    /// after the last call. With a controller, the voltage it gives for
    /// what the motor reports, a missing report counting as standstill;
    /// without one, the velocity itself.
    pub fn set_velocity(&mut self, velocity: i64, motor_velocity: Option<i64>, dt: i64) -> (c:
        MotorCommand)
        ensures
            match old(self).motor_controller {
                Some(controller) => {
                    let actual = match motor_velocity {
                        Some(v) => v,
                        None => 0,
                    };
                    &&& c == MotorCommand::Voltage(
                        sum(
                            controller.feedforward(velocity, 0),
                            controller.pid.command(diff(velocity, actual), dt),
                        ),
                    )
                    &&& final(self).motor_controller == Some(
                        MotorController {
                            pid: controller.pid.after(diff(velocity, actual), dt),
                            ..controller
                        },
                    )
                },
                None => {
                    &&& c == MotorCommand::Velocity(whole_rpm(velocity))
                    &&& *final(self) == *old(self)
                },
            },
    {
        match self.motor_controller {
            Some(mut controller) => {
                let actual: i64 = match motor_velocity {
                    Some(v) => v,
                    None => 0,
                };
                let voltage: i64 = controller.output(velocity, actual, 0, dt);
                self.motor_controller = Some(controller);
                MotorCommand::Voltage(voltage)
            },
            None => {
                let whole: i64 = velocity / SCALE;
                MotorCommand::Velocity(
                    if whole > i32::MAX as i64 {
                        i32::MAX
                    } else if whole < i32::MIN as i64 {
                        i32::MIN
                    } else {
                        whole as i32
                    },
                )
            },
        }
    }

    /// The group's voltage: the mean of the voltages that its motors
    /// reported, if any did.
    pub fn voltage(&self, voltages: &Vec<i64>) -> (v: Option<i64>)
        ensures
            v == mean(voltages@),
    {
        average(voltages)
    }

    /// The group's velocity: the mean of the velocities that its motors
    /// reported, if any did.
    pub fn velocity(&self, velocities: &Vec<i64>) -> (v: Option<i64>)
        ensures
            v == mean(velocities@),
    {
        average(velocities)
    }
}

} // verus!
