//! Proportional-integral-derivative control of one scalar.

use vstd::prelude::*;
use crate::math::scalar::{diff, fx_diff, fx_prod, fx_quot, fx_sum, prod, quot, sum};

verus! {

/// A PID loop: its gains, the integral it has gathered and the error it
/// saw last. The integral is never cleared or limited here; a caller that
/// wants either does it on the field.
#[derive(Clone, Copy, Debug, PartialEq, Eq, Structural)]
pub struct Pid {
    pub kp: i64,
    pub ki: i64,
    pub kd: i64,
    pub integral: i64,
    pub prev_error: i64,
}

impl Pid {
    /// The integral once `error` has lasted for `dt` seconds. No time
    /// elapsed leaves it as it was.
    pub open spec fn integral_after(self, error: i64, dt: i64) -> i64 {
        if dt <= 0 {
            self.integral
        } else {
            sum(self.integral, prod(error, dt))
        }
    }

    /// Rate of change of the error over the last `dt` seconds; zero where
    /// no time has elapsed.
    pub open spec fn derivative(self, error: i64, dt: i64) -> i64 {
        if dt <= 0 {
            0
        } else {
            quot(diff(error, self.prev_error), dt)
        }
    }

    /// The command for `error`, `dt` seconds after the last evaluation.
    pub open spec fn command(self, error: i64, dt: i64) -> i64 {
        sum(
            sum(prod(self.kp, error), prod(self.ki, self.integral_after(error, dt))),
            prod(self.kd, self.derivative(error, dt)),
        )
    }

    /// The controller after that evaluation.
    pub open spec fn after(self, error: i64, dt: i64) -> Pid {
        Pid { integral: self.integral_after(error, dt), prev_error: error, ..self }
    }

    pub fn new(kp: i64, ki: i64, kd: i64) -> (r: Self)
        ensures
            r == (Pid { kp, ki, kd, integral: 0, prev_error: 0 }),
    {
        Pid { kp, ki, kd, integral: 0, prev_error: 0 }
    }

    /// Evaluates the loop for `error`, `dt` seconds after the last call.
    pub fn output(&mut self, error: i64, dt: i64) -> (r: i64)
        ensures
            r == old(self).command(error, dt),
            *final(self) == old(self).after(error, dt),
    {
        let derivative: i64 = if dt <= 0 {
            0
        } else {
            fx_quot(fx_diff(error, self.prev_error), dt)
        };
        if dt > 0 {
            self.integral = fx_sum(self.integral, fx_prod(error, dt));
        }
        self.prev_error = error;
        fx_sum(
            fx_sum(fx_prod(self.kp, error), fx_prod(self.ki, self.integral)),
            fx_prod(self.kd, derivative),
        )
    }
}

/// A controller without integral and derivative gain commands its
/// proportional gain times the error, whatever it has seen before.
pub proof fn lemma_proportional_command(pid: Pid, error: i64, dt: i64)
    requires
        pid.ki == 0,
        pid.kd == 0,
    ensures
        pid.command(error, dt) == prod(pid.kp, error),
{
    assert(0 * pid.integral_after(error, dt) == 0) by (nonlinear_arith);
    assert(0 * pid.derivative(error, dt) == 0) by (nonlinear_arith);
}

} // verus!
