//! Turning on the spot to a heading.

use vstd::prelude::*;
use crate::controllers::pid::Pid;
use crate::math::angle::{principal, Angle, PI};
use crate::math::length::Length;
use crate::math::scalar::{
    abs, diff, fx_abs, fx_neg, fx_sum, neg, prod, sum, tdiv, SCALE,
};
use crate::math::trig::bearing_of;
use crate::motion::Command;
use crate::pose::{Pose, Vec2};
use crate::utils::angular_distance;

verus! {

/// The turn primitive: its controller and the error it accepts.
#[derive(Clone, Copy, Debug, PartialEq, Eq, Structural)]
pub struct Turn {
    pub pid: Pid,
    pub tolerance: Angle,
}

impl Turn {
    /// Heading still to be turned through to reach `target`, in
    /// `(-PI, PI]`.
    pub open spec fn heading_error(target: Angle, pose: Pose) -> i64 {
        principal(diff(target.0, pose.h.0))
    }

    /// Time spent once a tick of `elapsed` seconds has passed.
    pub open spec fn clock(time: i64, elapsed: i64) -> i64 {
        sum(time, elapsed)
    }

    /// Whether the turn ends in the tick that finds the robot at `pose`,
    /// `elapsed` seconds after the last one: the heading is within
    /// tolerance, or time is up.
    pub open spec fn ends(self, time: i64, pose: Pose, target: Angle, elapsed: i64, timeout: i64)
        -> bool {
        abs(Self::heading_error(target, pose)) < self.tolerance.0 || Self::clock(time, elapsed)
            > timeout
    }

    /// The command of that tick: stop when the turn ends, else the
    /// controller's voltage on the left side and its opposite on the
    /// right.
    pub open spec fn command(self, time: i64, pose: Pose, target: Angle, elapsed: i64, timeout: i64)
        -> Command {
        let output = self.pid.command(Self::heading_error(target, pose), elapsed);
        if self.ends(time, pose, target, elapsed, timeout) {
            Command::Stop
        } else {
            Command::Drive { left: output, right: neg(output) }
        }
    }

    pub fn new(pid: Pid, tolerance: Angle) -> (t: Self)
        ensures
            t == (Turn { pid, tolerance }),
    {
        Turn { pid, tolerance }
    }

    /// The heading that faces `point` from `pose`.
    pub fn turn_to_point(&self, pose: Pose, point: Vec2<Length>) -> (target: Angle)
        ensures
            target.0 == bearing_of(diff(point.y.0, pose.y.0), diff(point.x.0, pose.x.0)),
    {
        angular_distance(pose, point)
    }

    /// One tick of a turn to the heading `target`: `elapsed` seconds after
    /// the last one, with the robot at `pose` and `time` spent before.
    pub fn turn_to(&mut self, time: &mut i64, pose: Pose, target: Angle, elapsed: i64, timeout: i64)
        -> (c: Command)
        ensures
            *final(time) == Self::clock(*old(time), elapsed),
            c == old(self).command(*old(time), pose, target, elapsed, timeout),
            *final(self) == (Turn {
                pid: old(self).pid.after(Self::heading_error(target, pose), elapsed),
                ..*old(self)
            }),
    {
        *time = fx_sum(*time, elapsed);
        let error: i64 = (target - pose.h).wrap().0;
        let output: i64 = self.pid.output(error, elapsed);
        if fx_abs(error) < self.tolerance.0 {
            return Command::Stop;
        }
        if *time > timeout {
            return Command::Stop;
        }
        Command::Drive { left: output, right: fx_neg(output) }
    }
}

/// A turn ends in the very tick that finds the heading within tolerance,
/// and its last command puts zero volts on both sides.
pub proof fn lemma_turn_settles(t: Turn, time: i64, pose: Pose, target: Angle, elapsed: i64, timeout: i64)
    requires
        abs(Turn::heading_error(target, pose)) < t.tolerance.0,
    ensures
        t.command(time, pose, target, elapsed, timeout) == Command::Stop,
        t.command(time, pose, target, elapsed, timeout).voltages() == Some((0i64, 0i64)),
{
}

/// A turn whose time is up ends in that tick with zero volts on both
/// sides; until then it goes on as long as the heading is off.
pub proof fn lemma_turn_timeout(t: Turn, time: i64, pose: Pose, target: Angle, elapsed: i64, timeout: i64)
    requires
        abs(Turn::heading_error(target, pose)) >= t.tolerance.0,
    ensures
        Turn::clock(time, elapsed) > timeout ==> {
            &&& t.command(time, pose, target, elapsed, timeout) == Command::Stop
            &&& t.command(time, pose, target, elapsed, timeout).voltages() == Some((0i64, 0i64))
        },
        Turn::clock(time, elapsed) <= timeout ==> t.command(time, pose, target, elapsed, timeout)
            is Drive,
{
}

/// A turn that ends before its time is up ends within the tolerance of
/// its target heading.
pub proof fn lemma_stop_is_at_the_heading(
    t: Turn,
    time: i64,
    pose: Pose,
    target: Angle,
    elapsed: i64,
    timeout: i64,
)
    requires
        Turn::clock(time, elapsed) <= timeout,
        t.command(time, pose, target, elapsed, timeout) == Command::Stop,
    ensures
        abs(Turn::heading_error(target, pose)) < t.tolerance.0,
{
}

/// The largest target and heading for which the law below is stated:
/// beyond it a difference could run into the end of the number range.
pub const TAME: i64 = 0x0100_0000_0000_0000;

/// How far an ideal robot turns in a tick of `dt` seconds while the
/// controller's `output` is on its left side and the opposite on its
/// right: `gain` radians per second for every volt.
pub open spec fn ideal_turn(gain: i64, output: i64, dt: i64) -> i64 {
    prod(prod(gain, output), dt)
}

/// Under a well-tuned gain the error of a turn falls from tick to tick:
/// with a proportional controller on an ideal robot, whose gains together
/// turn the robot through no more than the error in one tick, the error
/// after a tick that moved the robot is smaller than before, and on the
/// same side.
pub proof fn lemma_error_falls(
    kp: i64,
    gain: i64,
    dt: i64,
    target: Angle,
    pose: Pose,
)
    requires
        kp > 0,
        gain > 0,
        dt > 0,
        kp * gain * dt <= SCALE * SCALE * SCALE,
        -TAME <= target.0 <= TAME,
        -TAME <= pose.h.0 <= TAME,
        ideal_turn(gain, prod(kp, Turn::heading_error(target, pose)), dt) != 0,
    ensures
        ({
            let error = Turn::heading_error(target, pose);
            let turned = ideal_turn(gain, prod(kp, error), dt);
            let after = Turn::heading_error(
                target,
                Pose { h: Angle(sum(pose.h.0, turned)), ..pose },
            );
            &&& abs(after) < abs(error)
            &&& error > 0 ==> 0 <= after < error
            &&& error < 0 ==> error < after <= 0
        }),
{
    let unit = SCALE as int;
    let e = Turn::heading_error(target, pose) as int;
    let m = if e < 0 {
        -e
    } else {
        e
    };
    assert(-PI < e <= PI);
    // the controller's output, the turning rate and the turn, each no larger than the gains
    // allow and each on the error's side
    assert(kp * gain <= unit * unit * unit && kp <= unit * unit * unit && kp * gain * dt >= 0)
        by (nonlinear_arith)
        requires
            kp > 0,
            gain > 0,
            dt > 0,
            kp * gain * dt <= unit * unit * unit,
    ;
    let wide_out = tdiv(kp * e, unit);
    lemma_scaled_share(kp as int, e, unit);
    let size_out = if wide_out < 0 {
        -wide_out
    } else {
        wide_out
    };
    assert(unit * size_out <= kp * m);
    assert(size_out <= unit * unit * 3_141_593) by (nonlinear_arith)
        requires
            unit * size_out <= kp * m,
            0 < kp <= unit * unit * unit,
            0 <= m <= 3_141_593,
            unit == 1_000_000,
    ;
    let out = prod(kp, e as i64) as int;
    assert(out == wide_out);
    let wide_rate = tdiv(gain * out, unit);
    lemma_scaled_share(gain as int, out, unit);
    let size_rate = if wide_rate < 0 {
        -wide_rate
    } else {
        wide_rate
    };
    assert(unit * size_rate <= gain * size_out);
    assert(size_rate <= unit * 3_141_593) by (nonlinear_arith)
        requires
            unit * size_rate <= gain * size_out,
            unit * size_out <= kp * m,
            kp * gain <= unit * unit * unit,
            gain > 0,
            kp > 0,
            size_out >= 0,
            0 <= m <= 3_141_593,
            unit == 1_000_000,
    ;
    let rate = prod(gain, out as i64) as int;
    assert(rate == wide_rate);
    assert(rate * dt == dt * rate) by (nonlinear_arith);
    let wide_turned = tdiv(dt * rate, unit);
    lemma_scaled_share(dt as int, rate, unit);
    let size_turned = if wide_turned < 0 {
        -wide_turned
    } else {
        wide_turned
    };
    assert(unit * size_turned <= dt * size_rate);
    assert(unit * unit * unit * size_turned <= kp * gain * dt * m) by (nonlinear_arith)
        requires
            unit * size_out <= kp * m,
            unit * size_rate <= gain * size_out,
            unit * size_turned <= dt * size_rate,
            kp > 0,
            gain > 0,
            dt > 0,
            unit > 0,
            m >= 0,
            size_out >= 0,
            size_rate >= 0,
            size_turned >= 0,
    ;
    assert(size_turned <= m) by (nonlinear_arith)
        requires
            unit * unit * unit * size_turned <= kp * gain * dt * m,
            kp * gain * dt <= unit * unit * unit,
            kp * gain * dt >= 0,
            m >= 0,
            size_turned >= 0,
            unit > 0,
    ;
    let turned = prod(rate as i64, dt) as int;
    assert(turned == wide_turned);
    assert(e > 0 ==> 0 < turned <= e);
    assert(e < 0 ==> e <= turned < 0);
    assert(e != 0);
}

/// A share `k / unit` of a number, rounded toward zero, lies on the
/// number's side and is no larger than the share.
proof fn lemma_scaled_share(k: int, v: int, unit: int)
    requires
        k > 0,
        unit > 0,
    ensures
        ({
            let t = tdiv(k * v, unit);
            &&& v >= 0 ==> 0 <= t && unit * t <= k * v
            &&& v <= 0 ==> t <= 0 && unit * (-t) <= k * (-v)
        }),
{
    let n = k * v;
    assert(v >= 0 ==> n >= 0) by (nonlinear_arith)
        requires
            n == k * v,
            k > 0,
    ;
    assert(v <= 0 ==> n <= 0 && -n == k * (-v)) by (nonlinear_arith)
        requires
            n == k * v,
            k > 0,
    ;
    let a = if n < 0 {
        -n
    } else {
        n
    };
    vstd::arithmetic::div_mod::lemma_fundamental_div_mod(a, unit);
    vstd::arithmetic::div_mod::lemma_mod_pos_bound(a, unit);
    vstd::arithmetic::div_mod::lemma_div_pos_is_pos(a, unit);
}

/// The same of the command that `turn_to` gives: a turn with a
/// proportional controller, on an ideal robot that carries the command
/// out for `elapsed` seconds, leaves a smaller error on the same side.
pub proof fn lemma_turn_closes_in(
    t: Turn,
    gain: i64,
    time: i64,
    pose: Pose,
    target: Angle,
    elapsed: i64,
    timeout: i64,
)
    requires
        t.pid.kp > 0,
        t.pid.ki == 0,
        t.pid.kd == 0,
        gain > 0,
        elapsed > 0,
        t.pid.kp * gain * elapsed <= SCALE * SCALE * SCALE,
        -TAME <= target.0 <= TAME,
        -TAME <= pose.h.0 <= TAME,
        t.command(time, pose, target, elapsed, timeout) matches Command::Drive { left, right }
            && ideal_turn(gain, left, elapsed) != 0,
    ensures
        t.command(time, pose, target, elapsed, timeout) matches Command::Drive { left, right } && {
            let error = Turn::heading_error(target, pose);
            let after = Turn::heading_error(
                target,
                Pose { h: Angle(sum(pose.h.0, ideal_turn(gain, left, elapsed))), ..pose },
            );
            &&& right == neg(left)
            &&& left == prod(t.pid.kp, error)
            &&& abs(after) < abs(error)
        },
{
    crate::controllers::pid::lemma_proportional_command(
        t.pid,
        Turn::heading_error(target, pose),
        elapsed,
    );
    lemma_error_falls(t.pid.kp, gain, elapsed, target, pose);
}

} // verus!
