//! Pivoting about a point beside the robot.

use vstd::prelude::*;
use crate::controllers::pid::Pid;
use crate::math::angle::{principal, Angle};
use crate::math::length::Length;
use crate::math::scalar::{abs, diff, fx_abs, fx_diff, fx_prod, fx_quot, fx_sum, prod, quot, sum};
use crate::motion::Command;
use crate::pose::Pose;

verus! {

/// The number two.
pub const TWO: i64 = 2_000_000;

/// The swing primitive: its controller and the error and turning rate it
/// accepts.
#[derive(Clone, Copy, Debug, PartialEq, Eq, Structural)]
pub struct Swing {
    pub pid: Pid,
    pub tolerance: Angle,
    /// Turning rate below which the robot counts as standing.
    pub velocity_tolerance: i64,
}

impl Swing {
    /// Heading still to be turned through to reach `target`, in
    /// `(-PI, PI]`; positive is counter-clockwise.
    pub open spec fn heading_error(target: Angle, pose: Pose) -> i64 {
        principal(diff(target.0, pose.h.0))
    }

    /// Whether the swing ends in the tick that finds the robot at `pose`:
    /// the heading is within tolerance and the robot has stopped turning,
    /// or time is up.
    pub open spec fn ends(self, time: i64, pose: Pose, target: Angle, elapsed: i64, timeout: i64)
        -> bool {
        ||| abs(Self::heading_error(target, pose)) < self.tolerance.0 && abs(pose.omega)
            < self.velocity_tolerance
        ||| sum(time, elapsed) > timeout
    }

    /// The command of that tick: stop when the swing ends; else the
    /// controller's command, weighted on each side by that side's distance
    /// from the pivot, `radius` away from the robot's centre.
    pub open spec fn command(
        self,
        time: i64,
        pose: Pose,
        target: Angle,
        radius: Length,
        track: Length,
        elapsed: i64,
        timeout: i64,
    ) -> Command {
        let output = self.pid.command(Self::heading_error(target, pose), elapsed);
        if self.ends(time, pose, target, elapsed, timeout) {
            Command::Stop
        } else {
            Command::Drive {
                left: prod(output, diff(radius.0, quot(track.0, TWO))),
                right: prod(output, sum(radius.0, quot(track.0, TWO))),
            }
        }
    }

    pub fn new(pid: Pid, tolerance: Angle, velocity_tolerance: i64) -> (s: Self)
        ensures
            s == (Swing { pid, tolerance, velocity_tolerance }),
    {
        Swing { pid, tolerance, velocity_tolerance }
    }

    /// One tick of a swing to the heading `target`: `elapsed` seconds
    /// after the last one, with the robot at `pose` and `time` spent
    /// before. `track` is the distance between the two sides.
    pub fn swing_to(
        &mut self,
        time: &mut i64,
        pose: Pose,
        target: Angle,
        radius: Length,
        track: Length,
        elapsed: i64,
        timeout: i64,
    ) -> (c: Command)
        ensures
            *final(time) == sum(*old(time), elapsed),
            c == old(self).command(*old(time), pose, target, radius, track, elapsed, timeout),
            *final(self) == (Swing {
                pid: old(self).pid.after(Self::heading_error(target, pose), elapsed),
                ..*old(self)
            }),
    {
        *time = fx_sum(*time, elapsed);
        let error: i64 = (target - pose.h).wrap().0;
        let output: i64 = self.pid.output(error, elapsed);
        if fx_abs(error) < self.tolerance.0 && fx_abs(pose.omega) < self.velocity_tolerance {
            return Command::Stop;
        }
        if *time > timeout {
            return Command::Stop;
        }
        let half_track: i64 = fx_quot(track.0, TWO);
        Command::Drive {
            left: fx_prod(output, fx_diff(radius.0, half_track)),
            right: fx_prod(output, fx_sum(radius.0, half_track)),
        }
    }
}

/// A swing ends in the very tick that finds the heading within tolerance
/// and the turning rate below its tolerance; a swing whose time is up ends
/// in that tick. Either way its last command puts zero volts on both
/// sides.
pub proof fn lemma_swing_ends(
    s: Swing,
    time: i64,
    pose: Pose,
    target: Angle,
    radius: Length,
    track: Length,
    elapsed: i64,
    timeout: i64,
)
    requires
        (abs(Swing::heading_error(target, pose)) < s.tolerance.0 && abs(pose.omega)
            < s.velocity_tolerance) || sum(time, elapsed) > timeout,
    ensures
        s.command(time, pose, target, radius, track, elapsed, timeout) == Command::Stop,
        s.command(time, pose, target, radius, track, elapsed, timeout).voltages() == Some(
            (0i64, 0i64),
        ),
{
}

/// Until its time is up, a swing goes on driving as long as the heading
/// is off or the robot still turns.
pub proof fn lemma_swing_runs(
    s: Swing,
    time: i64,
    pose: Pose,
    target: Angle,
    radius: Length,
    track: Length,
    elapsed: i64,
    timeout: i64,
)
    requires
        sum(time, elapsed) <= timeout,
        abs(Swing::heading_error(target, pose)) >= s.tolerance.0 || abs(pose.omega)
            >= s.velocity_tolerance,
    ensures
        s.command(time, pose, target, radius, track, elapsed, timeout) is Drive,
{
}

} // verus!
