//! Seeking a point on the field.

use vstd::prelude::*;
use crate::controllers::pid::Pid;
use crate::math::angle::{principal, Angle, PI};
use crate::math::length::Length;
use crate::math::scalar::{
    abs, clamp, diff, fx_abs, fx_clamp, fx_neg, fx_prod, fx_sum, hypot, neg, prod, sum,
};
use crate::math::trig::{bearing_of, sin_cos_of};
use crate::motion::{Command, Direction, MAX_VOLTAGE};
use crate::pose::{Pose, Vec2};
use crate::subsystems::drivetrain::{arcade, limit, limited, mixed};
use crate::utils::angular_distance;

verus! {

/// The point-seeking primitive: a controller for the distance and one for
/// the heading, the tolerances that end a move, and the distance from the
/// target within which the robot no longer turns toward it.
#[derive(Clone, Copy, Debug, PartialEq, Eq, Structural)]
pub struct MoveTo {
    pub linear: Pid,
    pub angular: Pid,
    pub tolerance: Length,
    /// Forward speed below which the robot counts as standing.
    pub velocity_tolerance: i64,
    pub turn_threshold: Length,
}

/// What a move remembers between ticks.
#[derive(Clone, Copy, Debug, PartialEq, Eq, Structural)]
pub struct Seek {
    /// Time spent so far, in seconds.
    pub time: i64,
    /// The heading the robot had when the move began.
    pub initial_heading: Angle,
}

/// Distance from `pose` to `target`.
pub open spec fn range(pose: Pose, target: Vec2<Length>) -> i64 {
    hypot(diff(target.x.0, pose.x.0), diff(target.y.0, pose.y.0))
}

/// The heading to hold on the way to a target that lies in the direction
/// `bearing`: the bearing itself, or half a turn away from it for a robot
/// that backs up to the target.
pub open spec fn aim(bearing: i64, direction: Direction) -> i64 {
    match direction {
        Direction::Forward => bearing,
        Direction::Reverse => principal(sum(bearing, PI)),
    }
}

/// How far the robot's heading is off that aim, in `(-PI, PI]`; positive
/// where the robot points counter-clockwise of it.
pub open spec fn course_error(pose: Pose, bearing: i64, direction: Direction) -> i64 {
    principal(diff(pose.h.0, aim(bearing, direction)))
}

impl MoveTo {
    /// The forward command before it is scaled: the distance controller's
    /// output, held to the voltage limit, and negated for a robot that
    /// backs up.
    pub open spec fn thrust(self, pose: Pose, target: Vec2<Length>, elapsed: i64, direction: Direction)
        -> i64 {
        let output = clamp(
            self.linear.command(range(pose, target), elapsed),
            (-MAX_VOLTAGE) as i64,
            MAX_VOLTAGE,
        );
        match direction {
            Direction::Forward => output,
            Direction::Reverse => neg(output),
        }
    }

    /// The heading error that the heading controller works on: the course
    /// error, or, within the turn threshold, the error against the heading
    /// that the move began with.
    pub open spec fn steer_error(
        self,
        state: Seek,
        pose: Pose,
        target: Vec2<Length>,
        bearing: i64,
        direction: Direction,
    ) -> i64 {
        if range(pose, target) < self.turn_threshold.0 {
            principal(diff(pose.h.0, state.initial_heading.0))
        } else {
            course_error(pose, bearing, direction)
        }
    }

    /// Whether the move ends in the tick that finds the robot at `pose`:
    /// it stands within tolerance of the target, or time is up.
    pub open spec fn ends(self, state: Seek, pose: Pose, target: Vec2<Length>, elapsed: i64, timeout: i64)
        -> bool {
        ||| range(pose, target) < self.tolerance.0 && abs(pose.vf) < self.velocity_tolerance
        ||| sum(state.time, elapsed) > timeout
    }

    /// The command of that tick, for a target in the direction `bearing`
    /// and a forward command scaled by `scaling`: stop when the move ends;
    /// else the scaled thrust with the heading controller's output added
    /// on the left and taken off on the right, each side held to the
    /// voltage limit.
    pub open spec fn command(
        self,
        state: Seek,
        pose: Pose,
        target: Vec2<Length>,
        elapsed: i64,
        timeout: i64,
        direction: Direction,
        bearing: i64,
        scaling: i64,
    ) -> Command {
        if self.ends(state, pose, target, elapsed, timeout) {
            Command::Stop
        } else {
            let sides = mixed(
                prod(self.thrust(pose, target, elapsed, direction), scaling),
                self.angular.command(
                    self.steer_error(state, pose, target, bearing, direction),
                    elapsed,
                ),
            );
            Command::Drive { left: limited(sides.0), right: limited(sides.1) }
        }
    }

    /// The primitive after that tick: the distance controller has seen the
    /// distance, and, unless the move ended, the heading controller has
    /// seen its error.
    pub open spec fn next(
        self,
        state: Seek,
        pose: Pose,
        target: Vec2<Length>,
        elapsed: i64,
        timeout: i64,
        direction: Direction,
        bearing: i64,
    ) -> MoveTo {
        let linear = self.linear.after(range(pose, target), elapsed);
        if self.ends(state, pose, target, elapsed, timeout) {
            MoveTo { linear, ..self }
        } else {
            MoveTo {
                linear,
                angular: self.angular.after(
                    self.steer_error(state, pose, target, bearing, direction),
                    elapsed,
                ),
                ..self
            }
        }
    }

    pub fn new(
        linear: Pid,
        angular: Pid,
        tolerance: Length,
        velocity_tolerance: i64,
        turn_threshold: Length,
    ) -> (m: Self)
        ensures
            m == (MoveTo { linear, angular, tolerance, velocity_tolerance, turn_threshold }),
    {
        MoveTo { linear, angular, tolerance, velocity_tolerance, turn_threshold }
    }

    /// The state in which a move starts from `pose`.
    pub fn start(pose: Pose) -> (s: Seek)
        ensures
            s == (Seek { time: 0, initial_heading: pose.h }),
    {
        Seek { time: 0, initial_heading: pose.h }
    }

    /// One tick of a move, for a target that lies in the direction
    /// `bearing` and with the forward command scaled by `scaling`.
    pub fn seek(
        &mut self,
        state: &mut Seek,
        pose: Pose,
        target: Vec2<Length>,
        elapsed: i64,
        timeout: i64,
        direction: Direction,
        bearing: Angle,
        scaling: i64,
    ) -> (c: Command)
        ensures
            *final(state) == (Seek { time: sum(old(state).time, elapsed), ..*old(state) }),
            c == old(self).command(
                *old(state),
                pose,
                target,
                elapsed,
                timeout,
                direction,
                bearing.0,
                scaling,
            ),
            *final(self) == old(self).next(
                *old(state),
                pose,
                target,
                elapsed,
                timeout,
                direction,
                bearing.0,
            ),
    {
        state.time = fx_sum(state.time, elapsed);
        let distance: i64 = target.inches().distance(pose.position());
        let output: i64 = fx_clamp(self.linear.output(distance, elapsed), -MAX_VOLTAGE, MAX_VOLTAGE);
        if distance < self.tolerance.0 && fx_abs(pose.vf) < self.velocity_tolerance {
            return Command::Stop;
        }
        if state.time > timeout {
            return Command::Stop;
        }
        let thrust: i64 = match direction {
            Direction::Forward => output,
            Direction::Reverse => fx_neg(output),
        };
        let error: i64 = if distance < self.turn_threshold.0 {
            (pose.h - state.initial_heading).wrap().0
        } else {
            heading_off(pose, bearing, direction).0
        };
        let turn: i64 = self.angular.output(error, elapsed);
        let sides = arcade(fx_prod(thrust, scaling), turn);
        Command::Drive { left: limit(sides.0), right: limit(sides.1) }
    }

    /// One tick of a move to the point `target`: `elapsed` seconds after
    /// the last one, with the robot at `pose`. The forward command is
    /// scaled by the cosine of the course error, so that the robot drives
    /// the less the further it points away from where it should.
    pub fn move_to_point(
        &mut self,
        state: &mut Seek,
        pose: Pose,
        target: Vec2<Length>,
        elapsed: i64,
        timeout: i64,
        direction: Direction,
    ) -> (c: Command)
        ensures
            *final(state) == (Seek { time: sum(old(state).time, elapsed), ..*old(state) }),
            ({
                let bearing = bearing_of(diff(target.y.0, pose.y.0), diff(target.x.0, pose.x.0));
                let scaling = sin_cos_of(course_error(pose, bearing, direction)).cos;
                &&& c == old(self).command(
                    *old(state),
                    pose,
                    target,
                    elapsed,
                    timeout,
                    direction,
                    bearing,
                    scaling,
                )
                &&& *final(self) == old(self).next(
                    *old(state),
                    pose,
                    target,
                    elapsed,
                    timeout,
                    direction,
                    bearing,
                )
            }),
    {
        let bearing: Angle = angular_distance(pose, target);
        let scaling: i64 = heading_off(pose, bearing, direction).sin_cos().cos;
        self.seek(state, pose, target, elapsed, timeout, direction, bearing, scaling)
    }
}

/// The heading to hold on the way to a target in the direction `bearing`.
pub fn target_bearing(bearing: Angle, direction: Direction) -> (a: Angle)
    ensures
        a.0 == aim(bearing.0, direction),
{
    match direction {
        Direction::Forward => bearing,
        Direction::Reverse => (bearing + Angle(PI)).wrap(),
    }
}

/// How far the robot's heading is off the heading to hold.
pub fn heading_off(pose: Pose, bearing: Angle, direction: Direction) -> (e: Angle)
    ensures
        e.0 == course_error(pose, bearing.0, direction),
        -PI < e.0 <= PI,
{
    (pose.h - target_bearing(bearing, direction)).wrap()
}

/// A move ends in the very tick that finds the robot within tolerance of
/// the target and below the velocity tolerance; a move whose time is up
/// ends in that tick. Either way its last command puts zero volts on both
/// sides.
pub proof fn lemma_move_ends(
    m: MoveTo,
    state: Seek,
    pose: Pose,
    target: Vec2<Length>,
    elapsed: i64,
    timeout: i64,
    direction: Direction,
    bearing: i64,
    scaling: i64,
)
    requires
        (range(pose, target) < m.tolerance.0 && abs(pose.vf) < m.velocity_tolerance) || sum(
            state.time,
            elapsed,
        ) > timeout,
    ensures
        m.command(state, pose, target, elapsed, timeout, direction, bearing, scaling)
            == Command::Stop,
        m.command(state, pose, target, elapsed, timeout, direction, bearing, scaling).voltages()
            == Some((0i64, 0i64)),
{
}

/// Until its time is up, a move goes on driving as long as the robot is
/// away from the target or still rolls.
pub proof fn lemma_move_runs(
    m: MoveTo,
    state: Seek,
    pose: Pose,
    target: Vec2<Length>,
    elapsed: i64,
    timeout: i64,
    direction: Direction,
    bearing: i64,
    scaling: i64,
)
    requires
        sum(state.time, elapsed) <= timeout,
        range(pose, target) >= m.tolerance.0 || abs(pose.vf) >= m.velocity_tolerance,
    ensures
        m.command(state, pose, target, elapsed, timeout, direction, bearing, scaling) is Drive,
{
}

/// Backing up to a target turns the aim by half a turn and negates the
/// forward command.
pub proof fn lemma_reverse_mirrors(
    m: MoveTo,
    pose: Pose,
    target: Vec2<Length>,
    elapsed: i64,
    bearing: i64,
)
    ensures
        aim(bearing, Direction::Reverse) == principal(sum(aim(bearing, Direction::Forward), PI)),
        m.thrust(pose, target, elapsed, Direction::Reverse) == neg(
            m.thrust(pose, target, elapsed, Direction::Forward),
        ),
        m.thrust(pose, target, elapsed, Direction::Forward) >= 0 ==> m.thrust(
            pose,
            target,
            elapsed,
            Direction::Reverse,
        ) <= 0,
{
}

/// A robot that backs up to a target and points no more than a quarter
/// turn off its aim is told to drive backward: where the distance
/// controller asks for a forward command and the scaling is not negative,
/// the scaled forward command is not positive, and the aim is the bearing
/// turned by half a turn.
pub proof fn lemma_reverse_drives_backward(
    m: MoveTo,
    pose: Pose,
    target: Vec2<Length>,
    elapsed: i64,
    bearing: i64,
    scaling: i64,
)
    requires
        m.linear.command(range(pose, target), elapsed) >= 0,
        scaling >= 0,
    ensures
        m.thrust(pose, target, elapsed, Direction::Reverse) <= 0,
        prod(m.thrust(pose, target, elapsed, Direction::Reverse), scaling) <= 0,
        aim(bearing, Direction::Reverse) == principal(sum(bearing, PI)),
{
    let thrust = m.thrust(pose, target, elapsed, Direction::Reverse);
    assert(thrust * scaling <= 0) by (nonlinear_arith)
        requires
            thrust <= 0,
            scaling >= 0,
    ;
}

} // verus!
