//! Driving a signed distance in a straight line.

use vstd::prelude::*;
use crate::controllers::pid::Pid;
use crate::math::length::Length;
use crate::math::scalar::{
    abs, clamp, diff, fx_abs, fx_clamp, fx_diff, fx_neg, fx_prod, fx_sum, hypot, lemma_tdiv_close,
    lemma_tdiv_exact, neg, prod, quot, sum, tdiv, SCALE,
};
use crate::math::trig::SinCos;
use crate::motion::{Command, MAX_VOLTAGE};
use crate::pose::odometry::Odometry;
use crate::pose::{Pose, Vec2};

verus! {

/// The number two.
pub const TWO: i64 = 2_000_000;

/// The straight-line primitive: its controller and tolerances, and the
/// settings of the move at hand, which fall back to their defaults when a
/// move ends.
#[derive(Clone, Copy, Debug, PartialEq, Eq, Structural)]
pub struct Linear {
    pub pid: Pid,
    pub tolerance: Length,
    /// Forward speed below which the robot counts as standing.
    pub velocity_tolerance: i64,
    /// Time after which the move is given up, in seconds.
    pub timeout: Option<i64>,
    /// The highest voltage the move may use.
    pub speed: i64,
    /// Whether another move follows, so that this one need not come to
    /// rest.
    pub chain: bool,
}

/// How far a move has come.
#[derive(Clone, Copy, Debug, PartialEq, Eq, Structural)]
pub struct Travel {
    /// The signed distance to drive.
    pub target: Length,
    /// Distance driven so far.
    pub traveled: Length,
    /// Time spent so far, in seconds.
    pub time: i64,
}

impl Travel {
    /// A move of `target` that has not begun.
    pub fn new(target: Length) -> (t: Self)
        ensures
            t == (Travel { target, traveled: Length(0), time: 0 }),
    {
        Travel { target, traveled: Length(0), time: 0 }
    }

    /// The move after a tick of `elapsed` seconds in which the robot
    /// drove at the forward speed of `pose`.
    pub open spec fn progressed(self, pose: Pose, elapsed: i64) -> Travel {
        Travel {
            target: self.target,
            traveled: Length(sum(self.traveled.0, prod(pose.vf, elapsed))),
            time: sum(self.time, elapsed),
        }
    }

    /// Distance still to drive.
    pub open spec fn error(self) -> i64 {
        diff(self.target.0, self.traveled.0)
    }
}

impl Linear {
    /// Whether a move with this much `error` left, at this `velocity` and
    /// after this much `time`, is over: the robot stands within tolerance,
    /// or time is up, or the move is chained and the robot is within twice
    /// the tolerance. `error` and `velocity` are magnitudes.
    pub open spec fn settled(self, error: i64, velocity: i64, time: i64) -> bool {
        ||| error < self.tolerance.0 && velocity < self.velocity_tolerance
        ||| (self.timeout matches Some(t) && time > t)
        ||| self.chain && error < prod(self.tolerance.0, TWO)
    }

    /// The settings that a finished move leaves behind.
    pub open spec fn rested(self) -> Linear {
        Linear { timeout: None, speed: MAX_VOLTAGE, chain: false, ..self }
    }

    /// The voltage for both sides while `error` is left.
    pub open spec fn voltage(self, error: i64, elapsed: i64) -> i64 {
        clamp(self.pid.command(error, elapsed), neg(self.speed), self.speed)
    }

    /// Whether the move `state` ends in the tick that finds the robot at
    /// `pose`, `elapsed` seconds after the last one.
    pub open spec fn ends(self, state: Travel, pose: Pose, elapsed: i64) -> bool {
        let now = state.progressed(pose, elapsed);
        self.settled(abs(now.error()), abs(pose.vf), now.time)
    }

    /// The command of that tick: stop when the move ends, else the
    /// controller's voltage on both sides.
    pub open spec fn command(self, state: Travel, pose: Pose, elapsed: i64) -> Command {
        let now = state.progressed(pose, elapsed);
        if self.ends(state, pose, elapsed) {
            Command::Stop
        } else {
            Command::Drive {
                left: self.voltage(now.error(), elapsed),
                right: self.voltage(now.error(), elapsed),
            }
        }
    }

    /// The primitive after that tick: the controller has seen the error,
    /// and a move that ended has put the settings back to their defaults.
    pub open spec fn next(self, state: Travel, pose: Pose, elapsed: i64) -> Linear {
        let pid = self.pid.after(state.progressed(pose, elapsed).error(), elapsed);
        if self.ends(state, pose, elapsed) {
            Linear { pid, ..self.rested() }
        } else {
            Linear { pid, ..self }
        }
    }

    pub fn new(pid: Pid, tolerance: Length, velocity_tolerance: i64) -> (l: Self)
        ensures
            l == (Linear {
                pid,
                tolerance,
                velocity_tolerance,
                timeout: None,
                speed: MAX_VOLTAGE,
                chain: false,
            }),
    {
        Linear {
            pid,
            tolerance,
            velocity_tolerance,
            timeout: None,
            speed: MAX_VOLTAGE,
            chain: false,
        }
    }

    /// The move that takes the robot from `pose` as far as `point` lies.
    pub fn drive_to_point(&self, pose: Pose, point: Vec2<Length>) -> (t: Travel)
        ensures
            t == (Travel {
                target: Length(hypot(diff(point.x.0, pose.x.0), diff(point.y.0, pose.y.0))),
                traveled: Length(0),
                time: 0,
            }),
    {
        Travel::new(Length(point.inches().distance(pose.position())))
    }

    /// One tick of a straight move: `elapsed` seconds after the last one,
    /// with the robot at `pose`. Stops, and puts the settings back to
    /// their defaults, when the move is settled; before that, drives both
    /// sides with the controller's command, held to the speed limit.
    pub fn drive_distance(&mut self, state: &mut Travel, pose: Pose, elapsed: i64) -> (c: Command)
        ensures
            *final(state) == old(state).progressed(pose, elapsed),
            c == old(self).command(*old(state), pose, elapsed),
            *final(self) == old(self).next(*old(state), pose, elapsed),
    {
        state.time = fx_sum(state.time, elapsed);
        state.traveled = Length(fx_sum(state.traveled.0, fx_prod(pose.vf, elapsed)));
        let error: i64 = fx_diff(state.target.0, state.traveled.0);
        let output: i64 = fx_clamp(self.pid.output(error, elapsed), fx_neg(self.speed), self.speed);
        if self.is_settled(fx_abs(error), fx_abs(pose.vf), state.time) {
            self.timeout = None;
            self.speed = MAX_VOLTAGE;
            self.chain = false;
            return Command::Stop;
        }
        Command::Drive { left: output, right: output }
    }

    /// Whether a move with this much `error` left, at this `velocity` and
    /// after this much `time`, is over.
    pub fn is_settled(&self, error: i64, velocity: i64, time: i64) -> (done: bool)
        ensures
            done == self.settled(error, velocity, time),
    {
        let within_tolerance: bool = error < self.tolerance.0;
        let within_velocity: bool = velocity < self.velocity_tolerance;
        let timed_out: bool = match self.timeout {
            Some(t) => time > t,
            None => false,
        };
        let chained: bool = self.chain && error < fx_prod(self.tolerance.0, TWO);
        (within_tolerance && within_velocity) || timed_out || chained
    }

    /// Gives the next move up after `duration` seconds.
    pub fn timeout(&mut self, duration: i64)
        ensures
            *final(self) == (Linear { timeout: Some(duration), ..*old(self) }),
    {
        self.timeout = Some(duration);
    }

    /// Limits the next move to the share `speed` of the full voltage.
    pub fn speed(&mut self, speed: i64)
        ensures
            *final(self) == (Linear { speed: prod(MAX_VOLTAGE, speed), ..*old(self) }),
    {
        self.speed = fx_prod(MAX_VOLTAGE, speed);
    }

    /// Lets the next move end without coming to rest.
    pub fn chain(&mut self)
        ensures
            *final(self) == (Linear { chain: true, ..*old(self) }),
    {
        self.chain = true;
    }
}

/// A move ends in the very tick that finds the robot within the
/// tolerance and below the velocity tolerance; its last command puts zero
/// volts on both sides.
pub proof fn lemma_settles_at_once(l: Linear, state: Travel, pose: Pose, elapsed: i64)
    requires
        abs(state.progressed(pose, elapsed).error()) < l.tolerance.0,
        abs(pose.vf) < l.velocity_tolerance,
    ensures
        l.command(state, pose, elapsed) == Command::Stop,
        l.command(state, pose, elapsed).voltages() == Some((0i64, 0i64)),
{
}

/// A move whose time is up ends in that tick, however far from settled
/// the robot is, and its last command puts zero volts on both sides.
pub proof fn lemma_timeout_ends(l: Linear, state: Travel, pose: Pose, elapsed: i64, limit: i64)
    requires
        l.timeout == Some(limit),
        state.progressed(pose, elapsed).time > limit,
    ensures
        l.command(state, pose, elapsed) == Command::Stop,
        l.command(state, pose, elapsed).voltages() == Some((0i64, 0i64)),
{
}

/// A move that is not chained goes on driving until its time is up, as
/// long as the robot is not within the tolerance.
pub proof fn lemma_runs_until_timeout(l: Linear, state: Travel, pose: Pose, elapsed: i64, limit: i64)
    requires
        l.timeout == Some(limit),
        state.progressed(pose, elapsed).time <= limit,
        !l.chain,
        abs(state.progressed(pose, elapsed).error()) >= l.tolerance.0,
    ensures
        l.command(state, pose, elapsed) is Drive,
{
}

/// A move without a time limit that is not chained ends only where the
/// robot stands within the tolerance of its target: when its tick
/// commands a stop, the distance left is below the tolerance and the
/// forward speed below the velocity tolerance.
pub proof fn lemma_stop_is_at_the_target(l: Linear, state: Travel, pose: Pose, elapsed: i64)
    requires
        l.timeout is None,
        !l.chain,
        l.command(state, pose, elapsed) == Command::Stop,
    ensures
        abs(state.progressed(pose, elapsed).error()) < l.tolerance.0,
        abs(pose.vf) < l.velocity_tolerance,
{
}

/// The largest coordinate and distance for which the laws below are
/// stated, and the largest roll of a wheel in one tick: beyond them a sum
/// could run into the end of the number range.
pub const TAME: i64 = 0x0100_0000_0000_0000;

pub const TAME_ROLL: i64 = 0x4000_0000;

/// The estimate and the move of an ideal robot that drives straight along
/// x, after ticks of `dt` seconds in which its forward wheel rolled by
/// `rolls`: each tick advances the estimate by the roll, without a turn,
/// and the move by what the estimate's forward speed amounts to.
pub open spec fn ideal_drive(o: Odometry, t: Travel, rolls: Seq<i64>, dt: i64) -> (Odometry, Travel)
    decreases rolls.len(),
{
    if rolls.len() == 0 {
        (o, t)
    } else {
        let before = ideal_drive(o, t, rolls.drop_last(), dt);
        let estimate = before.0.after(
            Some(Length(rolls.last())),
            Some(Length(0)),
            None,
            dt,
            SinCos { sin: 0, cos: SCALE },
            SinCos { sin: 0, cos: SCALE },
        );
        (estimate, before.1.progressed(estimate.pose, dt))
    }
}

/// What the forward speed of a tick amounts to over that tick is the roll
/// of the tick, but for less than two steps of rounding.
proof fn lemma_speed_times_time(roll: i64, dt: i64)
    requires
        -TAME_ROLL <= roll <= TAME_ROLL,
        0 < dt <= SCALE,
    ensures
        -1 <= prod(quot(roll, dt), dt) - roll <= 1,
{
    let unit = SCALE as int;
    let q = tdiv(roll * unit, dt as int);
    lemma_tdiv_close(roll * unit, dt as int);
    assert(-(TAME_ROLL * unit) - dt < q * dt < TAME_ROLL * unit + dt);
    assert(-(TAME_ROLL * unit) - 1_000_000 <= q <= TAME_ROLL * unit + 1_000_000)
        by (nonlinear_arith)
        requires
            -(TAME_ROLL * unit) - dt < q * dt < TAME_ROLL * unit + dt,
            0 < dt <= 1_000_000,
    ;
    assert(quot(roll, dt) == q);
    let p = tdiv(q * dt, unit);
    lemma_tdiv_close(q * dt, unit);
    assert(prod(quot(roll, dt), dt) == p);
}

/// On an ideal robot that drives straight along x, the distance that a
/// move has counted and the distance that the estimate has moved along x
/// differ by no more than a step for each tick, and the estimate stays on
/// its line.
pub proof fn lemma_travel_follows_the_pose(o: Odometry, t: Travel, rolls: Seq<i64>, dt: i64)
    requires
        0 < dt <= SCALE,
        rolls.len() <= TAME_ROLL,
        forall|k: int| 0 <= k < rolls.len() ==> -TAME_ROLL <= #[trigger] rolls[k] <= TAME_ROLL,
        -TAME <= o.pose.x.0 <= TAME,
        -TAME <= t.traveled.0 <= TAME,
    ensures
        ({
            let end = ideal_drive(o, t, rolls, dt);
            let moved = end.0.pose.x.0 - o.pose.x.0;
            let counted = end.1.traveled.0 - t.traveled.0;
            &&& -rolls.len() <= counted - moved <= rolls.len()
            &&& -rolls.len() * TAME_ROLL <= moved <= rolls.len() * TAME_ROLL
            &&& end.0.pose.y == o.pose.y
            &&& end.0.pose.h == o.pose.h
            &&& end.1.target == t.target
        }),
    decreases rolls.len(),
{
    if rolls.len() > 0 {
        let n = rolls.len() as int;
        lemma_travel_follows_the_pose(o, t, rolls.drop_last(), dt);
        let before = ideal_drive(o, t, rolls.drop_last(), dt);
        let roll = rolls.last();
        assert((n - 1) * TAME_ROLL <= TAME_ROLL * TAME_ROLL && n * TAME_ROLL == (n - 1) * TAME_ROLL
            + TAME_ROLL) by (nonlinear_arith)
            requires
                1 <= n <= TAME_ROLL,
        ;
        // the estimate moves by the roll itself
        lemma_tdiv_exact(roll as int, SCALE as int);
        assert(roll * SCALE == SCALE * roll) by (nonlinear_arith);
        assert(prod(roll, SCALE) == roll);
        assert(0 * SCALE == 0 && roll * 0 == 0 && 0 * 0 == 0) by (nonlinear_arith);
        // the move counts what the speed amounts to
        lemma_speed_times_time(roll, dt);
    }
}

/// A straight drive on an ideal robot: a move without a time limit that
/// is not chained, begun at `o` and stopped after the ticks
/// `rolls`, leaves the estimate within the tolerance of the point that
/// lies the target distance ahead along x, but for a step for each tick.
pub proof fn lemma_stop_is_at_the_point(
    l: Linear,
    o: Odometry,
    target: Length,
    rolls: Seq<i64>,
    dt: i64,
)
    requires
        l.timeout is None,
        !l.chain,
        0 < dt <= SCALE,
        0 < rolls.len() <= TAME_ROLL,
        forall|k: int| 0 <= k < rolls.len() ==> -TAME_ROLL <= #[trigger] rolls[k] <= TAME_ROLL,
        -TAME <= o.pose.x.0 <= TAME,
        -TAME <= target.0 <= TAME,
        ({
            let before = ideal_drive(o, Travel { target, traveled: Length(0), time: 0 }, rolls.drop_last(), dt);
            let end = ideal_drive(o, Travel { target, traveled: Length(0), time: 0 }, rolls, dt);
            l.command(before.1, end.0.pose, dt) == Command::Stop
        }),
    ensures
        ({
            let end = ideal_drive(o, Travel { target, traveled: Length(0), time: 0 }, rolls, dt);
            let off = o.pose.x.0 + target.0 - end.0.pose.x.0;
            -(l.tolerance.0 + rolls.len()) < off < l.tolerance.0 + rolls.len()
        }),
{
    let start = Travel { target, traveled: Length(0), time: 0 };
    lemma_travel_follows_the_pose(o, start, rolls, dt);
    let before = ideal_drive(o, start, rolls.drop_last(), dt);
    let end = ideal_drive(o, start, rolls, dt);
    lemma_stop_is_at_the_target(l, before.1, end.0.pose, dt);
    assert(end.1 == before.1.progressed(end.0.pose, dt));
    assert(rolls.len() * TAME_ROLL <= TAME_ROLL * TAME_ROLL) by (nonlinear_arith)
        requires
            0 <= rolls.len() <= TAME_ROLL,
    ;
}

} // verus!
