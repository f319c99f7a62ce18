//! Trajectory tracking with the Ramsete feedback law.

use vstd::prelude::*;
use crate::math::angle::{principal, Angle, PI};
use crate::math::scalar::{
    abs, diff, fx_abs, fx_diff, fx_prod, fx_quot, fx_sqrt, fx_sum, hypot, lemma_tdiv_close,
    lemma_tdiv_magnitude, neg, prod, quot, sqrt, sum, tdiv, SCALE,
};
use crate::math::trig::{sin_cos_of, SinCos};
use crate::motion::profiling::trajectory::{is_place, ProfilePoint, Trajectory};
use crate::motion::Command;
use crate::pose::{turned, Pose, Vec2};

verus! {

/// Distance along the path at which tracking starts: the first sample has
/// no velocity to start from.
pub const HEAD_START: i64 = 300_000;

/// The highest velocity a motor holds, in revolutions per minute.
pub const MAX_RPM: i64 = 450_000_000;

/// Seconds in a minute.
pub const SECONDS_PER_MINUTE: i64 = 60_000_000;

/// The number two.
pub const TWO: i64 = 2_000_000;

/// Tuning and geometry of the tracker.
#[derive(Clone, Copy, Debug, PartialEq, Eq, Structural)]
pub struct Ramsete {
    pub b: i64,
    pub zeta: i64,
    pub track_width: i64,
    pub wheel_diameter: i64,
    pub external_gearing: i64,
}

/// What the tracker remembers between ticks.
#[derive(Clone, Copy, Debug, PartialEq, Eq)]
pub struct Tracking {
    pub prev_position: Vec2<i64>,
    /// Distance travelled so far, the head start included.
    pub distance: i64,
}

/// Motor revolutions per minute that move a wheel at `in_sec` inches per
/// second.
pub open spec fn motor_rpm(in_sec: i64, wheel_diameter: i64, external_gearing: i64) -> i64 {
    quot(prod(in_sec, SECONDS_PER_MINUTE), prod(prod(PI, wheel_diameter), external_gearing))
}

/// Both velocities scaled down by one factor, so that neither exceeds
/// `MAX_RPM` by more than rounding; unchanged where neither does.
pub open spec fn normalized(left: i64, right: i64) -> (i64, i64) {
    let top = if abs(left) >= abs(right) {
        abs(left)
    } else {
        abs(right)
    };
    let excess = quot(top, MAX_RPM);
    if excess > SCALE {
        (quot(left, excess), quot(right, excess))
    } else {
        (left, right)
    }
}

/// Sine of `angle` over `angle`, and one where `angle` is zero.
pub open spec fn sinc(angle: i64, sin: i64) -> i64 {
    if angle == 0 {
        SCALE
    } else {
        quot(sin, angle)
    }
}

impl Ramsete {
    /// The convergence gain `2 * zeta * sqrt(w^2 + b * v^2)`.
    pub open spec fn gain(self, v: i64, w: i64) -> i64 {
        prod(prod(TWO, self.zeta), sqrt(sum(prod(w, w), prod(self.b, prod(v, v)))))
    }

    /// Heading still to be turned through to match the sample, in
    /// `(-PI, PI]`.
    pub open spec fn heading_error(sample: ProfilePoint, pose: Pose) -> i64 {
        principal(diff(sample.heading, pose.h.0))
    }

    /// Offset of the sample from the robot, in the robot's frame: x ahead.
    pub open spec fn position_error(sample: ProfilePoint, pose: Pose, frame: SinCos) -> Vec2<i64> {
        turned(
            Vec2 { x: diff(sample.position.x, pose.x.0), y: diff(sample.position.y, pose.y.0) },
            frame,
        )
    }

    /// The turning command of the feedback law, as a difference of wheel
    /// speeds in inches per second.
    pub open spec fn angular(self, sample: ProfilePoint, pose: Pose, frame: SinCos, turn: SinCos)
        -> i64 {
        let e = Self::heading_error(sample, pose);
        let k = self.gain(sample.linear_velocity, sample.angular_velocity);
        let off = Self::position_error(sample, pose, frame);
        prod(
            quot(
                sum(
                    sum(sample.angular_velocity, prod(k, e)),
                    prod(prod(prod(self.b, sample.linear_velocity), sinc(e, turn.sin)), off.y),
                ),
                TWO,
            ),
            self.track_width,
        )
    }

    /// The forward command of the feedback law, in inches per second.
    pub open spec fn linear(self, sample: ProfilePoint, pose: Pose, frame: SinCos, turn: SinCos)
        -> i64 {
        let k = self.gain(sample.linear_velocity, sample.angular_velocity);
        let off = Self::position_error(sample, pose, frame);
        sum(prod(sample.linear_velocity, turn.cos), prod(k, off.x))
    }

    /// Left and right motor velocities that steer the robot at `pose`
    /// toward `sample`. `frame` holds sine and cosine of the negated
    /// heading, `turn` those of the heading error.
    pub open spec fn speeds(self, sample: ProfilePoint, pose: Pose, frame: SinCos, turn: SinCos)
        -> (i64, i64) {
        let v = self.linear(sample, pose, frame, turn);
        let w = self.angular(sample, pose, frame, turn);
        normalized(
            motor_rpm(diff(v, w), self.wheel_diameter, self.external_gearing),
            motor_rpm(sum(v, w), self.wheel_diameter, self.external_gearing),
        )
    }

    /// The robot's position after one more tick, and the distance that it
    /// has covered by then.
    pub open spec fn advanced(state: Tracking, pose: Pose) -> Tracking {
        Tracking {
            prev_position: Vec2 { x: pose.x.0, y: pose.y.0 },
            distance: sum(
                state.distance,
                hypot(diff(pose.x.0, state.prev_position.x), diff(pose.y.0, state.prev_position.y)),
            ),
        }
    }

    /// The state in which tracking starts from `pose`.
    pub fn start(pose: Pose) -> (r: Tracking)
        ensures
            r == (Tracking { prev_position: Vec2 { x: pose.x.0, y: pose.y.0 }, distance: HEAD_START }),
    {
        Tracking { prev_position: pose.position(), distance: HEAD_START }
    }

    /// Left and right motor velocities for one sample, from the sines and
    /// cosines that the feedback law needs.
    pub fn wheel_speeds(&self, sample: ProfilePoint, pose: Pose, frame: SinCos, turn: SinCos) -> (r:
        (i64, i64))
        ensures
            r == self.speeds(sample, pose, frame, turn),
    {
        let v_d: i64 = sample.linear_velocity;
        let w_d: i64 = sample.angular_velocity;
        let k: i64 = fx_prod(
            fx_prod(TWO, self.zeta),
            fx_sqrt(fx_sum(fx_prod(w_d, w_d), fx_prod(self.b, fx_prod(v_d, v_d)))),
        );
        let off: Vec2<i64> = (sample.position - pose.position()).rotated_by(frame);
        let e: i64 = Angle(fx_diff(sample.heading, pose.h.0)).wrap().0;
        let s: i64 = if e == 0 {
            SCALE
        } else {
            fx_quot(turn.sin, e)
        };
        let w: i64 = fx_prod(
            fx_quot(
                fx_sum(fx_sum(w_d, fx_prod(k, e)), fx_prod(fx_prod(fx_prod(self.b, v_d), s), off.y)),
                TWO,
            ),
            self.track_width,
        );
        let v: i64 = fx_sum(fx_prod(v_d, turn.cos), fx_prod(k, off.x));
        normalize(
            to_motor_rpm(fx_diff(v, w), self.wheel_diameter, self.external_gearing),
            to_motor_rpm(fx_sum(v, w), self.wheel_diameter, self.external_gearing),
        )
    }

    /// One tick of trajectory tracking. Stops at the last sample of the
    /// trajectory; before that, asks for the motor velocities that the
    /// feedback law gives for the sample at the distance covered.
    pub fn follow(&self, state: &mut Tracking, pose: Pose, trajectory: &Trajectory) -> (r: Command)
        requires
            trajectory.wf(),
        ensures
            *final(state) == Self::advanced(*old(state), pose),
            exists|i: int|
                {
                    &&& is_place(trajectory.profile@, final(state).distance, i)
                    &&& r == if i == trajectory.profile@.len() - 1 {
                        Command::Stop
                    } else {
                        let sample = trajectory.profile@[i];
                        let speeds = self.speeds(
                            sample,
                            pose,
                            sin_cos_of(neg(pose.h.0)),
                            sin_cos_of(Self::heading_error(sample, pose)),
                        );
                        Command::Spin { left: speeds.0, right: speeds.1 }
                    }
                },
    {
        let position: Vec2<i64> = pose.position();
        state.distance = fx_sum(state.distance, position.distance(state.prev_position));
        state.prev_position = position;
        let i: usize = trajectory.place(state.distance);
        if i == trajectory.len() - 1 {
            return Command::Stop;
        }
        let sample: ProfilePoint = trajectory.profile[i];
        let frame: SinCos = core::ops::Neg::neg(pose.h).sin_cos();
        let turn: SinCos = Angle(fx_diff(sample.heading, pose.h.0)).wrap().sin_cos();
        let speeds = self.wheel_speeds(sample, pose, frame, turn);
        Command::Spin { left: speeds.0, right: speeds.1 }
    }
}

/// Motor revolutions per minute that move a wheel at `in_sec` inches per
/// second.
pub fn to_motor_rpm(in_sec: i64, wheel_diameter: i64, external_gearing: i64) -> (r: i64)
    ensures
        r == motor_rpm(in_sec, wheel_diameter, external_gearing),
{
    fx_quot(
        fx_prod(in_sec, SECONDS_PER_MINUTE),
        fx_prod(fx_prod(PI, wheel_diameter), external_gearing),
    )
}

/// Scales both velocities down together where either exceeds `MAX_RPM`.
pub fn normalize(left: i64, right: i64) -> (r: (i64, i64))
    ensures
        r == normalized(left, right),
{
    let l: i64 = fx_abs(left);
    let r: i64 = fx_abs(right);
    let top: i64 = if l >= r {
        l
    } else {
        r
    };
    let excess: i64 = fx_quot(top, MAX_RPM);
    if excess > SCALE {
        (fx_quot(left, excess), fx_quot(right, excess))
    } else {
        (left, right)
    }
}

/// What the velocities may exceed `MAX_RPM` by after they were scaled
/// down: its millionth part, and a step of rounding.
pub const OVERSHOOT: i64 = 451;

/// Scaled down, neither velocity exceeds the limit by more than rounding
/// allows.
pub proof fn lemma_normalized_within_limit(left: i64, right: i64)
    ensures
        -(MAX_RPM + OVERSHOOT) <= normalized(left, right).0 <= MAX_RPM + OVERSHOOT,
        -(MAX_RPM + OVERSHOOT) <= normalized(left, right).1 <= MAX_RPM + OVERSHOOT,
{
    let top = if abs(left) >= abs(right) {
        abs(left)
    } else {
        abs(right)
    };
    let wide = top * SCALE;
    let e = tdiv(wide, MAX_RPM as int);
    lemma_tdiv_close(wide, MAX_RPM as int);
    assert(0 <= wide <= 0x7fff_ffff_ffff_ffff * 1_000_000);
    assert(e * MAX_RPM <= wide < (e + 1) * MAX_RPM) by (nonlinear_arith)
        requires
            -MAX_RPM < e * MAX_RPM - wide < MAX_RPM,
            e * MAX_RPM <= wide,
            MAX_RPM == 450_000_000,
    ;
    assert(0 <= e <= 0x7fff_ffff_ffff_ffff) by (nonlinear_arith)
        requires
            e * MAX_RPM <= wide,
            wide < (e + 1) * MAX_RPM,
            0 <= wide <= 0x7fff_ffff_ffff_ffff * 1_000_000,
            MAX_RPM == 450_000_000,
    ;
    let excess = quot(top, MAX_RPM);
    assert(excess == e);
    if excess > SCALE {
        lemma_scaled_share(left, top, e);
        lemma_scaled_share(right, top, e);
    }
}

/// A velocity of magnitude up to `top`, divided by the share `e` by which
/// `top` exceeds the limit, comes out within the limit.
proof fn lemma_scaled_share(v: i64, top: i64, e: int)
    requires
        0 <= top,
        -top - 1 <= v <= top,
        e > SCALE,
        e <= 0x7fff_ffff_ffff_ffff,
        top * SCALE < (e + 1) * MAX_RPM,
    ensures
        -(MAX_RPM + OVERSHOOT) <= quot(v, e as i64) <= MAX_RPM + OVERSHOOT,
{
    let bound = (top + 1) * SCALE;
    let n = v * SCALE;
    assert(-bound <= n <= bound) by (nonlinear_arith)
        requires
            n == v * SCALE,
            bound == (top + 1) * SCALE,
            -top - 1 <= v <= top,
            SCALE == 1_000_000,
    ;
    lemma_tdiv_magnitude(n, e, bound);
    assert(bound < (MAX_RPM + OVERSHOOT + 1) * e) by (nonlinear_arith)
        requires
            bound == (top + 1) * SCALE,
            top * SCALE < (e + 1) * MAX_RPM,
            e > SCALE,
            SCALE == 1_000_000,
            MAX_RPM == 450_000_000,
            OVERSHOOT == 451,
    ;
    assert(bound / e <= MAX_RPM + OVERSHOOT) by {
        let most = (MAX_RPM + OVERSHOOT + 1) * e - 1;
        assert(most == (MAX_RPM + OVERSHOOT) * e + (e - 1)) by (nonlinear_arith)
            requires
                most == (MAX_RPM + OVERSHOOT + 1) * e - 1,
        ;
        vstd::arithmetic::div_mod::lemma_div_is_ordered(bound, most, e);
        vstd::arithmetic::div_mod::lemma_fundamental_div_mod_converse(
            most,
            e,
            MAX_RPM + OVERSHOOT,
            e - 1,
        );
    }
}

} // verus!
