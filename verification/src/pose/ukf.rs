//! An unscented Kalman filter for the robot's pose and velocities.
//!
//! The filter's weights run to a million and its noise terms down to a
//! ten-millionth, so it counts in steps of a trillionth: every number in
//! this file is an `i64` with `UNIT` steps to one. The state holds the
//! position in meters, the heading in radians, counter-clockwise from the
//! x axis, the forward and the rightward velocity in meters per second,
//! and the turning rate in radians per second.

use vstd::prelude::*;
use crate::math::angle::Angle;
use crate::math::length::Length;
use crate::math::linalg::{
    diagonal, dot, dot_of, factor, factor_of, fx_over, fx_times, grid, is_grid, is_triangle,
    lemma_diagonal_has_factor, over, solve, solved, symmetric, times,
};
use crate::math::scalar::{diff, fx_diff, fx_ratio, fx_sum, ratio, sum};
use crate::math::trig::{cossin, cossin_of, SinCos, HALF_TURN_PHASE};
use crate::pose::unscented::{
    covariance, covariance_of, cross, cross_of, deviate, deviations, diagonal_of,
    lemma_plus_keeps_symmetry, lemma_rows_wide, lemma_scaled_keeps_shape, matrix_sum, mean,
    mean_of, plus, scale, scaled, sigma_points_of, spread_points, Weights, UNIT,
};
use crate::pose::Pose;

verus! {

/// Steps of this file in one step of the rest of the library.
pub const FINER: i64 = 1_000_000;

/// Numbers in the state.
pub const STATES: usize = 6;

/// Numbers in the control input: the voltages of the left and right side.
pub const INPUTS: usize = 2;

/// Numbers in a measurement: position and heading from one sensor, then
/// position, heading and the three velocities from another.
pub const OUTPUTS: usize = 9;

/// Sigma points: the mean, and two for each number in the state.
pub const SIGMA_POINTS: usize = 13;

/// The time step of the model, in seconds.
pub const DT: i64 = 10_000_000_000;

/// Half a turn.
pub const PI: i64 = 3_141_592_653_590;

/// A full turn: exactly twice `PI`.
pub const TAU: i64 = 6_283_185_307_180;

/// The numbers one half, one and two.
pub const HALF: i64 = 500_000_000_000;

pub const TWO: i64 = 2_000_000_000_000;

/// The numbers six and twenty-four.
pub const SIX: i64 = 6_000_000_000_000;

pub const TWENTY_FOUR: i64 = 24_000_000_000_000;

/// Inches in a meter.
pub const INCHES_PER_METER: i64 = 39_370_078_740_200;

/// Spread of the sigma points.
pub const ALPHA: i64 = 1_000_000_000;

/// What is known of the distribution: two for a normal one.
pub const BETA: i64 = 2_000_000_000_000;

/// Secondary scaling of the sigma points.
pub const KAPPA: i64 = 0;

/// Torque constant of a motor, in newton meters per ampere.
pub const KT: i64 = 142_275_000_000;

/// Resistance of a motor, in ohms.
pub const RESISTANCE: i64 = 2_610_000_000_000;

/// Speed constant of a motor, in radians per second per volt.
pub const KV: i64 = 5_230_000_000_000;

/// Number of motors.
pub const MOTORS: i64 = 8_000_000_000_000;

/// Radius of the robot, in meters.
pub const ROBOT_RADIUS: i64 = 151_130_000_000;

/// Radius of a wheel, in meters.
pub const WHEEL_RADIUS: i64 = 41_275_000_000;

/// Moment of inertia of the robot.
pub const INERTIA: i64 = 1_001_000_000_000;

/// Gear ratio between motor and wheel.
pub const GEARING: i64 = 750_000_000_000;

/// Mass of the robot, in kilograms.
pub const MASS: i64 = 8_000_000_000_000;

/// The filter.
#[derive(Clone, Debug)]
pub struct Ukf {
    pub alpha: i64,
    pub beta: i64,
    pub lambda: i64,
    pub n: i64,
    pub n_plus: i64,
    /// The mean of the state.
    pub x: Vec<i64>,
    /// The covariance of the state.
    pub p: Vec<Vec<i64>>,
    /// The noise that a step of the model adds.
    pub q: Vec<Vec<i64>>,
    /// The variance of the noise in each number of a measurement.
    pub r: Vec<i64>,
    /// Drag on the forward and sideways velocity.
    pub d1: i64,
    /// Forward acceleration per volt.
    pub d2: i64,
    /// Drag on the turning rate.
    pub d3: i64,
    /// Turning acceleration per volt.
    pub d4: i64,
    pub weights: Weights,
}

/// What a filter holds, as mathematical values.
pub struct Belief {
    pub alpha: i64,
    pub beta: i64,
    pub lambda: i64,
    pub n: i64,
    pub n_plus: i64,
    pub x: Seq<i64>,
    pub p: Seq<Seq<i64>>,
    pub q: Seq<Seq<i64>>,
    pub r: Seq<i64>,
    pub d1: i64,
    pub d2: i64,
    pub d3: i64,
    pub d4: i64,
    pub weights: Weights,
}

impl View for Ukf {
    type V = Belief;

    open spec fn view(&self) -> Belief {
        Belief {
            alpha: self.alpha,
            beta: self.beta,
            lambda: self.lambda,
            n: self.n,
            n_plus: self.n_plus,
            x: self.x@,
            p: grid(self.p),
            q: grid(self.q),
            r: self.r@,
            d1: self.d1,
            d2: self.d2,
            d3: self.d3,
            d4: self.d4,
            weights: self.weights,
        }
    }
}

/// The weights for a state of `n` numbers: `lambda / (n + lambda)` for
/// the central point in the mean, that plus `1 - alpha^2 + beta` for it in
/// the covariance, and `1 / (2 (n + lambda))` for every other point.
pub open spec fn weights_for(alpha: i64, beta: i64, lambda: i64, n_plus: i64) -> Weights {
    let mean0 = over(lambda, n_plus, UNIT);
    Weights {
        mean0,
        cov0: sum(mean0, sum(diff(UNIT, times(alpha, alpha, UNIT)), beta)),
        rest: over(UNIT, times(TWO, n_plus, UNIT), UNIT),
    }
}

/// The angle in `(-PI, PI]` that differs from `a` by whole turns.
pub open spec fn principal(a: i64) -> i64 {
    (PI - ((PI - a) % (TAU as int))) as i64
}

/// The phase of an angle: its share of half a turn, rounded down, with
/// half a turn itself landing on the lowest phase.
pub open spec fn phase_of(a: i64) -> i32 {
    let w = principal(a);
    if w == PI {
        i32::MIN
    } else {
        ((w * HALF_TURN_PHASE) / (PI as int)) as i32
    }
}

/// The pair of `idsp::cossin` as a sine and cosine in this file's steps.
pub open spec fn sin_cos_from(pair: (i32, i32)) -> SinCos {
    SinCos {
        sin: ratio(pair.1 as i64, UNIT, HALF_TURN_PHASE),
        cos: ratio(pair.0 as i64, UNIT, HALF_TURN_PHASE),
    }
}

/// The heading halfway through a step of the model from the state `x`.
pub open spec fn mid_heading(x: Seq<i64>) -> i64 {
    sum(x[2], times(times(HALF, x[5], UNIT), DT, UNIT))
}

/// Sine and cosine of the heading halfway through a step from `x`.
pub open spec fn heading_of(x: Seq<i64>) -> SinCos {
    sin_cos_from(cossin_of(phase_of(mid_heading(x))))
}

/// The largest angle between a sigma point's course and the mean's for
/// which the series below are used: a hundredth of a radian, where what
/// the series leave out is less than one step.
pub const NEAR: i64 = 10_000_000_000;

/// Whether the angle `d` is small enough for the series.
pub open spec fn near(d: i64) -> bool {
    -NEAR <= d <= NEAR
}

/// Sine of a small angle, from its series up to the cube.
pub open spec fn small_sin(d: i64) -> i64 {
    diff(d, over(times(times(d, d, UNIT), d, UNIT), SIX, UNIT))
}

/// Cosine of a small angle, from its series up to the fourth power.
pub open spec fn small_cos(d: i64) -> i64 {
    sum(
        diff(UNIT, over(times(d, d, UNIT), TWO, UNIT)),
        over(times(times(d, d, UNIT), times(d, d, UNIT), UNIT), TWENTY_FOUR, UNIT),
    )
}

/// Sine and cosine of the angle of `base` plus the small angle `d`, by
/// the addition theorems.
pub open spec fn turned_course(base: SinCos, d: i64) -> SinCos {
    SinCos {
        sin: sum(times(base.sin, small_cos(d), UNIT), times(base.cos, small_sin(d), UNIT)),
        cos: diff(times(base.cos, small_cos(d), UNIT), times(base.sin, small_sin(d), UNIT)),
    }
}

impl Belief {
    /// The state after one step of the model under the input `u`: the
    /// position moves with the velocities along the heading `course`,
    /// halfway through the step; the heading turns at the turning rate;
    /// the velocities fall under drag and rise with the voltages, whose
    /// sum drives the robot and whose difference, left less right, turns
    /// it.
    pub open spec fn stepped(self, x: Seq<i64>, u: Seq<i64>, course: SinCos) -> Seq<i64> {
        seq![
            sum(
                x[0],
                times(
                    DT,
                    sum(times(x[3], course.cos, UNIT), times(x[4], course.sin, UNIT)),
                    UNIT,
                ),
            ),
            sum(
                x[1],
                times(
                    DT,
                    diff(times(x[3], course.sin, UNIT), times(x[4], course.cos, UNIT)),
                    UNIT,
                ),
            ),
            sum(x[2], times(DT, x[5], UNIT)),
            sum(
                x[3],
                times(
                    DT,
                    sum(times(self.d1, x[3], UNIT), times(self.d2, sum(u[0], u[1]), UNIT)),
                    UNIT,
                ),
            ),
            sum(x[4], times(times(DT, self.d1, UNIT), x[4], UNIT)),
            sum(
                x[5],
                times(
                    DT,
                    sum(times(self.d3, x[5], UNIT), times(self.d4, diff(u[0], u[1]), UNIT)),
                    UNIT,
                ),
            ),
        ]
    }
}

impl Belief {
    /// The filter has its shape: the mean has its six numbers and the
    /// covariance six rows of six; the model's noise is a symmetric
    /// matrix; there is a noise variance for each number of a measurement;
    /// `n` counts the numbers of the state, `n_plus` is `n + lambda`, and
    /// the weights are those of the parameters.
    pub open spec fn shaped(self) -> bool {
        &&& self.x.len() == STATES
        &&& is_grid(self.p, STATES as int, STATES as int)
        &&& symmetric(self.q, STATES as int)
        &&& self.r.len() == OUTPUTS
        &&& self.n == STATES * UNIT
        &&& self.n_plus == sum(self.lambda, self.n)
        &&& self.weights == weights_for(self.alpha, self.beta, self.lambda, self.n_plus)
    }

    /// The covariance, scaled by `n + lambda` as for the sigma points, has
    /// a factor. This is how a positive definite covariance shows.
    pub open spec fn sound(self) -> bool {
        factor_of(scaled(self.p, self.n_plus), UNIT).is_some()
    }

    /// The filter is in order: it has its shape, and its covariance is
    /// symmetric and positive definite.
    pub open spec fn wf(self) -> bool {
        &&& self.shaped()
        &&& symmetric(self.p, STATES as int)
        &&& self.sound()
    }

    /// The sigma points of a filter whose covariance has a factor: the
    /// mean, and the mean plus and less each column of the factor of the
    /// covariance, scaled by `n + lambda`.
    pub open spec fn sigmas(self) -> Seq<Seq<i64>> {
        sigma_points_of(self.x, factor_of(scaled(self.p, self.n_plus), UNIT).unwrap())
    }

    /// Sine and cosine of each sigma point's own course.
    pub open spec fn own_courses(self) -> Seq<SinCos> {
        Seq::new(SIGMA_POINTS as nat, |i: int| heading_of(self.sigmas()[i]))
    }

    /// Sine and cosine of the course that each sigma point is stepped on,
    /// given those of each point's own course in `own`; the first point is
    /// the mean. A point whose course is `near` the mean's lies so close
    /// that rounding in a sine would outweigh what parts the two; its
    /// course is the mean's, turned by the small angle between them. A
    /// point further off keeps its own.
    pub open spec fn courses(self, own: Seq<SinCos>) -> Seq<SinCos> {
        Seq::new(
            SIGMA_POINTS as nat,
            |i: int|
                {
                    let d = diff(mid_heading(self.sigmas()[i]), mid_heading(self.x));
                    if near(d) {
                        turned_course(own[0], d)
                    } else {
                        own[i]
                    }
                },
        )
    }

    /// The sigma points after a step of the model, each on its course;
    /// `own` holds sine and cosine of each point's own course.
    pub open spec fn propagated(self, u: Seq<i64>, own: Seq<SinCos>) -> Seq<Seq<i64>> {
        Seq::new(
            SIGMA_POINTS as nat,
            |i: int| self.stepped(self.sigmas()[i], u, self.courses(own)[i]),
        )
    }

    /// The covariance that a prediction under `u` arrives at.
    pub open spec fn predicted_covariance(self, u: Seq<i64>, own: Seq<SinCos>) -> Seq<Seq<i64>> {
        let ys = self.propagated(u, own);
        plus(
            covariance(
                self.weights,
                deviations(ys, mean_of(ys, self.weights.rest)),
                STATES as int,
            ),
            self.q,
        )
    }

    /// Whether a prediction under `u` goes through: the covariance must
    /// be positive definite, and so must the one that the prediction
    /// arrives at.
    pub open spec fn predictable(self, u: Seq<i64>, own: Seq<SinCos>) -> bool {
        &&& self.sound()
        &&& factor_of(scaled(self.predicted_covariance(u, own), self.n_plus), UNIT).is_some()
    }

    /// The filter after a prediction under `u`: mean and covariance of the
    /// propagated sigma points, with the model's noise on top; unchanged
    /// where the prediction does not go through.
    pub open spec fn predicted(self, u: Seq<i64>, own: Seq<SinCos>) -> Belief {
        if self.predictable(u, own) {
            Belief {
                x: mean_of(self.propagated(u, own), self.weights.rest),
                p: self.predicted_covariance(u, own),
                ..self
            }
        } else {
            self
        }
    }
}

impl Belief {
    /// What the sensors would report at each sigma point.
    pub open spec fn expected(self) -> Seq<Seq<i64>> {
        Seq::new(SIGMA_POINTS as nat, |i: int| measured(self.sigmas()[i]))
    }

    /// How far each expected measurement lies from their mean.
    pub open spec fn measurement_deviations(self) -> Seq<Seq<i64>> {
        deviations(self.expected(), mean_of(self.expected(), self.weights.rest))
    }

    /// The covariance of the innovation: that of the expected
    /// measurements, with the sensors' noise on the diagonal.
    pub open spec fn innovation_covariance(self) -> Seq<Seq<i64>> {
        plus(
            covariance(self.weights, self.measurement_deviations(), OUTPUTS as int),
            diagonal(self.r),
        )
    }

    /// The covariance between state and measurement.
    pub open spec fn cross_covariance(self) -> Seq<Seq<i64>> {
        cross(
            self.weights,
            deviations(self.sigmas(), self.x),
            self.measurement_deviations(),
            STATES as int,
            OUTPUTS as int,
        )
    }

    /// The Kalman gain: the cross covariance times the inverse of the
    /// innovation covariance, row by row, from the latter's factor `l`.
    pub open spec fn gain(self, l: Seq<Seq<i64>>) -> Seq<Seq<i64>> {
        Seq::new(STATES as nat, |r: int| solved(l, self.cross_covariance()[r], UNIT))
    }

    /// The mean, moved by the gain times the innovation: what was
    /// measured less what was expected.
    pub open spec fn corrected_mean(self, z: Seq<i64>, k: Seq<Seq<i64>>) -> Seq<i64> {
        let expected = mean_of(self.expected(), self.weights.rest);
        let innovation = Seq::new(OUTPUTS as nat, |j: int| diff(z[j], expected[j]));
        Seq::new(STATES as nat, |r: int| sum(self.x[r], dot(k[r], innovation, OUTPUTS as int, UNIT)))
    }

    /// The covariance, less the gain times the transposed cross
    /// covariance. The upper triangle is computed and the lower one copied
    /// from it.
    pub open spec fn corrected_covariance(self, k: Seq<Seq<i64>>) -> Seq<Seq<i64>> {
        let pxz = self.cross_covariance();
        Seq::new(
            STATES as nat,
            |r: int|
                Seq::new(
                    STATES as nat,
                    |c: int|
                        if r <= c {
                            diff(self.p[r][c], dot(pxz[r], k[c], OUTPUTS as int, UNIT))
                        } else {
                            diff(self.p[c][r], dot(pxz[c], k[r], OUTPUTS as int, UNIT))
                        },
                ),
        )
    }

    /// Whether a correction by a measurement goes through: the covariance
    /// must be positive definite; the innovation covariance must have a
    /// factor, which makes it invertible; and the covariance that the
    /// correction arrives at must be positive definite.
    pub open spec fn updatable(self) -> bool {
        self.sound() && match factor_of(self.innovation_covariance(), UNIT) {
            Some(l) => factor_of(
                scaled(self.corrected_covariance(self.gain(l)), self.n_plus),
                UNIT,
            ).is_some(),
            None => false,
        }
    }

    /// The filter after a correction by the measurement `z`; unchanged
    /// where the correction does not go through.
    pub open spec fn updated(self, z: Seq<i64>) -> Belief {
        if self.updatable() {
            let k = self.gain(factor_of(self.innovation_covariance(), UNIT).unwrap());
            Belief { x: self.corrected_mean(z, k), p: self.corrected_covariance(k), ..self }
        } else {
            self
        }
    }

    /// The filter in which a robot starts at the state `x`, with sensors
    /// whose noise has the variances `r`: the parameters, the model's
    /// constants from the robot's physics, and the covariance and noise
    /// that a robot at rest begins with.
    pub open spec fn initial(x: Seq<i64>, r: Seq<i64>) -> Belief {
        let n = sat_count(STATES);
        let lambda = diff(times(times(ALPHA, ALPHA, UNIT), diff(n, KAPPA), UNIT), n);
        let n_plus = sum(lambda, n);
        let wheel_square = times(WHEEL_RADIUS, WHEEL_RADIUS, UNIT);
        let c1 = diff(
            0,
            over(
                times(times(times(GEARING, GEARING, UNIT), KT, UNIT), MOTORS, UNIT),
                times(times(KV, RESISTANCE, UNIT), wheel_square, UNIT),
                UNIT,
            ),
        );
        let c2 = over(
            times(times(GEARING, KT, UNIT), MOTORS, UNIT),
            times(RESISTANCE, WHEEL_RADIUS, UNIT),
            UNIT,
        );
        Belief {
            alpha: ALPHA,
            beta: BETA,
            lambda,
            n,
            n_plus,
            x,
            p: diagonal(first_variances()),
            q: diagonal(step_variances()),
            r,
            d1: over(times(TWO, c1, UNIT), MASS, UNIT),
            d2: over(c2, MASS, UNIT),
            d3: over(
                times(times(TWO, times(ROBOT_RADIUS, ROBOT_RADIUS, UNIT), UNIT), c1, UNIT),
                INERTIA,
                UNIT,
            ),
            d4: over(times(ROBOT_RADIUS, c2, UNIT), INERTIA, UNIT),
            weights: weights_for(ALPHA, BETA, lambda, n_plus),
        }
    }
}

/// The count `n` as a number.
pub open spec fn sat_count(n: usize) -> i64 {
    times((n as i64), UNIT, 1)
}

/// The variances that a filter begins with: a third of a meter for the
/// position, a degree for the heading, a tenth for each velocity, all
/// squared.
pub open spec fn first_variances() -> Seq<i64> {
    seq![
        times(330_000_000_000, 330_000_000_000, UNIT),
        times(330_000_000_000, 330_000_000_000, UNIT),
        times(17_450_000_000, 17_450_000_000, UNIT),
        times(100_000_000_000, 100_000_000_000, UNIT),
        times(100_000_000_000, 100_000_000_000, UNIT),
        times(100_000_000_000, 100_000_000_000, UNIT),
    ]
}

/// The variances of the noise that a step of the model adds.
pub open spec fn step_variances() -> Seq<i64> {
    seq![
        430_000i64,
        430_000i64,
        51_000i64,
        times(10_000_000_000, 10_000_000_000, UNIT),
        times(10_000_000_000, 10_000_000_000, UNIT),
        times(10_000_000_000, 10_000_000_000, UNIT),
    ]
}

/// What the sensors would report in the state `x`: position and heading
/// for the first sensor, the whole state for the second.
pub open spec fn measured(x: Seq<i64>) -> Seq<i64> {
    seq![x[0], x[1], x[2], x[0], x[1], x[2], x[3], x[4], x[5]]
}

impl Ukf {
    /// The weights that belong to the filter's parameters.
    pub fn weights(&self) -> (w: Weights)
        ensures
            w == weights_for(self.alpha, self.beta, self.lambda, self.n_plus),
    {
        let mean0: i64 = fx_over(self.lambda, self.n_plus, UNIT);
        Weights {
            mean0,
            cov0: fx_sum(
                mean0,
                fx_sum(fx_diff(UNIT, fx_times(self.alpha, self.alpha, UNIT)), self.beta),
            ),
            rest: fx_over(UNIT, fx_times(TWO, self.n_plus, UNIT), UNIT),
        }
    }

    /// Sets the weights to those that belong to the filter's parameters.
    pub fn set_weights(&mut self)
        ensures
            final(self)@ == (Belief {
                weights: weights_for(
                    old(self).alpha,
                    old(self).beta,
                    old(self).lambda,
                    old(self).n_plus,
                ),
                ..old(self)@
            }),
    {
        self.weights = self.weights();
    }

    /// One step of the model from the state `x` under the input `u`, with
    /// the sine and cosine of the heading halfway through the step.
    pub fn f(&self, x: &Vec<i64>, u: &Vec<i64>, course: SinCos) -> (next: Vec<i64>)
        requires
            x@.len() == STATES,
            u@.len() == INPUTS,
        ensures
            next@ == self@.stepped(x@, u@, course),
    {
        let mut next: Vec<i64> = Vec::new();
        next.push(
            fx_sum(
                x[0],
                fx_times(
                    DT,
                    fx_sum(fx_times(x[3], course.cos, UNIT), fx_times(x[4], course.sin, UNIT)),
                    UNIT,
                ),
            ),
        );
        next.push(
            fx_sum(
                x[1],
                fx_times(
                    DT,
                    fx_diff(fx_times(x[3], course.sin, UNIT), fx_times(x[4], course.cos, UNIT)),
                    UNIT,
                ),
            ),
        );
        next.push(fx_sum(x[2], fx_times(DT, x[5], UNIT)));
        next.push(
            fx_sum(
                x[3],
                fx_times(
                    DT,
                    fx_sum(
                        fx_times(self.d1, x[3], UNIT),
                        fx_times(self.d2, fx_sum(u[0], u[1]), UNIT),
                    ),
                    UNIT,
                ),
            ),
        );
        next.push(fx_sum(x[4], fx_times(fx_times(DT, self.d1, UNIT), x[4], UNIT)));
        next.push(
            fx_sum(
                x[5],
                fx_times(
                    DT,
                    fx_sum(
                        fx_times(self.d3, x[5], UNIT),
                        fx_times(self.d4, fx_diff(u[0], u[1]), UNIT),
                    ),
                    UNIT,
                ),
            ),
        );
        assert(next@ =~= self@.stepped(x@, u@, course));
        next
    }

    /// The sigma points around the mean; none where the covariance is not
    /// positive definite.
    pub fn sigma_points(&self) -> (points: Option<Vec<Vec<i64>>>)
        requires
            self@.shaped(),
        ensures
            match points {
                Some(s) => self@.sound() && grid(s) == self@.sigmas() && is_grid(
                    grid(s),
                    SIGMA_POINTS as int,
                    STATES as int,
                ),
                None => !self@.sound(),
            },
    {
        let spread: Vec<Vec<i64>> = scale(&self.p, self.n_plus);
        proof {
            lemma_scaled_keeps_shape(grid(self.p), self.n_plus, STATES as int);
        }
        match factor(&spread, UNIT) {
            Some(l) => Some(spread_points(&self.x, &l)),
            None => None,
        }
    }

    /// Takes the filter from its sigma points one step of the model on.
    fn advance(&mut self, sigmas: &Vec<Vec<i64>>, u: &Vec<i64>, own: &Vec<SinCos>) -> (advanced:
        bool)
        requires
            old(self)@.shaped(),
            old(self)@.sound(),
            grid(*sigmas) == old(self)@.sigmas(),
            is_grid(grid(*sigmas), SIGMA_POINTS as int, STATES as int),
            u@.len() == INPUTS,
            own@.len() == SIGMA_POINTS,
        ensures
            final(self)@ == old(self)@.predicted(u@, own@),
            advanced == old(self)@.predictable(u@, own@),
            final(self)@.shaped(),
            advanced ==> final(self)@.wf(),
            old(self)@.wf() ==> final(self)@.wf(),
    {
        let mid: i64 = mid_course(&self.x);
        let mut propagated: Vec<Vec<i64>> = Vec::new();
        let mut i: usize = 0;
        while i < SIGMA_POINTS
            invariant
                i <= SIGMA_POINTS,
                u@.len() == INPUTS,
                own@.len() == SIGMA_POINTS,
                self@.shaped(),
                mid == mid_heading(self@.x),
                grid(*sigmas) == self@.sigmas(),
                is_grid(grid(*sigmas), SIGMA_POINTS as int, STATES as int),
                propagated@.len() == i,
                forall|a: int|
                    0 <= a < i ==> (#[trigger] propagated@[a])@ == self@.propagated(u@, own@)[a],
            decreases SIGMA_POINTS - i,
        {
            assert(grid(*sigmas)[i as int] == sigmas@[i as int]@);
            let d: i64 = fx_diff(mid_course(&sigmas[i]), mid);
            let course: SinCos = if -NEAR <= d && d <= NEAR {
                turn_course(own[0], d)
            } else {
                own[i]
            };
            propagated.push(self.f(&sigmas[i], u, course));
            i = i + 1;
        }
        assert(grid(propagated) =~= self@.propagated(u@, own@));
        proof {
            lemma_stepped_keeps_shape(self@, u@, own@);
        }
        let x_pred: Vec<i64> = mean(&propagated, self.weights.rest, STATES);
        let deviations: Vec<Vec<i64>> = deviate(&propagated, &x_pred);
        let spread: Vec<Vec<i64>> = covariance_of(self.weights, &deviations, STATES);
        proof {
            lemma_rows_wide(spread, STATES as int);
            lemma_rows_wide(self.q, STATES as int);
        }
        let p_pred: Vec<Vec<i64>> = matrix_sum(&spread, &self.q);
        proof {
            lemma_plus_keeps_symmetry(grid(spread), grid(self.q), STATES as int);
            lemma_scaled_keeps_shape(grid(p_pred), self.n_plus, STATES as int);
        }
        let check: Vec<Vec<i64>> = scale(&p_pred, self.n_plus);
        match factor(&check, UNIT) {
            Some(_) => {
                self.x = x_pred;
                self.p = p_pred;
                true
            },
            None => false,
        }
    }

    /// Takes the filter one step of the model on, under the voltages `u`
    /// of the left and right side, with the sine and cosine of each sigma
    /// point's own course. The step is left out, and `false` returned,
    /// where the covariance is not positive definite, before the step or
    /// after it.
    pub fn predict_with(&mut self, u: &Vec<i64>, own: &Vec<SinCos>) -> (advanced: bool)
        requires
            old(self)@.shaped(),
            u@.len() == INPUTS,
            own@.len() == SIGMA_POINTS,
        ensures
            final(self)@ == old(self)@.predicted(u@, own@),
            advanced == old(self)@.predictable(u@, own@),
            final(self)@.shaped(),
            advanced ==> final(self)@.wf(),
            old(self)@.wf() ==> final(self)@.wf(),
    {
        match self.sigma_points() {
            Some(sigmas) => self.advance(&sigmas, u, own),
            None => false,
        }
    }

    /// Takes the filter one step of the model on, under the voltages `u`
    /// of the left and right side. The step is left out, and `false`
    /// returned, where the covariance is not positive definite, before the
    /// step or after it.
    pub fn predict(&mut self, u: &Vec<i64>) -> (advanced: bool)
        requires
            old(self)@.shaped(),
            u@.len() == INPUTS,
        ensures
            final(self)@ == old(self)@.predicted(u@, old(self)@.own_courses()),
            advanced == old(self)@.predictable(u@, old(self)@.own_courses()),
            final(self)@.shaped(),
            advanced ==> final(self)@.wf(),
            old(self)@.wf() ==> final(self)@.wf(),
    {
        match self.sigma_points() {
            Some(sigmas) => {
                let mut own: Vec<SinCos> = Vec::new();
                let mut i: usize = 0;
                while i < SIGMA_POINTS
                    invariant
                        i <= SIGMA_POINTS,
                        grid(sigmas) == self@.sigmas(),
                        is_grid(grid(sigmas), SIGMA_POINTS as int, STATES as int),
                        own@.len() == i,
                        forall|a: int|
                            0 <= a < i ==> #[trigger] own@[a] == self@.own_courses()[a],
                    decreases SIGMA_POINTS - i,
                {
                    assert(grid(sigmas)[i as int] == sigmas@[i as int]@);
                    own.push(heading(&sigmas[i]));
                    i = i + 1;
                }
                assert(own@ =~= self@.own_courses());
                self.advance(&sigmas, u, &own)
            },
            None => false,
        }
    }

    /// The filter in which a robot starts at the state `x`, with sensors
    /// whose noise has the variances `r`. None where `x` has not six
    /// numbers or `r` not nine.
    pub fn new(x: Vec<i64>, r: Vec<i64>) -> (filter: Option<Self>)
        ensures
            filter.is_some() <==> x@.len() == STATES && r@.len() == OUTPUTS,
            filter.is_some() ==> filter.unwrap()@ == Belief::initial(x@, r@) && filter.unwrap()@.wf(),
    {
        if x.len() != STATES || r.len() != OUTPUTS {
            return None;
        }
        let n: i64 = fx_times(STATES as i64, UNIT, 1);
        let lambda: i64 = fx_diff(
            fx_times(fx_times(ALPHA, ALPHA, UNIT), fx_diff(n, KAPPA), UNIT),
            n,
        );
        let n_plus: i64 = fx_sum(lambda, n);
        let wheel_square: i64 = fx_times(WHEEL_RADIUS, WHEEL_RADIUS, UNIT);
        let c1: i64 = fx_diff(
            0,
            fx_over(
                fx_times(fx_times(fx_times(GEARING, GEARING, UNIT), KT, UNIT), MOTORS, UNIT),
                fx_times(fx_times(KV, RESISTANCE, UNIT), wheel_square, UNIT),
                UNIT,
            ),
        );
        let c2: i64 = fx_over(
            fx_times(fx_times(GEARING, KT, UNIT), MOTORS, UNIT),
            fx_times(RESISTANCE, WHEEL_RADIUS, UNIT),
            UNIT,
        );
        let mut first: Vec<i64> = Vec::new();
        first.push(fx_times(330_000_000_000, 330_000_000_000, UNIT));
        first.push(fx_times(330_000_000_000, 330_000_000_000, UNIT));
        first.push(fx_times(17_450_000_000, 17_450_000_000, UNIT));
        first.push(fx_times(100_000_000_000, 100_000_000_000, UNIT));
        first.push(fx_times(100_000_000_000, 100_000_000_000, UNIT));
        first.push(fx_times(100_000_000_000, 100_000_000_000, UNIT));
        assert(first@ =~= first_variances());
        let mut step: Vec<i64> = Vec::new();
        step.push(430_000);
        step.push(430_000);
        step.push(51_000);
        step.push(fx_times(10_000_000_000, 10_000_000_000, UNIT));
        step.push(fx_times(10_000_000_000, 10_000_000_000, UNIT));
        step.push(fx_times(10_000_000_000, 10_000_000_000, UNIT));
        assert(step@ =~= step_variances());
        let mut filter = Ukf {
            alpha: ALPHA,
            beta: BETA,
            lambda,
            n,
            n_plus,
            x,
            p: diagonal_of(&first),
            q: diagonal_of(&step),
            r,
            d1: fx_over(fx_times(TWO, c1, UNIT), MASS, UNIT),
            d2: fx_over(c2, MASS, UNIT),
            d3: fx_over(
                fx_times(
                    fx_times(TWO, fx_times(ROBOT_RADIUS, ROBOT_RADIUS, UNIT), UNIT),
                    c1,
                    UNIT,
                ),
                INERTIA,
                UNIT,
            ),
            d4: fx_over(fx_times(ROBOT_RADIUS, c2, UNIT), INERTIA, UNIT),
            weights: Weights { mean0: 0, cov0: 0, rest: 0 },
        };
        filter.set_weights();
        proof {
            lemma_first_covariance_has_factor();
            assert(n_plus == 6_000_000);
        }
        Some(filter)
    }

    /// The pose that the filter holds the robot to be at, in the units of
    /// the rest of the library: inches, and steps of a millionth.
    pub fn pose(&self) -> (pose: Pose)
        requires
            self@.shaped(),
        ensures
            pose == (Pose {
                x: Length(ratio(times(self@.x[0], INCHES_PER_METER, UNIT), 1, FINER)),
                y: Length(ratio(times(self@.x[1], INCHES_PER_METER, UNIT), 1, FINER)),
                h: Angle(ratio(self@.x[2], 1, FINER)),
                vf: ratio(times(self@.x[3], INCHES_PER_METER, UNIT), 1, FINER),
                vs: ratio(times(self@.x[4], INCHES_PER_METER, UNIT), 1, FINER),
                omega: ratio(self@.x[5], 1, FINER),
            }),
    {
        Pose {
            x: Length(fx_ratio(fx_times(self.x[0], INCHES_PER_METER, UNIT), 1, FINER)),
            y: Length(fx_ratio(fx_times(self.x[1], INCHES_PER_METER, UNIT), 1, FINER)),
            h: Angle(fx_ratio(self.x[2], 1, FINER)),
            vf: fx_ratio(fx_times(self.x[3], INCHES_PER_METER, UNIT), 1, FINER),
            vs: fx_ratio(fx_times(self.x[4], INCHES_PER_METER, UNIT), 1, FINER),
            omega: fx_ratio(self.x[5], 1, FINER),
        }
    }

    /// The state that stands for a pose: meters, and steps of a
    /// trillionth.
    pub fn state_of(pose: Pose) -> (x: Vec<i64>)
        ensures
            x@ == seq![
                times(over(pose.x.0, INCHES_PER_METER, UNIT), FINER, 1),
                times(over(pose.y.0, INCHES_PER_METER, UNIT), FINER, 1),
                times(pose.h.0, FINER, 1),
                times(over(pose.vf, INCHES_PER_METER, UNIT), FINER, 1),
                times(over(pose.vs, INCHES_PER_METER, UNIT), FINER, 1),
                times(pose.omega, FINER, 1),
            ],
    {
        let mut x: Vec<i64> = Vec::new();
        x.push(fx_times(fx_over(pose.x.0, INCHES_PER_METER, UNIT), FINER, 1));
        x.push(fx_times(fx_over(pose.y.0, INCHES_PER_METER, UNIT), FINER, 1));
        x.push(fx_times(pose.h.0, FINER, 1));
        x.push(fx_times(fx_over(pose.vf, INCHES_PER_METER, UNIT), FINER, 1));
        x.push(fx_times(fx_over(pose.vs, INCHES_PER_METER, UNIT), FINER, 1));
        x.push(fx_times(pose.omega, FINER, 1));
        x
    }

    /// Corrects the filter by the measurement `z`. The correction is left
    /// out, and `false` returned, where the covariance is not positive
    /// definite, before the correction or after it, or the innovation
    /// covariance is not invertible.
    pub fn update(&mut self, z_meas: &Vec<i64>) -> (corrected: bool)
        requires
            old(self)@.shaped(),
            z_meas@.len() == OUTPUTS,
        ensures
            final(self)@ == old(self)@.updated(z_meas@),
            corrected == old(self)@.updatable(),
            final(self)@.shaped(),
            corrected ==> final(self)@.wf(),
            old(self)@.wf() ==> final(self)@.wf(),
    {
        let sigma_points: Vec<Vec<i64>> = match self.sigma_points() {
            Some(points) => points,
            None => {
                return false;
            },
        };
        let mut z_sigma: Vec<Vec<i64>> = Vec::new();
        let mut i: usize = 0;
        while i < SIGMA_POINTS
            invariant
                i <= SIGMA_POINTS,
                grid(sigma_points) == self@.sigmas(),
                is_grid(grid(sigma_points), SIGMA_POINTS as int, STATES as int),
                z_sigma@.len() == i,
                forall|a: int| 0 <= a < i ==> (#[trigger] z_sigma@[a])@ == self@.expected()[a],
            decreases SIGMA_POINTS - i,
        {
            assert(grid(sigma_points)[i as int] == sigma_points@[i as int]@);
            z_sigma.push(Self::h(&sigma_points[i]));
            i = i + 1;
        }
        assert(grid(z_sigma) =~= self@.expected());
        assert(is_grid(self@.expected(), SIGMA_POINTS as int, OUTPUTS as int));
        let z_pred: Vec<i64> = mean(&z_sigma, self.weights.rest, OUTPUTS);
        let dz: Vec<Vec<i64>> = deviate(&z_sigma, &z_pred);
        let dx: Vec<Vec<i64>> = deviate(&sigma_points, &self.x);
        let spread: Vec<Vec<i64>> = covariance_of(self.weights, &dz, OUTPUTS);
        let noise: Vec<Vec<i64>> = diagonal_of(&self.r);
        proof {
            lemma_rows_wide(spread, OUTPUTS as int);
            lemma_rows_wide(noise, OUTPUTS as int);
        }
        let s: Vec<Vec<i64>> = matrix_sum(&spread, &noise);
        let pxz: Vec<Vec<i64>> = cross_of(self.weights, &dx, &dz, STATES, OUTPUTS);
        proof {
            lemma_plus_keeps_symmetry(grid(spread), grid(noise), OUTPUTS as int);
            lemma_rows_wide(pxz, OUTPUTS as int);
        }
        let l: Vec<Vec<i64>> = match factor(&s, UNIT) {
            Some(l) => l,
            None => {
                return false;
            },
        };
        let mut k: Vec<Vec<i64>> = Vec::new();
        let mut r: usize = 0;
        while r < STATES
            invariant
                r <= STATES,
                is_triangle(grid(l), OUTPUTS as int),
                l@.len() == OUTPUTS,
                pxz@.len() == STATES,
                forall|i: int| 0 <= i < pxz@.len() ==> (#[trigger] pxz@[i])@.len() == OUTPUTS,
                grid(pxz) == self@.cross_covariance(),
                k@.len() == r,
                forall|a: int| 0 <= a < r ==> (#[trigger] k@[a])@ == self@.gain(grid(l))[a],
                forall|a: int| 0 <= a < r ==> (#[trigger] k@[a])@.len() == OUTPUTS,
            decreases STATES - r,
        {
            assert(grid(pxz)[r as int] == pxz@[r as int]@);
            k.push(solve(&l, &pxz[r], UNIT));
            r = r + 1;
        }
        assert(grid(k) =~= self@.gain(grid(l)));
        let mut innovation: Vec<i64> = Vec::new();
        let mut j: usize = 0;
        while j < OUTPUTS
            invariant
                j <= OUTPUTS,
                z_meas@.len() == OUTPUTS,
                z_pred@.len() == OUTPUTS,
                innovation@.len() == j,
                forall|b: int| 0 <= b < j ==> #[trigger] innovation@[b] == diff(z_meas@[b], z_pred@[b]),
            decreases OUTPUTS - j,
        {
            innovation.push(fx_diff(z_meas[j], z_pred[j]));
            j = j + 1;
        }
        assert(innovation@ =~= Seq::new(
            OUTPUTS as nat,
            |j: int| diff(z_meas@[j], mean_of(self@.expected(), self.weights.rest)[j]),
        ));
        let mut x_new: Vec<i64> = Vec::new();
        let mut p_new: Vec<Vec<i64>> = Vec::new();
        let mut r: usize = 0;
        while r < STATES
            invariant
                r <= STATES,
                self@.shaped(),
                k@.len() == STATES,
                forall|a: int| 0 <= a < STATES ==> (#[trigger] k@[a])@.len() == OUTPUTS,
                grid(k) == self@.gain(grid(l)),
                pxz@.len() == STATES,
                forall|i: int| 0 <= i < pxz@.len() ==> (#[trigger] pxz@[i])@.len() == OUTPUTS,
                grid(pxz) == self@.cross_covariance(),
                innovation@.len() == OUTPUTS,
                innovation@ == Seq::new(
                    OUTPUTS as nat,
                    |j: int| diff(z_meas@[j], mean_of(self@.expected(), self.weights.rest)[j]),
                ),
                x_new@.len() == r,
                p_new@.len() == r,
                forall|a: int|
                    0 <= a < r ==> #[trigger] x_new@[a] == self@.corrected_mean(z_meas@, grid(k))[a],
                forall|a: int|
                    0 <= a < r ==> (#[trigger] p_new@[a])@ == self@.corrected_covariance(
                        grid(k),
                    )[a],
            decreases STATES - r,
        {
            assert(grid(k)[r as int] == k@[r as int]@);
            x_new.push(fx_sum(self.x[r], dot_of(&k[r], &innovation, OUTPUTS, UNIT)));
            let mut row: Vec<i64> = Vec::new();
            let mut c: usize = 0;
            while c < STATES
                invariant
                    r < STATES,
                    c <= STATES,
                    self@.shaped(),
                    k@.len() == STATES,
                    forall|a: int| 0 <= a < STATES ==> (#[trigger] k@[a])@.len() == OUTPUTS,
                    pxz@.len() == STATES,
                    forall|i: int| 0 <= i < pxz@.len() ==> (#[trigger] pxz@[i])@.len() == OUTPUTS,
                    grid(pxz) == self@.cross_covariance(),
                    row@.len() == c,
                    forall|b: int|
                        0 <= b < c ==> #[trigger] row@[b] == self@.corrected_covariance(
                            grid(k),
                        )[r as int][b],
                decreases STATES - c,
            {
                assert(grid(k)[c as int] == k@[c as int]@);
                assert(grid(k)[r as int] == k@[r as int]@);
                assert(grid(pxz)[c as int] == pxz@[c as int]@);
                assert(grid(pxz)[r as int] == pxz@[r as int]@);
                assert(grid(self.p)[c as int] == self.p@[c as int]@);
                assert(grid(self.p)[r as int] == self.p@[r as int]@);
                row.push(
                    if r <= c {
                        fx_diff(self.p[r][c], dot_of(&pxz[r], &k[c], OUTPUTS, UNIT))
                    } else {
                        fx_diff(self.p[c][r], dot_of(&pxz[c], &k[r], OUTPUTS, UNIT))
                    },
                );
                c = c + 1;
            }
            assert(row@ =~= self@.corrected_covariance(grid(k))[r as int]);
            p_new.push(row);
            r = r + 1;
        }
        assert(x_new@ =~= self@.corrected_mean(z_meas@, grid(k)));
        assert(grid(p_new) =~= self@.corrected_covariance(grid(k)));
        proof {
            lemma_scaled_keeps_shape(grid(p_new), self.n_plus, STATES as int);
        }
        let check: Vec<Vec<i64>> = scale(&p_new, self.n_plus);
        match factor(&check, UNIT) {
            Some(_) => {
                self.x = x_new;
                self.p = p_new;
                true
            },
            None => false,
        }
    }

    /// What the sensors would report in the state `x`.
    pub fn h(x: &Vec<i64>) -> (z: Vec<i64>)
        requires
            x@.len() == STATES,
        ensures
            z@ == measured(x@),
    {
        let mut z: Vec<i64> = Vec::new();
        z.push(x[0]);
        z.push(x[1]);
        z.push(x[2]);
        z.push(x[0]);
        z.push(x[1]);
        z.push(x[2]);
        z.push(x[3]);
        z.push(x[4]);
        z.push(x[5]);
        assert(z@ =~= measured(x@));
        z
    }
}

/// Turns the pair that `idsp::cossin` returned into a sine and cosine in
/// this file's steps.
pub fn from_cossin(pair: (i32, i32)) -> (r: SinCos)
    ensures
        r == sin_cos_from(pair),
{
    SinCos {
        sin: fx_ratio(pair.1 as i64, UNIT, HALF_TURN_PHASE),
        cos: fx_ratio(pair.0 as i64, UNIT, HALF_TURN_PHASE),
    }
}

/// The phase of an angle.
pub fn to_phase(angle: i64) -> (r: i32)
    ensures
        r == phase_of(angle),
{
    let d: i128 = PI as i128 - angle as i128;
    let m: i128 = match d.checked_rem_euclid(TAU as i128) {
        Some(m) => m,
        None => 0,
    };
    let w: i128 = PI as i128 - m;
    if w == PI as i128 {
        i32::MIN
    } else {
        let wide: i128 = w * 0x8000_0000;
        match wide.checked_div_euclid(PI as i128) {
            Some(q) => q as i32,
            None => 0,
        }
    }
}

/// The heading halfway through a step of the model from the state `x`.
pub fn mid_course(x: &Vec<i64>) -> (r: i64)
    requires
        x@.len() == STATES,
    ensures
        r == mid_heading(x@),
{
    fx_sum(x[2], fx_times(fx_times(HALF, x[5], UNIT), DT, UNIT))
}

/// Sine and cosine of the heading halfway through a step from `x`.
pub fn heading(x: &Vec<i64>) -> (r: SinCos)
    requires
        x@.len() == STATES,
    ensures
        r == heading_of(x@),
{
    from_cossin(cossin(to_phase(mid_course(x))))
}

/// Sine and cosine of the angle of `base` plus the small angle `d`.
pub fn turn_course(base: SinCos, d: i64) -> (r: SinCos)
    ensures
        r == turned_course(base, d),
{
    let square: i64 = fx_times(d, d, UNIT);
    let sin: i64 = fx_diff(d, fx_over(fx_times(square, d, UNIT), SIX, UNIT));
    let cos: i64 = fx_sum(
        fx_diff(UNIT, fx_over(square, TWO, UNIT)),
        fx_over(fx_times(square, square, UNIT), TWENTY_FOUR, UNIT),
    );
    SinCos {
        sin: fx_sum(fx_times(base.sin, cos, UNIT), fx_times(base.cos, sin, UNIT)),
        cos: fx_diff(fx_times(base.cos, cos, UNIT), fx_times(base.sin, sin, UNIT)),
    }
}

/// Each propagated sigma point has as many numbers as the state.
pub proof fn lemma_stepped_keeps_shape(b: Belief, u: Seq<i64>, own: Seq<SinCos>)
    ensures
        is_grid(b.propagated(u, own), SIGMA_POINTS as int, STATES as int),
{
}

/// One call on the filter: a prediction under the voltages `u`, with the
/// sines and cosines `own` of the sigma points' courses, or a correction
/// by the measurement `z`.
pub enum Step {
    Predict { u: Seq<i64>, own: Seq<SinCos> },
    Update { z: Seq<i64> },
}

impl Belief {
    /// The filter after one call.
    pub open spec fn after(self, step: Step) -> Belief {
        match step {
            Step::Predict { u, own } => self.predicted(u, own),
            Step::Update { z } => self.updated(z),
        }
    }

    /// The filter after a run of calls.
    pub open spec fn run(self, steps: Seq<Step>) -> Belief
        decreases steps.len(),
    {
        if steps.len() == 0 {
            self
        } else {
            self.run(steps.drop_last()).after(steps.last())
        }
    }
}

/// A prediction leaves the filter in order, whether it goes through or
/// not.
pub proof fn lemma_predicted_in_order(b: Belief, u: Seq<i64>, own: Seq<SinCos>)
    requires
        b.wf(),
    ensures
        b.predicted(u, own).wf(),
{
    if b.predictable(u, own) {
        let ys = b.propagated(u, own);
        let d = deviations(ys, mean_of(ys, b.weights.rest));
        lemma_plus_keeps_symmetry(covariance(b.weights, d, STATES as int), b.q, STATES as int);
    }
}

/// A correction leaves the filter in order, whether it goes through or
/// not.
pub proof fn lemma_updated_in_order(b: Belief, z: Seq<i64>)
    requires
        b.wf(),
    ensures
        b.updated(z).wf(),
{
}

/// After any run of predictions and corrections on a filter in order, the
/// covariance is symmetric and positive definite: it equals its transpose,
/// and, scaled as for the sigma points, it has a factor.
pub proof fn lemma_covariance_stays_sound(b: Belief, steps: Seq<Step>)
    requires
        b.wf(),
    ensures
        b.run(steps).wf(),
        symmetric(b.run(steps).p, STATES as int),
        factor_of(scaled(b.run(steps).p, b.run(steps).n_plus), UNIT).is_some(),
    decreases steps.len(),
{
    if steps.len() > 0 {
        lemma_covariance_stays_sound(b, steps.drop_last());
        let before = b.run(steps.drop_last());
        match steps.last() {
            Step::Predict { u, own } => lemma_predicted_in_order(before, u, own),
            Step::Update { z } => lemma_updated_in_order(before, z),
        }
    }
}

/// The covariance that a filter begins with is positive definite: scaled
/// as for the sigma points, it is a diagonal matrix of positive numbers,
/// which has a factor.
pub proof fn lemma_first_covariance_has_factor()
    ensures
        factor_of(scaled(diagonal(first_variances()), 6_000_000), UNIT).is_some(),
{
    let v = first_variances();
    let d = Seq::new(v.len(), |i: int| times(6_000_000, v[i], UNIT));
    assert(v[0] == 108_900_000_000 && v[1] == 108_900_000_000 && v[2] == 304_502_500 && v[3]
        == 10_000_000_000 && v[4] == 10_000_000_000 && v[5] == 10_000_000_000) by {
        assert(330_000_000_000int * 330_000_000_000 == 108_900_000_000 * 1_000_000_000_000);
        assert(17_450_000_000int * 17_450_000_000 == 304_502_500 * 1_000_000_000_000);
        assert(100_000_000_000int * 100_000_000_000 == 10_000_000_000 * 1_000_000_000_000);
    }
    assert(forall|t: int| 0 <= t < d.len() ==> d[t] > 0) by {
        assert(d[0] == 653_400 && d[1] == 653_400 && d[2] == 1_827 && d[3] == 60_000 && d[4]
            == 60_000 && d[5] == 60_000);
    }
    assert(6_000_000int * 0 == 0);
    assert(scaled(diagonal(v), 6_000_000) =~~= diagonal(d));
    lemma_diagonal_has_factor(d, d.len() as int, UNIT);
}

} // verus!
