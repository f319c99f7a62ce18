//! The drivetrain: voltage limits, input mixing and the pose it reports.

use vstd::prelude::*;
use crate::math::angle::TAU;
use crate::math::scalar::{
    abs, clamp, diff, fx_abs, fx_clamp, fx_diff, fx_prod, fx_quot, fx_sum, prod, quot, sum, SCALE,
};
use crate::motion::MAX_VOLTAGE;
use crate::pose::odometry::Odometry;
use crate::pose::{Pose, Vec2};

verus! {

/// Seconds in a minute.
pub const SECONDS_PER_MINUTE: i64 = 60_000_000;

/// The number two.
pub const TWO: i64 = 2_000_000;

/// Degree of the curve that shapes the turn axis of arcade drive.
pub const TURN_CURVE: i32 = 2;

/// How the operator's two sticks are read. Each stick is a vector whose
/// coordinates run from minus one to one.
#[derive(Clone, Copy, Debug, PartialEq, Eq)]
pub enum DriveMode {
    /// One stick's y axis drives, the other's x axis turns.
    Arcade { power: Vec2<i64>, turn: Vec2<i64> },
    /// Each stick's y axis drives one side.
    Tank { left: Vec2<i64>, right: Vec2<i64> },
}

/// A voltage held to what a motor takes.
pub open spec fn limited(voltage: i64) -> i64 {
    clamp(voltage, (-MAX_VOLTAGE) as i64, MAX_VOLTAGE)
}

/// Left and right share of a forward command and a turn command: the turn
/// is added on the left and taken off on the right, so that a positive
/// turn steers clockwise.
pub open spec fn mixed(power: i64, turn: i64) -> (i64, i64) {
    (sum(power, turn), diff(power, turn))
}

/// `base` raised to the power `n`.
pub open spec fn power_of(base: i64, n: nat) -> i64
    decreases n,
{
    if n == 0 {
        SCALE
    } else {
        prod(power_of(base, (n - 1) as nat), base)
    }
}

/// `power` shaped by the odd curve of degree `acceleration`, which leaves
/// the sign and the ends of the range alone and flattens the middle. A
/// degree below two leaves `power` as it is.
pub open spec fn curved(power: i64, acceleration: i32) -> i64 {
    if acceleration <= 1 {
        power
    } else {
        prod(
            power_of(power, (acceleration - 1) as nat),
            if acceleration % 2 == 0 {
                abs(power)
            } else {
                power
            },
        )
    }
}

/// Voltages for the left and right side that a reading of the sticks
/// asks for, before any limit.
pub open spec fn stick_voltages(drive_mode: DriveMode) -> (i64, i64) {
    match drive_mode {
        DriveMode::Arcade { power, turn } => {
            let sides = mixed(power.y, curved(turn.x, TURN_CURVE));
            (prod(sides.0, MAX_VOLTAGE), prod(sides.1, MAX_VOLTAGE))
        },
        DriveMode::Tank { left, right } => (prod(left.y, MAX_VOLTAGE), prod(right.y, MAX_VOLTAGE)),
    }
}

/// The robot's base: its pose estimate, its geometry and the voltages it
/// was last told to hold.
#[derive(Clone, Copy, Debug, PartialEq, Eq, Structural)]
pub struct Drivetrain {
    pub odometry: Odometry,
    /// Wheel radius.
    pub r: i64,
    /// Distance between the left and the right wheels.
    pub track: i64,
    pub left: i64,
    pub right: i64,
}

impl Drivetrain {
    pub fn new(odometry: Odometry, r: i64, track: i64) -> (d: Self)
        ensures
            d == (Drivetrain { odometry, r, track, left: 0, right: 0 }),
    {
        Drivetrain { odometry, r, track, left: 0, right: 0 }
    }

    /// Takes the voltages for both sides, held to what a motor takes, and
    /// hands back what to write to the motors.
    pub fn set_voltages(&mut self, left: i64, right: i64) -> (written: (i64, i64))
        ensures
            written == (limited(left), limited(right)),
            *final(self) == (Drivetrain { left: limited(left), right: limited(right), ..*old(self) }),
    {
        self.left = limit(left);
        self.right = limit(right);
        (self.left, self.right)
    }

    pub fn get_voltages(&self) -> (v: [i64; 2])
        ensures
            v[0] == self.left,
            v[1] == self.right,
    {
        [self.left, self.right]
    }

    /// Forward speed of the robot whose sides turn at the given
    /// revolutions per minute.
    pub fn velocity(&self, left_rpm: i64, right_rpm: i64) -> (v: i64)
        ensures
            v == quot(
                prod(prod(TAU, self.r), quot(sum(left_rpm, right_rpm), TWO)),
                SECONDS_PER_MINUTE,
            ),
    {
        let rpm: i64 = fx_quot(fx_sum(left_rpm, right_rpm), TWO);
        fx_quot(fx_prod(fx_prod(TAU, self.r), rpm), SECONDS_PER_MINUTE)
    }

    /// Turning rate of the robot whose sides turn at the given revolutions
    /// per minute: the wheel speeds' sum over the track.
    pub fn angular_velocity(&self, left_rpm: i64, right_rpm: i64) -> (w: i64)
        ensures
            w == quot(
                quot(prod(prod(TAU, self.r), sum(left_rpm, right_rpm)), SECONDS_PER_MINUTE),
                self.track,
            ),
    {
        let vdiff: i64 = fx_quot(
            fx_prod(fx_prod(TAU, self.r), fx_sum(left_rpm, right_rpm)),
            SECONDS_PER_MINUTE,
        );
        fx_quot(vdiff, self.track)
    }

    pub fn get_pose(&self) -> (p: Pose)
        ensures
            p == self.odometry.pose,
    {
        self.odometry.get_pose()
    }

    /// Moves the estimate to `pose`, to anchor it anew between routines.
    pub fn set_pose(&mut self, pose: Pose)
        ensures
            *final(self) == (Drivetrain {
                odometry: Odometry { pose, ..old(self).odometry },
                ..*old(self)
            }),
    {
        self.odometry.set_pose(pose);
    }

    /// Takes the operator's sticks and hands back the voltages to write.
    pub fn drive(&mut self, drive_mode: &DriveMode) -> (written: (i64, i64))
        ensures
            written == (
                limited(stick_voltages(*drive_mode).0),
                limited(stick_voltages(*drive_mode).1),
            ),
            *final(self) == (Drivetrain { left: written.0, right: written.1, ..*old(self) }),
    {
        let sides = differential(drive_mode);
        self.set_voltages(sides.0, sides.1)
    }
}

/// Holds a voltage to what a motor takes.
pub fn limit(voltage: i64) -> (v: i64)
    ensures
        v == limited(voltage),
        -MAX_VOLTAGE <= v <= MAX_VOLTAGE,
{
    fx_clamp(voltage, -MAX_VOLTAGE, MAX_VOLTAGE)
}

/// Splits a forward command and a turn command between the two sides.
pub fn arcade(power: i64, turn: i64) -> (sides: (i64, i64))
    ensures
        sides == mixed(power, turn),
{
    (fx_sum(power, turn), fx_diff(power, turn))
}

/// Shapes `power` by the odd curve of degree `acceleration`.
pub fn apply_curve(power: i64, acceleration: i32) -> (shaped: i64)
    ensures
        shaped == curved(power, acceleration),
{
    if acceleration <= 1 {
        return power;
    }
    let mut raised: i64 = SCALE;
    let mut n: i32 = 0;
    while n < acceleration - 1
        invariant
            0 <= n <= acceleration - 1,
            raised == power_of(power, n as nat),
        decreases acceleration - 1 - n,
    {
        raised = fx_prod(raised, power);
        n = n + 1;
    }
    fx_prod(
        raised,
        if acceleration % 2 == 0 {
            fx_abs(power)
        } else {
            power
        },
    )
}

/// Voltages for the left and right side that a reading of the sticks
/// asks for, before any limit.
pub fn differential(drive_mode: &DriveMode) -> (sides: (i64, i64))
    ensures
        sides == stick_voltages(*drive_mode),
{
    match drive_mode {
        DriveMode::Arcade { power, turn } => {
            let sides = arcade(power.y, apply_curve(turn.x, TURN_CURVE));
            (fx_prod(sides.0, MAX_VOLTAGE), fx_prod(sides.1, MAX_VOLTAGE))
        },
        DriveMode::Tank { left, right } => (
            fx_prod(left.y, MAX_VOLTAGE),
            fx_prod(right.y, MAX_VOLTAGE),
        ),
    }
}

/// The product of two numbers between minus one and one lies between
/// minus one and one, and changes sign with either factor.
proof fn lemma_prod_within_one(a: i64, b: i64)
    requires
        -SCALE <= a <= SCALE,
        -SCALE <= b <= SCALE,
    ensures
        -SCALE <= prod(a, b) <= SCALE,
        prod((-a) as i64, b) == -prod(a, b),
        prod(a, (-b) as i64) == -prod(a, b),
{
    let n = a * b;
    assert(-SCALE * SCALE <= n <= SCALE * SCALE) by (nonlinear_arith)
        requires
            n == a * b,
            -SCALE <= a <= SCALE,
            -SCALE <= b <= SCALE,
    ;
    assert((-a) * b == -n && a * (-b) == -n) by (nonlinear_arith)
        requires
            n == a * b,
    ;
}

/// Powers of a number between minus one and one lie between minus one and
/// one; an even power is the same for a number and its opposite, an odd
/// power the opposite.
proof fn lemma_power_parity(base: i64, n: nat)
    requires
        -SCALE <= base <= SCALE,
    ensures
        -SCALE <= power_of(base, n) <= SCALE,
        n % 2 == 0 ==> power_of((-base) as i64, n) == power_of(base, n),
        n % 2 == 1 ==> power_of((-base) as i64, n) == -power_of(base, n),
    decreases n,
{
    if n > 0 {
        lemma_power_parity(base, (n - 1) as nat);
        let below = power_of(base, (n - 1) as nat);
        lemma_prod_within_one(below, base);
        lemma_prod_within_one((-below) as i64, base);
    }
}

/// The curve is odd and stays within the stick's range: for a stick
/// position between minus one and one, the opposite position is shaped to
/// the opposite value, and the shaped value lies between minus one and
/// one.
pub proof fn lemma_curve_is_odd(power: i64, acceleration: i32)
    requires
        -SCALE <= power <= SCALE,
    ensures
        curved((-power) as i64, acceleration) == -curved(power, acceleration),
        -SCALE <= curved(power, acceleration) <= SCALE,
{
    if acceleration > 1 {
        let n = (acceleration - 1) as nat;
        lemma_power_parity(power, n);
        let raised = power_of(power, n);
        lemma_prod_within_one(raised, power);
        lemma_prod_within_one(raised, abs(power));
        lemma_prod_within_one((-raised) as i64, abs(power));
        lemma_prod_within_one((-raised) as i64, power);
    }
}

} // verus!
