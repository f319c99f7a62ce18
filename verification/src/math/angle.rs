//! Angles in radians.

use vstd::prelude::*;
use vstd::std_specs::ops::AddSpecImpl;
use vstd::std_specs::ops::DivSpecImpl;
use vstd::std_specs::ops::MulSpecImpl;
use vstd::std_specs::ops::NegSpecImpl;
use vstd::std_specs::ops::SubSpecImpl;
use crate::math::scalar::{
    abs, diff, fx_abs, fx_diff, fx_neg, fx_prod, fx_quot, fx_ratio, fx_sum, neg, prod, quot, ratio,
    sum,
};

verus! {

/// Half a turn.
pub const PI: i64 = 3_141_593;

/// A full turn: exactly twice `PI`, so that wrapping has a whole period.
pub const TAU: i64 = 6_283_186;

/// Half a turn in degrees.
pub const HALF_TURN_DEGREES: i64 = 180_000_000;

/// The angle in `(-PI, PI]` that differs from `a` by whole turns.
pub open spec fn principal(a: i64) -> i64 {
    (PI - ((PI - a) % (TAU as int))) as i64
}

/// An angle, held in radians.
#[derive(Clone, Copy, Debug, PartialEq, Eq, Structural)]
pub struct Angle(pub i64);

impl Angle {
    pub fn from_radians(radians: i64) -> (r: Self)
        ensures
            r.0 == radians,
    {
        Angle(radians)
    }

    pub fn from_degrees(degrees: i64) -> (r: Self)
        ensures
            r.0 == ratio(degrees, PI, HALF_TURN_DEGREES),
    {
        Angle(fx_ratio(degrees, PI, HALF_TURN_DEGREES))
    }

    pub fn from_revolutions(revolutions: i64) -> (r: Self)
        ensures
            r.0 == prod(revolutions, TAU),
    {
        Angle(fx_prod(revolutions, TAU))
    }

    pub fn as_radians(&self) -> (r: i64)
        ensures
            r == self.0,
    {
        self.0
    }

    pub fn as_degrees(&self) -> (r: i64)
        ensures
            r == ratio(self.0, HALF_TURN_DEGREES, PI),
    {
        fx_ratio(self.0, HALF_TURN_DEGREES, PI)
    }

    pub fn as_revolutions(&self) -> (r: i64)
        ensures
            r == quot(self.0, TAU),
    {
        fx_quot(self.0, TAU)
    }

    /// Reduces the angle to `(-PI, PI]`.
    pub fn wrap(&self) -> (r: Self)
        ensures
            r.0 == principal(self.0),
            -PI < r.0 <= PI,
            (r.0 - self.0) % (TAU as int) == 0,
    {
        let d: i128 = PI as i128 - self.0 as i128;
        let m: i128 = match d.checked_rem_euclid(TAU as i128) {
            Some(m) => m,
            None => 0,
        };
        Angle((PI as i128 - m) as i64)
    }

    pub fn abs(&self) -> (r: Self)
        ensures
            r.0 == abs(self.0),
            r.0 >= 0,
    {
        Angle(fx_abs(self.0))
    }
}

impl Default for Angle {
    fn default() -> (r: Self)
        ensures
            r.0 == 0,
    {
        Angle(0)
    }
}

impl core::ops::Add for Angle {
    type Output = Angle;

    fn add(self, rhs: Angle) -> (r: Angle) {
        Angle(fx_sum(self.0, rhs.0))
    }
}

impl AddSpecImpl for Angle {
    open spec fn obeys_add_spec() -> bool {
        true
    }

    open spec fn add_req(self, rhs: Angle) -> bool {
        true
    }

    open spec fn add_spec(self, rhs: Angle) -> Angle {
        Angle(sum(self.0, rhs.0))
    }
}

impl core::ops::Sub for Angle {
    type Output = Angle;

    fn sub(self, rhs: Angle) -> (r: Angle) {
        Angle(fx_diff(self.0, rhs.0))
    }
}

impl SubSpecImpl for Angle {
    open spec fn obeys_sub_spec() -> bool {
        true
    }

    open spec fn sub_req(self, rhs: Angle) -> bool {
        true
    }

    open spec fn sub_spec(self, rhs: Angle) -> Angle {
        Angle(diff(self.0, rhs.0))
    }
}

impl core::ops::Mul<i64> for Angle {
    type Output = Angle;

    fn mul(self, rhs: i64) -> (r: Angle) {
        Angle(fx_prod(self.0, rhs))
    }
}

impl MulSpecImpl<i64> for Angle {
    open spec fn obeys_mul_spec() -> bool {
        true
    }

    open spec fn mul_req(self, rhs: i64) -> bool {
        true
    }

    open spec fn mul_spec(self, rhs: i64) -> Angle {
        Angle(prod(self.0, rhs))
    }
}

impl core::ops::Div<i64> for Angle {
    type Output = Angle;

    fn div(self, rhs: i64) -> (r: Angle) {
        Angle(fx_quot(self.0, rhs))
    }
}

impl DivSpecImpl<i64> for Angle {
    open spec fn obeys_div_spec() -> bool {
        true
    }

    open spec fn div_req(self, rhs: i64) -> bool {
        true
    }

    open spec fn div_spec(self, rhs: i64) -> Angle {
        Angle(quot(self.0, rhs))
    }
}

impl core::ops::Neg for Angle {
    type Output = Angle;

    fn neg(self) -> (r: Angle) {
        Angle(fx_neg(self.0))
    }
}

impl NegSpecImpl for Angle {
    open spec fn obeys_neg_spec() -> bool {
        true
    }

    open spec fn neg_req(self) -> bool {
        true
    }

    open spec fn neg_spec(self) -> Angle {
        Angle(neg(self.0))
    }
}

/// Numbers that can be read as angles.
pub trait IntoAngle {
    /// The number as degrees.
    fn deg(self) -> Angle;

    /// The number as radians.
    fn rad(self) -> Angle;
}

impl IntoAngle for i64 {
    fn deg(self) -> (r: Angle)
        ensures
            r.0 == ratio(self, PI, HALF_TURN_DEGREES),
    {
        Angle::from_degrees(self)
    }

    fn rad(self) -> (r: Angle)
        ensures
            r.0 == self,
    {
        Angle::from_radians(self)
    }
}

/// Wrapping twice is wrapping once, and a wrapped angle lies in `(-PI, PI]`.
pub proof fn lemma_wrap_idempotent(a: i64)
    ensures
        -PI < principal(a) <= PI,
        principal(principal(a)) == principal(a),
{
}

/// Angles a whole number of turns apart wrap to the same angle.
pub proof fn lemma_wrap_periodic(a: i64, b: i64)
    requires
        (a - b) % (TAU as int) == 0,
    ensures
        principal(a) == principal(b),
{
}

} // verus!
