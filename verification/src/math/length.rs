//! Lengths in inches.

use vstd::prelude::*;
use vstd::std_specs::ops::AddSpecImpl;
use vstd::std_specs::ops::DivSpecImpl;
use vstd::std_specs::ops::MulSpecImpl;
use vstd::std_specs::ops::NegSpecImpl;
use vstd::std_specs::ops::SubSpecImpl;
use crate::math::scalar::{
    abs, diff, fx_abs, fx_diff, fx_neg, fx_prod, fx_quot, fx_ratio, fx_sum, neg, prod, quot, ratio,
    sum,
};

verus! {

/// Inches in a meter.
pub const METERS_TO_INCHES: i64 = 39_370_079;

/// Millimeters in a meter.
pub const MILLIMETERS_PER_METER: i64 = 1_000_000_000;

/// A length, held in inches.
#[derive(Clone, Copy, Debug, PartialEq, Eq, Structural)]
pub struct Length(pub i64);

impl Length {
    pub fn from_inches(inches: i64) -> (r: Self)
        ensures
            r.0 == inches,
    {
        Length(inches)
    }

    pub fn from_meters(meters: i64) -> (r: Self)
        ensures
            r.0 == prod(meters, METERS_TO_INCHES),
    {
        Length(fx_prod(meters, METERS_TO_INCHES))
    }

    pub fn from_millimeters(millimeters: i64) -> (r: Self)
        ensures
            r.0 == ratio(millimeters, METERS_TO_INCHES, MILLIMETERS_PER_METER),
    {
        Length(fx_ratio(millimeters, METERS_TO_INCHES, MILLIMETERS_PER_METER))
    }

    pub fn as_inches(&self) -> (r: i64)
        ensures
            r == self.0,
    {
        self.0
    }

    pub fn as_meters(&self) -> (r: i64)
        ensures
            r == quot(self.0, METERS_TO_INCHES),
    {
        fx_quot(self.0, METERS_TO_INCHES)
    }

    pub fn as_millimeters(&self) -> (r: i64)
        ensures
            r == ratio(self.0, MILLIMETERS_PER_METER, METERS_TO_INCHES),
    {
        fx_ratio(self.0, MILLIMETERS_PER_METER, METERS_TO_INCHES)
    }

    pub fn abs(&self) -> (r: Self)
        ensures
            r.0 == abs(self.0),
            r.0 >= 0,
    {
        Length(fx_abs(self.0))
    }
}

impl Default for Length {
    fn default() -> (r: Self)
        ensures
            r.0 == 0,
    {
        Length(0)
    }
}

impl core::ops::Add for Length {
    type Output = Length;

    fn add(self, rhs: Length) -> (r: Length) {
        Length(fx_sum(self.0, rhs.0))
    }
}

impl AddSpecImpl for Length {
    open spec fn obeys_add_spec() -> bool {
        true
    }

    open spec fn add_req(self, rhs: Length) -> bool {
        true
    }

    open spec fn add_spec(self, rhs: Length) -> Length {
        Length(sum(self.0, rhs.0))
    }
}

impl core::ops::Sub for Length {
    type Output = Length;

    fn sub(self, rhs: Length) -> (r: Length) {
        Length(fx_diff(self.0, rhs.0))
    }
}

impl SubSpecImpl for Length {
    open spec fn obeys_sub_spec() -> bool {
        true
    }

    open spec fn sub_req(self, rhs: Length) -> bool {
        true
    }

    open spec fn sub_spec(self, rhs: Length) -> Length {
        Length(diff(self.0, rhs.0))
    }
}

impl core::ops::Mul<i64> for Length {
    type Output = Length;

    fn mul(self, rhs: i64) -> (r: Length) {
        Length(fx_prod(self.0, rhs))
    }
}

impl MulSpecImpl<i64> for Length {
    open spec fn obeys_mul_spec() -> bool {
        true
    }

    open spec fn mul_req(self, rhs: i64) -> bool {
        true
    }

    open spec fn mul_spec(self, rhs: i64) -> Length {
        Length(prod(self.0, rhs))
    }
}

impl core::ops::Div<i64> for Length {
    type Output = Length;

    fn div(self, rhs: i64) -> (r: Length) {
        Length(fx_quot(self.0, rhs))
    }
}

impl DivSpecImpl<i64> for Length {
    open spec fn obeys_div_spec() -> bool {
        true
    }

    open spec fn div_req(self, rhs: i64) -> bool {
        true
    }

    open spec fn div_spec(self, rhs: i64) -> Length {
        Length(quot(self.0, rhs))
    }
}

impl core::ops::Neg for Length {
    type Output = Length;

    fn neg(self) -> (r: Length) {
        Length(fx_neg(self.0))
    }
}

impl NegSpecImpl for Length {
    open spec fn obeys_neg_spec() -> bool {
        true
    }

    open spec fn neg_req(self) -> bool {
        true
    }

    open spec fn neg_spec(self) -> Length {
        Length(neg(self.0))
    }
}

/// Numbers that can be read as lengths.
pub trait IntoLength {
    /// The number as inches.
    fn inch(self) -> Length;

    /// The number as meters.
    fn meter(self) -> Length;

    /// The number as millimeters.
    fn millimeters(self) -> Length;
}

impl IntoLength for i64 {
    fn inch(self) -> (r: Length)
        ensures
            r.0 == self,
    {
        Length::from_inches(self)
    }

    fn meter(self) -> (r: Length)
        ensures
            r.0 == prod(self, METERS_TO_INCHES),
    {
        Length::from_meters(self)
    }

    fn millimeters(self) -> (r: Length)
        ensures
            r.0 == ratio(self, METERS_TO_INCHES, MILLIMETERS_PER_METER),
    {
        Length::from_millimeters(self)
    }
}

} // verus!
