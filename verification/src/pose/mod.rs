//! Poses and plane vectors.

pub mod odometry;
pub mod ukf;
pub mod unscented;

use vstd::prelude::*;
use vstd::std_specs::ops::AddSpecImpl;
use vstd::std_specs::ops::MulSpecImpl;
use vstd::std_specs::ops::SubSpecImpl;
use crate::math::angle::Angle;
use crate::math::length::Length;
use crate::math::scalar::{
    diff, fx_diff, fx_hypot, fx_prod, fx_sum, hypot, prod, sum,
};
use crate::math::trig::{bearing, bearing_of, sin_cos_of, SinCos};

verus! {

/// Where the robot is and how it moves: a position and heading on the
/// field, and velocities in the robot's own frame. The heading is measured
/// counter-clockwise from the field's x axis.
#[derive(Clone, Copy, Debug, PartialEq, Eq, Structural)]
pub struct Pose {
    pub x: Length,
    pub y: Length,
    pub h: Angle,
    /// Forward velocity, in inches per second.
    pub vf: i64,
    /// Sideways velocity, positive to the right, in inches per second.
    pub vs: i64,
    /// Turning rate, in radians per second.
    pub omega: i64,
}

impl Pose {
    /// A pose at rest.
    pub fn new(x: Length, y: Length, h: Angle) -> (r: Self)
        ensures
            r == (Pose { x, y, h, vf: 0, vs: 0, omega: 0 }),
    {
        Pose { x, y, h, vf: 0, vs: 0, omega: 0 }
    }

    /// The position as a vector of inches.
    pub fn position(&self) -> (r: Vec2<i64>)
        ensures
            r == (Vec2 { x: self.x.0, y: self.y.0 }),
    {
        Vec2 { x: self.x.0, y: self.y.0 }
    }
}

impl Default for Pose {
    fn default() -> (r: Self)
        ensures
            r == (Pose { x: Length(0), y: Length(0), h: Angle(0), vf: 0, vs: 0, omega: 0 }),
    {
        Pose { x: Length(0), y: Length(0), h: Angle(0), vf: 0, vs: 0, omega: 0 }
    }
}

/// A vector in the plane.
#[derive(Clone, Copy, Debug, PartialEq, Eq)]
pub struct Vec2<T> {
    pub x: T,
    pub y: T,
}

impl<T> Vec2<T> {
    pub fn new(x: T, y: T) -> (r: Self)
        ensures
            r.x == x,
            r.y == y,
    {
        Vec2 { x, y }
    }
}

impl<T: Copy> Vec2<T> {
    pub fn x(&self) -> (r: T)
        ensures
            r == self.x,
    {
        self.x
    }

    pub fn y(&self) -> (r: T)
        ensures
            r == self.y,
    {
        self.y
    }
}

impl Vec2<Length> {
    /// The same vector as plain inches.
    pub fn inches(&self) -> (r: Vec2<i64>)
        ensures
            r == (Vec2 { x: self.x.0, y: self.y.0 }),
    {
        Vec2 { x: self.x.0, y: self.y.0 }
    }
}

/// A vector turned counter-clockwise through the angle whose sine and
/// cosine are given.
pub open spec fn turned(v: Vec2<i64>, by: SinCos) -> Vec2<i64> {
    Vec2 {
        x: diff(prod(v.x, by.cos), prod(v.y, by.sin)),
        y: sum(prod(v.x, by.sin), prod(v.y, by.cos)),
    }
}

impl Vec2<i64> {
    /// Direction of the vector, in `(-PI, PI]`.
    pub fn angle(&self) -> (r: i64)
        ensures
            r == bearing_of(self.y, self.x),
    {
        bearing(self.y, self.x).0
    }

    pub fn length(&self) -> (r: i64)
        ensures
            r == hypot(self.x, self.y),
            r >= 0,
    {
        fx_hypot(self.x, self.y)
    }

    pub fn magnitude(&self) -> (r: i64)
        ensures
            r == hypot(self.x, self.y),
            r >= 0,
    {
        fx_hypot(self.x, self.y)
    }

    /// Distance between the points that the two vectors lead to.
    pub fn distance(&self, other: Self) -> (r: i64)
        ensures
            r == hypot(diff(self.x, other.x), diff(self.y, other.y)),
            r >= 0,
    {
        (*self - other).length()
    }

    /// Direction from the point `other` to this point.
    pub fn angular_distance(&self, other: Self) -> (r: i64)
        ensures
            r == bearing_of(diff(self.y, other.y), diff(self.x, other.x)),
    {
        (*self - other).angle()
    }

    pub fn cross(&self, other: Vec2<i64>) -> (r: i64)
        ensures
            r == diff(prod(self.x, other.y), prod(self.y, other.x)),
    {
        fx_diff(fx_prod(self.x, other.y), fx_prod(self.y, other.x))
    }

    pub fn dot(&self, other: Vec2<i64>) -> (r: i64)
        ensures
            r == sum(prod(self.x, other.x), prod(self.y, other.y)),
    {
        fx_sum(fx_prod(self.x, other.x), fx_prod(self.y, other.y))
    }

    /// The vector turned counter-clockwise through a sine and cosine that
    /// the caller has at hand.
    pub fn rotated_by(&self, by: SinCos) -> (r: Self)
        ensures
            r == turned(*self, by),
    {
        Vec2 {
            x: fx_diff(fx_prod(self.x, by.cos), fx_prod(self.y, by.sin)),
            y: fx_sum(fx_prod(self.x, by.sin), fx_prod(self.y, by.cos)),
        }
    }

    /// The vector turned counter-clockwise through `angle`, in radians.
    pub fn rotated(&self, angle: i64) -> (r: Self)
        ensures
            r == turned(*self, sin_cos_of(angle)),
    {
        self.rotated_by(Angle(angle).sin_cos())
    }
}

impl core::ops::Add for Vec2<i64> {
    type Output = Vec2<i64>;

    fn add(self, rhs: Vec2<i64>) -> (r: Vec2<i64>) {
        Vec2 { x: fx_sum(self.x, rhs.x), y: fx_sum(self.y, rhs.y) }
    }
}

impl AddSpecImpl for Vec2<i64> {
    open spec fn obeys_add_spec() -> bool {
        true
    }

    open spec fn add_req(self, rhs: Vec2<i64>) -> bool {
        true
    }

    open spec fn add_spec(self, rhs: Vec2<i64>) -> Vec2<i64> {
        Vec2 { x: sum(self.x, rhs.x), y: sum(self.y, rhs.y) }
    }
}

impl core::ops::Sub for Vec2<i64> {
    type Output = Vec2<i64>;

    fn sub(self, rhs: Vec2<i64>) -> (r: Vec2<i64>) {
        Vec2 { x: fx_diff(self.x, rhs.x), y: fx_diff(self.y, rhs.y) }
    }
}

impl SubSpecImpl for Vec2<i64> {
    open spec fn obeys_sub_spec() -> bool {
        true
    }

    open spec fn sub_req(self, rhs: Vec2<i64>) -> bool {
        true
    }

    open spec fn sub_spec(self, rhs: Vec2<i64>) -> Vec2<i64> {
        Vec2 { x: diff(self.x, rhs.x), y: diff(self.y, rhs.y) }
    }
}

impl core::ops::Add<i64> for Vec2<i64> {
    type Output = Vec2<i64>;

    fn add(self, scalar: i64) -> (r: Vec2<i64>) {
        Vec2 { x: fx_sum(self.x, scalar), y: fx_sum(self.y, scalar) }
    }
}

impl AddSpecImpl<i64> for Vec2<i64> {
    open spec fn obeys_add_spec() -> bool {
        true
    }

    open spec fn add_req(self, scalar: i64) -> bool {
        true
    }

    open spec fn add_spec(self, scalar: i64) -> Vec2<i64> {
        Vec2 { x: sum(self.x, scalar), y: sum(self.y, scalar) }
    }
}

impl core::ops::Sub<i64> for Vec2<i64> {
    type Output = Vec2<i64>;

    fn sub(self, scalar: i64) -> (r: Vec2<i64>) {
        Vec2 { x: fx_diff(self.x, scalar), y: fx_diff(self.y, scalar) }
    }
}

impl SubSpecImpl<i64> for Vec2<i64> {
    open spec fn obeys_sub_spec() -> bool {
        true
    }

    open spec fn sub_req(self, scalar: i64) -> bool {
        true
    }

    open spec fn sub_spec(self, scalar: i64) -> Vec2<i64> {
        Vec2 { x: diff(self.x, scalar), y: diff(self.y, scalar) }
    }
}

impl core::ops::Mul<i64> for Vec2<i64> {
    type Output = Vec2<i64>;

    fn mul(self, rhs: i64) -> (r: Vec2<i64>) {
        Vec2 { x: fx_prod(self.x, rhs), y: fx_prod(self.y, rhs) }
    }
}

impl MulSpecImpl<i64> for Vec2<i64> {
    open spec fn obeys_mul_spec() -> bool {
        true
    }

    open spec fn mul_req(self, rhs: i64) -> bool {
        true
    }

    open spec fn mul_spec(self, rhs: i64) -> Vec2<i64> {
        Vec2 { x: prod(self.x, rhs), y: prod(self.y, rhs) }
    }
}

impl From<(i64, i64)> for Vec2<i64> {
    fn from(tuple: (i64, i64)) -> (r: Self) {
        Vec2 { x: tuple.0, y: tuple.1 }
    }
}

impl vstd::std_specs::convert::FromSpecImpl<(i64, i64)> for Vec2<i64> {
    open spec fn obeys_from_spec() -> bool {
        true
    }

    open spec fn from_spec(tuple: (i64, i64)) -> Self {
        Vec2 { x: tuple.0, y: tuple.1 }
    }
}

} // verus!
