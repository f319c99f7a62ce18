//! Helpers on angles that the motion primitives share.

use vstd::prelude::*;
use crate::math::angle::{principal, Angle, PI, TAU};
use crate::math::length::Length;
use crate::math::scalar::diff;
use crate::math::trig::{bearing, bearing_of};
use crate::pose::{Pose, Vec2};

verus! {

/// Reduces an angle to `(-PI, PI]`.
pub fn wrap(angle: Angle) -> (r: Angle)
    ensures
        r.0 == principal(angle.0),
        -PI < r.0 <= PI,
        (r.0 - angle.0) % (TAU as int) == 0,
{
    angle.wrap()
}

/// Reduces an angle in radians to `(-PI, PI]`.
pub fn wrapped(angle: i64) -> (r: i64)
    ensures
        r == principal(angle),
        -PI < r <= PI,
        (r - angle) % (TAU as int) == 0,
{
    Angle(angle).wrap().0
}

/// Direction in which the point `other` lies, seen from `pose`.
pub fn angular_distance(pose: Pose, other: Vec2<Length>) -> (r: Angle)
    ensures
        r.0 == bearing_of(diff(other.y.0, pose.y.0), diff(other.x.0, pose.x.0)),
        -PI < r.0 <= PI,
{
    let to: Vec2<i64> = other.inches() - pose.position();
    bearing(to.y, to.x)
}

} // verus!
