//! The heading that a set of inertial sensors reports.

use vstd::prelude::*;
use crate::hardware::{average, mean};
use crate::math::angle::{Angle, HALF_TURN_DEGREES, PI};
use crate::math::scalar::{diff, fx_diff, ratio, tdiv};

verus! {

/// A full turn in degrees.
pub const FULL_TURN_DEGREES: i64 = 360_000_000;

/// A sensor's clockwise rotation in degrees, as a counter-clockwise one.
pub open spec fn mirrored(rotation: i64) -> i64 {
    diff(FULL_TURN_DEGREES, rotation)
}

/// Remainder of `a` by `b` with the sign of `a`.
pub open spec fn trem(a: int, b: int) -> int {
    a - tdiv(a, b) * b
}

/// The heading that sensors with the given rotations report: the mean of
/// their counter-clockwise rotations, less whole turns; none where no
/// sensor gave a reading.
pub open spec fn heading_of(rotations: Seq<i64>) -> Option<Angle> {
    match mean(rotations.map_values(|r: i64| mirrored(r))) {
        Some(m) => Some(
            Angle(
                ratio(trem(m as int, FULL_TURN_DEGREES as int) as i64, PI, HALF_TURN_DEGREES),
            ),
        ),
        None => None,
    }
}

/// The inertial sensors of the robot. They hold no state of their own
/// here: their rotations are handed in.
#[derive(Clone, Copy, Debug, PartialEq, Eq, Structural)]
pub struct Imu {
    /// Number of sensors.
    pub sensors: usize,
}

impl Imu {
    pub fn new(sensors: usize) -> (i: Self)
        ensures
            i.sensors == sensors,
    {
        Imu { sensors }
    }

    /// The rotation, in degrees clockwise, to set every sensor to so that
    /// it reports `heading`.
    pub fn set_heading(&self, heading: Angle) -> (degrees: i64)
        ensures
            degrees == ratio(heading.0, HALF_TURN_DEGREES, PI),
    {
        heading.as_degrees()
    }

    /// The heading, given the clockwise rotations in degrees of the
    /// sensors that answered.
    pub fn heading(&self, rotations: &Vec<i64>) -> (h: Option<Angle>)
        ensures
            h == heading_of(rotations@),
    {
        let mut angles: Vec<i64> = Vec::new();
        let mut i: usize = 0;
        while i < rotations.len()
            invariant
                i <= rotations@.len(),
                angles@ == rotations@.take(i as int).map_values(|r: i64| mirrored(r)),
            decreases rotations@.len() - i,
        {
            angles.push(fx_diff(FULL_TURN_DEGREES, rotations[i]));
            assert(rotations@.take(i as int + 1).map_values(|r: i64| mirrored(r))
                == rotations@.take(i as int).map_values(|r: i64| mirrored(r)).push(
                mirrored(rotations@[i as int]),
            ));
            i = i + 1;
        }
        assert(rotations@.take(rotations@.len() as int) == rotations@);
        match average(&angles) {
            Some(m) => Some(Angle::from_degrees(m % FULL_TURN_DEGREES)),
            None => None,
        }
    }
}

} // verus!
