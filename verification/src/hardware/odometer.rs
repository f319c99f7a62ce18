//! A tracking wheel read in encoder ticks.

use vstd::prelude::*;
use crate::math::angle::PI;
use crate::math::scalar::{diff, fx_diff, fx_neg, fx_prod, fx_ratio, neg, prod, ratio};
use crate::motion::Direction;

verus! {

/// A tracking wheel with an encoder that counts ticks.
#[derive(Clone, Copy, Debug, PartialEq, Eq, Structural)]
pub struct Odometer {
    /// Ticks that the encoder counts in one revolution.
    pub ticks_per_revolution: u32,
    pub direction: Direction,
    pub wheel_diameter: i64,
    /// Signed offset of the wheel from the robot's centre of rotation.
    pub from_center: i64,
    /// The encoder's ticks when it was last read.
    pub prev_position: i64,
}

impl Odometer {
    /// The encoder's ticks with the mounting direction applied.
    pub open spec fn oriented(self, ticks: i64) -> i64 {
        match self.direction {
            Direction::Forward => ticks,
            Direction::Reverse => neg(ticks),
        }
    }

    /// Distance rolled between the last reading and `ticks`: the wheel's
    /// circumference for every revolution's worth of ticks. Nothing where
    /// the encoder gave no reading, or counts no ticks to a revolution.
    pub open spec fn rolled(self, ticks: Option<i64>) -> i64 {
        match ticks {
            Some(t) => ratio(
                prod(self.wheel_diameter, PI),
                diff(self.oriented(t), self.prev_position),
                self.ticks_per_revolution as i64,
            ),
            None => 0,
        }
    }

    pub fn new(
        ticks_per_revolution: u32,
        direction: Direction,
        wheel_diameter: i64,
        from_center: i64,
    ) -> (o: Self)
        ensures
            o == (Odometer {
                ticks_per_revolution,
                direction,
                wheel_diameter,
                from_center,
                prev_position: 0,
            }),
    {
        Odometer { ticks_per_revolution, direction, wheel_diameter, from_center, prev_position: 0 }
    }

    pub fn from_center(&self) -> (r: i64)
        ensures
            r == self.from_center,
    {
        self.from_center
    }

    /// The encoder's ticks with the mounting direction applied.
    pub fn position(&self, ticks: i64) -> (r: i64)
        ensures
            r == self.oriented(ticks),
    {
        match self.direction {
            Direction::Forward => ticks,
            Direction::Reverse => fx_neg(ticks),
        }
    }

    /// Distance rolled since the last reading, given the encoder's ticks
    /// now. A failed reading counts as no movement and is not remembered.
    pub fn traveled(&mut self, ticks: Option<i64>) -> (r: i64)
        ensures
            r == old(self).rolled(ticks),
            final(self).prev_position == match ticks {
                Some(t) => old(self).oriented(t),
                None => old(self).prev_position,
            },
            final(self).ticks_per_revolution == old(self).ticks_per_revolution,
            final(self).direction == old(self).direction,
            final(self).wheel_diameter == old(self).wheel_diameter,
            final(self).from_center == old(self).from_center,
    {
        match ticks {
            Some(t) => {
                let now: i64 = self.position(t);
                let change: i64 = fx_diff(now, self.prev_position);
                self.prev_position = now;
                fx_ratio(fx_prod(self.wheel_diameter, PI), change, self.ticks_per_revolution as i64)
            },
            None => 0,
        }
    }
}

} // verus!
