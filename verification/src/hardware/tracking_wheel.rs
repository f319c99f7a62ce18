//! An unpowered wheel with an encoder, which measures distance rolled.

use vstd::prelude::*;
use crate::math::angle::{Angle, PI, TAU};
use crate::math::length::Length;
use crate::math::scalar::{diff, fx_diff, fx_neg, fx_prod, fx_ratio, neg, prod, ratio};
use crate::motion::Direction;

verus! {

/// A tracking wheel: how it is mounted, and where its encoder stood when
/// it was last read.
#[derive(Clone, Copy, Debug, PartialEq, Eq, Structural)]
pub struct TrackingWheel {
    pub direction: Direction,
    pub wheel_circum: Length,
    /// Signed offset of the wheel from the robot's centre of rotation.
    pub from_center: Length,
    pub prev_position: Angle,
}

impl TrackingWheel {
    /// The encoder's position with the mounting direction applied.
    pub open spec fn oriented(self, position: Angle) -> Angle {
        match self.direction {
            Direction::Forward => position,
            Direction::Reverse => Angle(neg(position.0)),
        }
    }

    /// Distance rolled between the last reading and `position`; nothing
    /// where the encoder gave no reading.
    pub open spec fn rolled(self, position: Option<Angle>) -> Length {
        match position {
            Some(p) => Length(
                ratio(self.wheel_circum.0, diff(self.oriented(p).0, self.prev_position.0), TAU),
            ),
            None => Length(0),
        }
    }

    /// The wheel once `position` has been read.
    pub open spec fn after(self, position: Option<Angle>) -> TrackingWheel {
        match position {
            Some(p) => TrackingWheel { prev_position: self.oriented(p), ..self },
            None => self,
        }
    }

    /// A wheel of the given diameter whose encoder stands at `position`.
    pub fn new(direction: Direction, wheel_diameter: Length, from_center: Length, position: Angle)
        -> (r: Self)
        ensures
            r.direction == direction,
            r.wheel_circum.0 == prod(wheel_diameter.0, PI),
            r.from_center == from_center,
            r.prev_position == r.oriented(position),
    {
        let mut wheel = TrackingWheel {
            direction,
            wheel_circum: Length(fx_prod(wheel_diameter.0, PI)),
            from_center,
            prev_position: position,
        };
        wheel.prev_position = wheel.orient(position);
        wheel
    }

    pub fn from_center(&self) -> (r: Length)
        ensures
            r == self.from_center,
    {
        self.from_center
    }

    fn orient(&self, position: Angle) -> (r: Angle)
        ensures
            r == self.oriented(position),
    {
        match self.direction {
            Direction::Forward => position,
            Direction::Reverse => Angle(fx_neg(position.0)),
        }
    }

    /// Distance rolled since the last reading, given the encoder's
    /// position now. A failed reading counts as no movement and is not
    /// remembered.
    pub fn traveled(&mut self, position: Option<Angle>) -> (r: Length)
        ensures
            r == old(self).rolled(position),
            *final(self) == old(self).after(position),
    {
        match position {
            Some(p) => {
                let now: Angle = self.orient(p);
                let change: i64 = fx_diff(now.0, self.prev_position.0);
                self.prev_position = now;
                Length(fx_ratio(self.wheel_circum.0, change, TAU))
            },
            None => Length(0),
        }
    }
}

} // verus!
