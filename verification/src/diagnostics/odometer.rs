//! Distance that the robot has travelled in all.

use vstd::prelude::*;
use crate::math::scalar::{diff, fx_diff, fx_hypot, fx_quot, fx_sum, hypot, quot, sum};
use crate::pose::Pose;

verus! {

/// Inches in a foot.
pub const INCHES_PER_FOOT: i64 = 12_000_000;

/// The pose that was seen last and the feet travelled up to it.
#[derive(Clone, Copy, Debug, PartialEq, Eq, Structural)]
pub struct Odometer {
    pub prev_pose: Pose,
    pub traveled: i64,
}

impl Odometer {
    /// The odometer once the robot has been seen at `pose`: the straight
    /// distance from the last pose comes on top, in feet.
    pub open spec fn moved(self, pose: Pose) -> Odometer {
        Odometer {
            prev_pose: pose,
            traveled: sum(
                self.traveled,
                hypot(
                    quot(diff(pose.x.0, self.prev_pose.x.0), INCHES_PER_FOOT),
                    quot(diff(pose.y.0, self.prev_pose.y.0), INCHES_PER_FOOT),
                ),
            ),
        }
    }

    pub fn new(pose: Pose) -> (o: Self)
        ensures
            o == (Odometer { prev_pose: pose, traveled: 0 }),
    {
        Odometer { prev_pose: pose, traveled: 0 }
    }

    /// Takes the robot's pose now.
    pub fn update(&mut self, current_pose: Pose)
        ensures
            *final(self) == old(self).moved(current_pose),
    {
        let delta_x: i64 = fx_quot(fx_diff(current_pose.x.0, self.prev_pose.x.0), INCHES_PER_FOOT);
        let delta_y: i64 = fx_quot(fx_diff(current_pose.y.0, self.prev_pose.y.0), INCHES_PER_FOOT);
        self.traveled = fx_sum(self.traveled, fx_hypot(delta_x, delta_y));
        self.prev_pose = current_pose;
    }

    /// Feet travelled so far.
    pub fn traveled(&self) -> (r: i64)
        ensures
            r == self.traveled,
    {
        self.traveled
    }
}

} // verus!
