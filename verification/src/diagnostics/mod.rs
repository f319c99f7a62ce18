//! Telemetry: distance travelled and battery state.

pub mod battery;
pub mod odometer;

use vstd::prelude::*;
use crate::diagnostics::battery::Battery;
use crate::diagnostics::odometer::Odometer;
use crate::pose::Pose;

verus! {

/// All telemetry of the robot.
#[derive(Clone, Copy, Debug, PartialEq, Eq, Structural)]
pub struct Diagnostics {
    pub odometer: Odometer,
    pub battery: Battery,
}

impl Diagnostics {
    /// Telemetry of a robot that starts at `pose`.
    pub fn new(pose: Pose) -> (d: Self)
        ensures
            d.odometer == (Odometer { prev_pose: pose, traveled: 0 }),
            d.battery == (Battery { capacity: 0, time: 0 }),
    {
        Diagnostics { odometer: Odometer::new(pose), battery: Battery::default() }
    }

    /// Takes the robot's pose and the battery's current, in amperes, and
    /// charge, as a share of full.
    pub fn update(&mut self, pose: Pose, current: i64, capacity: i64)
        ensures
            final(self).odometer == old(self).odometer.moved(pose),
            final(self).battery == Battery::measured(current, capacity),
    {
        self.odometer.update(pose);
        self.battery.update(current, capacity);
    }

    /// Feet travelled, for the log.
    pub fn log(&self) -> (feet: i64)
        ensures
            feet == self.odometer.traveled,
    {
        self.odometer.traveled()
    }
}

} // verus!
