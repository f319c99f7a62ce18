//! The robot's mechanisms.

pub mod drivetrain;
pub mod intake;

use vstd::prelude::*;

verus! {

/// The alliance the robot plays for.
#[derive(Clone, Copy, Debug, PartialEq, Eq, Structural)]
pub enum Color {
    Red,
    Blue,
}

/// What the robot's mechanisms need to know of the match.
#[derive(Clone, Copy, Debug, PartialEq, Eq, Structural)]
pub struct RobotSettings {
    pub color: Color,
    pub enable_color: bool,
}

} // verus!
