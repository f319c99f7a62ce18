//! What the routine selector on the robot's screen needs.

pub mod canvas;

use vstd::prelude::*;

verus! {

/// An alliance colour, as the selector shows it.
#[derive(Clone, Copy, Debug, PartialEq, Eq, Structural)]
pub enum SlintColor {
    Red,
    Blue,
}

/// What the operator chose on the screen.
#[derive(Clone, Copy, Debug, PartialEq, Eq, Structural)]
pub struct Settings {
    pub test_auton: bool,
    pub side: SlintColor,
}

} // verus!
