//! Closed-loop motion primitives.
//!
//! A primitive does not sleep, read sensors or write to motors. Each has a
//! function that takes the pose and the time that one control tick
//! brought, and answers with the [`Command`] for that tick. Whoever runs
//! the loop carries the command out, and ends the loop on
//! [`Command::Stop`].

pub mod linear;
pub mod move_to;
pub mod profiling;
pub mod ramsete;
pub mod swing;
pub mod turn;

use vstd::prelude::*;

verus! {

/// The highest voltage a motor takes.
pub const MAX_VOLTAGE: i64 = 12_000_000;

/// Time between two writes to a motor, in seconds.
pub const WRITE_INTERVAL: i64 = 5_000;

/// What a primitive asks of the drivetrain in one tick.
#[derive(Clone, Copy, Debug, PartialEq, Eq, Structural)]
pub enum Command {
    /// Put these voltages on the left and right side and go on.
    Drive { left: i64, right: i64 },
    /// Hold these velocities, in motor revolutions per minute, on the left
    /// and right side and go on.
    Spin { left: i64, right: i64 },
    /// Put zero volts on both sides; the primitive is done.
    Stop,
}

impl Command {
    /// The voltages that the command puts on the motors, if it sets any.
    pub open spec fn voltages(self) -> Option<(i64, i64)> {
        match self {
            Command::Drive { left, right } => Some((left, right)),
            Command::Spin { .. } => None,
            Command::Stop => Some((0i64, 0i64)),
        }
    }

    /// The voltages that the command puts on the motors, if it sets any.
    pub fn to_voltages(&self) -> (r: Option<(i64, i64)>)
        ensures
            r == self.voltages(),
    {
        match self {
            Command::Drive { left, right } => Some((*left, *right)),
            Command::Spin { .. } => None,
            Command::Stop => Some((0, 0)),
        }
    }
}

/// Which end of the robot leads.
#[derive(Clone, Copy, Debug, PartialEq, Eq, Structural)]
pub enum Direction {
    Forward,
    Reverse,
}

impl Direction {
    pub fn is_reverse(&self) -> (r: bool)
        ensures
            r == (*self == Direction::Reverse),
    {
        match self {
            Direction::Forward => false,
            Direction::Reverse => true,
        }
    }
}

} // verus!
