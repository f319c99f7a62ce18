//! Reading an optical tracking sensor that answers over a serial line.
//!
//! The line itself is somebody else's work. Here are the decisions: which
//! answers carry a reading, what the reading means, and when to stop
//! waiting for the sensor to calibrate.

use vstd::prelude::*;
use crate::math::angle::{Angle, HALF_TURN_DEGREES, PI};
use crate::math::length::Length;
use crate::math::scalar::{fx_prod, fx_ratio, prod, ratio};
use crate::pose::Pose;

verus! {

/// How long the sensor gets to calibrate, in seconds.
pub const CALIBRATION_TIMEOUT: i64 = 1_000_000;

/// Scale of the sensor's forward velocity; its sign turns the axis round.
pub const FORWARD_SCALE: i64 = -970_000;

/// Scale of the sensor's sideways velocity.
pub const SIDE_SCALE: i64 = 970_000;

/// Scale of the sensor's turning rate; its sign turns the axis round.
pub const TURN_SCALE: i64 = -982_500;

/// What the sensor can be asked.
#[derive(Clone, Copy, Debug, PartialEq, Eq, Structural)]
pub enum Command {
    Initialize,
    Calibrate,
    IsCalibrating,
    Reset,
    SetOffset,
    SetPosition,
    GetPosition,
    GetVelocity,
    Check,
    SelfTest,
    Invalid,
}

/// What the sensor can answer.
#[derive(Clone, Copy, Debug, PartialEq, Eq, Structural)]
pub enum Response {
    Success,
    Error,
    Waiting,
    Unknown,
}

impl Command {
    /// The byte that stands for the command on the line.
    pub open spec fn code(self) -> u8 {
        match self {
            Command::Initialize => 0u8,
            Command::Calibrate => 1u8,
            Command::IsCalibrating => 2u8,
            Command::Reset => 3u8,
            Command::SetOffset => 4u8,
            Command::SetPosition => 5u8,
            Command::GetPosition => 6u8,
            Command::GetVelocity => 7u8,
            Command::Check => 8u8,
            Command::SelfTest => 9u8,
            Command::Invalid => 10u8,
        }
    }

    /// The byte that stands for the command on the line.
    pub fn id(&self) -> (r: u8)
        ensures
            r == self.code(),
    {
        match self {
            Command::Initialize => 0,
            Command::Calibrate => 1,
            Command::IsCalibrating => 2,
            Command::Reset => 3,
            Command::SetOffset => 4,
            Command::SetPosition => 5,
            Command::GetPosition => 6,
            Command::GetVelocity => 7,
            Command::Check => 8,
            Command::SelfTest => 9,
            Command::Invalid => 10,
        }
    }
}

impl Response {
    /// The byte that stands for the answer on the line.
    pub open spec fn code(self) -> u8 {
        match self {
            Response::Success => 0u8,
            Response::Error => 1u8,
            Response::Waiting => 2u8,
            Response::Unknown => 3u8,
        }
    }

    /// The byte that stands for the answer on the line.
    pub fn id(&self) -> (r: u8)
        ensures
            r == self.code(),
    {
        match self {
            Response::Success => 0,
            Response::Error => 1,
            Response::Waiting => 2,
            Response::Unknown => 3,
        }
    }
}

/// The sensor's last reading.
#[derive(Clone, Copy, Debug, PartialEq, Eq, Structural)]
pub struct Otos {
    pub pose: Pose,
}

/// The pose that a reading of velocities stands for: the sensor's x and y
/// in inches per second and its turning rate in degrees per second, each
/// scaled to the robot's frame, at no position.
pub open spec fn reading(x: i64, y: i64, h: i64) -> Pose {
    Pose {
        x: Length(0),
        y: Length(0),
        h: Angle(0),
        vf: prod(FORWARD_SCALE, x),
        vs: prod(SIDE_SCALE, y),
        omega: ratio(prod(TURN_SCALE, h), PI, HALF_TURN_DEGREES),
    }
}

impl Otos {
    /// A sensor that has not reported yet.
    pub fn new() -> (o: Self)
        ensures
            o.pose == (Pose { x: Length(0), y: Length(0), h: Angle(0), vf: 0, vs: 0, omega: 0 }),
    {
        Otos { pose: Pose::new(Length(0), Length(0), Angle(0)) }
    }

    /// Whether to stop asking the sensor if it still calibrates: its
    /// answer did not arrive, or is another than "waiting", or the time
    /// for calibration is over. `answer` is the byte the sensor answered
    /// with, `waited` the time since calibration began.
    pub fn calibration_over(answer: Option<u8>, waited: i64) -> (over: bool)
        ensures
            over == match answer {
                Some(id) => id != Response::Waiting.code() || waited > CALIBRATION_TIMEOUT,
                None => true,
            },
    {
        match answer {
            Some(id) => id != Response::Waiting.id() || waited > CALIBRATION_TIMEOUT,
            None => true,
        }
    }

    /// Takes an answer to a request for velocities. It replaces the last
    /// reading if the sensor reported success and the checksum held, and
    /// is ignored else.
    pub fn receive(&mut self, id: u8, checksum_holds: bool, x: i64, y: i64, h: i64) -> (taken: bool)
        ensures
            taken == (id == Response::Success.code() && checksum_holds),
            taken ==> final(self).pose == reading(x, y, h),
            !taken ==> *final(self) == *old(self),
    {
        if id == Response::Success.id() && checksum_holds {
            self.pose = Pose {
                x: Length(0),
                y: Length(0),
                h: Angle(0),
                vf: fx_prod(FORWARD_SCALE, x),
                vs: fx_prod(SIDE_SCALE, y),
                omega: fx_ratio(fx_prod(TURN_SCALE, h), PI, HALF_TURN_DEGREES),
            };
            true
        } else {
            false
        }
    }

    pub fn vf(&self) -> (r: i64)
        ensures
            r == self.pose.vf,
    {
        self.pose.vf
    }

    pub fn vs(&self) -> (r: i64)
        ensures
            r == self.pose.vs,
    {
        self.pose.vs
    }

    pub fn omega(&self) -> (r: i64)
        ensures
            r == self.pose.omega,
    {
        self.pose.omega
    }
}

} // verus!
