//! How full the battery is and how long it lasts.

use vstd::prelude::*;
use crate::math::scalar::{fx_prod, fx_quot, prod, quot, SCALE};

verus! {

/// Charge of a full battery, in ampere hours.
pub const AMP_HOURS: i64 = 1_100_000;

/// Seconds in an hour.
pub const SECONDS_PER_HOUR: i64 = 3_600_000_000;

/// The number one hundred.
pub const HUNDRED: i64 = 100_000_000;

/// The battery's state when it was last measured.
#[derive(Clone, Copy, Debug, PartialEq, Eq, Structural)]
pub struct Battery {
    /// Charge in percent of full.
    pub capacity: i64,
    /// Whole seconds that the charge lasts at the current drawn.
    pub time: u64,
}

/// A time span the way the screen shows it.
#[derive(Clone, Copy, Debug, PartialEq, Eq, Structural)]
pub enum Remaining {
    /// Less than an hour: minutes and seconds.
    Minutes { mins: u64, secs: u64 },
    /// An hour or more: hours, and the minutes in all.
    Hours { hours: u64, mins: u64 },
}

impl Battery {
    /// Seconds that the share `capacity` of a full battery lasts at
    /// `current` amperes; none where no current is drawn or the battery is
    /// charged.
    pub open spec fn lasting(current: i64, capacity: i64) -> u64 {
        let secs = prod(quot(prod(capacity, AMP_HOURS), current), SECONDS_PER_HOUR);
        if secs <= 0 {
            0
        } else {
            (secs / SCALE) as u64
        }
    }

    /// The state of a battery that holds the share `capacity` of its full
    /// charge while `current` amperes are drawn.
    pub open spec fn measured(current: i64, capacity: i64) -> Battery {
        Battery { capacity: prod(capacity, HUNDRED), time: Self::lasting(current, capacity) }
    }

    /// The time span of `time` seconds the way the screen shows it.
    pub open spec fn shown(time: u64) -> Remaining {
        if time / 60 / 60 == 0 {
            Remaining::Minutes { mins: time / 60, secs: time % 60 }
        } else {
            Remaining::Hours { hours: time / 60 / 60, mins: time / 60 }
        }
    }

    /// Takes a measurement: the current drawn, in amperes, and the charge
    /// as a share of full.
    pub fn update(&mut self, current: i64, capacity: i64)
        ensures
            *final(self) == Self::measured(current, capacity),
    {
        self.capacity = fx_prod(capacity, HUNDRED);
        let secs: i64 = fx_prod(fx_quot(fx_prod(capacity, AMP_HOURS), current), SECONDS_PER_HOUR);
        self.time = if secs <= 0 {
            0
        } else {
            (secs / SCALE) as u64
        };
    }

    pub fn capacity(&self) -> (r: i64)
        ensures
            r == self.capacity,
    {
        self.capacity
    }

    /// How long the battery lasts, the way the screen shows it.
    pub fn time_remaining(&self) -> (r: Remaining)
        ensures
            r == Self::shown(self.time),
    {
        let time: u64 = self.time;
        let secs: u64 = time % 60;
        let mins: u64 = time / 60;
        let hours: u64 = mins / 60;
        if hours == 0 {
            Remaining::Minutes { mins, secs }
        } else {
            Remaining::Hours { hours, mins }
        }
    }
}

impl Default for Battery {
    fn default() -> (b: Self)
        ensures
            b == (Battery { capacity: 0, time: 0 }),
    {
        Battery { capacity: 0, time: 0 }
    }
}

} // verus!
