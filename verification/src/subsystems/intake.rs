//! The intake's colour sorting.

use vstd::prelude::*;
use crate::backend::SlintColor;

verus! {

/// The proximity reading of an object that touches the sensor.
pub const TOUCHING: i64 = 1_000_000;

/// The intake: whether it sorts by colour, and the voltage it runs at.
#[derive(Clone, Copy, Debug, PartialEq, Eq, Structural)]
pub struct Intake {
    pub color_sort: bool,
    pub voltage: i64,
}

/// The hues of the game pieces that a robot on `side` does not want, in
/// degrees: from the first of the pair up to, but without, the second.
pub open spec fn unwanted_hues(side: SlintColor) -> (i64, i64) {
    match side {
        SlintColor::Red => (120_000_000i64, 240_000_000i64),
        SlintColor::Blue => (0i64, 60_000_000i64),
    }
}

impl Intake {
    /// An intake at rest that sorts by colour.
    pub fn new() -> (i: Self)
        ensures
            i == (Intake { color_sort: true, voltage: 0 }),
    {
        Intake { color_sort: true, voltage: 0 }
    }

    pub fn set_voltage(&mut self, voltage: i64)
        ensures
            *final(self) == (Intake { voltage, ..*old(self) }),
    {
        self.voltage = voltage;
    }

    /// Whether the piece in front of the sensor is one to sort out: the
    /// intake sorts, the piece touches the sensor, and its hue is the
    /// other alliance's.
    pub fn blocked_by_wrong_color(&self, side: SlintColor, hue: i64, proximity: i64) -> (r: bool)
        ensures
            r == (self.color_sort && proximity == TOUCHING && unwanted_hues(side).0 <= hue
                < unwanted_hues(side).1),
    {
        let range: (i64, i64) = match side {
            SlintColor::Red => (120_000_000, 240_000_000),
            SlintColor::Blue => (0, 60_000_000),
        };
        self.color_sort && range.0 <= hue && hue < range.1 && proximity == TOUCHING
    }
}

} // verus!
