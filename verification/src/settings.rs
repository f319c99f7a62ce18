//! Match settings.

use vstd::prelude::*;
use vstd::std_specs::ops::NotSpecImpl;

verus! {

/// What the operator chose for the match.
#[derive(Clone, Copy, Debug, PartialEq, Eq, Structural)]
pub struct Settings {
    pub color: Color,
    pub index: usize,
    pub test_auton: bool,
    pub enable_sort: bool,
}

/// An alliance colour.
#[derive(Clone, Copy, Debug, PartialEq, Eq, Structural)]
pub enum Color {
    Red,
    Blue,
}

/// Where the hues of red game pieces start and end, in degrees.
pub const RED_HUE: (i64, i64) = (20_000_000, 55_000_000);

/// Where the hues of blue game pieces start and end, in degrees.
pub const BLUE_HUE: (i64, i64) = (70_000_000, 210_000_000);

impl Color {
    /// The other alliance's colour.
    pub open spec fn other(self) -> Color {
        match self {
            Color::Red => Color::Blue,
            Color::Blue => Color::Red,
        }
    }

    /// The hues that count as this colour: from the first of the pair up
    /// to, but without, the second.
    pub fn hue_range(&self) -> (r: (i64, i64))
        ensures
            r == match *self {
                Color::Red => RED_HUE,
                Color::Blue => BLUE_HUE,
            },
    {
        match self {
            Color::Red => RED_HUE,
            Color::Blue => BLUE_HUE,
        }
    }

    /// Whether `hue` counts as this colour.
    pub fn matches_hue(&self, hue: i64) -> (r: bool)
        ensures
            r == match *self {
                Color::Red => RED_HUE.0 <= hue < RED_HUE.1,
                Color::Blue => BLUE_HUE.0 <= hue < BLUE_HUE.1,
            },
    {
        let range = self.hue_range();
        range.0 <= hue && hue < range.1
    }
}

impl core::ops::Not for Color {
    type Output = Color;

    fn not(self) -> (r: Color) {
        match self {
            Color::Red => Color::Blue,
            Color::Blue => Color::Red,
        }
    }
}

impl NotSpecImpl for Color {
    open spec fn obeys_not_spec() -> bool {
        true
    }

    open spec fn not_req(self) -> bool {
        true
    }

    open spec fn not_spec(self) -> Color {
        self.other()
    }
}

/// The other colour's other colour is the colour itself.
pub proof fn lemma_other_is_involution(c: Color)
    ensures
        c.other().other() == c,
        c.other() != c,
{
}

} // verus!
