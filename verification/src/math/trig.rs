//! Sines, cosines and arctangents.
//!
//! The values themselves come from the integer routines of `idsp`, which
//! measure an angle as a phase: the `i32` range spans one turn, and a sine
//! or cosine is scaled so that the `i32` range spans `[-1, 1)`. What Verus
//! knows of those routines is a name for each result; the conversions
//! around them are verified.

use vstd::prelude::*;
use crate::math::angle::{principal, Angle, PI};
use crate::math::scalar::{fx_ratio, ratio, tdiv, SCALE};

verus! {

/// Phase steps in half a turn, and the scale of a sine or cosine.
pub const HALF_TURN_PHASE: i64 = 0x8000_0000;

/// What `idsp::cossin` returns for a phase: cosine first, then sine.
pub uninterp spec fn cossin_of(phase: i32) -> (i32, i32);

/// What `idsp::atan2` returns for the point `(x, y)`, as a phase.
pub uninterp spec fn atan2_of(y: i32, x: i32) -> i32;

/// Calls `idsp::cossin`, a table lookup with linear interpolation that is
/// defined for every phase. Nothing is claimed of the pair it returns but
/// that it depends on the phase alone.
#[verifier::external_body]
pub(crate) fn cossin(phase: i32) -> (r: (i32, i32))
    ensures
        r == cossin_of(phase),
{
    idsp::cossin(phase)
}

/// Calls `idsp::atan2`, a polynomial approximation that is defined for
/// every pair of coordinates. Nothing is claimed of the phase it returns
/// but that it depends on the coordinates alone.
#[verifier::external_body]
fn atan2(y: i32, x: i32) -> (r: i32)
    ensures
        r == atan2_of(y, x),
{
    idsp::atan2(y, x)
}

/// A sine and cosine, each between minus one and one.
#[derive(Clone, Copy, Debug, PartialEq, Eq, Structural)]
pub struct SinCos {
    pub sin: i64,
    pub cos: i64,
}

impl SinCos {
    /// Both lie between minus one and one.
    pub open spec fn wf(self) -> bool {
        &&& -SCALE <= self.sin <= SCALE
        &&& -SCALE <= self.cos <= SCALE
    }
}

/// The phase of an angle: its share of half a turn, rounded down, with
/// half a turn itself landing on the lowest phase.
pub open spec fn phase_of(a: i64) -> i32 {
    let w = principal(a);
    if w == PI {
        i32::MIN
    } else {
        ((w * HALF_TURN_PHASE) / (PI as int)) as i32
    }
}

/// The angle of a phase, in `(-PI, PI]`.
pub open spec fn angle_of(phase: i32) -> i64 {
    principal(ratio(phase as i64, PI, HALF_TURN_PHASE))
}

/// A sine or cosine of `idsp` as a fixed-point number.
pub open spec fn unit_of(v: i32) -> i64 {
    ratio(v as i64, SCALE, HALF_TURN_PHASE)
}

/// The pair of `idsp::cossin` as fixed-point numbers.
pub open spec fn sin_cos_from(pair: (i32, i32)) -> SinCos {
    SinCos { sin: unit_of(pair.1), cos: unit_of(pair.0) }
}

/// Sine and cosine of an angle.
pub open spec fn sin_cos_of(a: i64) -> SinCos {
    sin_cos_from(cossin_of(phase_of(a)))
}

/// Whether both coordinates can be handed to `idsp::atan2` as they are.
pub open spec fn fits(y: i64, x: i64) -> bool {
    i32::MIN <= y <= i32::MAX && i32::MIN <= x <= i32::MAX
}

/// The point `(x, y)` halved until both coordinates fit in an `i32`.
pub open spec fn fit(y: i64, x: i64) -> (i32, i32)
    decreases (if y < 0 { -y } else { y as int }) + (if x < 0 { -x } else { x as int }),
{
    if fits(y, x) {
        (y as i32, x as i32)
    } else {
        fit(tdiv(y as int, 2) as i64, tdiv(x as int, 2) as i64)
    }
}

/// Direction of the point `(x, y)` seen from the origin, in `(-PI, PI]`.
pub open spec fn bearing_of(y: i64, x: i64) -> i64 {
    let p = fit(y, x);
    angle_of(atan2_of(p.0, p.1))
}

/// The phase of an angle.
pub fn to_phase(angle: Angle) -> (r: i32)
    ensures
        r == phase_of(angle.0),
{
    let w: i64 = angle.wrap().0;
    if w == PI {
        i32::MIN
    } else {
        let wide: i128 = (w as i128) * 0x8000_0000;
        match wide.checked_div_euclid(PI as i128) {
            Some(q) => q as i32,
            None => 0,
        }
    }
}

/// The angle of a phase, in `(-PI, PI]`.
pub fn from_phase(phase: i32) -> (r: Angle)
    ensures
        r.0 == angle_of(phase),
        -PI < r.0 <= PI,
{
    Angle(fx_ratio(phase as i64, PI, HALF_TURN_PHASE)).wrap()
}

/// A sine or cosine of `idsp` as a fixed-point number.
pub fn from_unit(v: i32) -> (r: i64)
    ensures
        r == unit_of(v),
        -SCALE <= r <= SCALE,
{
    fx_ratio(v as i64, SCALE, HALF_TURN_PHASE)
}

/// Turns the pair that `idsp::cossin` returned into a sine and cosine.
pub fn from_cossin(pair: (i32, i32)) -> (r: SinCos)
    ensures
        r == sin_cos_from(pair),
        r.wf(),
{
    SinCos { sin: from_unit(pair.1), cos: from_unit(pair.0) }
}

/// Halves the point `(x, y)` until both coordinates fit in an `i32`.
pub fn fit_point(y: i64, x: i64) -> (r: (i32, i32))
    ensures
        r == fit(y, x),
{
    let mut cy: i64 = y;
    let mut cx: i64 = x;
    while !(cy >= i32::MIN as i64 && cy <= i32::MAX as i64 && cx >= i32::MIN as i64 && cx
        <= i32::MAX as i64)
        invariant
            fit(cy, cx) == fit(y, x),
        decreases (if cy < 0 { -cy } else { cy as int }) + (if cx < 0 { -cx } else { cx as int }),
    {
        cy = cy / 2;
        cx = cx / 2;
    }
    (cy as i32, cx as i32)
}

impl Angle {
    /// Sine and cosine of the angle.
    pub fn sin_cos(&self) -> (r: SinCos)
        ensures
            r == sin_cos_of(self.0),
            r.wf(),
    {
        from_cossin(cossin(to_phase(*self)))
    }
}

/// Direction of the point `(x, y)` seen from the origin.
pub fn bearing(y: i64, x: i64) -> (r: Angle)
    ensures
        r.0 == bearing_of(y, x),
        -PI < r.0 <= PI,
{
    let p = fit_point(y, x);
    from_phase(atan2(p.0, p.1))
}

} // verus!
