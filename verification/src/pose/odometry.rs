//! Dead reckoning from two tracking wheels and a heading sensor.

use vstd::prelude::*;
use crate::math::angle::{principal, Angle, PI};
use crate::math::length::Length;
use crate::math::scalar::{
    clamp, diff, fx_clamp, fx_diff, fx_neg, fx_prod, fx_quot, fx_ratio, fx_sum, lemma_tdiv_close,
    lemma_tdiv_exact, lemma_tdiv_magnitude, prod, quot, ratio, sat, sum, tdiv, SCALE,
};
use crate::math::trig::{sin_cos_of, SinCos};
use crate::pose::Pose;

verus! {

/// How far the chord of a turn through `dh` can fall short of `dh`: the
/// cube of `dh` over twenty-four, for a turn of up to half a turn. Beyond
/// that the chord may lie anywhere between `dh` and its opposite.
pub open spec fn slack(dh: i64) -> int {
    let m: int = if dh < 0 {
        -dh
    } else {
        dh as int
    };
    if m > PI {
        2 * m
    } else {
        (m * m * m) / (24 * SCALE * SCALE)
    }
}

/// Twice the sine of half of `dh`, held to the range in which the true
/// value lies: between `dh` and `dh` less its slack.
pub open spec fn chord(dh: i64, half_sin: i64) -> i64 {
    if dh >= 0 {
        clamp(sum(half_sin, half_sin), sat(dh - slack(dh)), dh)
    } else {
        clamp(sum(half_sin, half_sin), dh, sat(dh + slack(dh)))
    }
}

/// Displacement of the robot's centre, given what a wheel mounted
/// `offset` from the centre rolled while the robot turned through `dh`:
/// `2 * sin(dh / 2) * (delta / dh + offset)`, and `delta` itself where the
/// robot did not turn.
pub open spec fn arc(delta: i64, dh: i64, offset: i64, half_sin: i64) -> i64 {
    if dh == 0 {
        delta
    } else {
        let c = chord(dh, half_sin);
        sum(ratio(c, delta, dh), prod(c, offset))
    }
}

/// A displacement that ran into the end of the number range stands for
/// no measurement, and counts as none.
pub open spec fn usable(delta: i64) -> i64 {
    if delta == i64::MAX || delta == i64::MIN {
        0
    } else {
        delta
    }
}

/// Half of `dh`, rounded toward zero.
pub open spec fn half(dh: i64) -> i64 {
    tdiv(dh as int, 2) as i64
}

/// The pose estimate, and what is needed to advance it.
#[derive(Clone, Copy, Debug, PartialEq, Eq, Structural)]
pub struct Odometry {
    pub pose: Pose,
    /// The heading sensor's last reading.
    pub prev_heading: Angle,
    /// Offset of the forward wheel from the centre of rotation.
    pub forward_offset: Length,
    /// Offset of the sideways wheel from the centre of rotation.
    pub side_offset: Length,
}

impl Odometry {
    /// Change of heading that a reading of the heading sensor amounts to,
    /// in `(-PI, PI]`; none where the sensor gave no reading.
    pub open spec fn turn(self, heading: Option<Angle>) -> i64 {
        match heading {
            Some(h) => principal(diff(h.0, self.prev_heading.0)),
            None => 0,
        }
    }

    /// Heading halfway through a tick that turns the robot through `dh`.
    pub open spec fn mid_heading(self, dh: i64) -> i64 {
        sum(self.pose.h.0, half(dh))
    }

    /// The estimate after one tick. `forward` and `side` are what the two
    /// wheels rolled, `heading` is the heading sensor's reading, `dt` the
    /// time since the last tick; `half_turn` holds sine and cosine of half
    /// the change of heading, `mid` those of the heading halfway through.
    pub open spec fn after(
        self,
        forward: Option<Length>,
        side: Option<Length>,
        heading: Option<Angle>,
        dt: i64,
        half_turn: SinCos,
        mid: SinCos,
    ) -> Odometry {
        let dh = self.turn(heading);
        let f = usable(
            arc(
                match forward {
                    Some(d) => d.0,
                    None => 0,
                },
                dh,
                self.forward_offset.0,
                half_turn.sin,
            ),
        );
        let s = usable(
            arc(
                match side {
                    Some(d) => d.0,
                    None => 0,
                },
                dh,
                self.side_offset.0,
                half_turn.sin,
            ),
        );
        Odometry {
            pose: Pose {
                x: Length(sum(self.pose.x.0, sum(prod(f, mid.cos), prod(s, mid.sin)))),
                y: Length(sum(self.pose.y.0, diff(prod(f, mid.sin), prod(s, mid.cos)))),
                h: Angle(sum(self.pose.h.0, dh)),
                vf: quot(f, dt),
                vs: quot(s, dt),
                omega: quot(dh, dt),
            },
            prev_heading: match heading {
                Some(h) => h,
                None => self.prev_heading,
            },
            ..self
        }
    }

    /// The estimate after one tick, with the sines and cosines that belong
    /// to it.
    pub open spec fn ticked(
        self,
        forward: Option<Length>,
        side: Option<Length>,
        heading: Option<Angle>,
        dt: i64,
    ) -> Odometry {
        let dh = self.turn(heading);
        self.after(forward, side, heading, dt, sin_cos_of(half(dh)), sin_cos_of(self.mid_heading(dh)))
    }

    /// The estimate after ticks of the given lengths in which neither
    /// wheel rolled and the heading sensor read what it read before.
    pub open spec fn idled(self, ticks: Seq<i64>) -> Odometry
        decreases ticks.len(),
    {
        if ticks.len() == 0 {
            self
        } else {
            self.idled(ticks.drop_last()).ticked(
                Some(Length(0)),
                Some(Length(0)),
                Some(self.prev_heading),
                ticks.last(),
            )
        }
    }

    /// An estimate that starts at `starting_pose`, with the heading sensor
    /// set to that pose's heading.
    pub fn new(starting_pose: Pose, forward_offset: Length, side_offset: Length) -> (r: Self)
        ensures
            r == (Odometry {
                pose: starting_pose,
                prev_heading: starting_pose.h,
                forward_offset,
                side_offset,
            }),
    {
        Odometry { pose: starting_pose, prev_heading: starting_pose.h, forward_offset, side_offset }
    }

    pub fn get_pose(&self) -> (r: Pose)
        ensures
            r == self.pose,
    {
        self.pose
    }

    pub fn set_pose(&mut self, pose: Pose)
        ensures
            *final(self) == (Odometry { pose, ..*old(self) }),
    {
        self.pose = pose;
    }

    /// Change of heading that a reading of the heading sensor amounts to.
    pub fn heading_change(&self, heading: Option<Angle>) -> (r: Angle)
        ensures
            r.0 == self.turn(heading),
            -PI < r.0 <= PI,
    {
        match heading {
            Some(h) => (h - self.prev_heading).wrap(),
            None => Angle(0),
        }
    }

    /// Advances the estimate by one tick, from the sines and cosines that
    /// the caller has at hand.
    pub fn advance(
        &mut self,
        forward: Option<Length>,
        side: Option<Length>,
        heading: Option<Angle>,
        dt: i64,
        half_turn: SinCos,
        mid: SinCos,
    )
        ensures
            *final(self) == old(self).after(forward, side, heading, dt, half_turn, mid),
    {
        let dh: i64 = self.heading_change(heading).0;
        let f0: i64 = match forward {
            Some(d) => d.0,
            None => 0,
        };
        let s0: i64 = match side {
            Some(d) => d.0,
            None => 0,
        };
        let f: i64 = keep_usable(arc_delta(f0, dh, self.forward_offset.0, half_turn.sin));
        let s: i64 = keep_usable(arc_delta(s0, dh, self.side_offset.0, half_turn.sin));
        let pose = Pose {
            x: Length(fx_sum(self.pose.x.0, fx_sum(fx_prod(f, mid.cos), fx_prod(s, mid.sin)))),
            y: Length(fx_sum(self.pose.y.0, fx_diff(fx_prod(f, mid.sin), fx_prod(s, mid.cos)))),
            h: Angle(fx_sum(self.pose.h.0, dh)),
            vf: fx_quot(f, dt),
            vs: fx_quot(s, dt),
            omega: fx_quot(dh, dt),
        };
        self.pose = pose;
        match heading {
            Some(h) => {
                self.prev_heading = h;
            },
            None => {},
        }
    }

    /// Advances the estimate by one tick: `forward` and `side` are what
    /// the two wheels rolled since the last tick, `heading` is the heading
    /// sensor's reading and `dt` the time since the last tick. A reading
    /// that is missing counts as no movement.
    pub fn update(
        &mut self,
        forward: Option<Length>,
        side: Option<Length>,
        heading: Option<Angle>,
        dt: i64,
    )
        ensures
            *final(self) == old(self).ticked(forward, side, heading, dt),
    {
        let dh: i64 = self.heading_change(heading).0;
        let half_turn: SinCos = Angle(dh / 2).sin_cos();
        let mid: SinCos = Angle(fx_sum(self.pose.h.0, dh / 2)).sin_cos();
        self.advance(forward, side, heading, dt, half_turn, mid);
    }
}

/// A robot whose wheels do not roll and whose heading sensor reads what it
/// read before stays where it is, for any number of ticks of any lengths:
/// position, heading and the sensor's last reading are kept, and from the
/// first tick on the velocities are zero. A pose at rest is kept whole.
pub proof fn lemma_zero_motion(o: Odometry, ticks: Seq<i64>)
    ensures
        o.idled(ticks).pose.x == o.pose.x,
        o.idled(ticks).pose.y == o.pose.y,
        o.idled(ticks).pose.h == o.pose.h,
        o.idled(ticks).prev_heading == o.prev_heading,
        o.idled(ticks).forward_offset == o.forward_offset,
        o.idled(ticks).side_offset == o.side_offset,
        ticks.len() > 0 ==> o.idled(ticks).pose == (Pose { vf: 0, vs: 0, omega: 0, ..o.pose }),
        o.pose.vf == 0 && o.pose.vs == 0 && o.pose.omega == 0 ==> o.idled(ticks).pose == o.pose,
    decreases ticks.len(),
{
    if ticks.len() > 0 {
        let before = o.idled(ticks.drop_last());
        lemma_zero_motion(o, ticks.drop_last());
        let dt = ticks.last();
        let dh = before.turn(Some(o.prev_heading));
        assert(dh == 0);
        let mid = sin_cos_of(before.mid_heading(dh));
        lemma_prod_zero(mid.cos);
        lemma_prod_zero(mid.sin);
        lemma_quot_zero(dt);
    }
}

/// Magnitude of a number.
pub open spec fn size(v: i64) -> int {
    if v < 0 {
        -v
    } else {
        v as int
    }
}

/// How far the arc correction can move a wheel's displacement `delta`
/// when the robot turns through `dh`: a share of `delta` that falls with
/// the square of `dh`, the wheel's offset times `dh`, and one step of
/// rounding.
pub open spec fn arc_gap(delta: i64, dh: i64, offset: i64) -> int {
    (size(delta) * size(dh) * size(dh)) / (24 * SCALE * SCALE) + (size(offset) * size(dh)) / (
    SCALE as int) + 1
}

/// Around a turn of zero the correction changes nothing: for a turn so
/// small that its chord has no slack and that it swings the wheel's offset
/// through less than one step, the corrected displacement is the raw one.
pub proof fn lemma_arc_exact_near_zero(delta: i64, dh: i64, offset: i64, half_sin: i64)
    requires
        slack(dh) == 0,
        size(offset) * size(dh) < SCALE,
    ensures
        arc(delta, dh, offset, half_sin) == delta,
{
    if dh != 0 {
        let c = chord(dh, half_sin);
        assert(c == dh);
        lemma_tdiv_exact(delta as int, dh as int);
        assert(c * delta == dh * delta);
        assert(ratio(c, delta, dh) == delta);
        let o = offset as int;
        let d = dh as int;
        assert(-(size(offset) * size(dh)) <= d * o <= size(offset) * size(dh)) by (nonlinear_arith)
            requires
                size(offset) == o || size(offset) == -o,
                size(dh) == d || size(dh) == -d,
        ;
        assert(prod(c, offset) == 0);
    }
}

/// The corrected displacement tends to the raw one as the turn tends to
/// zero: whatever the sine handed in, the two differ by no more than
/// `arc_gap`, whose first two terms vanish with `dh`.
pub proof fn lemma_arc_continuous(delta: i64, dh: i64, offset: i64, half_sin: i64)
    requires
        -PI <= dh <= PI,
    ensures
        -arc_gap(delta, dh, offset) <= arc(delta, dh, offset, half_sin) - delta <= arc_gap(
            delta,
            dh,
            offset,
        ),
{
    let a = size(dh);
    let g1 = (size(delta) * a * a) / (24 * SCALE * SCALE);
    let g2 = (size(offset) * a) / (SCALE as int);
    assert(size(delta) * a * a >= 0) by (nonlinear_arith)
        requires
            size(delta) >= 0,
            a >= 0,
    ;
    assert(size(offset) * a >= 0) by (nonlinear_arith)
        requires
            size(offset) >= 0,
            a >= 0,
    ;
    if dh != 0 {
        let c = chord(dh, half_sin);
        let e = size(dh) - size(c);
        lemma_slack_small(dh);
        assert(0 <= e <= slack(dh));
        assert(a >= 1);
        assert(dh - c == e || dh - c == -e);
        assert(e * (24 * SCALE * SCALE) <= slack(dh) * (24 * SCALE * SCALE)) by (nonlinear_arith)
            requires
                0 <= e <= slack(dh),
                SCALE == 1_000_000,
        ;
        // the first term: the wheel's displacement, scaled by chord over turn
        let n = c * delta;
        let t = tdiv(n, dh as int);
        lemma_tdiv_close(n, dh as int);
        lemma_first_term(delta as int, dh as int, c as int, e, t, g1);
        // the second term: the offset, swung through the chord
        let m = c * offset;
        assert(-(size(offset) * a) <= m <= size(offset) * a) by (nonlinear_arith)
            requires
                -a <= c <= a,
                size(offset) == offset || size(offset) == -offset,
                size(offset) >= 0,
                m == c * offset,
        ;
        lemma_tdiv_magnitude(m, SCALE as int, size(offset) * a);
    }
}

/// The slack of a turn of at most half a turn is less than the turn.
proof fn lemma_slack_small(dh: i64)
    requires
        -PI <= dh <= PI,
        dh != 0,
    ensures
        0 <= slack(dh) < size(dh),
        slack(dh) * (24 * SCALE * SCALE) <= size(dh) * size(dh) * size(dh),
{
    let a = size(dh);
    let cube = a * a * a;
    assert(0 <= cube < a * (24 * SCALE * SCALE)) by (nonlinear_arith)
        requires
            1 <= a <= 3_141_593,
            cube == a * a * a,
            SCALE == 1_000_000,
    ;
    vstd::arithmetic::div_mod::lemma_fundamental_div_mod(cube, 24 * SCALE * SCALE);
    vstd::arithmetic::div_mod::lemma_mod_pos_bound(cube, 24 * SCALE * SCALE);
    vstd::arithmetic::div_mod::lemma_div_pos_is_pos(cube, 24 * SCALE * SCALE);
    let k = 24 * SCALE * SCALE;
    let q = cube / k;
    assert(k * q == q * k) by (nonlinear_arith);
    assert(q < a) by (nonlinear_arith)
        requires
            q * k <= cube,
            cube < a * k,
            k > 0,
    ;
}

/// The quotient `c * delta / dh` stays within `g1 + 1` of `delta` when the
/// chord `c` falls short of the turn `dh` by `e`.
proof fn lemma_first_term(delta: int, dh: int, c: int, e: int, t: int, g1: int)
    requires
        dh != 0,
        -PI <= dh <= PI,
        dh - c == e || dh - c == -e,
        0 <= e,
        e * (24 * SCALE * SCALE) <= (if dh < 0 { -dh } else { dh }) * (if dh < 0 { -dh } else { dh })
            * (if dh < 0 { -dh } else { dh }),
        dh > 0 ==> -dh < t * dh - c * delta < dh,
        dh < 0 ==> dh < t * dh - c * delta < -dh,
        g1 == ((if delta < 0 { -delta } else { delta }) * (if dh < 0 { -dh } else { dh }) * (if dh
            < 0 { -dh } else { dh })) / (24 * SCALE * SCALE),
    ensures
        -(g1 + 1) <= t - delta <= g1 + 1,
{
    let a = if dh < 0 {
        -dh
    } else {
        dh
    };
    let b = if delta < 0 {
        -delta
    } else {
        delta
    };
    let k = 24 * SCALE * SCALE;
    let big = b * a * a;
    let dist = if t - delta < 0 {
        delta - t
    } else {
        t - delta
    };
    // |(t - delta) * dh| <= a - 1 + e * b
    assert(dist * a <= a - 1 + e * b) by (nonlinear_arith)
        requires
            a == dh || a == -dh,
            a >= 1,
            b == delta || b == -delta,
            b >= 0,
            dist == t - delta || dist == delta - t,
            dist >= 0,
            -a < t * dh - c * delta < a,
            dh - c == e || dh - c == -e,
            e >= 0,
    ;
    assert(big >= 0) by (nonlinear_arith)
        requires
            big == b * a * a,
            b >= 0,
            a >= 0,
    ;
    vstd::arithmetic::div_mod::lemma_fundamental_div_mod(big, k);
    vstd::arithmetic::div_mod::lemma_mod_pos_bound(big, k);
    assert((g1 + 1) * k == k * g1 + k) by (nonlinear_arith);
    assert(dist <= g1 + 1) by (nonlinear_arith)
        requires
            dist * a <= a - 1 + e * b,
            (g1 + 1) * k > b * a * a,
            e * k <= a * a * a,
            a >= 1,
            b >= 0,
            e >= 0,
            k > 0,
            dist >= 0,
            g1 >= 0,
    ;
}

proof fn lemma_prod_zero(b: i64)
    ensures
        prod(0, b) == 0,
{
    assert(0 * b == 0) by (nonlinear_arith);
}

proof fn lemma_quot_zero(b: i64)
    ensures
        quot(0, b) == 0,
{
    assert(0 * SCALE == 0);
}

/// Twice the sine of half of `dh`, held to the range in which the true
/// value lies.
pub fn chord_of(dh: i64, half_sin: i64) -> (r: i64)
    ensures
        r == chord(dh, half_sin),
{
    let twice: i64 = fx_sum(half_sin, half_sin);
    if dh > PI {
        return fx_clamp(twice, fx_neg(dh), dh);
    }
    if dh < -PI {
        return fx_clamp(twice, dh, fx_neg(dh));
    }
    let m: i128 = if dh < 0 {
        -(dh as i128)
    } else {
        dh as i128
    };
    assert(0 <= m <= 3_141_593);
    assert(m * m <= 3_141_593 * 3_141_593) by (nonlinear_arith)
        requires
            0 <= m <= 3_141_593,
    ;
    let square: i128 = m * m;
    assert(square * m <= 3_141_593 * 3_141_593 * 3_141_593) by (nonlinear_arith)
        requires
            0 <= m <= 3_141_593,
            0 <= square <= 3_141_593 * 3_141_593,
    ;
    let gap: i128 = (square * m) / 24_000_000_000_000;
    assert(gap == slack(dh)) by {
        assert(m * m * m == square * m);
        assert(24 * SCALE * SCALE == 24_000_000_000_000);
    }
    if dh >= 0 {
        fx_clamp(twice, (dh as i128 - gap) as i64, dh)
    } else {
        fx_clamp(twice, dh, (dh as i128 + gap) as i64)
    }
}

/// Displacement of the robot's centre, given what a wheel mounted
/// `offset` from the centre rolled while the robot turned through `dh`.
pub fn arc_delta(delta: i64, dh: i64, offset: i64, half_sin: i64) -> (r: i64)
    ensures
        r == arc(delta, dh, offset, half_sin),
{
    if dh == 0 {
        delta
    } else {
        let c: i64 = chord_of(dh, half_sin);
        fx_sum(fx_ratio(c, delta, dh), fx_prod(c, offset))
    }
}

/// Replaces a displacement that ran into the end of the number range by
/// none.
pub fn keep_usable(delta: i64) -> (r: i64)
    ensures
        r == usable(delta),
{
    if delta == i64::MAX || delta == i64::MIN {
        0
    } else {
        delta
    }
}

/// The largest wheel displacement and coordinate for which the law below
/// is stated: beyond it a sum could run into the end of the number range.
pub const TAME: i64 = 0x0100_0000_0000_0000;

/// A tick without a turn uses both displacements as read and keeps the
/// heading, whatever the heading is: the step's length, squared, is the
/// displacements' length, squared, times `sin^2 + cos^2` of the heading
/// halfway, up to rounding. For a sine and cosine on the unit circle the
/// step is as long as the displacements say.
pub proof fn lemma_straight_step_keeps_length(
    o: Odometry,
    forward: i64,
    side: i64,
    dt: i64,
    half_turn: SinCos,
    mid: SinCos,
)
    requires
        mid.wf(),
        -TAME <= forward <= TAME,
        -TAME <= side <= TAME,
        -TAME <= o.pose.x.0 <= TAME,
        -TAME <= o.pose.y.0 <= TAME,
    ensures
        ({
            let n = o.after(Some(Length(forward)), Some(Length(side)), None, dt, half_turn, mid);
            let dx = n.pose.x.0 - o.pose.x.0;
            let dy = n.pose.y.0 - o.pose.y.0;
            let expected = (forward * forward + side * side) * (mid.sin * mid.sin + mid.cos
                * mid.cos);
            let rounding = 8 * SCALE * SCALE * (size(forward) + size(side) + 1);
            &&& n.pose.h == o.pose.h
            &&& -rounding <= SCALE * SCALE * (dx * dx + dy * dy) - expected <= rounding
            &&& mid.sin * mid.sin + mid.cos * mid.cos == SCALE * SCALE ==> -8 * (size(forward)
                + size(side) + 1) <= dx * dx + dy * dy - (forward * forward + side * side) <= 8 * (
            size(forward) + size(side) + 1)
        }),
{
    let unit = SCALE as int;
    let f = forward as int;
    let s = side as int;
    let c = mid.cos as int;
    let sn = mid.sin as int;
    let n = o.after(Some(Length(forward)), Some(Length(side)), None, dt, half_turn, mid);
    let a = tdiv(f * c, unit);
    let b = tdiv(s * sn, unit);
    let d = tdiv(f * sn, unit);
    let e = tdiv(s * c, unit);
    lemma_tdiv_close(f * c, unit);
    lemma_tdiv_close(s * sn, unit);
    lemma_tdiv_close(f * sn, unit);
    lemma_tdiv_close(s * c, unit);
    let m = (size(forward) + size(side)) * unit;
    lemma_turned_within(f, s, c, sn, unit);
    // the four products stay far from the ends of the range
    assert(-TAME - 1 <= a <= TAME + 1 && -TAME - 1 <= b <= TAME + 1 && -TAME - 1 <= d <= TAME + 1
        && -TAME - 1 <= e <= TAME + 1) by {
        lemma_product_within(f, c, unit);
        lemma_product_within(s, sn, unit);
        lemma_product_within(f, sn, unit);
        lemma_product_within(s, c, unit);
        lemma_tdiv_magnitude(f * c, unit, size(forward) * unit);
        lemma_tdiv_magnitude(s * sn, unit, size(side) * unit);
        lemma_tdiv_magnitude(f * sn, unit, size(forward) * unit);
        lemma_tdiv_magnitude(s * c, unit, size(side) * unit);
        vstd::arithmetic::div_mod::lemma_div_multiples_vanish(size(forward), unit);
        vstd::arithmetic::div_mod::lemma_div_multiples_vanish(size(side), unit);
        assert(size(forward) * unit == unit * size(forward)) by (nonlinear_arith);
        assert(size(side) * unit == unit * size(side)) by (nonlinear_arith);
    }
    assert(prod(forward, mid.cos) == a && prod(side, mid.sin) == b && prod(forward, mid.sin) == d
        && prod(side, mid.cos) == e);
    let dx = n.pose.x.0 - o.pose.x.0;
    let dy = n.pose.y.0 - o.pose.y.0;
    assert(dx == a + b);
    assert(dy == d - e);
    let big_a = f * c + s * sn;
    let big_b = f * sn - s * c;
    let d1 = unit * dx - big_a;
    let d2 = unit * dy - big_b;
    assert(-2 * unit < d1 < 2 * unit && -2 * unit < d2 < 2 * unit) by (nonlinear_arith)
        requires
            d1 == unit * (a + b) - (f * c + s * sn),
            d2 == unit * (d - e) - (f * sn - s * c),
            -unit < a * unit - f * c < unit,
            -unit < b * unit - s * sn < unit,
            -unit < d * unit - f * sn < unit,
            -unit < e * unit - s * c < unit,
    ;
    lemma_turn_keeps_squares(f, s, c, sn);
    lemma_square_near(big_a, d1, m, unit);
    lemma_square_near(big_b, d2, m, unit);
    assert(unit * unit * (dx * dx + dy * dy) == (big_a + d1) * (big_a + d1) + (big_b + d2) * (big_b
        + d2)) by (nonlinear_arith)
        requires
            d1 == unit * dx - big_a,
            d2 == unit * dy - big_b,
    ;
    assert(8 * unit * m + 8 * unit * unit == 8 * unit * unit * (size(forward) + size(side) + 1))
        by (nonlinear_arith)
        requires
            m == (size(forward) + size(side)) * unit,
    ;
    let expected = (f * f + s * s) * (sn * sn + c * c);
    let rounding = 8 * unit * unit * (size(forward) + size(side) + 1);
    let scaled = unit * unit * (dx * dx + dy * dy);
    assert(n.pose.h == o.pose.h);
    assert(scaled - expected == ((big_a + d1) * (big_a + d1) - big_a * big_a) + ((big_b + d2) * (
    big_b + d2) - big_b * big_b));
    assert(2 * (4 * unit * m + 4 * unit * unit) == rounding) by (nonlinear_arith)
        requires
            m == (size(forward) + size(side)) * unit,
            rounding == 8 * unit * unit * (size(forward) + size(side) + 1),
    ;
    assert(-rounding <= scaled - expected <= rounding);
    if sn * sn + c * c == unit * unit {
        let gap = dx * dx + dy * dy - (f * f + s * s);
        let most = 8 * (size(forward) + size(side) + 1);
        assert(unit * unit * most == rounding) by (nonlinear_arith)
            requires
                most == 8 * (size(forward) + size(side) + 1),
                rounding == 8 * unit * unit * (size(forward) + size(side) + 1),
        ;
        assert(expected == (f * f + s * s) * (unit * unit));
        assert(-most <= gap <= most) by (nonlinear_arith)
            requires
                -(unit * unit * most) <= unit * unit * (dx * dx + dy * dy) - (f * f + s * s) * (
                unit * unit) <= unit * unit * most,
                gap == dx * dx + dy * dy - (f * f + s * s),
                unit > 0,
        ;
    }
}

/// The product of a displacement and a sine or cosine is no larger than
/// the displacement.
proof fn lemma_product_within(v: int, t: int, unit: int)
    requires
        -unit <= t <= unit,
        unit > 0,
    ensures
        ({
            let bound = (if v < 0 { -v } else { v }) * unit;
            -bound <= v * t <= bound
        }),
{
    let m = if v < 0 {
        -v
    } else {
        v
    };
    assert(-(m * unit) <= v * t <= m * unit) by (nonlinear_arith)
        requires
            m == v || m == -v,
            m >= 0,
            -unit <= t <= unit,
    ;
}

/// A vector turned by a sine and cosine is no longer than the sum of its
/// coordinates.
proof fn lemma_turned_within(f: int, s: int, c: int, sn: int, unit: int)
    requires
        -unit <= c <= unit,
        -unit <= sn <= unit,
        unit > 0,
    ensures
        ({
            let m = ((if f < 0 { -f } else { f }) + (if s < 0 { -s } else { s })) * unit;
            &&& -m <= f * c + s * sn <= m
            &&& -m <= f * sn - s * c <= m
        }),
{
    lemma_product_within(f, c, unit);
    lemma_product_within(s, sn, unit);
    lemma_product_within(f, sn, unit);
    lemma_product_within(s, c, unit);
    let af = if f < 0 {
        -f
    } else {
        f
    };
    let as_ = if s < 0 {
        -s
    } else {
        s
    };
    assert((af + as_) * unit == af * unit + as_ * unit) by (nonlinear_arith);
}

/// Turning a vector keeps its squared length but for the factor
/// `sin^2 + cos^2`.
proof fn lemma_turn_keeps_squares(f: int, s: int, c: int, sn: int)
    ensures
        (f * c + s * sn) * (f * c + s * sn) + (f * sn - s * c) * (f * sn - s * c) == (f * f + s * s)
            * (sn * sn + c * c),
{
    let p1 = f * c;
    let p2 = s * sn;
    let p3 = f * sn;
    let p4 = s * c;
    let ff = f * f;
    let ss = s * s;
    let cc = c * c;
    let nn = sn * sn;
    assert((p1 + p2) * (p1 + p2) == p1 * p1 + 2 * (p1 * p2) + p2 * p2) by (nonlinear_arith);
    assert((p3 - p4) * (p3 - p4) == p3 * p3 - 2 * (p3 * p4) + p4 * p4) by (nonlinear_arith);
    lemma_swap_factors(f, c, s, sn);
    lemma_swap_factors(f, sn, s, c);
    assert(p1 * p2 == p3 * p4) by {
        assert((f * s) * (c * sn) == (f * s) * (sn * c)) by (nonlinear_arith);
    }
    lemma_swap_factors(f, c, f, c);
    lemma_swap_factors(s, sn, s, sn);
    lemma_swap_factors(f, sn, f, sn);
    lemma_swap_factors(s, c, s, c);
    assert(p1 * p1 == ff * cc && p2 * p2 == ss * nn && p3 * p3 == ff * nn && p4 * p4 == ss * cc);
    assert((ff + ss) * (nn + cc) == ff * nn + ff * cc + ss * nn + ss * cc) by (nonlinear_arith);
}

/// `(a b)(c d) = (a c)(b d)`.
proof fn lemma_swap_factors(a: int, b: int, c: int, d: int)
    ensures
        (a * b) * (c * d) == (a * c) * (b * d),
{
    vstd::arithmetic::mul::lemma_mul_is_associative(a, b, c * d);
    vstd::arithmetic::mul::lemma_mul_is_associative(b, c, d);
    vstd::arithmetic::mul::lemma_mul_is_commutative(b, c);
    vstd::arithmetic::mul::lemma_mul_is_associative(c, b, d);
    vstd::arithmetic::mul::lemma_mul_is_associative(a, c, b * d);
}

/// The square of a number that is off by less than two units differs from
/// the number's square by little.
proof fn lemma_square_near(value: int, off: int, m: int, unit: int)
    requires
        -m <= value <= m,
        -2 * unit < off < 2 * unit,
        unit > 0,
        m >= 0,
    ensures
        -(4 * unit * m + 4 * unit * unit) <= (value + off) * (value + off) - value * value <= 4
            * unit * m + 4 * unit * unit,
{
    let twice = 2 * value + off;
    assert((value + off) * (value + off) - value * value == off * twice) by (nonlinear_arith)
        requires
            twice == 2 * value + off,
    ;
    assert(-(2 * unit * (2 * m + 2 * unit)) <= off * twice <= 2 * unit * (2 * m + 2 * unit))
        by (nonlinear_arith)
        requires
            -2 * unit < off < 2 * unit,
            -(2 * m + 2 * unit) <= twice <= 2 * m + 2 * unit,
            unit > 0,
            m >= 0,
    ;
    assert(2 * unit * (2 * m + 2 * unit) == 4 * unit * m + 4 * unit * unit) by (nonlinear_arith);
}

} // verus!
