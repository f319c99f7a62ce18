//! Cubic curves.

use vstd::prelude::*;
use crate::math::scalar::{diff, fx_prod, prod, sum, SCALE};
use crate::pose::Vec2;

verus! {

/// The number two.
pub const TWO: i64 = 2_000_000;

/// The number three.
pub const THREE: i64 = 3_000_000;

/// The number six.
pub const SIX: i64 = 6_000_000;

/// Sum of two vectors.
pub open spec fn plus(a: Vec2<i64>, b: Vec2<i64>) -> Vec2<i64> {
    Vec2 { x: sum(a.x, b.x), y: sum(a.y, b.y) }
}

/// Difference of two vectors.
pub open spec fn minus(a: Vec2<i64>, b: Vec2<i64>) -> Vec2<i64> {
    Vec2 { x: diff(a.x, b.x), y: diff(a.y, b.y) }
}

/// A vector times a number.
pub open spec fn scaled(a: Vec2<i64>, k: i64) -> Vec2<i64> {
    Vec2 { x: prod(a.x, k), y: prod(a.y, k) }
}

/// A cubic curve through `p0` and `p3`, pulled toward `p1` and `p2`.
#[derive(Clone, Copy, Debug, PartialEq, Eq)]
pub struct Bezier {
    pub p0: Vec2<i64>,
    pub p1: Vec2<i64>,
    pub p2: Vec2<i64>,
    pub p3: Vec2<i64>,
}

impl Bezier {
    /// Coefficient of the cube of the parameter: `p3 + 3 (p1 - p2) - p0`.
    pub open spec fn cubic(self) -> Vec2<i64> {
        minus(plus(self.p3, scaled(minus(self.p1, self.p2), THREE)), self.p0)
    }

    /// A third of the coefficient of its square: `p0 - 2 p1 + p2`.
    pub open spec fn quadratic(self) -> Vec2<i64> {
        plus(minus(self.p0, scaled(self.p1, TWO)), self.p2)
    }

    /// A third of the coefficient of the parameter itself: `p1 - p0`.
    pub open spec fn slope(self) -> Vec2<i64> {
        minus(self.p1, self.p0)
    }

    /// The point of the curve at parameter `t`.
    pub open spec fn point_at(self, t: i64) -> Vec2<i64> {
        plus(
            plus(
                plus(
                    scaled(self.cubic(), prod(prod(t, t), t)),
                    scaled(self.quadratic(), prod(THREE, prod(t, t))),
                ),
                scaled(self.slope(), prod(THREE, t)),
            ),
            self.p0,
        )
    }

    /// The curve's velocity at parameter `t`.
    pub open spec fn derivative_at(self, t: i64) -> Vec2<i64> {
        scaled(
            plus(
                plus(scaled(self.cubic(), prod(t, t)), scaled(self.quadratic(), prod(TWO, t))),
                self.slope(),
            ),
            THREE,
        )
    }

    /// The curve's acceleration at parameter `t`.
    pub open spec fn second_derivative_at(self, t: i64) -> Vec2<i64> {
        scaled(plus(scaled(self.cubic(), t), self.quadratic()), SIX)
    }

    pub fn new(p0: Vec2<i64>, p1: Vec2<i64>, p2: Vec2<i64>, p3: Vec2<i64>) -> (b: Self)
        ensures
            b.p0 == p0,
            b.p1 == p1,
            b.p2 == p2,
            b.p3 == p3,
    {
        Bezier { p0, p1, p2, p3 }
    }

    fn cubic_term(&self) -> (c: Vec2<i64>)
        ensures
            c == self.cubic(),
    {
        self.p3 + (self.p1 - self.p2) * THREE - self.p0
    }

    fn quadratic_term(&self) -> (c: Vec2<i64>)
        ensures
            c == self.quadratic(),
    {
        self.p0 - self.p1 * TWO + self.p2
    }

    /// The point of the curve at parameter `t`, which runs from zero to
    /// one.
    pub fn point(&self, t: i64) -> (p: Vec2<i64>)
        ensures
            p == self.point_at(t),
    {
        let tt: i64 = fx_prod(t, t);
        self.cubic_term() * fx_prod(tt, t) + self.quadratic_term() * fx_prod(THREE, tt) + (self.p1
            - self.p0) * fx_prod(THREE, t) + self.p0
    }

    /// The curve's velocity at parameter `t`.
    pub fn derivative(&self, t: i64) -> (d: Vec2<i64>)
        ensures
            d == self.derivative_at(t),
    {
        (self.cubic_term() * fx_prod(t, t) + self.quadratic_term() * fx_prod(TWO, t) + (self.p1
            - self.p0)) * THREE
    }

    /// The curve's acceleration at parameter `t`.
    pub fn second_derivative(&self, t: i64) -> (d: Vec2<i64>)
        ensures
            d == self.second_derivative_at(t),
    {
        (self.cubic_term() * t + self.quadratic_term()) * SIX
    }
}

/// The curve starts at its first control point.
pub proof fn lemma_starts_at_p0(b: Bezier)
    ensures
        b.point_at(0) == b.p0,
{
    assert(prod(0, 0) == 0) by {
        assert(0 * 0 == 0);
    }
    assert(prod(THREE, 0) == 0) by {
        assert(THREE * 0 == 0);
    }
    lemma_scaled_by_zero(b.cubic());
    lemma_scaled_by_zero(b.quadratic());
    lemma_scaled_by_zero(b.slope());
}

/// A coordinate is small enough that no step of the curve's arithmetic
/// runs into the end of the number range.
pub open spec fn tame(v: Vec2<i64>) -> bool {
    &&& -0x0004_0000_0000_0000 <= v.x <= 0x0004_0000_0000_0000
    &&& -0x0004_0000_0000_0000 <= v.y <= 0x0004_0000_0000_0000
}

/// The curve ends at its last control point.
pub proof fn lemma_ends_at_p3(b: Bezier)
    requires
        tame(b.p0),
        tame(b.p1),
        tame(b.p2),
        tame(b.p3),
    ensures
        b.point_at(SCALE) == b.p3,
{
    assert(prod(SCALE, SCALE) == SCALE);
    assert(prod(prod(SCALE, SCALE), SCALE) == SCALE);
    assert(prod(THREE, SCALE) == THREE);
    lemma_whole_multiple(diff(b.p1.x, b.p2.x), 3);
    lemma_whole_multiple(diff(b.p1.y, b.p2.y), 3);
    lemma_whole_multiple(b.p1.x, 2);
    lemma_whole_multiple(b.p1.y, 2);
    lemma_whole_multiple(b.cubic().x, 1);
    lemma_whole_multiple(b.cubic().y, 1);
    lemma_whole_multiple(b.quadratic().x, 3);
    lemma_whole_multiple(b.quadratic().y, 3);
    lemma_whole_multiple(b.slope().x, 3);
    lemma_whole_multiple(b.slope().y, 3);
}

/// Multiplying by a small whole number is exact.
proof fn lemma_whole_multiple(v: i64, k: int)
    requires
        1 <= k <= 3,
        -0x0100_0000_0000_0000 <= v <= 0x0100_0000_0000_0000,
    ensures
        prod(v, (k * SCALE) as i64) == k * v,
{
    let m = (k * SCALE) as i64;
    assert(v * m == SCALE * (k * v)) by (nonlinear_arith)
        requires
            m == k * SCALE,
    ;
    crate::math::scalar::lemma_tdiv_exact(k * v, SCALE as int);
    assert(crate::math::scalar::tdiv(v * m, SCALE as int) == k * v);
}

proof fn lemma_scaled_by_zero(v: Vec2<i64>)
    ensures
        scaled(v, 0) == (Vec2 { x: 0i64, y: 0i64 }),
{
    assert(v.x * 0 == 0) by (nonlinear_arith);
    assert(v.y * 0 == 0) by (nonlinear_arith);
}

} // verus!
