//! Saturating fixed-point arithmetic with six decimal places.

use vstd::prelude::*;

verus! {

/// Fixed-point steps that make up one unit.
pub const SCALE: i64 = 1_000_000;

/// The nearest `i64` to `x`.
pub open spec fn sat(x: int) -> i64 {
    if x > i64::MAX {
        i64::MAX
    } else if x < i64::MIN {
        i64::MIN
    } else {
        x as i64
    }
}

/// Quotient of `a` by `b`, rounded toward zero.
pub open spec fn tdiv(a: int, b: int) -> int
    recommends
        b != 0,
{
    if b > 0 {
        if a >= 0 {
            a / b
        } else {
            -((-a) / b)
        }
    } else {
        if a >= 0 {
            -(a / (-b))
        } else {
            (-a) / (-b)
        }
    }
}

/// Sum, held to the `i64` range.
pub open spec fn sum(a: i64, b: i64) -> i64 {
    sat(a + b)
}

/// Difference, held to the `i64` range.
pub open spec fn diff(a: i64, b: i64) -> i64 {
    sat(a - b)
}

/// Opposite, held to the `i64` range.
pub open spec fn neg(a: i64) -> i64 {
    sat(-a)
}

/// Magnitude, held to the `i64` range.
pub open spec fn abs(a: i64) -> i64 {
    if a < 0 {
        sat(-a)
    } else {
        a
    }
}

/// Sign of `a` as a fixed-point number: minus one, zero or one.
pub open spec fn sign(a: i64) -> i64 {
    if a > 0 {
        SCALE
    } else if a < 0 {
        (-SCALE) as i64
    } else {
        0
    }
}

/// `x` held between `lo` and `hi`; `lo` wins where the two cross.
pub open spec fn clamp(x: i64, lo: i64, hi: i64) -> i64 {
    if x < lo {
        lo
    } else if x > hi {
        hi
    } else {
        x
    }
}

/// `a * b / c` with a single rounding; zero where `c` is zero.
pub open spec fn ratio(a: i64, b: i64, c: i64) -> i64 {
    if c == 0 {
        0
    } else {
        sat(tdiv(a * b, c as int))
    }
}

/// Fixed-point product.
pub open spec fn prod(a: i64, b: i64) -> i64 {
    ratio(a, b, SCALE)
}

/// Fixed-point quotient; zero where the divisor is zero.
pub open spec fn quot(a: i64, b: i64) -> i64 {
    ratio(a, SCALE, b)
}

/// `r` is the integer square root of `n`.
pub open spec fn is_root(r: int, n: int) -> bool {
    0 <= r && r * r <= n < (r + 1) * (r + 1)
}

/// Integer square root of `n`, for `n >= 0`.
pub open spec fn root(n: int) -> int {
    choose|r: int| is_root(r, n)
}

/// Length of the vector `(x, y)`.
pub open spec fn hypot(x: i64, y: i64) -> i64 {
    sat(root(x * x + y * y))
}

/// Fixed-point square root; zero for a negative argument.
pub open spec fn sqrt(a: i64) -> i64 {
    if a < 0 {
        0
    } else {
        sat(root(a * SCALE))
    }
}

/// A number has at most one integer square root.
pub proof fn lemma_root_unique(r: int, n: int)
    requires
        is_root(r, n),
    ensures
        root(n) == r,
{
    let c = root(n);
    assert(is_root(c, n));
    if c < r {
        assert((c + 1) * (c + 1) <= r * r) by (nonlinear_arith)
            requires
                0 <= c,
                c + 1 <= r,
        ;
    }
    if r < c {
        assert((r + 1) * (r + 1) <= c * c) by (nonlinear_arith)
            requires
                0 <= r,
                r + 1 <= c,
        ;
    }
}

/// The quotient of a multiple of the divisor is exact.
pub proof fn lemma_tdiv_exact(x: int, d: int)
    requires
        d != 0,
    ensures
        tdiv(d * x, d) == x,
{
    let n = d * x;
    let m = -d;
    if d > 0 {
        if n >= 0 {
            vstd::arithmetic::div_mod::lemma_div_multiples_vanish(x, d);
        } else {
            assert(-n == d * (-x)) by (nonlinear_arith)
                requires
                    n == d * x,
            ;
            vstd::arithmetic::div_mod::lemma_div_multiples_vanish(-x, d);
        }
    } else {
        if n >= 0 {
            assert(n == m * (-x)) by (nonlinear_arith)
                requires
                    n == d * x,
                    m == -d,
            ;
            vstd::arithmetic::div_mod::lemma_div_multiples_vanish(-x, m);
        } else {
            assert(-n == m * x) by (nonlinear_arith)
                requires
                    n == d * x,
                    m == -d,
            ;
            vstd::arithmetic::div_mod::lemma_div_multiples_vanish(x, m);
        }
    }
}

/// The truncated quotient, times the divisor, misses the dividend by less
/// than the divisor.
pub proof fn lemma_tdiv_close(n: int, d: int)
    requires
        d != 0,
    ensures
        d > 0 ==> -d < tdiv(n, d) * d - n < d,
        d < 0 ==> d < tdiv(n, d) * d - n < -d,
{
    let m = if d < 0 {
        -d
    } else {
        d
    };
    let a = if n < 0 {
        -n
    } else {
        n
    };
    vstd::arithmetic::div_mod::lemma_fundamental_div_mod(a, m);
    vstd::arithmetic::div_mod::lemma_mod_pos_bound(a, m);
    let q = a / m;
    let r = a % m;
    assert(a == m * q + r);
    let t = tdiv(n, d);
    if d > 0 {
        if n >= 0 {
            assert(t == q);
            assert(t * d == m * q) by (nonlinear_arith)
                requires
                    t == q,
                    m == d,
            ;
        } else {
            assert(t == -q);
            assert(t * d == -(m * q)) by (nonlinear_arith)
                requires
                    t == -q,
                    m == d,
            ;
        }
    } else {
        if n >= 0 {
            assert(t == -q);
            assert(t * d == m * q) by (nonlinear_arith)
                requires
                    t == -q,
                    m == -d,
            ;
        } else {
            assert(t == q);
            assert(t * d == -(m * q)) by (nonlinear_arith)
                requires
                    t == q,
                    m == -d,
            ;
        }
    }
}

/// The truncated quotient by a positive number is no larger in magnitude
/// than the quotient of the magnitudes.
pub proof fn lemma_tdiv_magnitude(n: int, d: int, bound: int)
    requires
        d > 0,
        -bound <= n <= bound,
    ensures
        -(bound / d) <= tdiv(n, d) <= bound / d,
{
    let a = if n < 0 {
        -n
    } else {
        n
    };
    vstd::arithmetic::div_mod::lemma_div_is_ordered(a, bound, d);
    vstd::arithmetic::div_mod::lemma_div_pos_is_pos(a, d);
}

/// The product of two `i64` fits in an `i128` with room to spare.
proof fn lemma_product_bounds(a: int, b: int)
    requires
        i64::MIN <= a <= i64::MAX,
        i64::MIN <= b <= i64::MAX,
    ensures
        -0x4000_0000_0000_0000_0000_0000_0000_0000 <= a * b
            <= 0x4000_0000_0000_0000_0000_0000_0000_0000,
{
    assert(-0x4000_0000_0000_0000_0000_0000_0000_0000 <= a * b
        <= 0x4000_0000_0000_0000_0000_0000_0000_0000) by (nonlinear_arith)
        requires
            -0x8000_0000_0000_0000 <= a <= 0x7fff_ffff_ffff_ffff,
            -0x8000_0000_0000_0000 <= b <= 0x7fff_ffff_ffff_ffff,
    ;
}

/// Brings a wide intermediate back into the `i64` range.
pub fn narrow(x: i128) -> (r: i64)
    ensures
        r == sat(x as int),
{
    if x > i64::MAX as i128 {
        i64::MAX
    } else if x < i64::MIN as i128 {
        i64::MIN
    } else {
        x as i64
    }
}

/// Sum, held to the `i64` range.
pub fn fx_sum(a: i64, b: i64) -> (r: i64)
    ensures
        r == sum(a, b),
{
    narrow(a as i128 + b as i128)
}

/// Difference, held to the `i64` range.
pub fn fx_diff(a: i64, b: i64) -> (r: i64)
    ensures
        r == diff(a, b),
{
    narrow(a as i128 - b as i128)
}

/// Opposite, held to the `i64` range.
pub fn fx_neg(a: i64) -> (r: i64)
    ensures
        r == neg(a),
{
    narrow(-(a as i128))
}

/// Magnitude, held to the `i64` range.
pub fn fx_abs(a: i64) -> (r: i64)
    ensures
        r == abs(a),
        r >= 0,
{
    if a < 0 {
        narrow(-(a as i128))
    } else {
        a
    }
}

/// Sign as a fixed-point number: minus one, zero or one.
pub fn fx_sign(a: i64) -> (r: i64)
    ensures
        r == sign(a),
{
    if a > 0 {
        SCALE
    } else if a < 0 {
        -SCALE
    } else {
        0
    }
}

/// `x` held between `lo` and `hi`.
pub fn fx_clamp(x: i64, lo: i64, hi: i64) -> (r: i64)
    ensures
        r == clamp(x, lo, hi),
{
    if x < lo {
        lo
    } else if x > hi {
        hi
    } else {
        x
    }
}

/// `a * b / c` with a single rounding, toward zero; zero where `c` is
/// zero.
pub fn fx_ratio(a: i64, b: i64, c: i64) -> (r: i64)
    ensures
        r == ratio(a, b, c),
{
    if c == 0 {
        return 0;
    }
    proof {
        lemma_product_bounds(a as int, b as int);
    }
    let wide: i128 = (a as i128) * (b as i128);
    let num: u128 = if wide < 0 {
        (-wide) as u128
    } else {
        wide as u128
    };
    let den: u128 = if c < 0 {
        (-(c as i128)) as u128
    } else {
        c as u128
    };
    let q: i128 = (num / den) as i128;
    if (wide < 0) != (c < 0) {
        narrow(-q)
    } else {
        narrow(q)
    }
}

/// Fixed-point product.
pub fn fx_prod(a: i64, b: i64) -> (r: i64)
    ensures
        r == prod(a, b),
{
    fx_ratio(a, b, SCALE)
}

/// Fixed-point quotient; zero where the divisor is zero.
pub fn fx_quot(a: i64, b: i64) -> (r: i64)
    ensures
        r == quot(a, b),
{
    fx_ratio(a, SCALE, b)
}

/// Integer square root by bisection.
pub fn int_root(n: u128) -> (r: u64)
    ensures
        r == root(n as int),
        is_root(r as int, n as int),
{
    let mut lo: u128 = 0;
    let mut hi: u128 = 0x1_0000_0000_0000_0000;
    assert(hi * hi > n) by (nonlinear_arith)
        requires
            hi == 0x1_0000_0000_0000_0000,
            n <= u128::MAX,
    ;
    while hi - lo > 1
        invariant
            lo < hi <= 0x1_0000_0000_0000_0000,
            lo * lo <= n < hi * hi,
        decreases hi - lo,
    {
        let mid: u128 = lo + (hi - lo) / 2;
        assert(mid * mid <= 0xffff_ffff_ffff_ffff * 0xffff_ffff_ffff_ffff) by (nonlinear_arith)
            requires
                0 <= mid <= 0xffff_ffff_ffff_ffff,
        ;
        if mid * mid <= n {
            lo = mid;
        } else {
            hi = mid;
        }
    }
    proof {
        assert(hi == lo + 1);
        lemma_root_unique(lo as int, n as int);
    }
    lo as u64
}

/// Length of the vector `(x, y)`.
pub fn fx_hypot(x: i64, y: i64) -> (r: i64)
    ensures
        r == hypot(x, y),
        r >= 0,
{
    proof {
        lemma_product_bounds(x as int, x as int);
        lemma_product_bounds(y as int, y as int);
        assert(x * x >= 0) by (nonlinear_arith);
        assert(y * y >= 0) by (nonlinear_arith);
    }
    let xx: i128 = (x as i128) * (x as i128);
    let yy: i128 = (y as i128) * (y as i128);
    let h: u64 = int_root(xx as u128 + yy as u128);
    if h > i64::MAX as u64 {
        i64::MAX
    } else {
        h as i64
    }
}

/// Fixed-point square root; zero for a negative argument.
pub fn fx_sqrt(a: i64) -> (r: i64)
    ensures
        r == sqrt(a),
        r >= 0,
{
    if a < 0 {
        return 0;
    }
    let wide: u128 = a as u128;
    assert(wide * 1_000_000 <= u128::MAX);
    let h: u64 = int_root(wide * 1_000_000);
    if h > i64::MAX as u64 {
        i64::MAX
    } else {
        h as i64
    }
}

} // verus!
