//! Vectors and matrices of fixed-point numbers.
//!
//! A matrix is a vector of rows. Every function takes the number of
//! fixed-point steps in one unit, so that a caller may work at a finer
//! resolution than the rest of the library does.

use vstd::prelude::*;
use crate::math::scalar::{
    diff, fx_diff, fx_ratio, fx_sum, int_root, ratio, root, sat, sum,
};

verus! {

/// The rows of a matrix.
pub open spec fn grid(m: Vec<Vec<i64>>) -> Seq<Seq<i64>> {
    Seq::new(m@.len(), |i: int| m@[i]@)
}

/// `m` has `rows` rows of `cols` numbers each.
pub open spec fn is_grid(m: Seq<Seq<i64>>, rows: int, cols: int) -> bool {
    &&& m.len() == rows
    &&& forall|i: int| 0 <= i < rows ==> (#[trigger] m[i]).len() == cols
}

/// `m` is the lower triangle of a square matrix of `n` rows: row `i` holds
/// the `i + 1` numbers up to the diagonal.
pub open spec fn is_triangle(m: Seq<Seq<i64>>, n: int) -> bool {
    &&& m.len() == n
    &&& forall|i: int| 0 <= i < n ==> (#[trigger] m[i]).len() == i + 1
}

/// A square matrix of `n` rows that equals its transpose.
pub open spec fn symmetric(m: Seq<Seq<i64>>, n: int) -> bool {
    &&& is_grid(m, n, n)
    &&& forall|i: int, j: int| 0 <= i < n && 0 <= j < n ==> m[i][j] == m[j][i]
}

/// Product of two numbers with `unit` steps to one.
pub open spec fn times(a: i64, b: i64, unit: i64) -> i64 {
    ratio(a, b, unit)
}

/// Quotient of two numbers with `unit` steps to one; zero where the
/// divisor is zero.
pub open spec fn over(a: i64, b: i64, unit: i64) -> i64 {
    ratio(a, unit, b)
}

/// Square root of a number with `unit` steps to one; zero for a negative
/// number.
pub open spec fn root_of(a: i64, unit: i64) -> i64 {
    if a < 0 || unit < 0 {
        0
    } else {
        sat(root(a * unit))
    }
}

/// Inner product of the first `upto` entries of two vectors.
pub open spec fn dot(a: Seq<i64>, b: Seq<i64>, upto: int, unit: i64) -> i64
    decreases upto,
{
    if upto <= 0 {
        0
    } else {
        sum(dot(a, b, upto - 1, unit), times(a[upto - 1], b[upto - 1], unit))
    }
}

/// The first `j` entries of row `i` of the lower-triangular factor of `a`,
/// given the rows `prev` above it.
pub open spec fn factor_row(a: Seq<Seq<i64>>, prev: Seq<Seq<i64>>, i: int, j: int, unit: i64) -> Seq<
    i64,
>
    decreases j,
{
    if j <= 0 {
        Seq::empty()
    } else {
        let r = factor_row(a, prev, i, j - 1, unit);
        r.push(
            over(
                diff(a[i][j - 1], dot(r, prev[j - 1], j - 1, unit)),
                prev[j - 1][j - 1],
                unit,
            ),
        )
    }
}

/// What is left of the diagonal entry `a[i][i]` once the squares of the
/// factor's row before the diagonal are taken off. The factorisation goes
/// on only while this is positive.
pub open spec fn pivot(a: Seq<Seq<i64>>, prev: Seq<Seq<i64>>, i: int, unit: i64) -> i64 {
    let r = factor_row(a, prev, i, i, unit);
    diff(a[i][i], dot(r, r, i, unit))
}

/// The first `i` rows of the lower-triangular factor `l` of `a`, with
/// `l` times its transpose equal to `a` up to rounding; none where a pivot
/// is not positive, which is how a matrix that is not positive definite
/// shows.
pub open spec fn factor_upto(a: Seq<Seq<i64>>, i: int, unit: i64) -> Option<Seq<Seq<i64>>>
    decreases i,
{
    if i <= 0 {
        Some(Seq::empty())
    } else {
        match factor_upto(a, i - 1, unit) {
            None => None,
            Some(prev) => {
                let p = pivot(a, prev, i - 1, unit);
                if p <= 0 {
                    None
                } else {
                    Some(prev.push(factor_row(a, prev, i - 1, i - 1, unit).push(root_of(p, unit))))
                }
            },
        }
    }
}

/// The lower-triangular factor of the square matrix `a`, if it has one.
pub open spec fn factor_of(a: Seq<Seq<i64>>, unit: i64) -> Option<Seq<Seq<i64>>> {
    factor_upto(a, a.len() as int, unit)
}

/// The first `i` entries of the solution `y` of `l y = b`, for a lower
/// triangle `l`.
pub open spec fn forward(l: Seq<Seq<i64>>, b: Seq<i64>, i: int, unit: i64) -> Seq<i64>
    decreases i,
{
    if i <= 0 {
        Seq::empty()
    } else {
        let y = forward(l, b, i - 1, unit);
        y.push(over(diff(b[i - 1], dot(l[i - 1], y, i - 1, unit)), l[i - 1][i - 1], unit))
    }
}

/// Inner product of column `i` of the lower triangle `l`, below the
/// diagonal, with the entries of a solution that are known so far: `known`
/// holds them from the last one backward, and `upto` of them are taken.
pub open spec fn below(l: Seq<Seq<i64>>, known: Seq<i64>, i: int, upto: int, unit: i64) -> i64
    decreases upto,
{
    if upto <= 0 {
        0
    } else {
        sum(
            below(l, known, i, upto - 1, unit),
            times(l[l.len() - upto][i], known[upto - 1], unit),
        )
    }
}

/// The last `count` entries of the solution `k` of `l^T k = y`, for a
/// lower triangle `l`, from the last one backward.
pub open spec fn backward(l: Seq<Seq<i64>>, y: Seq<i64>, count: int, unit: i64) -> Seq<i64>
    decreases count,
{
    if count <= 0 {
        Seq::empty()
    } else {
        let k = backward(l, y, count - 1, unit);
        let i = l.len() - count;
        k.push(over(diff(y[i], below(l, k, i, count - 1, unit)), l[i][i], unit))
    }
}

/// The solution `k` of `l l^T k = b`, for a lower triangle `l`.
pub open spec fn solved(l: Seq<Seq<i64>>, b: Seq<i64>, unit: i64) -> Seq<i64> {
    backward(l, forward(l, b, l.len() as int, unit), l.len() as int, unit).reverse()
}

pub fn fx_times(a: i64, b: i64, unit: i64) -> (r: i64)
    ensures
        r == times(a, b, unit),
{
    fx_ratio(a, b, unit)
}

pub fn fx_over(a: i64, b: i64, unit: i64) -> (r: i64)
    ensures
        r == over(a, b, unit),
{
    fx_ratio(a, unit, b)
}

pub fn fx_root_of(a: i64, unit: i64) -> (r: i64)
    ensures
        r == root_of(a, unit),
        r >= 0,
{
    if a < 0 || unit < 0 {
        return 0;
    }
    assert(0 <= a * unit <= 0x7fff_ffff_ffff_ffff * 0x7fff_ffff_ffff_ffff) by (nonlinear_arith)
        requires
            0 <= a <= 0x7fff_ffff_ffff_ffff,
            0 <= unit <= 0x7fff_ffff_ffff_ffff,
    ;
    let h: u64 = int_root((a as u128) * (unit as u128));
    if h > i64::MAX as u64 {
        i64::MAX
    } else {
        h as i64
    }
}

/// Inner product of the first `upto` entries of two vectors.
pub fn dot_of(a: &Vec<i64>, b: &Vec<i64>, upto: usize, unit: i64) -> (r: i64)
    requires
        upto <= a@.len(),
        upto <= b@.len(),
    ensures
        r == dot(a@, b@, upto as int, unit),
{
    let mut acc: i64 = 0;
    let mut t: usize = 0;
    while t < upto
        invariant
            t <= upto,
            upto <= a@.len(),
            upto <= b@.len(),
            acc == dot(a@, b@, t as int, unit),
        decreases upto - t,
    {
        acc = fx_sum(acc, fx_times(a[t], b[t], unit));
        t = t + 1;
    }
    acc
}

/// Once a pivot fails, no longer run of rows has a factor either.
pub proof fn lemma_factor_stays_none(a: Seq<Seq<i64>>, i: int, n: int, unit: i64)
    requires
        0 <= i <= n,
        factor_upto(a, i, unit).is_none(),
    ensures
        factor_upto(a, n, unit).is_none(),
    decreases n - i,
{
    if i < n {
        lemma_factor_stays_none(a, i, n - 1, unit);
    }
}

/// The lower-triangular factor of a square matrix: `l` with `l` times its
/// transpose equal to the matrix up to rounding. None where a pivot is not
/// positive, as happens for a matrix that is not positive definite.
pub fn factor(a: &Vec<Vec<i64>>, unit: i64) -> (r: Option<Vec<Vec<i64>>>)
    requires
        is_grid(grid(*a), a@.len() as int, a@.len() as int),
    ensures
        match r {
            Some(l) => factor_of(grid(*a), unit) == Some(grid(l)) && is_triangle(
                grid(l),
                a@.len() as int,
            ),
            None => factor_of(grid(*a), unit).is_none(),
        },
{
    let n: usize = a.len();
    let mut l: Vec<Vec<i64>> = Vec::new();
    let mut i: usize = 0;
    assert(grid(l) =~= Seq::<Seq<i64>>::empty());
    while i < n
        invariant
            i <= n,
            n == a@.len(),
            is_grid(grid(*a), n as int, n as int),
            factor_upto(grid(*a), i as int, unit) == Some(grid(l)),
            is_triangle(grid(l), i as int),
        decreases n - i,
    {
        let mut row: Vec<i64> = Vec::new();
        let mut j: usize = 0;
        assert(grid(*a)[i as int] == a@[i as int]@);
        while j < i
            invariant
                j <= i,
                i < n,
                n == a@.len(),
                a@[i as int]@.len() == n,
                grid(*a)[i as int] == a@[i as int]@,
                is_triangle(grid(l), i as int),
                row@ == factor_row(grid(*a), grid(l), i as int, j as int, unit),
                row@.len() == j,
            decreases i - j,
        {
            assert(grid(l)[j as int] == l@[j as int]@);
            let s: i64 = dot_of(&row, &l[j], j, unit);
            let entry: i64 = fx_over(fx_diff(a[i][j], s), l[j][j], unit);
            row.push(entry);
            j = j + 1;
        }
        let p: i64 = fx_diff(a[i][i], dot_of(&row, &row, i, unit));
        assert(p == pivot(grid(*a), grid(l), i as int, unit));
        if p <= 0 {
            proof {
                assert(factor_upto(grid(*a), i as int + 1, unit).is_none());
                lemma_factor_stays_none(grid(*a), i as int + 1, n as int, unit);
            }
            return None;
        }
        row.push(fx_root_of(p, unit));
        let ghost before = grid(l);
        l.push(row);
        assert(grid(l) =~= before.push(row@));
        i = i + 1;
    }
    assert(grid(*a).len() == n);
    Some(l)
}

/// The solution `k` of `l l^T k = b`, for a lower triangle `l`: a forward
/// and a backward substitution.
pub fn solve(l: &Vec<Vec<i64>>, b: &Vec<i64>, unit: i64) -> (k: Vec<i64>)
    requires
        is_triangle(grid(*l), l@.len() as int),
        b@.len() == l@.len(),
    ensures
        k@ == solved(grid(*l), b@, unit),
        k@.len() == l@.len(),
{
    let n: usize = l.len();
    let mut y: Vec<i64> = Vec::new();
    let mut i: usize = 0;
    while i < n
        invariant
            i <= n,
            n == l@.len(),
            n == b@.len(),
            is_triangle(grid(*l), n as int),
            y@ == forward(grid(*l), b@, i as int, unit),
            y@.len() == i,
        decreases n - i,
    {
        assert(grid(*l)[i as int] == l@[i as int]@);
        let s: i64 = dot_of(&l[i], &y, i, unit);
        y.push(fx_over(fx_diff(b[i], s), l[i][i], unit));
        i = i + 1;
    }
    let mut known: Vec<i64> = Vec::new();
    let mut count: usize = 0;
    while count < n
        invariant
            count <= n,
            n == l@.len(),
            n == y@.len(),
            is_triangle(grid(*l), n as int),
            known@ == backward(grid(*l), y@, count as int, unit),
            known@.len() == count,
        decreases n - count,
    {
        let at: usize = n - 1 - count;
        let mut acc: i64 = 0;
        let mut q: usize = 0;
        while q < count
            invariant
                q <= count,
                count < n,
                at == n - 1 - count,
                n == l@.len(),
                known@.len() == count,
                is_triangle(grid(*l), n as int),
                acc == below(grid(*l), known@, at as int, q as int, unit),
            decreases count - q,
        {
            assert(grid(*l)[n - 1 - q] == l@[n - 1 - q]@);
            acc = fx_sum(acc, fx_times(l[n - 1 - q][at], known[q], unit));
            q = q + 1;
        }
        assert(grid(*l)[at as int] == l@[at as int]@);
        known.push(fx_over(fx_diff(y[at], acc), l[at][at], unit));
        count = count + 1;
    }
    let mut k: Vec<i64> = Vec::new();
    let mut t: usize = 0;
    while t < n
        invariant
            t <= n,
            n == known@.len(),
            k@.len() == t,
            forall|c: int| 0 <= c < t ==> k@[c] == known@[n - 1 - c],
        decreases n - t,
    {
        k.push(known[n - 1 - t]);
        t = t + 1;
    }
    assert(k@ =~= known@.reverse());
    k
}

/// The square matrix with `d` on its diagonal and zeros elsewhere.
pub open spec fn diagonal(d: Seq<i64>) -> Seq<Seq<i64>> {
    Seq::new(
        d.len(),
        |i: int|
            Seq::new(
                d.len(),
                |j: int|
                    if i == j {
                        d[i]
                    } else {
                        0
                    },
            ),
    )
}

/// Row `i` of the factor of a diagonal matrix: zeros up to the diagonal,
/// then the root of the diagonal entry.
pub open spec fn diagonal_factor_row(d: Seq<i64>, i: int, unit: i64) -> Seq<i64> {
    Seq::new(
        (i + 1) as nat,
        |j: int|
            if j == i {
                root_of(d[i], unit)
            } else {
                0
            },
    )
}

/// The inner product with a vector that starts with zeros is zero.
proof fn lemma_dot_of_zeros(a: Seq<i64>, b: Seq<i64>, upto: int, unit: i64)
    requires
        unit != 0,
        forall|t: int| 0 <= t < upto ==> a[t] == 0,
    ensures
        dot(a, b, upto, unit) == 0,
    decreases upto,
{
    if upto > 0 {
        lemma_dot_of_zeros(a, b, upto - 1, unit);
        assert(a[upto - 1] * b[upto - 1] == 0) by (nonlinear_arith)
            requires
                a[upto - 1] == 0,
        ;
    }
}

/// Below the diagonal, the factor of a diagonal matrix holds zeros.
proof fn lemma_diagonal_row(d: Seq<i64>, prev: Seq<Seq<i64>>, i: int, j: int, unit: i64)
    requires
        unit > 0,
        0 <= j <= i < d.len(),
    ensures
        factor_row(diagonal(d), prev, i, j, unit) == Seq::new(j as nat, |t: int| 0i64),
    decreases j,
{
    if j > 0 {
        lemma_diagonal_row(d, prev, i, j - 1, unit);
        let r = factor_row(diagonal(d), prev, i, j - 1, unit);
        lemma_dot_of_zeros(r, prev[j - 1], j - 1, unit);
        assert(0 * unit == 0);
        assert(factor_row(diagonal(d), prev, i, j, unit) =~= Seq::new(j as nat, |t: int| 0i64));
    } else {
        assert(factor_row(diagonal(d), prev, i, j, unit) =~= Seq::new(j as nat, |t: int| 0i64));
    }
}

/// A diagonal matrix with positive entries has a factor: the diagonal
/// matrix of their roots.
pub proof fn lemma_diagonal_has_factor(d: Seq<i64>, i: int, unit: i64)
    requires
        unit > 0,
        0 <= i <= d.len(),
        forall|t: int| 0 <= t < d.len() ==> d[t] > 0,
    ensures
        factor_upto(diagonal(d), i, unit) == Some(
            Seq::new(i as nat, |t: int| diagonal_factor_row(d, t, unit)),
        ),
    decreases i,
{
    let a = diagonal(d);
    if i > 0 {
        lemma_diagonal_has_factor(d, i - 1, unit);
        let prev = Seq::new((i - 1) as nat, |t: int| diagonal_factor_row(d, t, unit));
        lemma_diagonal_row(d, prev, i - 1, i - 1, unit);
        let r = factor_row(a, prev, i - 1, i - 1, unit);
        lemma_dot_of_zeros(r, r, i - 1, unit);
        assert(pivot(a, prev, i - 1, unit) == d[i - 1]);
        assert(prev.push(r.push(root_of(d[i - 1], unit))) =~= Seq::new(
            i as nat,
            |t: int| diagonal_factor_row(d, t, unit),
        )) by {
            assert(r.push(root_of(d[i - 1], unit)) =~= diagonal_factor_row(d, i - 1, unit));
        }
    } else {
        assert(factor_upto(a, i, unit).unwrap() =~= Seq::new(
            i as nat,
            |t: int| diagonal_factor_row(d, t, unit),
        ));
    }
}

} // verus!
