//! The unscented transform: sigma points around a mean, and the weighted
//! mean and covariance of what becomes of them.
//!
//! The numbers in this file are `i64` with `UNIT` steps to one, a finer
//! step than the rest of the library takes.

use vstd::prelude::*;
use crate::math::linalg::{diagonal, fx_times, grid, is_grid, is_triangle, symmetric, times};
use crate::math::scalar::{diff, fx_diff, fx_sum, sum};

verus! {

/// Steps in one unit.
pub const UNIT: i64 = 1_000_000_000_000;

/// The weights that recombine the sigma points.
#[derive(Clone, Copy, Debug, PartialEq, Eq, Structural)]
pub struct Weights {
    /// Weight of the central point in the mean.
    pub mean0: i64,
    /// Weight of the central point in the covariance.
    pub cov0: i64,
    /// Weight of every other point, in both.
    pub rest: i64,
}

/// A matrix with every entry multiplied by `c`.
pub open spec fn scaled(m: Seq<Seq<i64>>, c: i64) -> Seq<Seq<i64>> {
    Seq::new(m.len(), |i: int| Seq::new(m[i].len(), |j: int| times(c, m[i][j], UNIT)))
}

/// Column `i` of the lower triangle `l`, with zeros above the diagonal.
pub open spec fn column(l: Seq<Seq<i64>>, i: int) -> Seq<i64> {
    Seq::new(
        l.len(),
        |t: int|
            if t >= i {
                l[t][i]
            } else {
                0
            },
    )
}

/// Sigma point `k` around the mean `x`, for the factor `l` of the scaled
/// covariance: the mean itself, then for each column of the factor the
/// mean plus the column and the mean less the column.
pub open spec fn sigma_point(x: Seq<i64>, l: Seq<Seq<i64>>, k: int) -> Seq<i64> {
    if k == 0 {
        x
    } else {
        Seq::new(
            x.len(),
            |t: int|
                if (k - 1) % 2 == 0 {
                    sum(x[t], column(l, (k - 1) / 2)[t])
                } else {
                    diff(x[t], column(l, (k - 1) / 2)[t])
                },
        )
    }
}

/// The sigma points around the mean `x`.
pub open spec fn sigma_points_of(x: Seq<i64>, l: Seq<Seq<i64>>) -> Seq<Seq<i64>> {
    Seq::new(2 * x.len() + 1, |k: int| sigma_point(x, l, k))
}

/// Sum over the points after the first of how far entry `j` lies from
/// the first point's.
pub open spec fn drift(ys: Seq<Seq<i64>>, j: int, upto: int) -> i64
    decreases upto,
{
    if upto <= 1 {
        0
    } else {
        sum(drift(ys, j, upto - 1), diff(ys[upto - 1][j], ys[0][j]))
    }
}

/// The weighted mean of the points `ys`. The weights add up to one, so
/// the mean is the first point plus the weighted drift of the others.
pub open spec fn mean_of(ys: Seq<Seq<i64>>, rest: i64) -> Seq<i64> {
    Seq::new(ys[0].len(), |j: int| sum(ys[0][j], times(rest, drift(ys, j, ys.len() as int), UNIT)))
}

/// How far each of the points `ys` lies from `m`.
pub open spec fn deviations(ys: Seq<Seq<i64>>, m: Seq<i64>) -> Seq<Seq<i64>> {
    Seq::new(ys.len(), |i: int| Seq::new(m.len(), |j: int| diff(ys[i][j], m[j])))
}

/// The weight of point `i` in a covariance.
pub open spec fn weight_at(w: Weights, i: int) -> i64 {
    if i == 0 {
        w.cov0
    } else {
        w.rest
    }
}

/// Weighted sum over the first `upto` points of entry `r` of `da` times
/// entry `c` of `db`.
pub open spec fn spread(
    w: Weights,
    da: Seq<Seq<i64>>,
    db: Seq<Seq<i64>>,
    r: int,
    c: int,
    upto: int,
) -> i64
    decreases upto,
{
    if upto <= 0 {
        0
    } else {
        sum(
            spread(w, da, db, r, c, upto - 1),
            times(times(weight_at(w, upto - 1), da[upto - 1][r], UNIT), db[upto - 1][c], UNIT),
        )
    }
}

/// The weighted cross covariance of the deviations `da` and `db`, a
/// matrix of `rows` by `cols`.
pub open spec fn cross(w: Weights, da: Seq<Seq<i64>>, db: Seq<Seq<i64>>, rows: int, cols: int) -> Seq<
    Seq<i64>,
> {
    Seq::new(
        rows as nat,
        |r: int| Seq::new(cols as nat, |c: int| spread(w, da, db, r, c, da.len() as int)),
    )
}

/// The weighted covariance of the deviations `d`, a square matrix of `n`
/// rows. The upper triangle is summed and the lower one copied from it,
/// so that rounding cannot part the two.
pub open spec fn covariance(w: Weights, d: Seq<Seq<i64>>, n: int) -> Seq<Seq<i64>> {
    Seq::new(
        n as nat,
        |r: int|
            Seq::new(
                n as nat,
                |c: int|
                    if r <= c {
                        spread(w, d, d, r, c, d.len() as int)
                    } else {
                        spread(w, d, d, c, r, d.len() as int)
                    },
            ),
    )
}

/// Sum of two matrices of the same shape.
pub open spec fn plus(a: Seq<Seq<i64>>, b: Seq<Seq<i64>>) -> Seq<Seq<i64>> {
    Seq::new(a.len(), |i: int| Seq::new(a[i].len(), |j: int| sum(a[i][j], b[i][j])))
}

/// A matrix with every entry multiplied by `c`.
pub fn scale(m: &Vec<Vec<i64>>, c: i64) -> (r: Vec<Vec<i64>>)
    ensures
        grid(r) == scaled(grid(*m), c),
{
    let mut out: Vec<Vec<i64>> = Vec::new();
    let mut i: usize = 0;
    while i < m.len()
        invariant
            i <= m@.len(),
            out@.len() == i,
            forall|a: int| 0 <= a < i ==> (#[trigger] out@[a])@ == scaled(grid(*m), c)[a],
        decreases m@.len() - i,
    {
        let mut row: Vec<i64> = Vec::new();
        let mut j: usize = 0;
        while j < m[i].len()
            invariant
                i < m@.len(),
                j <= m@[i as int]@.len(),
                row@.len() == j,
                forall|b: int| 0 <= b < j ==> #[trigger] row@[b] == times(c, m@[i as int]@[b], UNIT),
            decreases m@[i as int]@.len() - j,
        {
            row.push(fx_times(c, m[i][j], UNIT));
            j = j + 1;
        }
        assert(row@ =~= scaled(grid(*m), c)[i as int]);
        out.push(row);
        i = i + 1;
    }
    assert(grid(out) =~= scaled(grid(*m), c));
    out
}

/// The sigma points around the mean `x`, for the factor `l` of the scaled
/// covariance.
pub fn spread_points(x: &Vec<i64>, l: &Vec<Vec<i64>>) -> (points: Vec<Vec<i64>>)
    requires
        is_triangle(grid(*l), x@.len() as int),
        2 * x@.len() + 1 <= usize::MAX,
    ensures
        grid(points) == sigma_points_of(x@, grid(*l)),
{
    let n: usize = x.len();
    let mut points: Vec<Vec<i64>> = Vec::new();
    let mut first: Vec<i64> = Vec::new();
    let mut t: usize = 0;
    while t < n
        invariant
            t <= n,
            n == x@.len(),
            first@.len() == t,
            forall|b: int| 0 <= b < t ==> first@[b] == x@[b],
        decreases n - t,
    {
        first.push(x[t]);
        t = t + 1;
    }
    assert(first@ =~= x@);
    points.push(first);
    let mut k: usize = 1;
    while k < 2 * n + 1
        invariant
            1 <= k <= 2 * n + 1,
            n == x@.len(),
            2 * n + 1 <= usize::MAX,
            is_triangle(grid(*l), n as int),
            points@.len() == k,
            forall|a: int| 0 <= a < k ==> (#[trigger] points@[a])@ == sigma_point(x@, grid(*l), a),
        decreases 2 * n + 1 - k,
    {
        let i: usize = (k - 1) / 2;
        let up: bool = (k - 1) % 2 == 0;
        let mut point: Vec<i64> = Vec::new();
        let mut t: usize = 0;
        while t < n
            invariant
                t <= n,
                n == x@.len(),
                i < n,
                i == (k - 1) / 2,
                up == ((k - 1) % 2 == 0),
                is_triangle(grid(*l), n as int),
                point@.len() == t,
                forall|b: int|
                    0 <= b < t ==> #[trigger] point@[b] == sigma_point(x@, grid(*l), k as int)[b],
            decreases n - t,
        {
            assert(grid(*l)[t as int] == l@[t as int]@);
            let offset: i64 = if t >= i {
                l[t][i]
            } else {
                0
            };
            point.push(
                if up {
                    fx_sum(x[t], offset)
                } else {
                    fx_diff(x[t], offset)
                },
            );
            t = t + 1;
        }
        assert(point@ =~= sigma_point(x@, grid(*l), k as int));
        points.push(point);
        k = k + 1;
    }
    assert(grid(points) =~= sigma_points_of(x@, grid(*l)));
    points
}

/// The weighted mean of the points `ys`, each of `dim` numbers.
pub fn mean(ys: &Vec<Vec<i64>>, rest: i64, dim: usize) -> (m: Vec<i64>)
    requires
        ys@.len() > 0,
        is_grid(grid(*ys), ys@.len() as int, dim as int),
    ensures
        m@ == mean_of(grid(*ys), rest),
        m@.len() == dim,
{
    let mut m: Vec<i64> = Vec::new();
    let mut j: usize = 0;
    assert(grid(*ys)[0] == ys@[0]@);
    while j < dim
        invariant
            j <= dim,
            ys@.len() > 0,
            is_grid(grid(*ys), ys@.len() as int, dim as int),
            m@.len() == j,
            forall|b: int| 0 <= b < j ==> #[trigger] m@[b] == mean_of(grid(*ys), rest)[b],
        decreases dim - j,
    {
        let mut acc: i64 = 0;
        let mut i: usize = 1;
        assert(grid(*ys)[0] == ys@[0]@);
        while i < ys.len()
            invariant
                1 <= i <= ys@.len(),
                j < dim,
                is_grid(grid(*ys), ys@.len() as int, dim as int),
                acc == drift(grid(*ys), j as int, i as int),
            decreases ys@.len() - i,
        {
            assert(grid(*ys)[i as int] == ys@[i as int]@);
            assert(grid(*ys)[0] == ys@[0]@);
            acc = fx_sum(acc, fx_diff(ys[i][j], ys[0][j]));
            i = i + 1;
        }
        m.push(fx_sum(ys[0][j], fx_times(rest, acc, UNIT)));
        j = j + 1;
    }
    assert(m@ =~= mean_of(grid(*ys), rest));
    m
}

/// How far each of the points `ys` lies from `m`.
pub fn deviate(ys: &Vec<Vec<i64>>, m: &Vec<i64>) -> (d: Vec<Vec<i64>>)
    requires
        is_grid(grid(*ys), ys@.len() as int, m@.len() as int),
    ensures
        grid(d) == deviations(grid(*ys), m@),
        is_grid(grid(d), ys@.len() as int, m@.len() as int),
{
    let mut d: Vec<Vec<i64>> = Vec::new();
    let mut i: usize = 0;
    while i < ys.len()
        invariant
            i <= ys@.len(),
            is_grid(grid(*ys), ys@.len() as int, m@.len() as int),
            d@.len() == i,
            forall|a: int| 0 <= a < i ==> (#[trigger] d@[a])@ == deviations(grid(*ys), m@)[a],
        decreases ys@.len() - i,
    {
        let mut row: Vec<i64> = Vec::new();
        let mut j: usize = 0;
        assert(grid(*ys)[i as int] == ys@[i as int]@);
        while j < m.len()
            invariant
                i < ys@.len(),
                j <= m@.len(),
                ys@[i as int]@.len() == m@.len(),
                row@.len() == j,
                forall|b: int|
                    0 <= b < j ==> #[trigger] row@[b] == diff(ys@[i as int]@[b], m@[b]),
            decreases m@.len() - j,
        {
            row.push(fx_diff(ys[i][j], m[j]));
            j = j + 1;
        }
        assert(row@ =~= deviations(grid(*ys), m@)[i as int]);
        d.push(row);
        i = i + 1;
    }
    assert(grid(d) =~= deviations(grid(*ys), m@));
    d
}

/// Weighted sum over all points of entry `r` of `da` times entry `c` of
/// `db`.
pub fn spread_of(w: Weights, da: &Vec<Vec<i64>>, db: &Vec<Vec<i64>>, r: usize, c: usize) -> (s: i64)
    requires
        da@.len() == db@.len(),
        forall|i: int| 0 <= i < da@.len() ==> r < (#[trigger] da@[i])@.len(),
        forall|i: int| 0 <= i < db@.len() ==> c < (#[trigger] db@[i])@.len(),
    ensures
        s == spread(w, grid(*da), grid(*db), r as int, c as int, da@.len() as int),
{
    let mut acc: i64 = 0;
    let mut i: usize = 0;
    while i < da.len()
        invariant
            i <= da@.len(),
            da@.len() == db@.len(),
            forall|i: int| 0 <= i < da@.len() ==> r < (#[trigger] da@[i])@.len(),
            forall|i: int| 0 <= i < db@.len() ==> c < (#[trigger] db@[i])@.len(),
            acc == spread(w, grid(*da), grid(*db), r as int, c as int, i as int),
        decreases da@.len() - i,
    {
        assert(grid(*da)[i as int] == da@[i as int]@);
        assert(grid(*db)[i as int] == db@[i as int]@);
        let weight: i64 = if i == 0 {
            w.cov0
        } else {
            w.rest
        };
        acc = fx_sum(acc, fx_times(fx_times(weight, da[i][r], UNIT), db[i][c], UNIT));
        i = i + 1;
    }
    acc
}

/// The weighted cross covariance of the deviations `da` and `db`.
pub fn cross_of(w: Weights, da: &Vec<Vec<i64>>, db: &Vec<Vec<i64>>, rows: usize, cols: usize) -> (m:
    Vec<Vec<i64>>)
    requires
        is_grid(grid(*da), da@.len() as int, rows as int),
        is_grid(grid(*db), da@.len() as int, cols as int),
    ensures
        grid(m) == cross(w, grid(*da), grid(*db), rows as int, cols as int),
        is_grid(grid(m), rows as int, cols as int),
{
    let mut m: Vec<Vec<i64>> = Vec::new();
    let mut r: usize = 0;
    proof {
        lemma_rows_wide(*da, rows as int);
        lemma_rows_wide(*db, cols as int);
    }
    while r < rows
        invariant
            r <= rows,
            da@.len() == db@.len(),
            forall|i: int| 0 <= i < da@.len() ==> (#[trigger] da@[i])@.len() == rows,
            forall|i: int| 0 <= i < db@.len() ==> (#[trigger] db@[i])@.len() == cols,
            m@.len() == r,
            forall|a: int|
                0 <= a < r ==> (#[trigger] m@[a])@ == cross(
                    w,
                    grid(*da),
                    grid(*db),
                    rows as int,
                    cols as int,
                )[a],
        decreases rows - r,
    {
        let mut row: Vec<i64> = Vec::new();
        let mut c: usize = 0;
        while c < cols
            invariant
                r < rows,
                c <= cols,
                da@.len() == db@.len(),
                forall|i: int| 0 <= i < da@.len() ==> (#[trigger] da@[i])@.len() == rows,
                forall|i: int| 0 <= i < db@.len() ==> (#[trigger] db@[i])@.len() == cols,
                row@.len() == c,
                forall|b: int|
                    0 <= b < c ==> #[trigger] row@[b] == spread(
                        w,
                        grid(*da),
                        grid(*db),
                        r as int,
                        b,
                        da@.len() as int,
                    ),
            decreases cols - c,
        {
            row.push(spread_of(w, da, db, r, c));
            c = c + 1;
        }
        assert(row@ =~= cross(w, grid(*da), grid(*db), rows as int, cols as int)[r as int]);
        m.push(row);
        r = r + 1;
    }
    assert(grid(m) =~= cross(w, grid(*da), grid(*db), rows as int, cols as int));
    m
}

/// The weighted covariance of the deviations `d`, each of `n` numbers.
pub fn covariance_of(w: Weights, d: &Vec<Vec<i64>>, n: usize) -> (m: Vec<Vec<i64>>)
    requires
        is_grid(grid(*d), d@.len() as int, n as int),
    ensures
        grid(m) == covariance(w, grid(*d), n as int),
        symmetric(grid(m), n as int),
{
    let mut m: Vec<Vec<i64>> = Vec::new();
    let mut r: usize = 0;
    proof {
        lemma_rows_wide(*d, n as int);
    }
    while r < n
        invariant
            r <= n,
            forall|i: int| 0 <= i < d@.len() ==> (#[trigger] d@[i])@.len() == n,
            m@.len() == r,
            forall|a: int|
                0 <= a < r ==> (#[trigger] m@[a])@ == covariance(w, grid(*d), n as int)[a],
        decreases n - r,
    {
        let mut row: Vec<i64> = Vec::new();
        let mut c: usize = 0;
        while c < n
            invariant
                r < n,
                c <= n,
                forall|i: int| 0 <= i < d@.len() ==> (#[trigger] d@[i])@.len() == n,
                row@.len() == c,
                forall|b: int|
                    0 <= b < c ==> #[trigger] row@[b] == covariance(w, grid(*d), n as int)[r as int][b],
            decreases n - c,
        {
            row.push(
                if r <= c {
                    spread_of(w, d, d, r, c)
                } else {
                    spread_of(w, d, d, c, r)
                },
            );
            c = c + 1;
        }
        assert(row@ =~= covariance(w, grid(*d), n as int)[r as int]);
        m.push(row);
        r = r + 1;
    }
    assert(grid(m) =~= covariance(w, grid(*d), n as int));
    m
}

/// Sum of two matrices of the same shape.
pub fn matrix_sum(a: &Vec<Vec<i64>>, b: &Vec<Vec<i64>>) -> (m: Vec<Vec<i64>>)
    requires
        a@.len() == b@.len(),
        forall|i: int| 0 <= i < a@.len() ==> (#[trigger] a@[i])@.len() == b@[i]@.len(),
    ensures
        grid(m) == plus(grid(*a), grid(*b)),
{
    let mut m: Vec<Vec<i64>> = Vec::new();
    let mut i: usize = 0;
    while i < a.len()
        invariant
            i <= a@.len(),
            a@.len() == b@.len(),
            forall|i: int| 0 <= i < a@.len() ==> (#[trigger] a@[i])@.len() == b@[i]@.len(),
            m@.len() == i,
            forall|k: int| 0 <= k < i ==> (#[trigger] m@[k])@ == plus(grid(*a), grid(*b))[k],
        decreases a@.len() - i,
    {
        let mut row: Vec<i64> = Vec::new();
        let mut j: usize = 0;
        while j < a[i].len()
            invariant
                i < a@.len(),
                a@.len() == b@.len(),
                a@[i as int]@.len() == b@[i as int]@.len(),
                j <= a@[i as int]@.len(),
                row@.len() == j,
                forall|k: int|
                    0 <= k < j ==> #[trigger] row@[k] == sum(a@[i as int]@[k], b@[i as int]@[k]),
            decreases a@[i as int]@.len() - j,
        {
            row.push(fx_sum(a[i][j], b[i][j]));
            j = j + 1;
        }
        assert(row@ =~= plus(grid(*a), grid(*b))[i as int]);
        m.push(row);
        i = i + 1;
    }
    assert(grid(m) =~= plus(grid(*a), grid(*b)));
    m
}

/// The square matrix with `d` on its diagonal and zeros elsewhere.
pub fn diagonal_of(d: &Vec<i64>) -> (m: Vec<Vec<i64>>)
    ensures
        grid(m) == diagonal(d@),
        symmetric(grid(m), d@.len() as int),
{
    let n: usize = d.len();
    let mut m: Vec<Vec<i64>> = Vec::new();
    let mut i: usize = 0;
    while i < n
        invariant
            i <= n,
            n == d@.len(),
            m@.len() == i,
            forall|a: int| 0 <= a < i ==> (#[trigger] m@[a])@ == diagonal(d@)[a],
        decreases n - i,
    {
        let mut row: Vec<i64> = Vec::new();
        let mut j: usize = 0;
        while j < n
            invariant
                i < n,
                j <= n,
                n == d@.len(),
                row@.len() == j,
                forall|b: int| 0 <= b < j ==> #[trigger] row@[b] == diagonal(d@)[i as int][b],
            decreases n - j,
        {
            row.push(
                if i == j {
                    d[i]
                } else {
                    0
                },
            );
            j = j + 1;
        }
        assert(row@ =~= diagonal(d@)[i as int]);
        m.push(row);
        i = i + 1;
    }
    assert(grid(m) =~= diagonal(d@));
    m
}

/// Every row of a grid has the grid's width.
pub proof fn lemma_rows_wide(m: Vec<Vec<i64>>, cols: int)
    requires
        is_grid(grid(m), m@.len() as int, cols),
    ensures
        forall|i: int| 0 <= i < m@.len() ==> (#[trigger] m@[i])@.len() == cols,
{
    assert forall|i: int| 0 <= i < m@.len() implies (#[trigger] m@[i])@.len() == cols by {
        assert(grid(m)[i] == m@[i]@);
    }
}

/// Scaling a square matrix keeps its shape.
pub proof fn lemma_scaled_keeps_shape(m: Seq<Seq<i64>>, c: i64, n: int)
    requires
        is_grid(m, n, n),
    ensures
        is_grid(scaled(m, c), n, n),
        scaled(m, c).len() == n,
{
}

/// The sum of two symmetric matrices is symmetric.
pub proof fn lemma_plus_keeps_symmetry(a: Seq<Seq<i64>>, b: Seq<Seq<i64>>, n: int)
    requires
        symmetric(a, n),
        symmetric(b, n),
    ensures
        symmetric(plus(a, b), n),
{
}

} // verus!
