use atum::math::linalg::{dot_of, factor, fx_over, fx_root_of, fx_times, solve};

const UNIT: i64 = 1_000_000;

fn m(rows: &[&[i64]]) -> Vec<Vec<i64>> {
    rows.iter().map(|r| r.iter().map(|v| v * UNIT).collect()).collect()
}

#[test]
fn arithmetic_at_a_given_resolution() {
    assert_eq!(fx_times(1_500, 2_500, 1_000), 3_750);
    assert_eq!(fx_over(1_000, 4_000, 1_000), 250);
    assert_eq!(fx_over(1_000, 0, 1_000), 0);
    assert_eq!(fx_root_of(4_000, 1_000), 2_000);
    assert_eq!(fx_root_of(2_000_000_000_000, 1_000_000_000_000), 1_414_213_562_373);
    assert_eq!(fx_root_of(-4_000, 1_000), 0);
    assert_eq!(fx_root_of(4_000, -1_000), 0);
}

#[test]
fn inner_product() {
    let a = vec![1 * UNIT, 2 * UNIT, 3 * UNIT];
    let b = vec![4 * UNIT, -5 * UNIT, 6 * UNIT];
    assert_eq!(dot_of(&a, &b, 3, UNIT), 12 * UNIT);
    assert_eq!(dot_of(&a, &b, 2, UNIT), -6 * UNIT);
    assert_eq!(dot_of(&a, &b, 0, UNIT), 0);
}

#[test]
fn factor_of_a_positive_definite_matrix() {
    // [[4, 12, -16], [12, 37, -43], [-16, -43, 98]] = l l^T with l = [[2], [6, 1], [-8, 5, 3]]
    let a = m(&[&[4, 12, -16], &[12, 37, -43], &[-16, -43, 98]]);
    let l = factor(&a, UNIT).unwrap();
    assert_eq!(l, vec![vec![2 * UNIT], vec![6 * UNIT, 1 * UNIT], vec![-8 * UNIT, 5 * UNIT, 3 * UNIT]]);
}

#[test]
fn factor_of_a_diagonal_matrix_is_its_root() {
    let a = m(&[&[4, 0], &[0, 9]]);
    assert_eq!(factor(&a, UNIT).unwrap(), vec![vec![2 * UNIT], vec![0, 3 * UNIT]]);
}

#[test]
fn factor_of_the_empty_matrix() {
    assert_eq!(factor(&vec![], UNIT), Some(vec![]));
}

#[test]
fn no_factor_for_a_matrix_that_is_not_positive_definite() {
    assert_eq!(factor(&m(&[&[1, 2], &[2, 1]]), UNIT), None);
    assert_eq!(factor(&m(&[&[0, 0], &[0, 1]]), UNIT), None);
    assert_eq!(factor(&m(&[&[-1]]), UNIT), None);
    assert_eq!(factor(&m(&[&[1, 1], &[1, 1]]), UNIT), None);
}

#[test]
fn solving_with_a_factor() {
    // a k = b with a as above and k = (1, 2, 3): b = (-20, -43, 192)
    let a = m(&[&[4, 12, -16], &[12, 37, -43], &[-16, -43, 98]]);
    let l = factor(&a, UNIT).unwrap();
    let k = solve(&l, &vec![-20 * UNIT, -43 * UNIT, 192 * UNIT], UNIT);
    assert_eq!(k, vec![1 * UNIT, 2 * UNIT, 3 * UNIT]);
}

#[test]
fn solving_with_a_diagonal_factor() {
    let l = vec![vec![2 * UNIT], vec![0, 4 * UNIT]];
    // l l^T = diag(4, 16)
    assert_eq!(solve(&l, &vec![8 * UNIT, 8 * UNIT], UNIT), vec![2 * UNIT, UNIT / 2]);
    assert_eq!(solve(&vec![], &vec![], UNIT), Vec::<i64>::new());
}
