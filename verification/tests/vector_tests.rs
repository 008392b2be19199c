use fixmat::{Matrix, Vector};

#[test]
fn test_vector_len_squared() {
    assert_eq!(Vector::<i32, 2>::from_entries(vec![2, 3]).len_squared(), 2 * 2 + 3 * 3);
    assert_eq!(
        Vector::<i32, 3>::from_entries(vec![4, 5, 6]).len_squared(),
        4 * 4 + 5 * 5 + 6 * 6
    );
}

#[test]
fn test_vector_is_single_column_matrix() {
    let v = Vector::<i32, 3>::from_entries(vec![7, 8, 9]);
    let m = Matrix::<i32, 3, 1>::from_rows(vec![vec![7], vec![8], vec![9]]);

    assert_eq!(v, m);
    assert_eq!(v.iter_col(0), vec![7, 8, 9]);
}

#[test]
fn test_vector_round_trip_row_major() {
    let v = Vector::<i32, 4>::from_entries(vec![3, 1, 4, 1]);

    assert_eq!(v.row_major_iter(), vec![3, 1, 4, 1]);
}

#[test]
fn test_scalar_division_truncates_toward_zero() {
    let m = Matrix::<i32, 1, 4>::from_rows(vec![vec![-7, 7, -8, 9]]);

    let expected = Matrix::<i32, 1, 4>::from_rows(vec![vec![-3, 3, -4, 4]]);
    assert_eq!(m.divide(2), expected);

    let n = Matrix::<i32, 1, 2>::from_rows(vec![vec![-7, 7]]);
    let expected_neg = Matrix::<i32, 1, 2>::from_rows(vec![vec![3, -3]]);
    assert_eq!(n.divide(-2), expected_neg);
}
