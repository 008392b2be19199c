use fixmat::Matrix;
use fixmat::TryFromIterError;

#[test]
fn test_matrix_default() {
    let expected = Matrix::<i32, 2, 3>::from_rows(vec![vec![0, 0, 0], vec![0, 0, 0]]);

    assert_eq!(Matrix::<i32, 2, 3>::default(), expected);
}

#[test]
fn test_matrix_from_cols() {
    let m = Matrix::<i32, 3, 2>::from_cols(vec![vec![1, 2, 3], vec![4, 5, 6]]);
    let expected = Matrix::<i32, 3, 2>::from_rows(vec![vec![1, 4], vec![2, 5], vec![3, 6]]);

    assert_eq!(m, expected);
}

#[test]
fn test_matrix_zero() {
    let expected = Matrix::<i32, 2, 3>::from_rows(vec![vec![0, 0, 0], vec![0, 0, 0]]);

    assert_eq!(Matrix::<i32, 2, 3>::zero(), expected);
}

#[test]
fn test_matrix_splat() {
    let expected = Matrix::<i32, 2, 3>::from_rows(vec![vec![3, 3, 3], vec![3, 3, 3]]);

    assert_eq!(Matrix::<i32, 2, 3>::splat(3), expected);
}

#[test]
fn test_matrix_identity() {
    let expected =
        Matrix::<i32, 3, 3>::from_rows(vec![vec![1, 0, 0], vec![0, 1, 0], vec![0, 0, 1]]);

    assert_eq!(Matrix::<i32, 3, 3>::identity(), expected);
}

#[test]
fn test_matrix_try_from_iter() {
    let items = vec![1, 2, 3, 4, 5, 6];

    let expected = Matrix::<i32, 2, 3>::from_rows(vec![vec![1, 2, 3], vec![4, 5, 6]]);

    assert_eq!(Matrix::<i32, 2, 3>::try_from_iter(items), Ok(expected));
}

#[test]
fn test_matrix_addition() {
    let m = Matrix::<i32, 2, 3>::from_rows(vec![vec![1, 2, 3], vec![4, 5, 6]]);

    let expected = Matrix::<i32, 2, 3>::from_rows(vec![vec![2, 4, 6], vec![8, 10, 12]]);

    assert_eq!(m.clone().add(m), expected);
}

#[test]
fn test_matrix_subtraction() {
    let m1 = Matrix::<i32, 2, 3>::from_rows(vec![vec![1, 2, 3], vec![4, 5, 6]]);

    let m2 = Matrix::<i32, 2, 3>::from_rows(vec![vec![3, 2, 1], vec![6, 5, 4]]);

    let expected = Matrix::<i32, 2, 3>::from_rows(vec![vec![-2, 0, 2], vec![-2, 0, 2]]);

    assert_eq!(m1.subtract(m2), expected);
}

#[test]
fn test_matrix_scalar_multiplication() {
    let m1 = Matrix::<i32, 2, 3>::from_rows(vec![vec![1, 2, 3], vec![4, 5, 6]]);

    let expected = Matrix::<i32, 2, 3>::from_rows(vec![vec![2, 4, 6], vec![8, 10, 12]]);

    assert_eq!(m1.scale(2), expected);
}

/// A floating-point scalar for exercising the arithmetic operations from
/// outside the library; the verifier itself does not take floats, so this
/// wrapper lives only in the tests.
#[derive(Debug, Clone, Copy, PartialEq)]
struct Real(f64);

/// The specification-level trait items are erased at run time; outside the
/// verifier they still need bodies, which are never called.
impl fixmat::Scalar for Real {
    fn sp_zero() -> Real {
        Real(0.0)
    }

    fn sp_one() -> Real {
        Real(1.0)
    }

    fn add_ok(self, _rhs: Real) -> bool {
        true
    }

    fn sp_add(self, rhs: Real) -> Real {
        Real(self.0 + rhs.0)
    }

    fn sub_ok(self, _rhs: Real) -> bool {
        true
    }

    fn sp_sub(self, rhs: Real) -> Real {
        Real(self.0 - rhs.0)
    }

    fn mul_ok(self, _rhs: Real) -> bool {
        true
    }

    fn sp_mul(self, rhs: Real) -> Real {
        Real(self.0 * rhs.0)
    }

    fn div_ok(self, _rhs: Real) -> bool {
        true
    }

    fn sp_div(self, rhs: Real) -> Real {
        Real(self.0 / rhs.0)
    }

    fn lemma_add_zero(_x: Real) {
    }

    fn lemma_zero_add(_x: Real) {
    }

    fn lemma_mul_one(_x: Real) {
    }

    fn lemma_one_mul(_x: Real) {
    }

    fn lemma_mul_zero(_x: Real) {
    }

    fn lemma_zero_mul(_x: Real) {
    }

    fn zero() -> Real {
        Real(0.0)
    }

    fn one() -> Real {
        Real(1.0)
    }

    fn add(self, rhs: Real) -> Real {
        Real(self.0 + rhs.0)
    }

    fn sub(self, rhs: Real) -> Real {
        Real(self.0 - rhs.0)
    }

    fn mul(self, rhs: Real) -> Real {
        Real(self.0 * rhs.0)
    }

    fn div(self, rhs: Real) -> Real {
        Real(self.0 / rhs.0)
    }
}

#[test]
fn test_matrix_scalar_division() {
    let m1 = Matrix::<Real, 2, 3>::from_rows(vec![
        vec![Real(1.0), Real(2.0), Real(3.0)],
        vec![Real(4.0), Real(5.0), Real(6.0)],
    ]);

    let expected = Matrix::<Real, 2, 3>::from_rows(vec![
        vec![Real(0.5), Real(1.0), Real(1.5)],
        vec![Real(2.0), Real(2.5), Real(3.0)],
    ]);

    assert_eq!(m1.divide(Real(2.0)), expected);
}

#[test]
fn test_matrix_zip() {
    let m1 = Matrix::<i32, 2, 3>::from_rows(vec![vec![1, 2, 3], vec![4, 5, 6]]);

    let m2 = Matrix::<f64, 2, 3>::from_rows(vec![vec![1.0, 2.0, 3.0], vec![4.0, 5.0, 6.0]]);

    let expected = Matrix::<(i32, f64), 2, 3>::from_rows(vec![
        vec![(1, 1.0), (2, 2.0), (3, 3.0)],
        vec![(4, 4.0), (5, 5.0), (6, 6.0)],
    ]);

    assert_eq!(m1.zip(m2), expected);
}

#[test]
fn test_matrix_iter_row() {
    let m = Matrix::<i32, 2, 3>::from_rows(vec![vec![1, 2, 3], vec![4, 5, 6]]);

    let row = m.iter_row(0);
    assert_eq!(row, vec![1, 2, 3]);

    let row = m.iter_row(1);
    assert_eq!(row, vec![4, 5, 6]);
}

#[test]
fn test_matrix_iter_col() {
    let m = Matrix::<i32, 2, 3>::from_rows(vec![vec![1, 2, 3], vec![4, 5, 6]]);

    let col = m.iter_col(0);
    assert_eq!(col, vec![1, 4]);

    let col = m.iter_col(1);
    assert_eq!(col, vec![2, 5]);

    let col = m.iter_col(2);
    assert_eq!(col, vec![3, 6]);
}

#[test]
fn test_matrix_row_major_iter() {
    let m = Matrix::<i32, 2, 3>::from_rows(vec![vec![1, 2, 3], vec![4, 5, 6]]);

    assert_eq!(m.row_major_iter(), vec![1, 2, 3, 4, 5, 6]);
}

#[test]
fn test_matrix_col_major_iter() {
    let m = Matrix::<i32, 2, 3>::from_rows(vec![vec![1, 2, 3], vec![4, 5, 6]]);

    assert_eq!(m.col_major_iter(), vec![1, 4, 2, 5, 3, 6]);
}

#[test]
fn test_matrix_transpose() {
    let m = Matrix::<i32, 2, 3>::from_rows(vec![vec![1, 2, 3], vec![4, 5, 6]]);

    let expected = Matrix::<i32, 3, 2>::from_rows(vec![vec![1, 4], vec![2, 5], vec![3, 6]]);

    assert_eq!(m.transpose(), expected);
}

#[test]
fn test_matrix_mult() {
    let m1 = Matrix::<i32, 2, 3>::from_rows(vec![vec![1, -2, 4], vec![5, 0, 3]]);

    let m2 = Matrix::<i32, 3, 1>::from_rows(vec![vec![1], vec![5], vec![-1]]);

    let m3 = m1.multiply(m2);

    let expect = Matrix::<i32, 2, 1>::from_rows(vec![vec![-13], vec![2]]);

    assert_eq!(m3, expect);

    let m1 = Matrix::<i32, 3, 3>::from_rows(vec![vec![1, -2, 4], vec![5, 0, 3], vec![0, 2, 9]]);

    let m2 = Matrix::<i32, 3, 2>::from_rows(vec![vec![1, 0], vec![5, 3], vec![-1, 0]]);

    let m3 = m1.multiply(m2);

    let expect = Matrix::<i32, 3, 2>::from_rows(vec![vec![-13, -6], vec![2, 0], vec![1, 6]]);

    assert_eq!(m3, expect);
}

#[test]
fn test_matrix_map() {
    let m = Matrix::<i32, 2, 2>::from_rows(vec![vec![1, 2], vec![3, 4]]);

    let doubled = m.map(|x| x * 2);
    let expected = Matrix::<i32, 2, 2>::from_rows(vec![vec![2, 4], vec![6, 8]]);

    assert_eq!(doubled, expected);
}

#[test]
fn test_matrix_get_and_set() {
    let mut m = Matrix::<i32, 2, 2>::from_rows(vec![vec![1, 2], vec![3, 4]]);

    assert_eq!(*m.get(0, 1), 2);
    assert_eq!(*m.get(1, 0), 3);

    m.set(0, 1, 9);
    assert_eq!(*m.get(0, 1), 9);
    assert_eq!(*m.get(0, 0), 1);
}

#[test]
fn test_matrix_iter_out_of_range() {
    let m = Matrix::<i32, 2, 3>::from_rows(vec![vec![1, 2, 3], vec![4, 5, 6]]);

    assert_eq!(m.iter_row(2), Vec::<i32>::new());
    assert_eq!(m.iter_col(3), Vec::<i32>::new());
}

#[test]
fn test_matrix_transpose_involution() {
    let m = Matrix::<i32, 2, 3>::from_rows(vec![vec![7, -1, 0], vec![2, 5, 9]]);

    assert_eq!(m.clone().transpose().transpose(), m);
}

#[test]
fn test_matrix_identity_multiplication() {
    let m = Matrix::<i32, 3, 3>::from_rows(vec![vec![1, -2, 4], vec![5, 0, 3], vec![0, 2, 9]]);

    let left = Matrix::<i32, 3, 3>::identity().multiply(m.clone());
    assert_eq!(left, m);

    let right = m.clone().multiply(Matrix::<i32, 3, 3>::identity());
    assert_eq!(right, m);
}

#[test]
fn test_matrix_default_equals_zero() {
    assert_eq!(Matrix::<i32, 2, 3>::default(), Matrix::<i32, 2, 3>::zero());
}

#[test]
fn test_matrix_try_from_iter_underflow() {
    let short = Matrix::<i32, 2, 3>::try_from_iter(vec![1, 2, 3, 4, 5]);

    assert_eq!(short, Err(TryFromIterError::Underflowed));
}

#[test]
fn test_matrix_try_from_iter_extra_values_ignored() {
    let m = Matrix::<i32, 2, 2>::try_from_iter(vec![1, 2, 3, 4, 5, 6]);

    let expected = Matrix::<i32, 2, 2>::from_rows(vec![vec![1, 2], vec![3, 4]]);
    assert_eq!(m, Ok(expected));
}
