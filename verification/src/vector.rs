//! Vectors as single-column matrices: a `Vector<T, D>` is exactly a
//! `D x 1` matrix, with construction from a flat sequence of entries and
//! a squared-length fold.  Length and normalization for floating-point
//! entries live outside the verified library, since the verifier does not
//! take floating point.

use crate::matrix::{column, dot_ok, dot_prefix, lemma_dot_ok_prefix, Matrix};
use crate::scalar::Scalar;
use vstd::prelude::*;

verus! {

/// A vector of dimension `D`: a single-column matrix.
pub type Vector<T, const D: usize> = Matrix<T, D, 1>;

impl<T, const D: usize> Matrix<T, D, 1> {
    /// Builds the vector whose entry `i` is `items[i]`: each scalar
    /// becomes its own single-entry row.
    pub fn from_entries(items: Vec<T>) -> (r: Self)
        requires
            items@.len() == D,
        ensures
            r.wf(),
            forall|i: int| 0 <= i < D ==> #[trigger] r@[i] == seq![items@[i]],
    {
        let ghost orig = items@;
        let mut remaining = items;
        let mut rows: Vec<Vec<T>> = Vec::new();
        let mut i: usize = 0;
        while i < D
            invariant
                orig == items@,
                orig.len() == D,
                i <= D,
                remaining@ == orig.skip(i as int),
                rows@.len() == i,
                forall|p: int| 0 <= p < i ==> (#[trigger] rows@[p])@ == seq![orig[p]],
            decreases D - i,
        {
            let v = remaining.remove(0);
            let mut row: Vec<T> = Vec::new();
            row.push(v);
            proof {
                assert(row@ =~= seq![orig[i as int]]);
            }
            rows.push(row);
            proof {
                assert(remaining@ =~= orig.skip(i as int + 1));
            }
            i += 1;
        }
        Matrix::<T, D, 1>::from_rows(rows)
    }
}

impl<T: Scalar, const D: usize> Matrix<T, D, 1> {
    /// The sum of the squares of the entries, accumulated from the
    /// additive identity in index order.
    pub fn len_squared(&self) -> (r: T)
        requires
            self.wf(),
            dot_ok(column(self@, 0), column(self@, 0), D as int),
        ensures
            r == dot_prefix(column(self@, 0), column(self@, 0), D as int),
    {
        let mut acc = T::zero();
        let mut i: usize = 0;
        while i < D
            invariant
                self.wf(),
                i <= D,
                dot_ok(column(self@, 0), column(self@, 0), D as int),
                acc == dot_prefix(column(self@, 0), column(self@, 0), i as int),
            decreases D - i,
        {
            proof {
                lemma_dot_ok_prefix(column(self@, 0), column(self@, 0), i as int + 1, D as int);
                assert(column(self@, 0)[i as int] == self@[i as int][0]);
            }
            let v = *self.get(i, 0);
            acc = acc.add(v.mul(v));
            i += 1;
        }
        acc
    }
}

} // verus!
