//! A rectangular, row-major grid of `ROWS x COLS` values whose shape is
//! part of its type, with construction from a runtime sequence, element
//! access, iteration in both layouts, transposition and arithmetic.

use crate::array::ArrayBuilder;
use crate::scalar::Scalar;
use vstd::arithmetic::div_mod::{
    lemma_div_pos_is_pos, lemma_fundamental_div_mod, lemma_fundamental_div_mod_converse,
    lemma_mod_bound,
};
use vstd::arithmetic::mul::{lemma_mul_inequality, lemma_mul_is_commutative};
use vstd::prelude::*;

verus! {

/// The model of a matrix: a sequence of `rows` rows, each a sequence of
/// exactly `cols` values.
pub open spec fn grid_wf<T>(g: Seq<Seq<T>>, rows: nat, cols: nat) -> bool {
    g.len() == rows && forall|i: int| 0 <= i < rows ==> (#[trigger] g[i]).len() == cols
}

/// The `rows x cols` grid with every cell equal to `v`.
pub open spec fn splat_grid<T>(v: T, rows: nat, cols: nat) -> Seq<Seq<T>> {
    Seq::new(rows, |i: int| Seq::new(cols, |j: int| v))
}

/// The `n x n` grid with the multiplicative identity on the diagonal and
/// the additive identity everywhere else.
pub open spec fn identity_grid<T: Scalar>(n: nat) -> Seq<Seq<T>> {
    Seq::new(
        n,
        |i: int|
            Seq::new(n, |j: int| if i == j { T::sp_one() } else { T::sp_zero() }),
    )
}

/// The transpose of a `rows x cols` grid: cell `(j, i)` of the result is
/// cell `(i, j)` of the input.
pub open spec fn transpose_grid<T>(g: Seq<Seq<T>>, rows: nat, cols: nat) -> Seq<Seq<T>> {
    Seq::new(cols, |j: int| Seq::new(rows, |i: int| g[i][j]))
}

/// Column `j` of a grid, top to bottom.
pub open spec fn column<T>(g: Seq<Seq<T>>, j: int) -> Seq<T> {
    Seq::new(g.len(), |i: int| g[i][j])
}

/// All cells of a `rows x cols` grid in row-major order: position
/// `i * cols + j` holds cell `(i, j)`.
pub open spec fn row_major_of<T>(g: Seq<Seq<T>>, rows: nat, cols: nat) -> Seq<T> {
    Seq::new(rows * cols, |k: int| g[k / cols as int][k % cols as int])
}

/// All cells of a `rows x cols` grid in column-major order: position
/// `j * rows + i` holds cell `(i, j)`.
pub open spec fn col_major_of<T>(g: Seq<Seq<T>>, rows: nat, cols: nat) -> Seq<T> {
    Seq::new(rows * cols, |k: int| g[k % rows as int][k / rows as int])
}

/// The first `k` steps of the left fold computing a dot product of `a`
/// and `b`: the accumulator starts at the additive identity and takes
/// `a[t] * b[t]` for `t` in increasing order.
pub open spec fn dot_prefix<T: Scalar>(a: Seq<T>, b: Seq<T>, k: int) -> T
    decreases k,
{
    if k <= 0 {
        T::sp_zero()
    } else {
        dot_prefix(a, b, k - 1).sp_add(a[k - 1].sp_mul(b[k - 1]))
    }
}

/// Whether every product and every accumulation in the first `k` steps of
/// the dot-product fold is defined for the scalar type.
pub open spec fn dot_ok<T: Scalar>(a: Seq<T>, b: Seq<T>, k: int) -> bool
    decreases k,
{
    k <= 0 || (dot_ok(a, b, k - 1) && a[k - 1].mul_ok(b[k - 1]) && dot_prefix(a, b, k - 1).add_ok(
        a[k - 1].sp_mul(b[k - 1]),
    ))
}

/// A fold that is defined for `n` steps is defined for any prefix of them.
pub proof fn lemma_dot_ok_prefix<T: Scalar>(a: Seq<T>, b: Seq<T>, k: int, n: int)
    requires
        0 <= k <= n,
        dot_ok(a, b, n),
    ensures
        dot_ok(a, b, k),
    decreases n - k,
{
    if k < n {
        lemma_dot_ok_prefix(a, b, k, n - 1);
    }
}

/// The standard matrix product of an `a` of shape `rows x inner` and a
/// `b` of shape `inner x cols`: cell `(i, j)` is the dot product of row
/// `i` of `a` and column `j` of `b`.
pub open spec fn matmul_grid<T: Scalar>(
    a: Seq<Seq<T>>,
    b: Seq<Seq<T>>,
    rows: nat,
    inner: nat,
    cols: nat,
) -> Seq<Seq<T>> {
    Seq::new(rows, |i: int| Seq::new(cols, |j: int| dot_prefix(a[i], column(b, j), inner as int)))
}

/// A matrix failed to be built from a sequence of values.
#[derive(Debug, Clone, Copy, PartialEq, Eq, Structural)]
pub enum TryFromIterError {
    /// More values were pushed than the target shape holds.
    Overflowed,
    /// The sequence ran out before the target shape was filled.
    Underflowed,
}

/// A row-major `R x C` matrix of values of type `T`.
#[derive(Debug, Clone, PartialEq, Eq)]
pub struct Matrix<T, const R: usize, const C: usize> {
    rows: Vec<Vec<T>>,
}

impl<T, const R: usize, const C: usize> View for Matrix<T, R, C> {
    type V = Seq<Seq<T>>;

    /// The grid of values, one inner sequence per row.
    closed spec fn view(&self) -> Seq<Seq<T>> {
        Seq::new(self.rows@.len() as nat, |i: int| self.rows@[i]@)
    }
}

impl<T, const R: usize, const C: usize> Matrix<T, R, C> {
    /// The grid always has exactly `R` rows of exactly `C` cells each.
    pub open spec fn wf(&self) -> bool {
        grid_wf(self@, R as nat, C as nat)
    }

    /// Wraps an already-correctly-shaped grid of rows; infallible.
    pub fn from_rows(rows: Vec<Vec<T>>) -> (r: Self)
        requires
            rows@.len() == R,
            forall|i: int| 0 <= i < R ==> (#[trigger] rows@[i])@.len() == C,
        ensures
            r.wf(),
            forall|i: int| 0 <= i < R ==> #[trigger] r@[i] == rows@[i]@,
    {
        Matrix { rows }
    }

    /// Builds the matrix by pulling up to `R * C` values from the front of
    /// `items`, filling row-major.
    ///
    /// When `items` runs out before a row is completed the construction
    /// fails with `Underflowed`; values past the first `R * C` are simply
    /// not pulled.  `Overflowed` marks a push past a builder's capacity,
    /// which the bounded pulls here rule out, so it is never returned from
    /// this path.
    pub fn try_from_iter(items: Vec<T>) -> (r: Result<Self, TryFromIterError>)
        ensures
            match r {
                Ok(m) => {
                    &&& items@.len() >= R * C
                    &&& m.wf()
                    &&& forall|i: int, j: int|
                        #![trigger m@[i][j]]
                        0 <= i < R && 0 <= j < C ==> m@[i][j] == items@[i * C + j]
                },
                Err(e) => {
                    &&& e == TryFromIterError::Underflowed
                    &&& items@.len() < R * C
                },
            },
    {
        let ghost orig = items@;
        let mut remaining = items;
        let mut rows_b = ArrayBuilder::<Vec<T>, R>::new();
        let mut i: usize = 0;
        while i < R
            invariant
                orig == items@,
                i <= R,
                rows_b.wf(),
                rows_b@.len() == i,
                orig.len() >= i * C,
                remaining@ == orig.skip(i as int * C as int),
                forall|p: int| 0 <= p < i ==> (#[trigger] rows_b@[p])@.len() == C,
                forall|p: int, q: int|
                    #![trigger rows_b@[p]@[q]]
                    0 <= p < i && 0 <= q < C ==> rows_b@[p]@[q] == orig[p * C + q],
            decreases R - i,
        {
            let mut cols_b = ArrayBuilder::<T, C>::new();
            let mut j: usize = 0;
            while j < C
                invariant
                    orig == items@,
                    j <= C,
                    i < R,
                    cols_b.wf(),
                    orig.len() >= i * C,
                    orig.len() >= i * C + j ==> cols_b@.len() == j,
                    orig.len() < i * C + j ==> cols_b@.len() == orig.len() - i * C,
                    remaining@ == orig.skip(i as int * C as int + cols_b@.len() as int),
                    forall|q: int|
                        0 <= q < cols_b@.len() ==> #[trigger] cols_b@[q] == orig[i * C + q],
                decreases C - j,
            {
                if remaining.len() > 0 {
                    let item = remaining.remove(0);
                    let pushed = cols_b.push(item);
                    match pushed {
                        Ok(()) => {}
                        Err(_) => {
                            return Err(TryFromIterError::Overflowed);
                        },
                    }
                    proof {
                        assert(remaining@ =~= orig.skip(
                            i as int * C as int + cols_b@.len() as int,
                        ));
                    }
                }
                j += 1;
            }
            let built = cols_b.build();
            let row_vec = match built {
                Ok(v) => v,
                Err(_) => {
                    proof {
                        assert((i + 1) as int * C as int == i as int * C as int + C as int)
                            by (nonlinear_arith);
                        lemma_mul_inequality(i as int + 1, R as int, C as int);
                    }
                    return Err(TryFromIterError::Underflowed);
                },
            };
            let pushed = rows_b.push(row_vec);
            match pushed {
                Ok(()) => {}
                Err(_) => {
                    return Err(TryFromIterError::Overflowed);
                },
            }
            proof {
                assert((i + 1) as int * C as int == i as int * C as int + C as int)
                    by (nonlinear_arith);
                assert(remaining@ =~= orig.skip((i + 1) as int * C as int));
            }
            i += 1;
        }
        let built = rows_b.build();
        let rows_vec = match built {
            Ok(v) => v,
            Err(_) => {
                return Err(TryFromIterError::Underflowed);
            },
        };
        let m = Matrix::from_rows(rows_vec);
        Ok(m)
    }

    /// The value at `(row, col)`, zero-based.  Out-of-range indices are a
    /// caller defect and are excluded up front.
    pub fn get(&self, row: usize, col: usize) -> (v: &T)
        requires
            self.wf(),
            row < R,
            col < C,
        ensures
            *v == self@[row as int][col as int],
    {
        proof {
            assert(self.rows@.len() == R);
            assert(self@[row as int].len() == C);
            assert(self@[row as int] == self.rows@[row as int]@);
        }
        &self.rows[row][col]
    }

    /// Replaces the value at `(row, col)`, zero-based.  Out-of-range
    /// indices are a caller defect and are excluded up front.
    pub fn set(&mut self, row: usize, col: usize, value: T)
        requires
            old(self).wf(),
            row < R,
            col < C,
        ensures
            final(self).wf(),
            final(self)@ == old(self)@.update(
                row as int,
                old(self)@[row as int].update(col as int, value),
            ),
    {
        proof {
            assert(self.rows@.len() == R);
            assert(self@[row as int].len() == C);
            assert(self@[row as int] == self.rows@[row as int]@);
        }
        let row_vec: &mut Vec<T> = &mut self.rows[row];
        proof {
            assert((*row_vec)@.len() == C);
        }
        row_vec[col] = value;
        proof {
            assert(final(self)@ =~~= old(self)@.update(
                row as int,
                old(self)@[row as int].update(col as int, value),
            ));
        }
    }
}

impl<T: Copy, const R: usize, const C: usize> Matrix<T, R, C> {
    /// All cells in row-major order: row 0 left to right, then row 1, and
    /// so on.
    pub fn row_major_iter(&self) -> (r: Vec<T>)
        requires
            self.wf(),
        ensures
            r@ == row_major_of(self@, R as nat, C as nat),
    {
        let mut out: Vec<T> = Vec::new();
        let mut i: usize = 0;
        while i < R
            invariant
                self.wf(),
                i <= R,
                out@.len() == i * C,
                forall|k: int|
                    0 <= k < out@.len() ==> #[trigger] out@[k] == self@[k / C as int][k % C as int],
            decreases R - i,
        {
            let mut j: usize = 0;
            while j < C
                invariant
                    self.wf(),
                    i < R,
                    j <= C,
                    out@.len() == i * C + j,
                    forall|k: int|
                        0 <= k < out@.len() ==> #[trigger] out@[k] == self@[k / C as int][k
                            % C as int],
                decreases C - j,
            {
                let ghost k = out@.len() as int;
                out.push(*self.get(i, j));
                proof {
                    lemma_fundamental_div_mod_converse(k, C as int, i as int, j as int);
                }
                j += 1;
            }
            proof {
                assert((i + 1) as int * C as int == i as int * C as int + C as int)
                    by (nonlinear_arith);
            }
            i += 1;
        }
        proof {
            assert(out@ =~= row_major_of(self@, R as nat, C as nat));
        }
        out
    }

    /// All cells in column-major order: column 0 top to bottom, then
    /// column 1, and so on.
    pub fn col_major_iter(&self) -> (r: Vec<T>)
        requires
            self.wf(),
        ensures
            r@ == col_major_of(self@, R as nat, C as nat),
    {
        let mut out: Vec<T> = Vec::new();
        let mut j: usize = 0;
        while j < C
            invariant
                self.wf(),
                j <= C,
                out@.len() == j * R,
                forall|k: int|
                    0 <= k < out@.len() ==> #[trigger] out@[k] == self@[k % R as int][k / R as int],
            decreases C - j,
        {
            let mut i: usize = 0;
            while i < R
                invariant
                    self.wf(),
                    j < C,
                    i <= R,
                    out@.len() == j * R + i,
                    forall|k: int|
                        0 <= k < out@.len() ==> #[trigger] out@[k] == self@[k % R as int][k
                            / R as int],
                decreases R - i,
            {
                let ghost k = out@.len() as int;
                out.push(*self.get(i, j));
                proof {
                    lemma_fundamental_div_mod_converse(k, R as int, j as int, i as int);
                }
                i += 1;
            }
            proof {
                assert((j + 1) as int * R as int == j as int * R as int + R as int)
                    by (nonlinear_arith);
            }
            j += 1;
        }
        proof {
            assert(C as int * R as int == R as int * C as int) by (nonlinear_arith);
            assert(out@ =~= col_major_of(self@, R as nat, C as nat));
        }
        out
    }

    /// Row `i` left to right; an out-of-range `i` yields an empty
    /// sequence rather than failing.
    pub fn iter_row(&self, i: usize) -> (r: Vec<T>)
        requires
            self.wf(),
        ensures
            i < R ==> r@ == self@[i as int],
            i >= R ==> r@ == Seq::<T>::empty(),
    {
        let mut out: Vec<T> = Vec::new();
        if i < R {
            let mut j: usize = 0;
            while j < C
                invariant
                    self.wf(),
                    i < R,
                    j <= C,
                    out@.len() == j,
                    forall|q: int| 0 <= q < j ==> #[trigger] out@[q] == self@[i as int][q],
                decreases C - j,
            {
                out.push(*self.get(i, j));
                j += 1;
            }
            proof {
                assert(out@ =~= self@[i as int]);
            }
        } else {
            proof {
                assert(out@ =~= Seq::<T>::empty());
            }
        }
        out
    }

    /// Column `i` top to bottom; an out-of-range `i` yields an empty
    /// sequence rather than failing.
    pub fn iter_col(&self, i: usize) -> (r: Vec<T>)
        requires
            self.wf(),
        ensures
            i < C ==> r@ == column(self@, i as int),
            i >= C ==> r@ == Seq::<T>::empty(),
    {
        let mut out: Vec<T> = Vec::new();
        if i < C {
            let mut p: usize = 0;
            while p < R
                invariant
                    self.wf(),
                    i < C,
                    p <= R,
                    out@.len() == p,
                    forall|q: int| 0 <= q < p ==> #[trigger] out@[q] == self@[q][i as int],
                decreases R - p,
            {
                out.push(*self.get(p, i));
                p += 1;
            }
            proof {
                assert(out@ =~= column(self@, i as int));
            }
        } else {
            proof {
                assert(out@ =~= Seq::<T>::empty());
            }
        }
        out
    }

    /// The transposed matrix: cell `(j, i)` of the result is cell `(i, j)`
    /// of the input.
    pub fn transpose(self) -> (r: Matrix<T, C, R>)
        requires
            self.wf(),
        ensures
            r.wf(),
            r@ == transpose_grid(self@, R as nat, C as nat),
    {
        let mut rows: Vec<Vec<T>> = Vec::new();
        let mut j: usize = 0;
        while j < C
            invariant
                self.wf(),
                j <= C,
                rows@.len() == j,
                forall|p: int|
                    0 <= p < j ==> (#[trigger] rows@[p])@ == transpose_grid(
                        self@,
                        R as nat,
                        C as nat,
                    )[p],
            decreases C - j,
        {
            let mut row: Vec<T> = Vec::new();
            let mut i: usize = 0;
            while i < R
                invariant
                    self.wf(),
                    j < C,
                    i <= R,
                    row@.len() == i,
                    forall|q: int| 0 <= q < i ==> #[trigger] row@[q] == self@[q][j as int],
                decreases R - i,
            {
                row.push(*self.get(i, j));
                i += 1;
            }
            proof {
                assert(row@ =~= transpose_grid(self@, R as nat, C as nat)[j as int]);
            }
            rows.push(row);
            j += 1;
        }
        let m = Matrix::<T, C, R> { rows };
        proof {
            assert(m@ =~~= transpose_grid(self@, R as nat, C as nat));
        }
        m
    }

    /// Builds a matrix from column-major input: entry `i` of `cols[j]`
    /// becomes cell `(i, j)`.
    pub fn from_cols(cols: Vec<Vec<T>>) -> (r: Self)
        requires
            cols@.len() == C,
            forall|j: int| 0 <= j < C ==> (#[trigger] cols@[j])@.len() == R,
        ensures
            r.wf(),
            forall|i: int, j: int|
                #![trigger r@[i][j]]
                0 <= i < R && 0 <= j < C ==> r@[i][j] == cols@[j]@[i],
    {
        let m = Matrix::<T, C, R>::from_rows(cols);
        m.transpose()
    }

    /// Applies `f` to every cell, keeping the shape.
    pub fn map<U, F: Fn(T) -> U>(self, f: F) -> (r: Matrix<U, R, C>)
        requires
            self.wf(),
            forall|i: int, j: int|
                0 <= i < R && 0 <= j < C ==> #[trigger] call_requires(f, (self@[i][j],)),
        ensures
            r.wf(),
            forall|i: int, j: int|
                #![trigger r@[i][j]]
                0 <= i < R && 0 <= j < C ==> call_ensures(f, (self@[i][j],), r@[i][j]),
    {
        let mut rows: Vec<Vec<U>> = Vec::new();
        let mut i: usize = 0;
        while i < R
            invariant
                self.wf(),
                i <= R,
                rows@.len() == i,
                forall|i2: int, j2: int|
                    0 <= i2 < R && 0 <= j2 < C ==> #[trigger] call_requires(f, (self@[i2][j2],)),
                forall|p: int| 0 <= p < i ==> (#[trigger] rows@[p])@.len() == C,
                forall|p: int, q: int|
                    #![trigger rows@[p]@[q]]
                    0 <= p < i && 0 <= q < C ==> call_ensures(f, (self@[p][q],), rows@[p]@[q]),
            decreases R - i,
        {
            let mut row: Vec<U> = Vec::new();
            let mut j: usize = 0;
            while j < C
                invariant
                    self.wf(),
                    i < R,
                    j <= C,
                    row@.len() == j,
                    forall|i2: int, j2: int|
                        0 <= i2 < R && 0 <= j2 < C ==> #[trigger] call_requires(
                            f,
                            (self@[i2][j2],),
                        ),
                    forall|q: int|
                        0 <= q < j ==> call_ensures(f, (self@[i as int][q],), #[trigger] row@[q]),
                decreases C - j,
            {
                let v = f(*self.get(i, j));
                row.push(v);
                j += 1;
            }
            rows.push(row);
            i += 1;
        }
        let m = Matrix::<U, R, C> { rows };
        proof {
            assert(m@.len() == R);
        }
        m
    }

    /// Pairs every cell of `self` with the corresponding cell of `m`.
    pub fn zip<U: Copy>(self, m: Matrix<U, R, C>) -> (r: Matrix<(T, U), R, C>)
        requires
            self.wf(),
            m.wf(),
        ensures
            r.wf(),
            forall|i: int, j: int|
                #![trigger r@[i][j]]
                0 <= i < R && 0 <= j < C ==> r@[i][j] == (self@[i][j], m@[i][j]),
    {
        let mut rows: Vec<Vec<(T, U)>> = Vec::new();
        let mut i: usize = 0;
        while i < R
            invariant
                self.wf(),
                m.wf(),
                i <= R,
                rows@.len() == i,
                forall|p: int| 0 <= p < i ==> (#[trigger] rows@[p])@.len() == C,
                forall|p: int, q: int|
                    #![trigger rows@[p]@[q]]
                    0 <= p < i && 0 <= q < C ==> rows@[p]@[q] == (self@[p][q], m@[p][q]),
            decreases R - i,
        {
            let mut row: Vec<(T, U)> = Vec::new();
            let mut j: usize = 0;
            while j < C
                invariant
                    self.wf(),
                    m.wf(),
                    i < R,
                    j <= C,
                    row@.len() == j,
                    forall|q: int|
                        0 <= q < j ==> #[trigger] row@[q] == (self@[i as int][q], m@[i as int][q]),
                decreases C - j,
            {
                row.push((*self.get(i, j), *m.get(i, j)));
                j += 1;
            }
            rows.push(row);
            i += 1;
        }
        let r = Matrix::<(T, U), R, C> { rows };
        proof {
            assert(r@.len() == R);
        }
        r
    }
}

impl<T: Scalar, const R: usize, const C: usize> Matrix<T, R, C> {
    /// The matrix with every cell equal to the scalar additive identity.
    pub fn zero() -> (r: Self)
        ensures
            r.wf(),
            r@ == splat_grid(T::sp_zero(), R as nat, C as nat),
    {
        Self::splat(T::zero())
    }

    /// The matrix with every cell equal to `item`.
    pub fn splat(item: T) -> (r: Self)
        ensures
            r.wf(),
            r@ == splat_grid(item, R as nat, C as nat),
    {
        let mut rows: Vec<Vec<T>> = Vec::new();
        let mut i: usize = 0;
        while i < R
            invariant
                i <= R,
                rows@.len() == i,
                forall|p: int| 0 <= p < i ==> (#[trigger] rows@[p])@ == Seq::new(
                    C as nat,
                    |q: int| item,
                ),
            decreases R - i,
        {
            let mut row: Vec<T> = Vec::new();
            let mut j: usize = 0;
            while j < C
                invariant
                    j <= C,
                    row@.len() == j,
                    forall|q: int| 0 <= q < j ==> #[trigger] row@[q] == item,
                decreases C - j,
            {
                row.push(item);
                j += 1;
            }
            proof {
                assert(row@ =~= Seq::new(C as nat, |q: int| item));
            }
            rows.push(row);
            i += 1;
        }
        let m = Matrix { rows };
        proof {
            assert(m@ =~~= splat_grid(item, R as nat, C as nat));
        }
        m
    }

    /// Element-wise sum: cell `(i, j)` of the result is the scalar sum of
    /// the corresponding input cells.
    pub fn add(self, rhs: Matrix<T, R, C>) -> (r: Matrix<T, R, C>)
        requires
            self.wf(),
            rhs.wf(),
            forall|i: int, j: int|
                0 <= i < R && 0 <= j < C ==> #[trigger] self@[i][j].add_ok(rhs@[i][j]),
        ensures
            r.wf(),
            forall|i: int, j: int|
                #![trigger r@[i][j]]
                0 <= i < R && 0 <= j < C ==> r@[i][j] == self@[i][j].sp_add(rhs@[i][j]),
    {
        let mut rows: Vec<Vec<T>> = Vec::new();
        let mut i: usize = 0;
        while i < R
            invariant
                self.wf(),
                rhs.wf(),
                i <= R,
                rows@.len() == i,
                forall|i2: int, j2: int|
                    0 <= i2 < R && 0 <= j2 < C ==> #[trigger] self@[i2][j2].add_ok(rhs@[i2][j2]),
                forall|p: int| 0 <= p < i ==> (#[trigger] rows@[p])@.len() == C,
                forall|p: int, q: int|
                    #![trigger rows@[p]@[q]]
                    0 <= p < i && 0 <= q < C ==> rows@[p]@[q] == self@[p][q].sp_add(rhs@[p][q]),
            decreases R - i,
        {
            let mut row: Vec<T> = Vec::new();
            let mut j: usize = 0;
            while j < C
                invariant
                    self.wf(),
                    rhs.wf(),
                    i < R,
                    j <= C,
                    row@.len() == j,
                    forall|i2: int, j2: int|
                        0 <= i2 < R && 0 <= j2 < C ==> #[trigger] self@[i2][j2].add_ok(
                            rhs@[i2][j2],
                        ),
                    forall|q: int|
                        0 <= q < j ==> #[trigger] row@[q] == self@[i as int][q].sp_add(
                            rhs@[i as int][q],
                        ),
                decreases C - j,
            {
                let a = *self.get(i, j);
                let b = *rhs.get(i, j);
                row.push(a.add(b));
                j += 1;
            }
            rows.push(row);
            i += 1;
        }
        let m = Matrix::<T, R, C> { rows };
        proof {
            assert(m@.len() == R);
        }
        m
    }

    /// Element-wise difference: cell `(i, j)` of the result is the scalar
    /// difference of the corresponding input cells.
    pub fn subtract(self, rhs: Matrix<T, R, C>) -> (r: Matrix<T, R, C>)
        requires
            self.wf(),
            rhs.wf(),
            forall|i: int, j: int|
                0 <= i < R && 0 <= j < C ==> #[trigger] self@[i][j].sub_ok(rhs@[i][j]),
        ensures
            r.wf(),
            forall|i: int, j: int|
                #![trigger r@[i][j]]
                0 <= i < R && 0 <= j < C ==> r@[i][j] == self@[i][j].sp_sub(rhs@[i][j]),
    {
        let mut rows: Vec<Vec<T>> = Vec::new();
        let mut i: usize = 0;
        while i < R
            invariant
                self.wf(),
                rhs.wf(),
                i <= R,
                rows@.len() == i,
                forall|i2: int, j2: int|
                    0 <= i2 < R && 0 <= j2 < C ==> #[trigger] self@[i2][j2].sub_ok(rhs@[i2][j2]),
                forall|p: int| 0 <= p < i ==> (#[trigger] rows@[p])@.len() == C,
                forall|p: int, q: int|
                    #![trigger rows@[p]@[q]]
                    0 <= p < i && 0 <= q < C ==> rows@[p]@[q] == self@[p][q].sp_sub(rhs@[p][q]),
            decreases R - i,
        {
            let mut row: Vec<T> = Vec::new();
            let mut j: usize = 0;
            while j < C
                invariant
                    self.wf(),
                    rhs.wf(),
                    i < R,
                    j <= C,
                    row@.len() == j,
                    forall|i2: int, j2: int|
                        0 <= i2 < R && 0 <= j2 < C ==> #[trigger] self@[i2][j2].sub_ok(
                            rhs@[i2][j2],
                        ),
                    forall|q: int|
                        0 <= q < j ==> #[trigger] row@[q] == self@[i as int][q].sp_sub(
                            rhs@[i as int][q],
                        ),
                decreases C - j,
            {
                let a = *self.get(i, j);
                let b = *rhs.get(i, j);
                row.push(a.sub(b));
                j += 1;
            }
            rows.push(row);
            i += 1;
        }
        let m = Matrix::<T, R, C> { rows };
        proof {
            assert(m@.len() == R);
        }
        m
    }

    /// Scalar multiple: every cell multiplied by `factor` on the right.
    pub fn scale(self, factor: T) -> (r: Matrix<T, R, C>)
        requires
            self.wf(),
            forall|i: int, j: int|
                0 <= i < R && 0 <= j < C ==> #[trigger] self@[i][j].mul_ok(factor),
        ensures
            r.wf(),
            forall|i: int, j: int|
                #![trigger r@[i][j]]
                0 <= i < R && 0 <= j < C ==> r@[i][j] == self@[i][j].sp_mul(factor),
    {
        let mut rows: Vec<Vec<T>> = Vec::new();
        let mut i: usize = 0;
        while i < R
            invariant
                self.wf(),
                i <= R,
                rows@.len() == i,
                forall|i2: int, j2: int|
                    0 <= i2 < R && 0 <= j2 < C ==> #[trigger] self@[i2][j2].mul_ok(factor),
                forall|p: int| 0 <= p < i ==> (#[trigger] rows@[p])@.len() == C,
                forall|p: int, q: int|
                    #![trigger rows@[p]@[q]]
                    0 <= p < i && 0 <= q < C ==> rows@[p]@[q] == self@[p][q].sp_mul(factor),
            decreases R - i,
        {
            let mut row: Vec<T> = Vec::new();
            let mut j: usize = 0;
            while j < C
                invariant
                    self.wf(),
                    i < R,
                    j <= C,
                    row@.len() == j,
                    forall|i2: int, j2: int|
                        0 <= i2 < R && 0 <= j2 < C ==> #[trigger] self@[i2][j2].mul_ok(factor),
                    forall|q: int|
                        0 <= q < j ==> #[trigger] row@[q] == self@[i as int][q].sp_mul(factor),
                decreases C - j,
            {
                let a = *self.get(i, j);
                row.push(a.mul(factor));
                j += 1;
            }
            rows.push(row);
            i += 1;
        }
        let m = Matrix::<T, R, C> { rows };
        proof {
            assert(m@.len() == R);
        }
        m
    }

    /// Scalar quotient: every cell divided by `divisor`, with the scalar
    /// type's own division semantics.
    pub fn divide(self, divisor: T) -> (r: Matrix<T, R, C>)
        requires
            self.wf(),
            forall|i: int, j: int|
                0 <= i < R && 0 <= j < C ==> #[trigger] self@[i][j].div_ok(divisor),
        ensures
            r.wf(),
            forall|i: int, j: int|
                #![trigger r@[i][j]]
                0 <= i < R && 0 <= j < C ==> r@[i][j] == self@[i][j].sp_div(divisor),
    {
        let mut rows: Vec<Vec<T>> = Vec::new();
        let mut i: usize = 0;
        while i < R
            invariant
                self.wf(),
                i <= R,
                rows@.len() == i,
                forall|i2: int, j2: int|
                    0 <= i2 < R && 0 <= j2 < C ==> #[trigger] self@[i2][j2].div_ok(divisor),
                forall|p: int| 0 <= p < i ==> (#[trigger] rows@[p])@.len() == C,
                forall|p: int, q: int|
                    #![trigger rows@[p]@[q]]
                    0 <= p < i && 0 <= q < C ==> rows@[p]@[q] == self@[p][q].sp_div(divisor),
            decreases R - i,
        {
            let mut row: Vec<T> = Vec::new();
            let mut j: usize = 0;
            while j < C
                invariant
                    self.wf(),
                    i < R,
                    j <= C,
                    row@.len() == j,
                    forall|i2: int, j2: int|
                        0 <= i2 < R && 0 <= j2 < C ==> #[trigger] self@[i2][j2].div_ok(divisor),
                    forall|q: int|
                        0 <= q < j ==> #[trigger] row@[q] == self@[i as int][q].sp_div(divisor),
                decreases C - j,
            {
                let a = *self.get(i, j);
                row.push(a.div(divisor));
                j += 1;
            }
            rows.push(row);
            i += 1;
        }
        let m = Matrix::<T, R, C> { rows };
        proof {
            assert(m@.len() == R);
        }
        m
    }

    /// The standard matrix product: for an `R x C` left operand and a
    /// `C x X` right operand, cell `(i, j)` of the `R x X` result
    /// accumulates the products of row `i` and column `j`, starting from
    /// the additive identity and folding in index order.
    pub fn multiply<const X: usize>(self, rhs: Matrix<T, C, X>) -> (r: Matrix<T, R, X>)
        requires
            self.wf(),
            rhs.wf(),
            forall|i: int, j: int|
                0 <= i < R && 0 <= j < X ==> #[trigger] dot_ok(self@[i], column(rhs@, j), C as int),
        ensures
            r.wf(),
            r@ == matmul_grid(self@, rhs@, R as nat, C as nat, X as nat),
    {
        let mut rows: Vec<Vec<T>> = Vec::new();
        let mut i: usize = 0;
        while i < R
            invariant
                self.wf(),
                rhs.wf(),
                i <= R,
                rows@.len() == i,
                forall|i2: int, j2: int|
                    0 <= i2 < R && 0 <= j2 < X ==> #[trigger] dot_ok(
                        self@[i2],
                        column(rhs@, j2),
                        C as int,
                    ),
                forall|p: int|
                    0 <= p < i ==> (#[trigger] rows@[p])@ == matmul_grid(
                        self@,
                        rhs@,
                        R as nat,
                        C as nat,
                        X as nat,
                    )[p],
            decreases R - i,
        {
            let mut row: Vec<T> = Vec::new();
            let mut j: usize = 0;
            while j < X
                invariant
                    self.wf(),
                    rhs.wf(),
                    i < R,
                    j <= X,
                    row@.len() == j,
                    forall|i2: int, j2: int|
                        0 <= i2 < R && 0 <= j2 < X ==> #[trigger] dot_ok(
                            self@[i2],
                            column(rhs@, j2),
                            C as int,
                        ),
                    forall|q: int|
                        0 <= q < j ==> #[trigger] row@[q] == dot_prefix(
                            self@[i as int],
                            column(rhs@, q),
                            C as int,
                        ),
                decreases X - j,
            {
                let mut acc = T::zero();
                let mut c: usize = 0;
                while c < C
                    invariant
                        self.wf(),
                        rhs.wf(),
                        i < R,
                        j < X,
                        c <= C,
                        dot_ok(self@[i as int], column(rhs@, j as int), C as int),
                        acc == dot_prefix(self@[i as int], column(rhs@, j as int), c as int),
                    decreases C - c,
                {
                    proof {
                        lemma_dot_ok_prefix(
                            self@[i as int],
                            column(rhs@, j as int),
                            c as int + 1,
                            C as int,
                        );
                        assert(column(rhs@, j as int)[c as int] == rhs@[c as int][j as int]);
                    }
                    let a = *self.get(i, c);
                    let b = *rhs.get(c, j);
                    acc = acc.add(a.mul(b));
                    c += 1;
                }
                row.push(acc);
                j += 1;
            }
            proof {
                assert(row@ =~= matmul_grid(self@, rhs@, R as nat, C as nat, X as nat)[i as int]);
            }
            rows.push(row);
            i += 1;
        }
        let m = Matrix::<T, R, X> { rows };
        proof {
            assert(m@ =~~= matmul_grid(self@, rhs@, R as nat, C as nat, X as nat));
        }
        m
    }
}

impl<T: Scalar, const N: usize> Matrix<T, N, N> {
    /// The square matrix with the multiplicative identity on the diagonal
    /// and the additive identity everywhere else.
    pub fn identity() -> (r: Self)
        ensures
            r.wf(),
            r@ == identity_grid::<T>(N as nat),
    {
        let mut rows: Vec<Vec<T>> = Vec::new();
        let mut i: usize = 0;
        while i < N
            invariant
                i <= N,
                rows@.len() == i,
                forall|p: int| 0 <= p < i ==> (#[trigger] rows@[p])@ == identity_grid::<T>(
                    N as nat,
                )[p],
            decreases N - i,
        {
            let mut row: Vec<T> = Vec::new();
            let mut j: usize = 0;
            while j < N
                invariant
                    j <= N,
                    i < N,
                    row@.len() == j,
                    forall|q: int| 0 <= q < j ==> #[trigger] row@[q] == (if i == q {
                        T::sp_one()
                    } else {
                        T::sp_zero()
                    }),
                decreases N - j,
            {
                if i == j {
                    row.push(T::one());
                } else {
                    row.push(T::zero());
                }
                j += 1;
            }
            proof {
                assert(row@ =~= identity_grid::<T>(N as nat)[i as int]);
            }
            rows.push(row);
            i += 1;
        }
        let m = Matrix { rows };
        proof {
            assert(m@ =~~= identity_grid::<T>(N as nat));
        }
        m
    }
}

impl<T: Default, const R: usize, const C: usize> Default for Matrix<T, R, C> {
    /// Every cell holds the element type's default value, pulled once per
    /// cell through the fallible sequence constructor; with exactly
    /// `R * C` values supplied that construction is proved to succeed.
    /// At this genericity nothing is specified of the default value
    /// itself, so the contract states the shape.
    fn default() -> (r: Self)
        ensures
            r.wf(),
    {
        let mut items: Vec<T> = Vec::new();
        let mut i: usize = 0;
        while i < R
            invariant
                i <= R,
                items@.len() == i * C,
            decreases R - i,
        {
            let mut j: usize = 0;
            while j < C
                invariant
                    i < R,
                    j <= C,
                    items@.len() == i * C + j,
                decreases C - j,
            {
                items.push(T::default());
                j += 1;
            }
            proof {
                assert((i + 1) as int * C as int == i as int * C as int + C as int)
                    by (nonlinear_arith);
            }
            i += 1;
        }
        let built = Self::try_from_iter(items);
        match built {
            Ok(m) => m,
            Err(_) => vstd::pervasive::unreached(),
        }
    }
}

/// Transposing a matrix twice gives back the original matrix.
pub proof fn lemma_transpose_involution<T>(g: Seq<Seq<T>>, rows: nat, cols: nat)
    requires
        grid_wf(g, rows, cols),
    ensures
        transpose_grid(transpose_grid(g, rows, cols), cols, rows) == g,
{
    assert(transpose_grid(transpose_grid(g, rows, cols), cols, rows) =~~= g);
}

/// Reading a matrix built from exactly `rows * cols` values back in
/// row-major order reproduces the original sequence: position
/// `i * cols + j` of the input is cell `(i, j)` of the grid, and the
/// row-major reading lays those cells out at the same positions.
pub proof fn lemma_row_major_round_trip<T>(items: Seq<T>, g: Seq<Seq<T>>, rows: nat, cols: nat)
    requires
        grid_wf(g, rows, cols),
        items.len() == rows * cols,
        forall|i: int, j: int|
            #![trigger g[i][j]]
            0 <= i < rows && 0 <= j < cols ==> g[i][j] == items[i * cols + j],
    ensures
        row_major_of(g, rows, cols) == items,
{
    assert forall|k: int| 0 <= k < rows * cols implies row_major_of(g, rows, cols)[k]
        == items[k] by {
        if cols == 0 {
            assert(rows * cols == 0) by (nonlinear_arith)
                requires
                    cols == 0,
            ;
        }
        let i = k / cols as int;
        let j = k % cols as int;
        lemma_fundamental_div_mod(k, cols as int);
        lemma_mod_bound(k, cols as int);
        lemma_div_pos_is_pos(k, cols as int);
        lemma_mul_is_commutative(cols as int, i);
        if i >= rows {
            lemma_mul_inequality(rows as int, i, cols as int);
            assert(false);
        }
        assert(g[i][j] == items[i * cols as int + j]);
    };
    assert(row_major_of(g, rows, cols) =~= items);
}

/// Folding a dot product whose left operand is a unit sequence (the
/// multiplicative identity at position `u`, the additive identity
/// elsewhere) is defined at every step and selects `b[u]` once the fold
/// has passed position `u`.
proof fn lemma_dot_unit_left<T: Scalar>(e: Seq<T>, b: Seq<T>, u: int, k: int)
    requires
        e.len() == b.len(),
        0 <= u < e.len(),
        forall|t: int|
            0 <= t < e.len() ==> #[trigger] e[t] == (if t == u {
                T::sp_one()
            } else {
                T::sp_zero()
            }),
        0 <= k <= e.len(),
    ensures
        dot_ok(e, b, k),
        dot_prefix(e, b, k) == (if k <= u {
            T::sp_zero()
        } else {
            b[u]
        }),
    decreases k,
{
    if k > 0 {
        lemma_dot_unit_left(e, b, u, k - 1);
        if k - 1 == u {
            T::lemma_one_mul(b[k - 1]);
            T::lemma_zero_add(b[u]);
        } else {
            T::lemma_zero_mul(b[k - 1]);
            T::lemma_add_zero(dot_prefix(e, b, k - 1));
        }
    }
}

/// The mirror image of `lemma_dot_unit_left`, for a unit sequence on the
/// right of the dot product.
proof fn lemma_dot_unit_right<T: Scalar>(a: Seq<T>, e: Seq<T>, u: int, k: int)
    requires
        a.len() == e.len(),
        0 <= u < e.len(),
        forall|t: int|
            0 <= t < e.len() ==> #[trigger] e[t] == (if t == u {
                T::sp_one()
            } else {
                T::sp_zero()
            }),
        0 <= k <= a.len(),
    ensures
        dot_ok(a, e, k),
        dot_prefix(a, e, k) == (if k <= u {
            T::sp_zero()
        } else {
            a[u]
        }),
    decreases k,
{
    if k > 0 {
        lemma_dot_unit_right(a, e, u, k - 1);
        if k - 1 == u {
            T::lemma_mul_one(a[u]);
            T::lemma_zero_add(a[u]);
        } else {
            T::lemma_mul_zero(a[k - 1]);
            T::lemma_add_zero(dot_prefix(a, e, k - 1));
        }
    }
}

/// Multiplying any matrix by the identity matrix on the left changes
/// nothing, and every product and accumulation in that multiplication is
/// defined for the scalar type.
pub proof fn lemma_identity_multiply_left<T: Scalar>(g: Seq<Seq<T>>, n: nat, cols: nat)
    requires
        grid_wf(g, n, cols),
    ensures
        matmul_grid(identity_grid::<T>(n), g, n, n, cols) == g,
        forall|i: int, j: int|
            0 <= i < n && 0 <= j < cols ==> #[trigger] dot_ok(
                identity_grid::<T>(n)[i],
                column(g, j),
                n as int,
            ),
{
    let idg = identity_grid::<T>(n);
    assert forall|i: int, j: int| 0 <= i < n && 0 <= j < cols implies #[trigger] dot_ok(
        idg[i],
        column(g, j),
        n as int,
    ) by {
        lemma_dot_unit_left(idg[i], column(g, j), i, n as int);
    };
    assert forall|i: int, j: int|
        0 <= i < n && 0 <= j < cols implies matmul_grid(idg, g, n, n, cols)[i][j] == g[i][j] by {
        lemma_dot_unit_left(idg[i], column(g, j), i, n as int);
    };
    assert(matmul_grid(idg, g, n, n, cols) =~~= g);
}

/// Multiplying any matrix by the identity matrix on the right changes
/// nothing, and every product and accumulation in that multiplication is
/// defined for the scalar type.
pub proof fn lemma_identity_multiply_right<T: Scalar>(g: Seq<Seq<T>>, rows: nat, n: nat)
    requires
        grid_wf(g, rows, n),
    ensures
        matmul_grid(g, identity_grid::<T>(n), rows, n, n) == g,
        forall|i: int, j: int|
            0 <= i < rows && 0 <= j < n ==> #[trigger] dot_ok(
                g[i],
                column(identity_grid::<T>(n), j),
                n as int,
            ),
{
    let idg = identity_grid::<T>(n);
    assert forall|i: int, j: int| 0 <= i < rows && 0 <= j < n implies #[trigger] dot_ok(
        g[i],
        column(idg, j),
        n as int,
    ) by {
        assert(forall|t: int|
            0 <= t < n ==> #[trigger] column(idg, j)[t] == (if t == j {
                T::sp_one()
            } else {
                T::sp_zero()
            }));
        lemma_dot_unit_right(g[i], column(idg, j), j, n as int);
    };
    assert forall|i: int, j: int|
        0 <= i < rows && 0 <= j < n implies matmul_grid(g, idg, rows, n, n)[i][j] == g[i][j] by {
        assert(forall|t: int|
            0 <= t < n ==> #[trigger] column(idg, j)[t] == (if t == j {
                T::sp_one()
            } else {
                T::sp_zero()
            }));
        lemma_dot_unit_right(g[i], column(idg, j), j, n as int);
    };
    assert(matmul_grid(g, idg, rows, n, n) =~~= g);
}

} // verus!
