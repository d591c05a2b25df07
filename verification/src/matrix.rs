use vstd::prelude::*;
use vstd::pervasive::unreached;
use rayon::iter::IntoParallelIterator;
use rayon::iter::ParallelIterator;

use crate::errors::LinAlgError;
use crate::ops::accepts_pairs;
use crate::ops::column;
use crate::ops::contracted;
use crate::ops::elementwise;
use crate::ops::ragged;
use crate::ops::rows_elementwise;
use crate::ops::rows_scaled;
use crate::ops::rows_view;
use crate::ops::scaled;
use crate::vector::Vector;
use crate::vector::fold_products;
use crate::vector::scale_slice;
use crate::vector::zip_map;

verus! {

/// A rectangular, row-major grid of scalars. Rectangularity — every row as
/// long as the first — is the one structural invariant; it is established by
/// `new` and re-established for the result of every operation. Each operation
/// computes its output rows independently of one another and dispatches them
/// across worker threads, reassembling them in row order.
#[derive(Clone, Debug, PartialEq)]
pub struct Matrix<T> {
    pub data: Vec<Vec<T>>,
}

impl<T> View for Matrix<T> {
    type V = Seq<Seq<T>>;

    open spec fn view(&self) -> Seq<Seq<T>> {
        rows_view(self.data@)
    }
}

impl<T> Matrix<T> {
    /// Rectangularity with at least one row: the shape every constructed
    /// matrix has and every operation preserves.
    pub open spec fn wf(&self) -> bool {
        &&& self@.len() > 0
        &&& !ragged(self@)
    }

    /// The pair of operand shapes under which elementwise operations are
    /// defined.
    pub open spec fn same_shape(&self, other: &Matrix<T>) -> bool {
        &&& self@.len() == other@.len()
        &&& self@[0].len() == other@[0].len()
    }
}

impl<T: Copy + Send + Sync> Matrix<T> {
    /// Wraps caller-supplied rows after validating them: zero rows fail with
    /// `EmptyMatrix` (the column count would be undefined), rows of unequal
    /// length fail with `RaggedRows`, and exactly the remaining inputs are
    /// accepted unchanged.
    pub fn new(data: Vec<Vec<T>>) -> (r: Result<Matrix<T>, LinAlgError>)
        ensures
            match r {
                Ok(m) => {
                    &&& data@.len() > 0
                    &&& !ragged(rows_view(data@))
                    &&& m@ == rows_view(data@)
                    &&& m.wf()
                },
                Err(LinAlgError::EmptyMatrix) => data@.len() == 0,
                Err(LinAlgError::RaggedRows) => data@.len() > 0 && ragged(rows_view(data@)),
                Err(LinAlgError::DimensionMismatch) => false,
            },
    {
        if data.len() == 0 {
            return Err(LinAlgError::EmptyMatrix);
        }
        let cols = data[0].len();
        let n = data.len();
        let mut i: usize = 1;
        while i < n
            invariant
                n == data@.len(),
                1 <= i <= n,
                cols == rows_view(data@)[0].len(),
                forall|j: int| 0 <= j < i ==> (#[trigger] rows_view(data@)[j]).len() == cols,
            decreases n - i,
        {
            if data[i].len() != cols {
                proof {
                    assert(rows_view(data@)[i as int].len() != rows_view(data@)[0].len());
                }
                return Err(LinAlgError::RaggedRows);
            }
            i += 1;
        }
        let m = Matrix { data };
        proof {
            assert(!ragged(m@));
        }
        Ok(m)
    }

    /// Elementwise sum, row by row; the rows of the result are computed in
    /// parallel and collected in order. Fails with `DimensionMismatch` exactly
    /// when the operands differ in row count or in column count.
    pub fn add<F: Fn(T, T) -> T + Sync>(&self, other: &Matrix<T>, f: &F) -> (r: Result<
        Matrix<T>,
        LinAlgError,
    >)
        requires
            self.wf(),
            other.wf(),
            accepts_pairs(f),
        ensures
            match r {
                Ok(m) => self.same_shape(other) && rows_elementwise(f, self@, other@, m@)
                    && m.wf(),
                Err(e) => !self.same_shape(other) && e == LinAlgError::DimensionMismatch,
            },
    {
        if self.data.len() != other.data.len() {
            return Err(LinAlgError::DimensionMismatch);
        }
        if self.data[0].len() != other.data[0].len() {
            return Err(LinAlgError::DimensionMismatch);
        }
        let n = self.data.len();
        let row_of = |i: usize| -> (out: Vec<T>)
            requires
                i < n,
            ensures
                elementwise(f, self@.index(i as int), other@.index(i as int), out@),
            {
                proof {
                    assert(self@.index(i as int).len() == self@[0].len());
                    assert(other@.index(i as int).len() == other@[0].len());
                }
                zip_map(&self.data[i], &other.data[i], f)
            };
        let rows = par_map_range(n, row_of);
        Ok(from_computed_rows(rows, Ghost(self@.len() as int), Ghost(self@[0].len() as int)))
    }

    /// Elementwise difference, row by row and in parallel, with the same
    /// precondition and failure mode as `add`; only the combining closure
    /// differs.
    pub fn sub<F: Fn(T, T) -> T + Sync>(&self, other: &Matrix<T>, f: &F) -> (r: Result<
        Matrix<T>,
        LinAlgError,
    >)
        requires
            self.wf(),
            other.wf(),
            accepts_pairs(f),
        ensures
            match r {
                Ok(m) => self.same_shape(other) && rows_elementwise(f, self@, other@, m@)
                    && m.wf(),
                Err(e) => !self.same_shape(other) && e == LinAlgError::DimensionMismatch,
            },
    {
        if self.data.len() != other.data.len() {
            return Err(LinAlgError::DimensionMismatch);
        }
        if self.data[0].len() != other.data[0].len() {
            return Err(LinAlgError::DimensionMismatch);
        }
        let n = self.data.len();
        let row_of = |i: usize| -> (out: Vec<T>)
            requires
                i < n,
            ensures
                elementwise(f, self@.index(i as int), other@.index(i as int), out@),
            {
                proof {
                    assert(self@.index(i as int).len() == self@[0].len());
                    assert(other@.index(i as int).len() == other@[0].len());
                }
                zip_map(&self.data[i], &other.data[i], f)
            };
        let rows = par_map_range(n, row_of);
        Ok(from_computed_rows(rows, Ghost(self@.len() as int), Ghost(self@[0].len() as int)))
    }

    /// Elementwise combination of every entry with the scalar `k`, row by row
    /// and in parallel. Always succeeds and preserves the shape.
    pub fn scalar_mul<F: Fn(T, T) -> T + Sync>(&self, k: T, f: &F) -> (m: Matrix<T>)
        requires
            self.wf(),
            accepts_pairs(f),
        ensures
            rows_scaled(f, self@, k, m@),
            m.wf(),
            m@[0].len() == self@[0].len(),
    {
        let n = self.data.len();
        let row_of = |i: usize| -> (out: Vec<T>)
            requires
                i < n,
            ensures
                scaled(f, self@.index(i as int), k, out@),
            {
                proof {
                    assert(self@.index(i as int).len() == self@[0].len());
                }
                scale_slice(&self.data[i], k, f)
            };
        let rows = par_map_range(n, row_of);
        from_computed_rows(rows, Ghost(self@.len() as int), Ghost(self@[0].len() as int))
    }

    /// Matrix product: entry `(i, j)` of the result is the contraction of row
    /// `i` of `self` against column `j` of `other` — products under `mulf`,
    /// folded with `addf` from `zero`. Rows of the result are computed in
    /// parallel. Fails with `DimensionMismatch` exactly when the column count
    /// of `self` differs from the row count of `other`.
    pub fn mul<MF: Fn(T, T) -> T + Sync, AF: Fn(T, T) -> T + Sync>(
        &self,
        other: &Matrix<T>,
        mulf: &MF,
        addf: &AF,
        zero: T,
    ) -> (r: Result<Matrix<T>, LinAlgError>)
        requires
            self.wf(),
            other.wf(),
            accepts_pairs(mulf),
            accepts_pairs(addf),
        ensures
            match r {
                Ok(m) => {
                    &&& self@[0].len() == other@.len()
                    &&& m@.len() == self@.len()
                    &&& m.wf()
                    &&& m@[0].len() == other@[0].len()
                    &&& forall|i: int, j: int|
                        0 <= i < self@.len() && 0 <= j < other@[0].len() ==> contracted(
                            mulf,
                            addf,
                            zero,
                            self@.index(i),
                            column(other@, j),
                            #[trigger] m@.index(i).index(j),
                        )
                },
                Err(e) => self@[0].len() != other@.len() && e == LinAlgError::DimensionMismatch,
            },
    {
        if self.data[0].len() != other.data.len() {
            return Err(LinAlgError::DimensionMismatch);
        }
        let n = self.data.len();
        let row_of = |i: usize| -> (out: Vec<T>)
            requires
                i < n,
            ensures
                out@.len() == other@[0].len(),
                forall|j: int|
                    0 <= j < out@.len() ==> contracted(
                        mulf,
                        addf,
                        zero,
                        self@.index(i as int),
                        column(other@, j),
                        #[trigger] out@.index(j),
                    ),
            {
                proof {
                    assert(self@.index(i as int).len() == self@[0].len());
                }
                mul_row(&self.data[i], other, mulf, addf, zero)
            };
        let rows = par_map_range(n, row_of);
        Ok(from_computed_rows(rows, Ghost(self@.len() as int), Ghost(other@[0].len() as int)))
    }

    /// Matrix-vector product: element `i` of the result is the contraction of
    /// row `i` of `self` against the vector. Rows are computed in parallel.
    /// Fails with `DimensionMismatch` exactly when the column count of `self`
    /// differs from the vector's length.
    pub fn mul_vector<MF: Fn(T, T) -> T + Sync, AF: Fn(T, T) -> T + Sync>(
        &self,
        vector: &Vector<T>,
        mulf: &MF,
        addf: &AF,
        zero: T,
    ) -> (r: Result<Vector<T>, LinAlgError>)
        requires
            self.wf(),
            accepts_pairs(mulf),
            accepts_pairs(addf),
        ensures
            match r {
                Ok(v) => {
                    &&& self@[0].len() == vector@.len()
                    &&& v@.len() == self@.len()
                    &&& forall|i: int|
                        0 <= i < self@.len() ==> contracted(
                            mulf,
                            addf,
                            zero,
                            self@.index(i),
                            vector@,
                            #[trigger] v@.index(i),
                        )
                },
                Err(e) => self@[0].len() != vector@.len() && e == LinAlgError::DimensionMismatch,
            },
    {
        if self.data[0].len() != vector.data.len() {
            return Err(LinAlgError::DimensionMismatch);
        }
        let n = self.data.len();
        let entry_of = |i: usize| -> (s: T)
            requires
                i < n,
            ensures
                contracted(mulf, addf, zero, self@.index(i as int), vector@, s),
            {
                proof {
                    assert(self@.index(i as int).len() == self@[0].len());
                }
                fold_products(&self.data[i], &vector.data, mulf, addf, zero)
            };
        let data = par_map_range(n, entry_of);
        Ok(Vector::new(data))
    }
}

/// Contracts one row against every column of `other` in column order: the row
/// of the matrix product contributed by that row.
fn mul_row<T: Copy + Send + Sync, MF: Fn(T, T) -> T, AF: Fn(T, T) -> T>(
    row: &Vec<T>,
    other: &Matrix<T>,
    mulf: &MF,
    addf: &AF,
    zero: T,
) -> (out: Vec<T>)
    requires
        other.wf(),
        row@.len() == other@.len(),
        accepts_pairs(mulf),
        accepts_pairs(addf),
    ensures
        out@.len() == other@[0].len(),
        forall|j: int|
            0 <= j < out@.len() ==> contracted(
                mulf,
                addf,
                zero,
                row@,
                column(other@, j),
                #[trigger] out@.index(j),
            ),
{
    let cols = other.data[0].len();
    let mut out: Vec<T> = Vec::new();
    let mut j: usize = 0;
    while j < cols
        invariant
            other.wf(),
            row@.len() == other@.len(),
            accepts_pairs(mulf),
            accepts_pairs(addf),
            cols == other@[0].len(),
            j <= cols,
            out@.len() == j as int,
            forall|jj: int|
                0 <= jj < j ==> contracted(
                    mulf,
                    addf,
                    zero,
                    row@,
                    column(other@, jj),
                    #[trigger] out@.index(jj),
                ),
        decreases cols - j,
    {
        let s = contract_with_column(row, other, j, mulf, addf, zero);
        out.push(s);
        j += 1;
    }
    out
}

/// Contracts a row against column `j` of `other`, walking the rows of `other`
/// and picking out their `j`-th entries, exactly as the product entry `(i, j)`
/// demands.
fn contract_with_column<T: Copy + Send + Sync, MF: Fn(T, T) -> T, AF: Fn(T, T) -> T>(
    row: &Vec<T>,
    other: &Matrix<T>,
    j: usize,
    mulf: &MF,
    addf: &AF,
    zero: T,
) -> (s: T)
    requires
        other.wf(),
        row@.len() == other@.len(),
        j < other@[0].len(),
        accepts_pairs(mulf),
        accepts_pairs(addf),
    ensures
        contracted(mulf, addf, zero, row@, column(other@, j as int), s),
{
    let mut acc = zero;
    let n = row.len();
    let mut k: usize = 0;
    proof {
        assert(row@.take(0) =~= Seq::<T>::empty());
        assert(column(other@, j as int).take(0) =~= Seq::<T>::empty());
    }
    while k < n
        invariant
            other.wf(),
            row@.len() == other@.len(),
            j < other@[0].len(),
            accepts_pairs(mulf),
            accepts_pairs(addf),
            n == row@.len(),
            k <= n,
            contracted(
                mulf,
                addf,
                zero,
                row@.take(k as int),
                column(other@, j as int).take(k as int),
                acc,
            ),
        decreases n - k,
    {
        proof {
            let ki = k as int;
            assert(other@.index(ki).len() == other@[0].len());
            assert(other.data@.index(ki)@ == other@.index(ki));
        }
        let p = mulf(row[k], other.data[k][j]);
        let ghost prev = acc;
        acc = addf(acc, p);
        proof {
            let ki = k as int;
            let cj = column(other@, j as int);
            assert(cj.index(ki) == other@.index(ki).index(j as int));
            assert(row@.take(ki + 1).drop_last() =~= row@.take(ki));
            assert(cj.take(ki + 1).drop_last() =~= cj.take(ki));
            assert(row@.take(ki + 1).last() == row@.index(ki));
            assert(cj.take(ki + 1).last() == cj.index(ki));
            crate::ops::lemma_contracted_step(
                mulf,
                addf,
                zero,
                row@.take(ki + 1),
                cj.take(ki + 1),
                prev,
                p,
                acc,
            );
        }
        k += 1;
    }
    proof {
        assert(row@.take(n as int) =~= row@);
        assert(column(other@, j as int).take(n as int) =~= column(other@, j as int));
    }
    acc
}

/// Reassembles freshly computed output rows into a matrix through the one
/// construction point, `Matrix::new`; the caller has already established that
/// the rows form a non-empty rectangle, so validation cannot fail.
fn from_computed_rows<T: Copy + Send + Sync>(
    rows: Vec<Vec<T>>,
    Ghost(n): Ghost<int>,
    Ghost(c): Ghost<int>,
) -> (m: Matrix<T>)
    requires
        rows@.len() == n,
        n > 0,
        forall|i: int| 0 <= i < n ==> (#[trigger] rows_view(rows@)[i]).len() == c,
    ensures
        m@ == rows_view(rows@),
        m.wf(),
{
    proof {
        assert(!ragged(rows_view(rows@)));
    }
    match Matrix::new(rows) {
        Ok(m) => m,
        Err(_) => unreached(),
    }
}

/// Relies on rayon: a parallel iterator over the index range `0..n`, mapped
/// through `f` and collected, yields exactly the image of each index, in
/// index order, regardless of which worker computed which entry.
#[verifier::external_body]
fn par_map_range<U: Send, F: Fn(usize) -> U + Sync>(n: usize, f: F) -> (r: Vec<U>)
    requires
        forall|i: usize| i < n ==> #[trigger] call_requires(f, (i,)),
    ensures
        r@.len() == n as int,
        forall|i: int| 0 <= i < n ==> call_ensures(f, ((i as usize),), #[trigger] r@[i]),
{
    (0..n).into_par_iter().map(|i| f(i)).collect()
}

} // verus!
