//! A small numeric kernel: vector and matrix algebra over a caller-supplied
//! scalar type. The kernel owns the shapes — lengths, rectangularity, the
//! wiring of elementwise maps and contractions, and the row-parallel dispatch
//! of matrix work — while the scalar arithmetic itself is passed in as
//! closures; every contract relates the result to the closures' own contracts.
//!
//! The boundary below takes and returns plain nested sequences of scalars: a
//! vector is a flat sequence, a matrix a sequence of equal-length rows. A
//! host-language binding layer sits outside this crate and converts its native
//! collections to these and back.

use vstd::prelude::*;

pub mod errors;
pub mod laws;
pub mod matrix;
pub mod ops;
pub mod vector;

pub use errors::LinAlgError;
pub use matrix::Matrix;
pub use vector::Vector;

use crate::ops::accepts_each;
use crate::ops::accepts_pairs;
use crate::ops::column;
use crate::ops::contracted;
use crate::ops::elementwise;
use crate::ops::ragged;
use crate::ops::rows_elementwise;
use crate::ops::rows_scaled;
use crate::ops::rows_view;
use crate::ops::scaled;
use crate::ops::well_formed_rows;

verus! {

/// Elementwise sum of two flat sequences of scalars under `f`. Fails with
/// `DimensionMismatch` exactly when the lengths differ.
pub fn add_vectors<T: Copy, F: Fn(T, T) -> T>(v1: Vec<T>, v2: Vec<T>, f: &F) -> (r: Result<
    Vec<T>,
    LinAlgError,
>)
    requires
        accepts_pairs(f),
    ensures
        match r {
            Ok(out) => v1@.len() == v2@.len() && elementwise(f, v1@, v2@, out@),
            Err(e) => v1@.len() != v2@.len() && e == LinAlgError::DimensionMismatch,
        },
{
    let vec1 = Vector::new(v1);
    let vec2 = Vector::new(v2);
    match vec1.add(&vec2, f) {
        Ok(v) => Ok(v.data),
        Err(e) => Err(e),
    }
}

/// Elementwise difference of two flat sequences of scalars under `f`, with the
/// same precondition and failure mode as `add_vectors`.
pub fn sub_vectors<T: Copy, F: Fn(T, T) -> T>(v1: Vec<T>, v2: Vec<T>, f: &F) -> (r: Result<
    Vec<T>,
    LinAlgError,
>)
    requires
        accepts_pairs(f),
    ensures
        match r {
            Ok(out) => v1@.len() == v2@.len() && elementwise(f, v1@, v2@, out@),
            Err(e) => v1@.len() != v2@.len() && e == LinAlgError::DimensionMismatch,
        },
{
    let vec1 = Vector::new(v1);
    let vec2 = Vector::new(v2);
    match vec1.sub(&vec2, f) {
        Ok(v) => Ok(v.data),
        Err(e) => Err(e),
    }
}

/// Every element of `v` combined with the scalar `k` under `f`. Always
/// succeeds and preserves the length.
pub fn scalar_mul_vector<T: Copy, F: Fn(T, T) -> T>(v: Vec<T>, k: T, f: &F) -> (r: Vec<T>)
    requires
        accepts_pairs(f),
    ensures
        scaled(f, v@, k, r@),
{
    let vec = Vector::new(v);
    vec.scalar_mul(k, f).data
}

/// Dot product of two flat sequences of scalars: products under `mulf`, folded
/// left to right with `addf` from `zero`. Fails with `DimensionMismatch`
/// exactly when the lengths differ.
pub fn dot_product<T: Copy, MF: Fn(T, T) -> T, AF: Fn(T, T) -> T>(
    v1: Vec<T>,
    v2: Vec<T>,
    mulf: &MF,
    addf: &AF,
    zero: T,
) -> (r: Result<T, LinAlgError>)
    requires
        accepts_pairs(mulf),
        accepts_pairs(addf),
    ensures
        match r {
            Ok(s) => v1@.len() == v2@.len() && contracted(mulf, addf, zero, v1@, v2@, s),
            Err(e) => v1@.len() != v2@.len() && e == LinAlgError::DimensionMismatch,
        },
{
    let vec1 = Vector::new(v1);
    let vec2 = Vector::new(v2);
    vec1.dot(&vec2, mulf, addf, zero)
}

/// Norm of a flat sequence of scalars: `sqrt` applied to the contraction of
/// the sequence against itself. Always succeeds; the empty sequence hands
/// `zero` itself to `sqrt`.
pub fn norm_vector<T: Copy, MF: Fn(T, T) -> T, AF: Fn(T, T) -> T, SF: Fn(T) -> T>(
    v: Vec<T>,
    mulf: &MF,
    addf: &AF,
    zero: T,
    sqrt: &SF,
) -> (r: T)
    requires
        accepts_pairs(mulf),
        accepts_pairs(addf),
        accepts_each(sqrt),
    ensures
        exists|s: T|
            #[trigger] contracted(mulf, addf, zero, v@, v@, s) && call_ensures(sqrt, (s,), r),
{
    let vec = Vector::new(v);
    vec.norm(mulf, addf, zero, sqrt)
}

/// Elementwise sum of two matrices given as nested rows. The operands are
/// validated first — `EmptyMatrix` or `RaggedRows` for the first offender, the
/// first matrix checked before the second — then added row by row;
/// `DimensionMismatch` exactly when two valid operands differ in shape.
pub fn add_matrices<T: Copy + Send + Sync, F: Fn(T, T) -> T + Sync>(
    m1: Vec<Vec<T>>,
    m2: Vec<Vec<T>>,
    f: &F,
) -> (r: Result<Vec<Vec<T>>, LinAlgError>)
    requires
        accepts_pairs(f),
    ensures
        match r {
            Ok(out) => {
                &&& well_formed_rows(rows_view(m1@)) && well_formed_rows(rows_view(m2@))
                &&& rows_view(m1@).len() == rows_view(m2@).len()
                &&& rows_view(m1@)[0].len() == rows_view(m2@)[0].len()
                &&& rows_elementwise(f, rows_view(m1@), rows_view(m2@), rows_view(out@))
            },
            Err(LinAlgError::EmptyMatrix) => m1@.len() == 0 || (well_formed_rows(rows_view(m1@))
                && m2@.len() == 0),
            Err(LinAlgError::RaggedRows) => (m1@.len() > 0 && ragged(rows_view(m1@))) || (
            well_formed_rows(rows_view(m1@)) && m2@.len() > 0 && ragged(rows_view(m2@))),
            Err(LinAlgError::DimensionMismatch) => well_formed_rows(rows_view(m1@))
                && well_formed_rows(rows_view(m2@)) && !(rows_view(m1@).len() == rows_view(
                m2@,
            ).len() && rows_view(m1@)[0].len() == rows_view(m2@)[0].len()),
        },
{
    let mat1 = match Matrix::new(m1) {
        Ok(m) => m,
        Err(e) => return Err(e),
    };
    let mat2 = match Matrix::new(m2) {
        Ok(m) => m,
        Err(e) => return Err(e),
    };
    match mat1.add(&mat2, f) {
        Ok(m) => Ok(m.data),
        Err(e) => Err(e),
    }
}

/// Elementwise difference of two matrices given as nested rows, with the same
/// validation order and failure modes as `add_matrices`.
pub fn sub_matrices<T: Copy + Send + Sync, F: Fn(T, T) -> T + Sync>(
    m1: Vec<Vec<T>>,
    m2: Vec<Vec<T>>,
    f: &F,
) -> (r: Result<Vec<Vec<T>>, LinAlgError>)
    requires
        accepts_pairs(f),
    ensures
        match r {
            Ok(out) => {
                &&& well_formed_rows(rows_view(m1@)) && well_formed_rows(rows_view(m2@))
                &&& rows_view(m1@).len() == rows_view(m2@).len()
                &&& rows_view(m1@)[0].len() == rows_view(m2@)[0].len()
                &&& rows_elementwise(f, rows_view(m1@), rows_view(m2@), rows_view(out@))
            },
            Err(LinAlgError::EmptyMatrix) => m1@.len() == 0 || (well_formed_rows(rows_view(m1@))
                && m2@.len() == 0),
            Err(LinAlgError::RaggedRows) => (m1@.len() > 0 && ragged(rows_view(m1@))) || (
            well_formed_rows(rows_view(m1@)) && m2@.len() > 0 && ragged(rows_view(m2@))),
            Err(LinAlgError::DimensionMismatch) => well_formed_rows(rows_view(m1@))
                && well_formed_rows(rows_view(m2@)) && !(rows_view(m1@).len() == rows_view(
                m2@,
            ).len() && rows_view(m1@)[0].len() == rows_view(m2@)[0].len()),
        },
{
    let mat1 = match Matrix::new(m1) {
        Ok(m) => m,
        Err(e) => return Err(e),
    };
    let mat2 = match Matrix::new(m2) {
        Ok(m) => m,
        Err(e) => return Err(e),
    };
    match mat1.sub(&mat2, f) {
        Ok(m) => Ok(m.data),
        Err(e) => Err(e),
    }
}

/// Every entry of a matrix combined with the scalar `k` under `f`. The operand
/// is validated first; a valid matrix always scales successfully.
pub fn scalar_mul_matrix<T: Copy + Send + Sync, F: Fn(T, T) -> T + Sync>(
    m: Vec<Vec<T>>,
    k: T,
    f: &F,
) -> (r: Result<Vec<Vec<T>>, LinAlgError>)
    requires
        accepts_pairs(f),
    ensures
        match r {
            Ok(out) => well_formed_rows(rows_view(m@)) && rows_scaled(
                f,
                rows_view(m@),
                k,
                rows_view(out@),
            ),
            Err(LinAlgError::EmptyMatrix) => m@.len() == 0,
            Err(LinAlgError::RaggedRows) => m@.len() > 0 && ragged(rows_view(m@)),
            Err(LinAlgError::DimensionMismatch) => false,
        },
{
    let mat = match Matrix::new(m) {
        Ok(m) => m,
        Err(e) => return Err(e),
    };
    Ok(mat.scalar_mul(k, f).data)
}

/// Matrix product of two matrices given as nested rows: entry `(i, j)` is the
/// contraction of row `i` of the first against column `j` of the second.
/// Operands are validated in order; `DimensionMismatch` exactly when the first
/// matrix's column count differs from the second's row count.
pub fn mul_matrices<T: Copy + Send + Sync, MF: Fn(T, T) -> T + Sync, AF: Fn(T, T) -> T + Sync>(
    m1: Vec<Vec<T>>,
    m2: Vec<Vec<T>>,
    mulf: &MF,
    addf: &AF,
    zero: T,
) -> (r: Result<Vec<Vec<T>>, LinAlgError>)
    requires
        accepts_pairs(mulf),
        accepts_pairs(addf),
    ensures
        match r {
            Ok(out) => {
                &&& well_formed_rows(rows_view(m1@)) && well_formed_rows(rows_view(m2@))
                &&& rows_view(m1@)[0].len() == rows_view(m2@).len()
                &&& rows_view(out@).len() == rows_view(m1@).len()
                &&& well_formed_rows(rows_view(out@))
                &&& rows_view(out@)[0].len() == rows_view(m2@)[0].len()
                &&& forall|i: int, j: int|
                    0 <= i < rows_view(m1@).len() && 0 <= j < rows_view(m2@)[0].len()
                        ==> contracted(
                        mulf,
                        addf,
                        zero,
                        rows_view(m1@).index(i),
                        column(rows_view(m2@), j),
                        #[trigger] rows_view(out@).index(i).index(j),
                    )
            },
            Err(LinAlgError::EmptyMatrix) => m1@.len() == 0 || (well_formed_rows(rows_view(m1@))
                && m2@.len() == 0),
            Err(LinAlgError::RaggedRows) => (m1@.len() > 0 && ragged(rows_view(m1@))) || (
            well_formed_rows(rows_view(m1@)) && m2@.len() > 0 && ragged(rows_view(m2@))),
            Err(LinAlgError::DimensionMismatch) => well_formed_rows(rows_view(m1@))
                && well_formed_rows(rows_view(m2@)) && rows_view(m1@)[0].len() != rows_view(
                m2@,
            ).len(),
        },
{
    let mat1 = match Matrix::new(m1) {
        Ok(m) => m,
        Err(e) => return Err(e),
    };
    let mat2 = match Matrix::new(m2) {
        Ok(m) => m,
        Err(e) => return Err(e),
    };
    match mat1.mul(&mat2, mulf, addf, zero) {
        Ok(m) => Ok(m.data),
        Err(e) => Err(e),
    }
}

/// Matrix-vector product: element `i` of the result is the contraction of row
/// `i` of the matrix against the vector. The matrix is validated first;
/// `DimensionMismatch` exactly when its column count differs from the vector's
/// length.
pub fn mul_matrix_vector<T: Copy + Send + Sync, MF: Fn(T, T) -> T + Sync, AF: Fn(
    T,
    T,
) -> T + Sync>(
    m: Vec<Vec<T>>,
    v: Vec<T>,
    mulf: &MF,
    addf: &AF,
    zero: T,
) -> (r: Result<Vec<T>, LinAlgError>)
    requires
        accepts_pairs(mulf),
        accepts_pairs(addf),
    ensures
        match r {
            Ok(out) => {
                &&& well_formed_rows(rows_view(m@))
                &&& rows_view(m@)[0].len() == v@.len()
                &&& out@.len() == rows_view(m@).len()
                &&& forall|i: int|
                    0 <= i < rows_view(m@).len() ==> contracted(
                        mulf,
                        addf,
                        zero,
                        rows_view(m@).index(i),
                        v@,
                        #[trigger] out@.index(i),
                    )
            },
            Err(LinAlgError::EmptyMatrix) => m@.len() == 0,
            Err(LinAlgError::RaggedRows) => m@.len() > 0 && ragged(rows_view(m@)),
            Err(LinAlgError::DimensionMismatch) => well_formed_rows(rows_view(m@)) && rows_view(
                m@,
            )[0].len() != v@.len(),
        },
{
    let mat = match Matrix::new(m) {
        Ok(m) => m,
        Err(e) => return Err(e),
    };
    let vec = Vector::new(v);
    match mat.mul_vector(&vec, mulf, addf, zero) {
        Ok(v) => Ok(v.data),
        Err(e) => Err(e),
    }
}

} // verus!
