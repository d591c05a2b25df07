use linear_algebra::add_matrices;
use linear_algebra::mul_matrices;
use linear_algebra::mul_matrix_vector;
use linear_algebra::scalar_mul_matrix;
use linear_algebra::sub_matrices;
use linear_algebra::LinAlgError;
use linear_algebra::Matrix;
use linear_algebra::Vector;

fn plus(a: f64, b: f64) -> f64 {
    a + b
}

fn minus(a: f64, b: f64) -> f64 {
    a - b
}

fn times(a: f64, b: f64) -> f64 {
    a * b
}

#[test]
fn test_matrix_addition() {
    let m1 = Matrix::new(vec![vec![1.0, 2.0], vec![3.0, 4.0]]).unwrap();
    let m2 = Matrix::new(vec![vec![5.0, 6.0], vec![7.0, 8.0]]).unwrap();
    let result = m1.add(&m2, &plus).unwrap();
    assert_eq!(result, Matrix::new(vec![vec![6.0, 8.0], vec![10.0, 12.0]]).unwrap());
}

#[test]
fn test_matrix_subtraction() {
    let m1 = Matrix::new(vec![vec![5.0, 6.0], vec![7.0, 8.0]]).unwrap();
    let m2 = Matrix::new(vec![vec![1.0, 2.0], vec![3.0, 4.0]]).unwrap();
    let result = m1.sub(&m2, &minus).unwrap();
    assert_eq!(result, Matrix::new(vec![vec![4.0, 4.0], vec![4.0, 4.0]]).unwrap());
}

#[test]
fn matrix_test_scalar_multiplication() {
    let m = Matrix::new(vec![vec![1.0, 2.0], vec![3.0, 4.0]]).unwrap();
    let result = m.scalar_mul(2.0, &times);
    assert_eq!(result, Matrix::new(vec![vec![2.0, 4.0], vec![6.0, 8.0]]).unwrap());
}

#[test]
fn test_matrix_multiplication() {
    let m1 = Matrix::new(vec![vec![1.0, 2.0], vec![3.0, 4.0]]).unwrap();
    let m2 = Matrix::new(vec![vec![2.0, 0.0], vec![1.0, 2.0]]).unwrap();
    let result = m1.mul(&m2, &times, &plus, 0.0).unwrap();
    assert_eq!(result, Matrix::new(vec![vec![4.0, 4.0], vec![10.0, 8.0]]).unwrap());
}

#[test]
fn test_matrix_vector_multiplication() {
    let m = Matrix::new(vec![vec![1.0, 2.0], vec![3.0, 4.0]]).unwrap();
    let v = Vector::new(vec![2.0, 1.0]);
    let result = m.mul_vector(&v, &times, &plus, 0.0).unwrap();
    assert_eq!(result, Vector::new(vec![4.0, 10.0]));
}

#[test]
fn mul_matrices_scenario() {
    let result = mul_matrices(
        vec![vec![1.0, 2.0], vec![3.0, 4.0]],
        vec![vec![2.0, 0.0], vec![1.0, 2.0]],
        &times,
        &plus,
        0.0,
    );
    assert_eq!(result, Ok(vec![vec![4.0, 4.0], vec![10.0, 8.0]]));
}

#[test]
fn mul_matrix_vector_scenario() {
    let result = mul_matrix_vector(
        vec![vec![1.0, 2.0], vec![3.0, 4.0]],
        vec![2.0, 1.0],
        &times,
        &plus,
        0.0,
    );
    assert_eq!(result, Ok(vec![4.0, 10.0]));
}

#[test]
fn mul_matrices_dimension_mismatch() {
    let result = mul_matrices(
        vec![vec![1.0, 2.0]],
        vec![vec![1.0], vec![2.0], vec![3.0]],
        &times,
        &plus,
        0.0,
    );
    assert_eq!(result, Err(LinAlgError::DimensionMismatch));
}

#[test]
fn add_matrices_shape_mismatch() {
    let result = add_matrices(
        vec![vec![1.0, 2.0], vec![3.0, 4.0]],
        vec![vec![1.0], vec![2.0]],
        &plus,
    );
    assert_eq!(result, Err(LinAlgError::DimensionMismatch));
    let result = sub_matrices(
        vec![vec![1.0, 2.0]],
        vec![vec![1.0, 2.0], vec![3.0, 4.0]],
        &minus,
    );
    assert_eq!(result, Err(LinAlgError::DimensionMismatch));
}

#[test]
fn mul_matrix_vector_dimension_mismatch() {
    let result = mul_matrix_vector(
        vec![vec![1.0, 2.0], vec![3.0, 4.0]],
        vec![2.0, 1.0, 5.0],
        &times,
        &plus,
        0.0,
    );
    assert_eq!(result, Err(LinAlgError::DimensionMismatch));
}

#[test]
fn empty_matrix_is_rejected() {
    assert_eq!(Matrix::<f64>::new(vec![]).unwrap_err(), LinAlgError::EmptyMatrix);
    assert_eq!(
        scalar_mul_matrix(vec![], 2.0, &times).unwrap_err(),
        LinAlgError::EmptyMatrix
    );
}

#[test]
fn ragged_matrix_is_rejected() {
    assert_eq!(
        Matrix::new(vec![vec![1.0, 2.0], vec![3.0]]).unwrap_err(),
        LinAlgError::RaggedRows
    );
    assert_eq!(
        add_matrices(
            vec![vec![1.0, 2.0]],
            vec![vec![1.0, 2.0], vec![3.0]],
            &plus
        )
        .unwrap_err(),
        LinAlgError::RaggedRows
    );
}

#[test]
fn scalar_mul_matrix_scenario() {
    let result = scalar_mul_matrix(vec![vec![1.0, -2.0], vec![0.5, 4.0]], -3.0, &times);
    assert_eq!(result, Ok(vec![vec![-3.0, 6.0], vec![-1.5, -12.0]]));
}

#[test]
fn rectangular_matrix_multiplication() {
    let m1 = Matrix::new(vec![vec![1.0, 2.0, 3.0], vec![4.0, 5.0, 6.0]]).unwrap();
    let m2 = Matrix::new(vec![vec![7.0, 8.0], vec![9.0, 10.0], vec![11.0, 12.0]]).unwrap();
    let result = m1.mul(&m2, &times, &plus, 0.0).unwrap();
    assert_eq!(
        result,
        Matrix::new(vec![vec![58.0, 64.0], vec![139.0, 154.0]]).unwrap()
    );
}

#[test]
fn single_row_times_single_column() {
    let result = mul_matrices(
        vec![vec![1.0, 2.0, 3.0]],
        vec![vec![4.0], vec![5.0], vec![6.0]],
        &times,
        &plus,
        0.0,
    );
    assert_eq!(result, Ok(vec![vec![32.0]]));
}
