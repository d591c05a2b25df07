use linear_algebra::add_vectors;
use linear_algebra::dot_product;
use linear_algebra::norm_vector;
use linear_algebra::scalar_mul_vector;
use linear_algebra::sub_vectors;
use linear_algebra::LinAlgError;
use linear_algebra::Vector;

fn plus(a: f64, b: f64) -> f64 {
    a + b
}

fn minus(a: f64, b: f64) -> f64 {
    a - b
}

fn times(a: f64, b: f64) -> f64 {
    a * b
}

fn root(x: f64) -> f64 {
    x.sqrt()
}

#[test]
fn test_vector_addition() {
    let v1 = Vector::new(vec![1.0, 2.0, 3.0]);
    let v2 = Vector::new(vec![4.0, 5.0, 6.0]);
    let result = v1.add(&v2, &plus).unwrap();
    assert_eq!(result, Vector::new(vec![5.0, 7.0, 9.0]));
}

#[test]
fn test_vector_subtraction() {
    let v1 = Vector::new(vec![4.0, 5.0, 6.0]);
    let v2 = Vector::new(vec![1.0, 2.0, 3.0]);
    let result = v1.sub(&v2, &minus).unwrap();
    assert_eq!(result, Vector::new(vec![3.0, 3.0, 3.0]));
}

#[test]
fn vector_test_scalar_multiplication() {
    let v = Vector::new(vec![1.0, 2.0, 3.0]);
    let result = v.scalar_mul(2.0, &times);
    assert_eq!(result, Vector::new(vec![2.0, 4.0, 6.0]));
}

#[test]
fn test_dot_product() {
    let v1 = Vector::new(vec![1.0, 2.0, 3.0]);
    let v2 = Vector::new(vec![4.0, 5.0, 6.0]);
    let result = v1.dot(&v2, &times, &plus, 0.0).unwrap();
    assert_eq!(result, 32.0);
}

#[test]
fn test_vector_norm() {
    let v = Vector::new(vec![3.0, 4.0]);
    let result = v.norm(&times, &plus, 0.0, &root);
    assert_eq!(result, 5.0);
}

#[test]
fn add_vectors_scenario() {
    let result = add_vectors(vec![1.0, 2.0, 3.0], vec![4.0, 5.0, 6.0], &plus);
    assert_eq!(result, Ok(vec![5.0, 7.0, 9.0]));
}

#[test]
fn sub_vectors_scenario() {
    let result = sub_vectors(vec![4.0, 5.0, 6.0], vec![1.0, 2.0, 3.0], &minus);
    assert_eq!(result, Ok(vec![3.0, 3.0, 3.0]));
}

#[test]
fn scalar_mul_vector_scenario() {
    let result = scalar_mul_vector(vec![1.0, 2.0, 3.0], 2.0, &times);
    assert_eq!(result, vec![2.0, 4.0, 6.0]);
}

#[test]
fn dot_product_scenario() {
    let result = dot_product(vec![1.0, 2.0, 3.0], vec![4.0, 5.0, 6.0], &times, &plus, 0.0);
    assert_eq!(result, Ok(32.0));
}

#[test]
fn norm_vector_scenario() {
    let result = norm_vector(vec![3.0, 4.0], &times, &plus, 0.0, &root);
    assert_eq!(result, 5.0);
}

#[test]
fn add_vectors_length_mismatch() {
    let result = add_vectors(vec![1.0, 2.0], vec![1.0, 2.0, 3.0], &plus);
    assert_eq!(result, Err(LinAlgError::DimensionMismatch));
}

#[test]
fn sub_vectors_length_mismatch() {
    let result = sub_vectors(vec![1.0], vec![], &minus);
    assert_eq!(result, Err(LinAlgError::DimensionMismatch));
}

#[test]
fn dot_product_length_mismatch() {
    let result = dot_product(vec![1.0, 2.0], vec![1.0], &times, &plus, 0.0);
    assert_eq!(result, Err(LinAlgError::DimensionMismatch));
}

#[test]
fn empty_vectors_are_no_ops() {
    assert_eq!(add_vectors(vec![], vec![], &plus), Ok(vec![]));
    assert_eq!(sub_vectors(vec![], vec![], &minus), Ok(vec![]));
    assert_eq!(dot_product(vec![], vec![], &times, &plus, 0.0), Ok(0.0));
    assert_eq!(norm_vector(vec![], &times, &plus, 0.0, &root), 0.0);
}
