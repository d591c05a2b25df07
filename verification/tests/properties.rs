use linear_algebra::dot_product;
use linear_algebra::mul_matrices;
use linear_algebra::norm_vector;
use linear_algebra::Matrix;

fn plus(a: f64, b: f64) -> f64 {
    a + b
}

fn minus(a: f64, b: f64) -> f64 {
    a - b
}

fn times(a: f64, b: f64) -> f64 {
    a * b
}

fn root(x: f64) -> f64 {
    x.sqrt()
}

fn close(a: f64, b: f64) -> bool {
    (a - b).abs() < 1e-9
}

#[test]
fn addition_commutes() {
    let a = Matrix::new(vec![vec![1.5, -2.0], vec![3.25, 0.0]]).unwrap();
    let b = Matrix::new(vec![vec![4.0, 0.125], vec![-7.5, 2.0]]).unwrap();
    assert_eq!(a.add(&b, &plus).unwrap(), b.add(&a, &plus).unwrap());
}

#[test]
fn scaling_by_one_is_identity() {
    let a = Matrix::new(vec![vec![1.5, -2.0], vec![3.25, 0.0]]).unwrap();
    assert_eq!(a.scalar_mul(1.0, &times), a);
}

#[test]
fn adding_zero_matrix_is_identity() {
    let a = Matrix::new(vec![vec![1.5, -2.0], vec![3.25, 0.0]]).unwrap();
    let zero = Matrix::new(vec![vec![0.0, 0.0], vec![0.0, 0.0]]).unwrap();
    assert_eq!(a.add(&zero, &plus).unwrap(), a);
}

#[test]
fn subtraction_undoes_addition() {
    let a = Matrix::new(vec![vec![1.5, -2.0], vec![3.25, 0.0]]).unwrap();
    let b = Matrix::new(vec![vec![4.0, 0.125], vec![-7.5, 2.0]]).unwrap();
    let sum = a.add(&b, &plus).unwrap();
    let back = sum.sub(&b, &minus).unwrap();
    for (row1, row2) in back.data.iter().zip(a.data.iter()) {
        for (x, y) in row1.iter().zip(row2.iter()) {
            assert!(close(*x, *y));
        }
    }
}

#[test]
fn dot_against_self_squares_the_norm() {
    let v = vec![3.0, 4.0, 12.0];
    let d = dot_product(v.clone(), v.clone(), &times, &plus, 0.0).unwrap();
    let n = norm_vector(v, &times, &plus, 0.0, &root);
    assert!(close(d, n * n));
}

#[test]
fn matrix_multiplication_associates_within_tolerance() {
    let a = vec![vec![0.5, 1.25, -2.0], vec![3.0, 0.1, 4.0]];
    let b = vec![vec![1.0, -0.5], vec![2.5, 0.75], vec![-1.5, 2.0]];
    let c = vec![vec![0.25, 3.0], vec![-1.0, 0.5]];
    let ab = mul_matrices(a.clone(), b.clone(), &times, &plus, 0.0).unwrap();
    let bc = mul_matrices(b, c.clone(), &times, &plus, 0.0).unwrap();
    let left = mul_matrices(ab, c, &times, &plus, 0.0).unwrap();
    let right = mul_matrices(a, bc, &times, &plus, 0.0).unwrap();
    assert_eq!(left.len(), right.len());
    for (row1, row2) in left.iter().zip(right.iter()) {
        assert_eq!(row1.len(), row2.len());
        for (x, y) in row1.iter().zip(row2.iter()) {
            assert!(close(*x, *y));
        }
    }
}
