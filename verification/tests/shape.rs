use symplectic_opt::{check_shape, MatrixError};

#[test]
fn shape_of_square_even_matrix() {
    let data = vec![vec![1.0, 0.5], vec![0.0, 1.0]];
    assert_eq!(check_shape(&data), Ok(1));
    let data = vec![vec![0.0f64; 4]; 4];
    assert_eq!(check_shape(&data), Ok(2));
}

#[test]
fn shape_accepts_non_symplectic_square() {
    let data = vec![vec![2.0, 0.0], vec![0.0, 2.0]];
    assert_eq!(check_shape(&data), Ok(1));
}

#[test]
fn shape_rejects_empty() {
    let data: Vec<Vec<f64>> = vec![];
    assert_eq!(check_shape(&data), Err(MatrixError::NotEvenDimension));
}

#[test]
fn shape_rejects_odd() {
    let data = vec![vec![1.0; 3]; 3];
    assert_eq!(check_shape(&data), Err(MatrixError::NotEvenDimension));
}

#[test]
fn shape_rejects_ragged() {
    let data = vec![vec![1.0, 0.0], vec![0.0]];
    assert_eq!(check_shape(&data), Err(MatrixError::NotSquare));
    let data = vec![vec![1.0, 0.0, 0.0], vec![0.0, 1.0]];
    assert_eq!(check_shape(&data), Err(MatrixError::NotSquare));
}

#[test]
fn odd_is_reported_before_ragged() {
    let data = vec![vec![1.0], vec![1.0, 2.0], vec![]];
    assert_eq!(check_shape(&data), Err(MatrixError::NotEvenDimension));
}

#[test]
fn error_messages() {
    assert_eq!(MatrixError::NotEvenDimension.message(), "Matrix must be 2n×2n");
    assert_eq!(MatrixError::NotSquare.message(), "Matrix must be square");
    assert_eq!(
        MatrixError::NotSymplectic.message(),
        "Matrix is not symplectic: M^T J M ≠ J"
    );
}
