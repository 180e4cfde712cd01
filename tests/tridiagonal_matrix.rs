use rust_decimal::Decimal;
use spline_interpolation::tridiagonal_matrix::{thomas, MatrixValidationError, TridiagonalMatrix};
use spline_interpolation::value::Dec;

fn to_decimal(v: Dec) -> Decimal {
    Decimal::from_i128_with_scale(v.mantissa(), v.scale())
}

fn ints(values: &[i64]) -> Vec<Dec> {
    values.iter().map(|&v| Dec::new(v, 0)).collect()
}

#[test]
fn identity_system_returns_right_hand_side() {
    let b = vec![Dec::new(3, 0), Dec::new(-7, 1), Dec::new(25, 2)];
    let matrix = TridiagonalMatrix::try_new(ints(&[0, 0]), ints(&[1, 1, 1]), ints(&[0, 0])).unwrap();
    let x = matrix.solve(&b).unwrap();
    let x: Vec<Decimal> = x.into_iter().map(to_decimal).collect();
    let expected: Vec<Decimal> = b.into_iter().map(to_decimal).collect();
    assert_eq!(x, expected);
}

#[test]
fn sweeps_a_general_system() {
    // [2 1 0; 1 2 1; 0 1 2] with b = [4, 8, 8]: the forward sweep gives
    // y = [2, 4, 3] and c' = [1/2, 2/3]; back substitution then updates row 0
    // only: x[0] = 2 - 1/2 * 4 = 0.
    let matrix = TridiagonalMatrix::try_new(ints(&[1, 1]), ints(&[2, 2, 2]), ints(&[1, 1])).unwrap();
    let x = matrix.try_solve(&ints(&[4, 8, 8])).unwrap();
    let x: Vec<Decimal> = x.into_iter().map(to_decimal).collect();
    assert_eq!(x[0], Decimal::from(0));
    assert_eq!(x[1], Decimal::from(4));
    let error = (x[2] - Decimal::from(3)).abs();
    assert!(error < Decimal::from_str_exact("0.0000000000000000000001").unwrap());
}

#[test]
fn solves_a_diagonal_system() {
    let matrix = TridiagonalMatrix::try_new(ints(&[0, 0, 0]), ints(&[2, 4, 5, 8]), ints(&[0, 0, 0])).unwrap();
    let x = matrix.solve(&ints(&[1, 2, 3, 4])).unwrap();
    let x: Vec<Decimal> = x.into_iter().map(to_decimal).collect();
    let expected = ["0.5", "0.5", "0.6", "0.5"].map(|s| Decimal::from_str_exact(s).unwrap());
    assert_eq!(x, expected.to_vec());
}

#[test]
fn back_substitution_stops_before_the_second_last_row() {
    // Row n-2 keeps its forward-swept value.
    let matrix = TridiagonalMatrix::try_new(ints(&[1, 1]), ints(&[2, 2, 2]), ints(&[1, 1])).unwrap();
    let x = matrix.try_solve(&ints(&[0, 0, 2])).unwrap();
    let x: Vec<Decimal> = x.into_iter().map(to_decimal).collect();
    assert_eq!(x[2], Decimal::from_str_exact("1.5").unwrap());
    assert_eq!(x[1], Decimal::from(0));
}

#[test]
fn mismatched_off_diagonals_are_rejected() {
    let r = TridiagonalMatrix::try_new(ints(&[1, 1]), ints(&[2, 2, 2]), ints(&[1]));
    assert_eq!(r.err(), Some(MatrixValidationError::MatrixShapeError));
}

#[test]
fn short_diagonal_is_rejected() {
    let r = TridiagonalMatrix::try_new(ints(&[1, 1]), ints(&[2, 2]), ints(&[1, 1]));
    assert_eq!(r.err(), Some(MatrixValidationError::MatrixShapeError));
}

#[test]
fn right_hand_side_of_wrong_length_is_rejected() {
    let matrix = TridiagonalMatrix::try_new(ints(&[0, 0]), ints(&[1, 1, 1]), ints(&[0, 0])).unwrap();
    assert_eq!(matrix.try_solve(&ints(&[1, 2])), Err(MatrixValidationError::MatrixShapeError));
    let matrix = TridiagonalMatrix::try_new(ints(&[0, 0]), ints(&[1, 1, 1]), ints(&[0, 0])).unwrap();
    assert_eq!(matrix.solve(&ints(&[1, 2, 3, 4])), Err(MatrixValidationError::MatrixShapeError));
    assert_eq!(
        thomas(3, &ints(&[0, 0]), &ints(&[1, 1, 1]), &ints(&[0, 0]), &ints(&[1])),
        Err(MatrixValidationError::MatrixShapeError)
    );
}

#[test]
fn zero_pivot_is_an_arithmetic_error() {
    let matrix = TridiagonalMatrix::try_new(ints(&[1, 1]), ints(&[0, 2, 2]), ints(&[1, 1])).unwrap();
    assert_eq!(matrix.try_solve(&ints(&[1, 2, 3])), Err(MatrixValidationError::ArithmeticError));
}
