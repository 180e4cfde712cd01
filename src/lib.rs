use vstd::prelude::*;

pub mod basis;
pub mod interpolation;
pub mod knots;
pub mod natural_cubic_spline;
pub mod tridiagonal_matrix;
pub mod value;

use crate::value::Dec;

verus! {

/// Why a spline could not be built or evaluated.
#[derive(Clone, Copy, Debug, PartialEq, Eq, Structural)]
pub enum HermiteSplineError {
    /// The abscissae decrease somewhere.
    PointOrderError,
    /// The query lies below the first knot.
    OutOfLowerBound(Dec),
    /// The query lies above the last knot.
    OutOfUpperBound(Dec),
    /// Too few points were given; the count is attached.
    InsufficientPointsError(usize),
    /// A division by zero or an overflow in decimal arithmetic.
    ArithmeticError,
}

} // verus!
