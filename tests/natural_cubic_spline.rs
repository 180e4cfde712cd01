use rust_decimal::prelude::ToPrimitive;
use rust_decimal::Decimal;
use spline_interpolation::natural_cubic_spline::NaturalCubicSpline;
use spline_interpolation::value::Dec;
use spline_interpolation::HermiteSplineError;

fn to_decimal(v: Dec) -> Decimal {
    Decimal::from_i128_with_scale(v.mantissa(), v.scale())
}

fn sample_points() -> [(Dec, Dec); 3] {
    [
        (Dec::new(0, 0), Dec::new(1, 0)),
        (Dec::new(5, 1), Dec::new(5, 1)),
        (Dec::new(1, 0), Dec::new(0, 0)),
    ]
}

#[test]
fn natural_cubic_spline_test_f64() {
    let interpolator = NaturalCubicSpline::try_new(&sample_points()).unwrap();
    let val = to_decimal(interpolator.try_value(Dec::new(75, 2)).unwrap());
    assert_eq!(val.to_f64().unwrap(), 0.25_f64);
}

#[test]
fn natural_cubic_spline_test_decimal() {
    let interpolator = NaturalCubicSpline::try_new(&sample_points()).unwrap();
    let val = interpolator.try_value(Dec::new(75, 2)).unwrap();
    assert_eq!(to_decimal(val), Decimal::from_str_exact("0.25").unwrap());
}

#[test]
fn natural_cubic_bent_curve() {
    // Knots (0,0), (1,1), (2,0): the middle second derivative is -3.
    let points = [
        (Dec::new(0, 0), Dec::new(0, 0)),
        (Dec::new(1, 0), Dec::new(1, 0)),
        (Dec::new(2, 0), Dec::new(0, 0)),
    ];
    let interpolator = NaturalCubicSpline::try_new(&points).unwrap();
    let val = to_decimal(interpolator.try_value(Dec::new(5, 1)).unwrap());
    let error = (val - Decimal::from_str_exact("0.6875").unwrap()).abs();
    assert!(error < Decimal::from_str_exact("0.0000000000000000000001").unwrap());
}

#[test]
fn natural_cubic_knots_are_interpolated() {
    let points = [
        (Dec::new(0, 0), Dec::new(0, 0)),
        (Dec::new(1, 0), Dec::new(3, 0)),
        (Dec::new(25, 1), Dec::new(-1, 0)),
        (Dec::new(4, 0), Dec::new(2, 0)),
    ];
    for (x, y) in points {
        let interpolator = NaturalCubicSpline::try_new(&points).unwrap();
        assert_eq!(interpolator.try_value(x).unwrap(), y);
    }
}

#[test]
fn natural_cubic_unsorted_points() {
    let points = [
        (Dec::new(1, 0), Dec::new(1, 0)),
        (Dec::new(0, 0), Dec::new(5, 1)),
        (Dec::new(2, 0), Dec::new(0, 0)),
    ];
    assert_eq!(
        NaturalCubicSpline::try_new(&points).err(),
        Some(HermiteSplineError::PointOrderError)
    );
}

#[test]
fn natural_cubic_too_few_points() {
    let points = [(Dec::new(0, 0), Dec::new(1, 0))];
    assert_eq!(
        NaturalCubicSpline::try_new(&points).err(),
        Some(HermiteSplineError::InsufficientPointsError(1))
    );
}

#[test]
fn natural_cubic_repeated_abscissa() {
    let points = [
        (Dec::new(0, 0), Dec::new(1, 0)),
        (Dec::new(1, 0), Dec::new(2, 0)),
        (Dec::new(1, 0), Dec::new(3, 0)),
        (Dec::new(2, 0), Dec::new(0, 0)),
    ];
    assert_eq!(
        NaturalCubicSpline::try_new(&points).err(),
        Some(HermiteSplineError::ArithmeticError)
    );
}

#[test]
fn natural_cubic_out_of_bounds() {
    let below = Dec::new(-5, 0);
    let above = Dec::new(2, 0);
    let interpolator = NaturalCubicSpline::try_new(&sample_points()).unwrap();
    assert_eq!(interpolator.try_value(below), Err(HermiteSplineError::OutOfLowerBound(below)));
    let interpolator = NaturalCubicSpline::try_new(&sample_points()).unwrap();
    assert_eq!(interpolator.try_value(above), Err(HermiteSplineError::OutOfUpperBound(above)));
}
