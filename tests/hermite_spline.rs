use rust_decimal::Decimal;
use spline_interpolation::interpolation::hermite_spline::HermiteSpline;
use spline_interpolation::value::Dec;
use spline_interpolation::HermiteSplineError;

fn to_decimal(v: Dec) -> Decimal {
    Decimal::from_i128_with_scale(v.mantissa(), v.scale())
}

fn sample_points() -> [(Dec, Dec, Dec); 3] {
    [
        (Dec::new(0, 0), Dec::new(0, 0), Dec::new(1, 0)),
        (Dec::new(1, 0), Dec::new(1, 0), Dec::new(2, 0)),
        (Dec::new(2, 0), Dec::new(0, 0), Dec::new(-1, 0)),
    ]
}

#[test]
fn hermite_segment_value() {
    let spline = HermiteSpline::try_new(&sample_points()).unwrap();
    let val = to_decimal(spline.try_value(Dec::new(5, 1)).unwrap());
    assert_eq!(val, Decimal::from_str_exact("0.375").unwrap());
}

#[test]
fn hermite_slopes_scale_with_spacing() {
    // One segment of width 2 from (0,0) to (2,0) with slope 1 at both ends.
    let points = [
        (Dec::new(0, 0), Dec::new(0, 0), Dec::new(1, 0)),
        (Dec::new(2, 0), Dec::new(0, 0), Dec::new(1, 0)),
    ];
    let spline = HermiteSpline::try_new(&points).unwrap();
    let val = to_decimal(spline.try_value(Dec::new(1, 0)).unwrap());
    assert_eq!(val, Decimal::from_str_exact("0").unwrap());
    let spline = HermiteSpline::try_new(&points).unwrap();
    let val = to_decimal(spline.try_value(Dec::new(5, 1)).unwrap());
    assert_eq!(val, Decimal::from_str_exact("0.1875").unwrap());
}

#[test]
fn hermite_knots_are_interpolated() {
    for (x, y, _) in sample_points() {
        let spline = HermiteSpline::try_new(&sample_points()).unwrap();
        assert_eq!(spline.try_value(x).unwrap(), y);
    }
}

#[test]
fn hermite_unsorted_points() {
    let points = [
        (Dec::new(0, 0), Dec::new(0, 0), Dec::new(1, 0)),
        (Dec::new(2, 0), Dec::new(1, 0), Dec::new(2, 0)),
        (Dec::new(1, 0), Dec::new(0, 0), Dec::new(-1, 0)),
    ];
    assert_eq!(
        HermiteSpline::try_new(&points).err(),
        Some(HermiteSplineError::PointOrderError)
    );
}

#[test]
fn hermite_too_few_points() {
    let points = [(Dec::new(0, 0), Dec::new(0, 0), Dec::new(1, 0))];
    assert_eq!(
        HermiteSpline::try_new(&points).err(),
        Some(HermiteSplineError::InsufficientPointsError(1))
    );
}

#[test]
fn hermite_out_of_bounds() {
    let below = Dec::new(-1, 0);
    let above = Dec::new(21, 1);
    let spline = HermiteSpline::try_new(&sample_points()).unwrap();
    assert_eq!(spline.try_value(below), Err(HermiteSplineError::OutOfLowerBound(below)));
    let spline = HermiteSpline::try_new(&sample_points()).unwrap();
    assert_eq!(spline.try_value(above), Err(HermiteSplineError::OutOfUpperBound(above)));
}
