use rust_decimal::prelude::ToPrimitive;
use rust_decimal::Decimal;
use spline_interpolation::interpolation::catmull_rom_spline::CatmullRomSpline;
use spline_interpolation::value::Dec;
use spline_interpolation::HermiteSplineError;

fn to_decimal(v: Dec) -> Decimal {
    Decimal::from_i128_with_scale(v.mantissa(), v.scale())
}

fn sample_points() -> [(Dec, Dec); 3] {
    [
        (Dec::new(0, 0), Dec::new(1, 0)),
        (Dec::new(5, 1), Dec::new(5, 1)),
        (Dec::new(1, 0), Dec::new(0, 0)),
    ]
}

#[test]
fn catmull_rom_spline_test_f64() {
    let interpolator = CatmullRomSpline::try_new(&sample_points()).unwrap();
    let val = to_decimal(interpolator.try_value(Dec::new(75, 2)).unwrap());
    assert!((val.to_f64().unwrap() - 0.27083333333333337_f64).abs() < f64::EPSILON);
}

#[test]
fn catmull_rom_spline_test_decimal() {
    let interpolator = CatmullRomSpline::try_new(&sample_points()).unwrap();
    let val = interpolator.try_value(Dec::new(75, 2)).unwrap();
    assert_eq!(
        to_decimal(val),
        Decimal::from_str_exact("0.2708333333333333333333333333").unwrap()
    );
}

#[test]
fn catmull_rom_first_segment() {
    let interpolator = CatmullRomSpline::try_new(&sample_points()).unwrap();
    // beta = 1/2 and t = 1/2 give 1/2 * (-1/2) + 1.
    let val = to_decimal(interpolator.try_value(Dec::new(25, 2)).unwrap());
    assert_eq!(val, Decimal::from_str_exact("0.75").unwrap());
}

#[test]
fn catmull_rom_interior_segment() {
    // alpha = h / (h + (x[i+1] - x[i-1])) = 1/3 and beta = 1/2 give 35/12.
    let points = [
        (Dec::new(0, 0), Dec::new(0, 0)),
        (Dec::new(1, 0), Dec::new(2, 0)),
        (Dec::new(2, 0), Dec::new(4, 0)),
        (Dec::new(3, 0), Dec::new(6, 0)),
    ];
    let interpolator = CatmullRomSpline::try_new(&points).unwrap();
    let val = to_decimal(interpolator.try_value(Dec::new(15, 1)).unwrap());
    let error = (val - Decimal::from(35) / Decimal::from(12)).abs();
    assert!(error < Decimal::from_str_exact("0.0000000000000000000001").unwrap());
}

#[test]
fn catmull_rom_knots_are_interpolated() {
    for (x, y) in sample_points() {
        let interpolator = CatmullRomSpline::try_new(&sample_points()).unwrap();
        assert_eq!(interpolator.try_value(x).unwrap(), y);
    }
}

#[test]
fn catmull_rom_knot_matches_by_value() {
    let interpolator = CatmullRomSpline::try_new(&sample_points()).unwrap();
    assert_eq!(interpolator.try_value(Dec::new(50, 2)).unwrap(), Dec::new(5, 1));
}

#[test]
fn catmull_rom_unsorted_points() {
    let points = [
        (Dec::new(0, 0), Dec::new(1, 0)),
        (Dec::new(1, 0), Dec::new(5, 1)),
        (Dec::new(5, 1), Dec::new(0, 0)),
    ];
    assert_eq!(
        CatmullRomSpline::try_new(&points).err(),
        Some(HermiteSplineError::PointOrderError)
    );
}

#[test]
fn catmull_rom_too_few_points() {
    let points = [(Dec::new(0, 0), Dec::new(1, 0)), (Dec::new(1, 0), Dec::new(0, 0))];
    assert_eq!(
        CatmullRomSpline::try_new(&points).err(),
        Some(HermiteSplineError::InsufficientPointsError(2))
    );
    assert_eq!(
        CatmullRomSpline::try_new(&[]).err(),
        Some(HermiteSplineError::InsufficientPointsError(0))
    );
}

#[test]
fn catmull_rom_out_of_bounds() {
    let below = Dec::new(-1, 1);
    let above = Dec::new(11, 1);
    let interpolator = CatmullRomSpline::try_new(&sample_points()).unwrap();
    assert_eq!(interpolator.try_value(below), Err(HermiteSplineError::OutOfLowerBound(below)));
    let interpolator = CatmullRomSpline::try_new(&sample_points()).unwrap();
    assert_eq!(interpolator.try_value(above), Err(HermiteSplineError::OutOfUpperBound(above)));
}

#[test]
fn catmull_rom_last_segment() {
    // alpha = 1 / (1 + 3) and t = 1/2: (alpha - 1)/8 + (2 - 2 alpha)/4 + alpha/2.
    let points = [
        (Dec::new(0, 0), Dec::new(0, 0)),
        (Dec::new(2, 0), Dec::new(0, 0)),
        (Dec::new(3, 0), Dec::new(1, 0)),
    ];
    let interpolator = CatmullRomSpline::try_new(&points).unwrap();
    let val = to_decimal(interpolator.try_value(Dec::new(25, 1)).unwrap());
    assert_eq!(val, Decimal::from_str_exact("0.40625").unwrap());
}

#[test]
fn catmull_rom_last_segment_meets_last_knot() {
    let points = [
        (Dec::new(0, 0), Dec::new(0, 0)),
        (Dec::new(2, 0), Dec::new(0, 0)),
        (Dec::new(3, 0), Dec::new(1, 0)),
    ];
    let interpolator = CatmullRomSpline::try_new(&points).unwrap();
    let near_end = to_decimal(interpolator.try_value(Dec::new(2999999, 6)).unwrap());
    let error = (near_end - Decimal::from(1)).abs();
    assert!(error < Decimal::from_str_exact("0.00001").unwrap());
    assert_eq!(interpolator.try_value(Dec::new(3, 0)).unwrap(), Dec::new(1, 0));
}

#[test]
fn catmull_rom_evaluates_repeatedly() {
    let interpolator = CatmullRomSpline::try_new(&sample_points()).unwrap();
    let first = interpolator.try_value(Dec::new(75, 2)).unwrap();
    let second = interpolator.try_value(Dec::new(75, 2)).unwrap();
    assert_eq!(first, second);
    assert_eq!(interpolator.try_value(Dec::new(0, 0)).unwrap(), Dec::new(1, 0));
}
