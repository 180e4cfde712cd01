use crate::basis::{dot4, form_before_product, vector_matrix};
use crate::knots::{
    find_position, is_sorted, is_strictly_increasing, lemma_locate_knot, lemma_locate_outside,
    locate, split_sorted_pairs, Position,
};
use crate::tridiagonal_matrix::all_wf;
use crate::value::{div_dec, div_opt, int_opt, mul_dec, mul_opt, sub_dec, sub_opt, Dec};
use crate::HermiteSplineError;
use vstd::prelude::*;

verus! {

/// The abscissae of a sequence of `(x, y, dy/dx)` points.
pub open spec fn abscissae3(raw: Seq<(Dec, Dec, Dec)>) -> Seq<Dec> {
    raw.map_values(|p: (Dec, Dec, Dec)| p.0)
}

/// The ordinates of a sequence of `(x, y, dy/dx)` points.
pub open spec fn ordinates3(raw: Seq<(Dec, Dec, Dec)>) -> Seq<Dec> {
    raw.map_values(|p: (Dec, Dec, Dec)| p.1)
}

/// The slopes of a sequence of `(x, y, dy/dx)` points.
pub open spec fn slopes3(raw: Seq<(Dec, Dec, Dec)>) -> Seq<Dec> {
    raw.map_values(|p: (Dec, Dec, Dec)| p.2)
}

/// Every coordinate of every point is well formed.
pub open spec fn triples_wf(raw: Seq<(Dec, Dec, Dec)>) -> bool {
    forall|i: int|
        0 <= i < raw.len() ==> (#[trigger] raw[i]).0.wf() && raw[i].1.wf() && raw[i].2.wf()
}

/// The Hermite basis matrix, row-major.
pub open spec fn hermite_matrix() -> Seq<Option<Dec>> {
    seq![
        int_opt(2), int_opt(-2), int_opt(1), int_opt(1),
        int_opt(-3), int_opt(3), int_opt(-2), int_opt(-1),
        int_opt(0), int_opt(0), int_opt(1), int_opt(0),
        int_opt(1), int_opt(0), int_opt(0), int_opt(0),
    ]
}

/// The value of segment `i` at `x`:
/// `([t^3, t^2, t, 1] M) . [y[i], y[i+1], s[i] h, s[i+1] h]` with
/// `h = x[i+1] - x[i]` and `t = (x - x[i]) / h`.
pub open spec fn segment_value(xs: Seq<Dec>, ys: Seq<Dec>, ss: Seq<Dec>, i: int, x: Dec) -> Option<
    Dec,
> {
    let h = sub_opt(Some(xs[i + 1]), Some(xs[i]));
    let delta = div_opt(sub_opt(Some(x), Some(xs[i])), h);
    let delta2 = mul_opt(delta, delta);
    let delta3 = mul_opt(delta2, delta);
    let d = seq![delta3, delta2, delta, int_opt(1)];
    let f = seq![Some(ys[i]), Some(ys[i + 1]), mul_opt(Some(ss[i]), h), mul_opt(Some(ss[i + 1]), h)];
    dot4(f, vector_matrix(d, hermite_matrix()))
}

/// A cubic Hermite spline through at least two sorted points with given slopes.
pub struct HermiteSpline {
    xs: Vec<Dec>,
    ys: Vec<Dec>,
    slopes: Vec<Dec>,
    m: Vec<Option<Dec>>,
}

impl HermiteSpline {
    /// The knots' abscissae.
    pub closed spec fn xs(&self) -> Seq<Dec> {
        self.xs@
    }

    /// The knots' ordinates.
    pub closed spec fn ys(&self) -> Seq<Dec> {
        self.ys@
    }

    /// The slopes `dy/dx` at the knots.
    pub closed spec fn slopes(&self) -> Seq<Dec> {
        self.slopes@
    }

    /// The stored basis matrix.
    pub closed spec fn basis(&self) -> Seq<Option<Dec>> {
        self.m@
    }

    /// At least two knots, sorted, every value well formed, the Hermite basis stored.
    pub open spec fn wf(&self) -> bool {
        &&& self.xs().len() >= 2
        &&& self.xs().len() <= usize::MAX
        &&& self.ys().len() == self.xs().len()
        &&& self.slopes().len() == self.xs().len()
        &&& is_sorted(self.xs())
        &&& all_wf(self.xs())
        &&& all_wf(self.ys())
        &&& all_wf(self.slopes())
        &&& self.basis() == hermite_matrix()
    }

    /// What `try_value` returns at `x`.
    pub open spec fn value_at(&self, x: Dec) -> Result<Dec, HermiteSplineError> {
        match locate(self.xs(), x) {
            Position::Knot(k) => Ok(self.ys()[k as int]),
            Position::Below => Err(HermiteSplineError::OutOfLowerBound(x)),
            Position::Above => Err(HermiteSplineError::OutOfUpperBound(x)),
            Position::Segment(i) => match segment_value(
                self.xs(),
                self.ys(),
                self.slopes(),
                i as int,
                x,
            ) {
                Some(v) => Ok(v),
                None => Err(HermiteSplineError::ArithmeticError),
            },
        }
    }

    /// Builds the spline from `(x, y, dy/dx)` points: fails with
    /// `InsufficientPointsError(n)` for fewer than two points and with
    /// `PointOrderError` when an abscissa is below the one before it.
    pub fn try_new(raw_points: &[(Dec, Dec, Dec)]) -> (r: Result<Self, HermiteSplineError>)
        requires
            triples_wf(raw_points@),
        ensures
            raw_points@.len() < 2 ==> r == Err::<Self, _>(
                HermiteSplineError::InsufficientPointsError(raw_points@.len() as usize),
            ),
            raw_points@.len() >= 2 && !is_sorted(abscissae3(raw_points@)) ==> r == Err::<Self, _>(
                HermiteSplineError::PointOrderError,
            ),
            raw_points@.len() >= 2 && is_sorted(abscissae3(raw_points@)) ==> r is Ok,
            r matches Ok(s) ==> {
                &&& s.wf()
                &&& s.xs() == abscissae3(raw_points@)
                &&& s.ys() == ordinates3(raw_points@)
                &&& s.slopes() == slopes3(raw_points@)
            },
    {
        if raw_points.len() < 2 {
            return Err(HermiteSplineError::InsufficientPointsError(raw_points.len()));
        }
        let mut pairs: Vec<(Dec, Dec)> = Vec::new();
        let mut slopes: Vec<Dec> = Vec::new();
        let mut i: usize = 0;
        while i < raw_points.len()
            invariant
                0 <= i <= raw_points@.len(),
                triples_wf(raw_points@),
                pairs@.len() == i,
                slopes@.len() == i,
                forall|k: int|
                    0 <= k < i ==> (#[trigger] pairs@[k]) == (raw_points@[k].0, raw_points@[k].1),
                forall|k: int| 0 <= k < i ==> (#[trigger] slopes@[k]) == raw_points@[k].2,
            decreases raw_points@.len() - i,
        {
            let (x, y, s) = raw_points[i];
            pairs.push((x, y));
            slopes.push(s);
            i = i + 1;
        }
        proof {
            assert(crate::knots::abscissae(pairs@) =~= abscissae3(raw_points@));
            assert(crate::knots::ordinates(pairs@) =~= ordinates3(raw_points@));
            assert(slopes@ =~= slopes3(raw_points@));
            assert(crate::knots::pairs_wf(pairs@)) by {
                assert forall|k: int| 0 <= k < pairs@.len() implies (#[trigger] pairs@[k]).0.wf()
                    && pairs@[k].1.wf() by {
                    assert(raw_points@[k].0.wf() && raw_points@[k].1.wf());
                }
            }
            assert forall|k: int| 0 <= k < slopes@.len() implies (#[trigger] slopes@[k]).wf() by {
                assert(raw_points@[k].2.wf());
            }
        }
        match split_sorted_pairs(pairs.as_slice()) {
            Some((xs, ys)) => {
                proof {
                    assert forall|k: int| 0 <= k < xs@.len() implies (#[trigger] xs@[k]).wf() by {
                        assert(pairs@[k].0.wf());
                    }
                    assert forall|k: int| 0 <= k < ys@.len() implies (#[trigger] ys@[k]).wf() by {
                        assert(pairs@[k].1.wf());
                    }
                }
                let m = vec![
                    Some(Dec::from_int(2)), Some(Dec::from_int(-2)), Some(Dec::from_int(1)), Some(Dec::from_int(1)),
                    Some(Dec::from_int(-3)), Some(Dec::from_int(3)), Some(Dec::from_int(-2)), Some(Dec::from_int(-1)),
                    Some(Dec::from_int(0)), Some(Dec::from_int(0)), Some(Dec::from_int(1)), Some(Dec::from_int(0)),
                    Some(Dec::from_int(1)), Some(Dec::from_int(0)), Some(Dec::from_int(0)), Some(Dec::from_int(0)),
                ];
                assert(m@ =~= hermite_matrix());
                Ok(HermiteSpline { xs, ys, slopes, m })
            },
            None => Err(HermiteSplineError::PointOrderError),
        }
    }

    fn segment(&self, i: usize, x: Dec) -> (r: Option<Dec>)
        requires
            self.wf(),
            x.wf(),
            i + 1 < self.xs().len(),
        ensures
            r == segment_value(self.xs(), self.ys(), self.slopes(), i as int, x),
    {
        let n = self.xs.len();
        assert(i + 1 < n);
        let h = sub_dec(Some(self.xs[i + 1]), Some(self.xs[i]));
        let delta = div_dec(sub_dec(Some(x), Some(self.xs[i])), h);
        let delta2 = mul_dec(delta, delta);
        let delta3 = mul_dec(delta2, delta);
        let d = vec![delta3, delta2, delta, Some(Dec::from_int(1))];
        let f = vec![
            Some(self.ys[i]),
            Some(self.ys[i + 1]),
            mul_dec(Some(self.slopes[i]), h),
            mul_dec(Some(self.slopes[i + 1]), h),
        ];
        assert(d@ =~= seq![delta3, delta2, delta, int_opt(1)]);
        assert(f@ =~= seq![
            Some(self.ys()[i as int]),
            Some(self.ys()[i + 1]),
            mul_opt(Some(self.slopes()[i as int]), h),
            mul_opt(Some(self.slopes()[i + 1]), h),
        ]);
        form_before_product(&d, &self.m, &f)
    }

    /// Evaluates the spline at `x`: the stored ordinate on a knot, the
    /// segment's cubic between knots, and `OutOfLowerBound(x)` /
    /// `OutOfUpperBound(x)` outside the knots.
    pub fn try_value(&self, x: Dec) -> (r: Result<Dec, HermiteSplineError>)
        requires
            self.wf(),
            x.wf(),
        ensures
            r == self.value_at(x),
    {
        match find_position(self.xs.as_slice(), x) {
            Position::Knot(k) => Ok(self.ys[k]),
            Position::Below => Err(HermiteSplineError::OutOfLowerBound(x)),
            Position::Above => Err(HermiteSplineError::OutOfUpperBound(x)),
            Position::Segment(i) => match self.segment(i, x) {
                Some(v) => Ok(v),
                None => Err(HermiteSplineError::ArithmeticError),
            },
        }
    }
}

/// Interpolation: on strictly increasing knots, evaluating at a knot's
/// abscissa gives that knot's ordinate exactly.
pub proof fn lemma_knots_interpolated(s: &HermiteSpline, i: int)
    requires
        s.wf(),
        is_strictly_increasing(s.xs()),
        0 <= i < s.xs().len(),
    ensures
        s.value_at(s.xs()[i]) == Ok::<Dec, HermiteSplineError>(s.ys()[i]),
{
    lemma_locate_knot(s.xs(), i);
}

/// No extrapolation: a query below the first knot fails with
/// `OutOfLowerBound`, one above the last knot with `OutOfUpperBound`.
pub proof fn lemma_out_of_range_rejected(s: &HermiteSpline, x: Dec)
    requires
        s.wf(),
    ensures
        x.units() < s.xs()[0].units() ==> s.value_at(x) == Err::<Dec, _>(
            HermiteSplineError::OutOfLowerBound(x),
        ),
        x.units() > s.xs()[s.xs().len() - 1].units() ==> s.value_at(x) == Err::<Dec, _>(
            HermiteSplineError::OutOfUpperBound(x),
        ),
{
    lemma_locate_outside(s.xs(), x);
}

} // verus!
