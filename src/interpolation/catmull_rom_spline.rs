use crate::basis::{all_wf_opt, dot4, form_after_product, matrix_vector};
use crate::knots::{
    abscissae, find_position, is_sorted, is_strictly_increasing, lemma_locate_knot,
    lemma_locate_outside, locate, ordinates, pairs_wf, split_sorted_pairs, Position,
};
use crate::tridiagonal_matrix::all_wf;
use crate::value::{
    add_dec, add_opt, div_dec, div_opt, int_opt, mul_dec, mul_opt, neg_dec, neg_opt, sub_dec,
    sub_opt, wf_opt, Dec,
};
use crate::HermiteSplineError;
use vstd::prelude::*;

verus! {

/// Basis matrix of the first segment, which has no knot before it.
#[verifier::opaque]
pub open spec fn first_segment_matrix(beta: Option<Dec>) -> Seq<Option<Dec>> {
    let zero = int_opt(0);
    let one = int_opt(1);
    seq![
        zero, sub_opt(one, beta), neg_opt(one), beta,
        zero, add_opt(neg_opt(one), beta), one, neg_opt(beta),
        zero, neg_opt(one), one, zero,
        zero, one, zero, zero,
    ]
}

/// Basis matrix of the last segment, which has no knot after it.
#[verifier::opaque]
pub open spec fn last_segment_matrix(alpha: Option<Dec>) -> Seq<Option<Dec>> {
    let zero = int_opt(0);
    let one = int_opt(1);
    let two = int_opt(2);
    seq![
        neg_opt(alpha), one, add_opt(neg_opt(one), alpha), zero,
        mul_opt(two, alpha), int_opt(-2), sub_opt(two, mul_opt(two, alpha)), zero,
        neg_opt(alpha), zero, alpha, zero,
        zero, one, zero, zero,
    ]
}

/// Basis matrix of a segment with knots on both sides.
#[verifier::opaque]
pub open spec fn interior_segment_matrix(alpha: Option<Dec>, beta: Option<Dec>) -> Seq<
    Option<Dec>,
> {
    let zero = int_opt(0);
    let one = int_opt(1);
    let two = int_opt(2);
    let three = int_opt(3);
    seq![
        neg_opt(alpha), sub_opt(two, beta), add_opt(int_opt(-2), alpha), beta,
        mul_opt(two, alpha), sub_opt(beta, three), sub_opt(three, mul_opt(two, alpha)), neg_opt(beta),
        neg_opt(alpha), zero, alpha, zero,
        zero, one, zero, zero,
    ]
}

/// The value of segment `i` (between knots `i` and `i + 1`) at `x`:
/// `[t^3, t^2, t, 1] . (M [y[i-1], y[i], y[i+1], y[i+2]])` with
/// `t = (x - x[i]) / h`, the missing neighbours of the end segments taken as 0.
pub open spec fn segment_value(xs: Seq<Dec>, ys: Seq<Dec>, i: int, x: Dec) -> Option<Dec> {
    let h = sub_opt(Some(xs[i + 1]), Some(xs[i]));
    let delta = div_opt(sub_opt(Some(x), Some(xs[i])), h);
    let delta2 = mul_opt(delta, delta);
    let delta3 = mul_opt(delta2, delta);
    let d = seq![delta3, delta2, delta, int_opt(1)];
    if i == 0 {
        let next_h = sub_opt(Some(xs[i + 2]), Some(xs[i + 1]));
        let beta = div_opt(h, add_opt(h, next_h));
        let f = seq![int_opt(0), Some(ys[i]), Some(ys[i + 1]), Some(ys[i + 2])];
        dot4(matrix_vector(first_segment_matrix(beta), f), d)
    } else if i + 2 == xs.len() {
        let prev_h = sub_opt(Some(xs[i + 1]), Some(xs[i - 1]));
        let alpha = div_opt(h, add_opt(h, prev_h));
        let f = seq![Some(ys[i - 1]), Some(ys[i]), Some(ys[i + 1]), int_opt(0)];
        dot4(matrix_vector(last_segment_matrix(alpha), f), d)
    } else {
        let prev_h = sub_opt(Some(xs[i + 1]), Some(xs[i - 1]));
        let alpha = div_opt(h, add_opt(h, prev_h));
        let next_h = sub_opt(Some(xs[i + 2]), Some(xs[i + 1]));
        let beta = div_opt(h, add_opt(h, next_h));
        let f = seq![Some(ys[i - 1]), Some(ys[i]), Some(ys[i + 1]), Some(ys[i + 2])];
        dot4(matrix_vector(interior_segment_matrix(alpha, beta), f), d)
    }
}

fn first_matrix(beta: Option<Dec>) -> (m: Vec<Option<Dec>>)
    requires
        wf_opt(beta),
    ensures
        m@ == first_segment_matrix(beta),
        all_wf_opt(m@),
        m@.len() == 16,
{
    let zero = Some(Dec::from_int(0));
    let one = Some(Dec::from_int(1));
    let m = vec![
        zero, sub_dec(one, beta), neg_dec(one), beta,
        zero, add_dec(neg_dec(one), beta), one, neg_dec(beta),
        zero, neg_dec(one), one, zero,
        zero, one, zero, zero,
    ];
    assert(m@ =~= first_segment_matrix(beta)) by {
        reveal(first_segment_matrix);
    }
    m
}

fn last_matrix(alpha: Option<Dec>) -> (m: Vec<Option<Dec>>)
    requires
        wf_opt(alpha),
    ensures
        m@ == last_segment_matrix(alpha),
        all_wf_opt(m@),
        m@.len() == 16,
{
    let zero = Some(Dec::from_int(0));
    let one = Some(Dec::from_int(1));
    let two = Some(Dec::from_int(2));
    let m = vec![
        neg_dec(alpha), one, add_dec(neg_dec(one), alpha), zero,
        mul_dec(two, alpha), Some(Dec::from_int(-2)), sub_dec(two, mul_dec(two, alpha)), zero,
        neg_dec(alpha), zero, alpha, zero,
        zero, one, zero, zero,
    ];
    assert(m@ =~= last_segment_matrix(alpha)) by {
        reveal(last_segment_matrix);
    }
    m
}

fn interior_matrix(alpha: Option<Dec>, beta: Option<Dec>) -> (m: Vec<Option<Dec>>)
    requires
        wf_opt(alpha),
        wf_opt(beta),
    ensures
        m@ == interior_segment_matrix(alpha, beta),
        all_wf_opt(m@),
        m@.len() == 16,
{
    let zero = Some(Dec::from_int(0));
    let one = Some(Dec::from_int(1));
    let two = Some(Dec::from_int(2));
    let three = Some(Dec::from_int(3));
    let m = vec![
        neg_dec(alpha), sub_dec(two, beta), add_dec(Some(Dec::from_int(-2)), alpha), beta,
        mul_dec(two, alpha), sub_dec(beta, three), sub_dec(three, mul_dec(two, alpha)), neg_dec(beta),
        neg_dec(alpha), zero, alpha, zero,
        zero, one, zero, zero,
    ];
    assert(m@ =~= interior_segment_matrix(alpha, beta)) by {
        reveal(interior_segment_matrix);
    }
    m
}

/// A Catmull-Rom spline through at least three sorted points, with tangents
/// taken from the neighbouring points.
pub struct CatmullRomSpline {
    xs: Vec<Dec>,
    ys: Vec<Dec>,
}

impl CatmullRomSpline {
    /// The knots' abscissae.
    pub closed spec fn xs(&self) -> Seq<Dec> {
        self.xs@
    }

    /// The knots' ordinates.
    pub closed spec fn ys(&self) -> Seq<Dec> {
        self.ys@
    }

    /// At least three knots, sorted, every coordinate well formed.
    pub open spec fn wf(&self) -> bool {
        &&& self.xs().len() >= 3
        &&& self.xs().len() <= usize::MAX
        &&& self.ys().len() == self.xs().len()
        &&& is_sorted(self.xs())
        &&& all_wf(self.xs())
        &&& all_wf(self.ys())
    }

    /// What `try_value` returns at `x`.
    pub open spec fn value_at(&self, x: Dec) -> Result<Dec, HermiteSplineError> {
        match locate(self.xs(), x) {
            Position::Knot(k) => Ok(self.ys()[k as int]),
            Position::Below => Err(HermiteSplineError::OutOfLowerBound(x)),
            Position::Above => Err(HermiteSplineError::OutOfUpperBound(x)),
            Position::Segment(i) => match segment_value(self.xs(), self.ys(), i as int, x) {
                Some(v) => Ok(v),
                None => Err(HermiteSplineError::ArithmeticError),
            },
        }
    }

    /// Builds the spline from `(x, y)` points: fails with
    /// `InsufficientPointsError(n)` for fewer than three points and with
    /// `PointOrderError` when an abscissa is below the one before it.
    pub fn try_new(raw_points: &[(Dec, Dec)]) -> (r: Result<Self, HermiteSplineError>)
        requires
            pairs_wf(raw_points@),
        ensures
            raw_points@.len() < 3 ==> r == Err::<Self, _>(
                HermiteSplineError::InsufficientPointsError(raw_points@.len() as usize),
            ),
            raw_points@.len() >= 3 && !is_sorted(abscissae(raw_points@)) ==> r == Err::<Self, _>(
                HermiteSplineError::PointOrderError,
            ),
            raw_points@.len() >= 3 && is_sorted(abscissae(raw_points@)) ==> r is Ok,
            r matches Ok(s) ==> {
                &&& s.wf()
                &&& s.xs() == abscissae(raw_points@)
                &&& s.ys() == ordinates(raw_points@)
            },
    {
        if raw_points.len() < 3 {
            return Err(HermiteSplineError::InsufficientPointsError(raw_points.len()));
        }
        match split_sorted_pairs(raw_points) {
            Some((xs, ys)) => {
                proof {
                    assert forall|i: int| 0 <= i < xs@.len() implies (#[trigger] xs@[i]).wf() by {
                        assert(raw_points@[i].0.wf());
                    }
                    assert forall|i: int| 0 <= i < ys@.len() implies (#[trigger] ys@[i]).wf() by {
                        assert(raw_points@[i].1.wf());
                    }
                }
                Ok(CatmullRomSpline { xs, ys })
            },
            None => Err(HermiteSplineError::PointOrderError),
        }
    }

    fn segment(&self, i: usize, x: Dec) -> (r: Option<Dec>)
        requires
            self.wf(),
            x.wf(),
            i + 1 < self.xs().len(),
        ensures
            r == segment_value(self.xs(), self.ys(), i as int, x),
    {
        let xs = &self.xs;
        let ys = &self.ys;
        let n = xs.len();
        let zero = Some(Dec::from_int(0));
        let h = sub_dec(Some(xs[i + 1]), Some(xs[i]));
        let delta = div_dec(sub_dec(Some(x), Some(xs[i])), h);
        let delta2 = mul_dec(delta, delta);
        let delta3 = mul_dec(delta2, delta);
        let d = vec![delta3, delta2, delta, Some(Dec::from_int(1))];
        assert(d@ =~= seq![delta3, delta2, delta, int_opt(1)]);
        if i == 0 {
            let next_h = sub_dec(Some(xs[i + 2]), Some(xs[i + 1]));
            let beta = div_dec(h, add_dec(h, next_h));
            let m = first_matrix(beta);
            let f = vec![zero, Some(ys[i]), Some(ys[i + 1]), Some(ys[i + 2])];
            assert(f@ =~= seq![int_opt(0), Some(ys@[i as int]), Some(ys@[i + 1]), Some(ys@[i + 2])]);
            form_after_product(&m, &f, &d)
        } else if i + 2 == n {
            let prev_h = sub_dec(Some(xs[i + 1]), Some(xs[i - 1]));
            let alpha = div_dec(h, add_dec(h, prev_h));
            let m = last_matrix(alpha);
            let f = vec![Some(ys[i - 1]), Some(ys[i]), Some(ys[i + 1]), zero];
            assert(f@ =~= seq![Some(ys@[i - 1]), Some(ys@[i as int]), Some(ys@[i + 1]), int_opt(0)]);
            form_after_product(&m, &f, &d)
        } else {
            let prev_h = sub_dec(Some(xs[i + 1]), Some(xs[i - 1]));
            let alpha = div_dec(h, add_dec(h, prev_h));
            let next_h = sub_dec(Some(xs[i + 2]), Some(xs[i + 1]));
            let beta = div_dec(h, add_dec(h, next_h));
            let m = interior_matrix(alpha, beta);
            let f = vec![Some(ys[i - 1]), Some(ys[i]), Some(ys[i + 1]), Some(ys[i + 2])];
            assert(f@ =~= seq![Some(ys@[i - 1]), Some(ys@[i as int]), Some(ys@[i + 1]), Some(ys@[i + 2])]);
            form_after_product(&m, &f, &d)
        }
    }

    /// Evaluates the spline at `x`: the stored ordinate on a knot, the
    /// segment's cubic between knots, and `OutOfLowerBound(x)` /
    /// `OutOfUpperBound(x)` outside the knots.
    pub fn try_value(&self, x: Dec) -> (r: Result<Dec, HermiteSplineError>)
        requires
            self.wf(),
            x.wf(),
        ensures
            r == self.value_at(x),
    {
        match find_position(self.xs.as_slice(), x) {
            Position::Knot(k) => Ok(self.ys[k]),
            Position::Below => Err(HermiteSplineError::OutOfLowerBound(x)),
            Position::Above => Err(HermiteSplineError::OutOfUpperBound(x)),
            Position::Segment(i) => match self.segment(i, x) {
                Some(v) => Ok(v),
                None => Err(HermiteSplineError::ArithmeticError),
            },
        }
    }
}

/// Interpolation: on strictly increasing knots, evaluating at a knot's
/// abscissa gives that knot's ordinate exactly.
pub proof fn lemma_knots_interpolated(s: &CatmullRomSpline, i: int)
    requires
        s.wf(),
        is_strictly_increasing(s.xs()),
        0 <= i < s.xs().len(),
    ensures
        s.value_at(s.xs()[i]) == Ok::<Dec, HermiteSplineError>(s.ys()[i]),
{
    lemma_locate_knot(s.xs(), i);
}

/// No extrapolation: a query below the first knot fails with
/// `OutOfLowerBound`, one above the last knot with `OutOfUpperBound`.
pub proof fn lemma_out_of_range_rejected(s: &CatmullRomSpline, x: Dec)
    requires
        s.wf(),
    ensures
        x.units() < s.xs()[0].units() ==> s.value_at(x) == Err::<Dec, _>(
            HermiteSplineError::OutOfLowerBound(x),
        ),
        x.units() > s.xs()[s.xs().len() - 1].units() ==> s.value_at(x) == Err::<Dec, _>(
            HermiteSplineError::OutOfUpperBound(x),
        ),
{
    lemma_locate_outside(s.xs(), x);
}

} // verus!
