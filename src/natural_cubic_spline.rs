use crate::knots::{
    abscissae, find_position, is_sorted, is_strictly_increasing, lemma_locate_knot,
    lemma_locate_outside, locate, ordinates, pairs_wf, split_sorted_pairs, Position,
};
use crate::tridiagonal_matrix::{all_wf, thomas_solution, TridiagonalMatrix};
use crate::value::{
    add_dec, add_opt, div_dec, div_opt, int_opt, mul_dec, mul_opt, sub_dec, sub_opt, Dec,
};
use crate::HermiteSplineError;
use vstd::prelude::*;

verus! {

/// Entry `j` of the system's upper diagonal: 0 in the first row, `h[j] / 6` in
/// the others, where `h[j] = x[j+1] - x[j]`.
pub open spec fn system_upper(xs: Seq<Dec>, j: int) -> Option<Dec> {
    if j == 0 {
        int_opt(0)
    } else {
        div_opt(sub_opt(Some(xs[j + 1]), Some(xs[j])), int_opt(6))
    }
}

/// Entry `i` of the system's diagonal: 1 in the first and last rows,
/// `(h[i-1] + h[i]) / 3` in the others.
pub open spec fn system_diag(xs: Seq<Dec>, i: int) -> Option<Dec> {
    if i == 0 || i + 1 == xs.len() {
        int_opt(1)
    } else {
        div_opt(
            add_opt(sub_opt(Some(xs[i]), Some(xs[i - 1])), sub_opt(Some(xs[i + 1]), Some(xs[i]))),
            int_opt(3),
        )
    }
}

/// Entry `j` of the system's lower diagonal (row `j + 1`): `h[j] / 6`, and 0
/// in the last row.
pub open spec fn system_lower(xs: Seq<Dec>, j: int) -> Option<Dec> {
    if j + 2 == xs.len() {
        int_opt(0)
    } else {
        div_opt(sub_opt(Some(xs[j + 1]), Some(xs[j])), int_opt(6))
    }
}

/// Entry `i` of the right-hand side: 0 in the first and last rows, the
/// difference of the neighbouring slopes in the others.
pub open spec fn system_rhs(xs: Seq<Dec>, ys: Seq<Dec>, i: int) -> Option<Dec> {
    if i == 0 || i + 1 == xs.len() {
        int_opt(0)
    } else {
        sub_opt(
            div_opt(sub_opt(Some(ys[i + 1]), Some(ys[i])), sub_opt(Some(xs[i + 1]), Some(xs[i]))),
            div_opt(sub_opt(Some(ys[i]), Some(ys[i - 1])), sub_opt(Some(xs[i]), Some(xs[i - 1]))),
        )
    }
}

/// Every entry of the system could be computed.
pub open spec fn system_defined(xs: Seq<Dec>, ys: Seq<Dec>) -> bool {
    &&& forall|j: int| 0 <= j < xs.len() - 1 ==> (#[trigger] system_upper(xs, j)) is Some
    &&& forall|j: int| 0 <= j < xs.len() - 1 ==> (#[trigger] system_lower(xs, j)) is Some
    &&& forall|i: int| 0 <= i < xs.len() ==> (#[trigger] system_diag(xs, i)) is Some
    &&& forall|i: int| 0 <= i < xs.len() ==> (#[trigger] system_rhs(xs, ys, i)) is Some
}

/// The second derivatives at the knots under the natural boundary condition:
/// the solution of the system, or `None` when building or solving it fails.
pub open spec fn curvatures(xs: Seq<Dec>, ys: Seq<Dec>) -> Option<Seq<Dec>> {
    if system_defined(xs, ys) {
        thomas_solution(
            Seq::new((xs.len() - 1) as nat, |j: int| system_lower(xs, j)->0),
            Seq::new(xs.len(), |i: int| system_diag(xs, i)->0),
            Seq::new((xs.len() - 1) as nat, |j: int| system_upper(xs, j)->0),
            Seq::new(xs.len(), |i: int| system_rhs(xs, ys, i)->0),
        )
    } else {
        None
    }
}

/// The value of segment `i` at `x`, with `h = x[i+1] - x[i]`:
/// `(x[i+1]-x)^3/6/h*z[i] + (x-x[i])^3/6/h*z[i+1]
///  + (x[i+1]-x)*(y[i]/h - h/6*z[i]) + (x-x[i])*(y[i+1]/h - h/6*z[i+1])`.
pub open spec fn segment_value(xs: Seq<Dec>, ys: Seq<Dec>, zs: Seq<Dec>, i: int, x: Dec) -> Option<
    Dec,
> {
    let six = int_opt(6);
    let h = sub_opt(Some(xs[i + 1]), Some(xs[i]));
    let right = sub_opt(Some(xs[i + 1]), Some(x));
    let left = sub_opt(Some(x), Some(xs[i]));
    let t1 = mul_opt(div_opt(div_opt(mul_opt(mul_opt(right, right), right), six), h), Some(zs[i]));
    let t2 = mul_opt(div_opt(div_opt(mul_opt(mul_opt(left, left), left), six), h), Some(zs[i + 1]));
    let t3 = mul_opt(right, sub_opt(div_opt(Some(ys[i]), h), mul_opt(div_opt(h, six), Some(zs[i]))));
    let t4 = mul_opt(
        left,
        sub_opt(div_opt(Some(ys[i + 1]), h), mul_opt(div_opt(h, six), Some(zs[i + 1]))),
    );
    add_opt(add_opt(add_opt(t1, t2), t3), t4)
}

/// A natural cubic spline through at least three sorted points: second
/// derivatives solved once at construction, zero at both ends.
pub struct NaturalCubicSpline {
    xs: Vec<Dec>,
    ys: Vec<Dec>,
    zs: Vec<Dec>,
}

impl NaturalCubicSpline {
    /// The knots' abscissae.
    pub closed spec fn xs(&self) -> Seq<Dec> {
        self.xs@
    }

    /// The knots' ordinates.
    pub closed spec fn ys(&self) -> Seq<Dec> {
        self.ys@
    }

    /// The second derivatives at the knots.
    pub closed spec fn zs(&self) -> Seq<Dec> {
        self.zs@
    }

    /// At least three knots, sorted, every value well formed.
    pub open spec fn wf(&self) -> bool {
        &&& self.xs().len() >= 3
        &&& self.xs().len() <= usize::MAX
        &&& self.ys().len() == self.xs().len()
        &&& self.zs().len() == self.xs().len()
        &&& is_sorted(self.xs())
        &&& all_wf(self.xs())
        &&& all_wf(self.ys())
        &&& all_wf(self.zs())
    }

    /// What `try_value` returns at `x`.
    pub open spec fn value_at(&self, x: Dec) -> Result<Dec, HermiteSplineError> {
        match locate(self.xs(), x) {
            Position::Knot(k) => Ok(self.ys()[k as int]),
            Position::Below => Err(HermiteSplineError::OutOfLowerBound(x)),
            Position::Above => Err(HermiteSplineError::OutOfUpperBound(x)),
            Position::Segment(i) => match segment_value(self.xs(), self.ys(), self.zs(), i as int, x) {
                Some(v) => Ok(v),
                None => Err(HermiteSplineError::ArithmeticError),
            },
        }
    }

    /// Builds the spline from `(x, y)` points: fails with
    /// `InsufficientPointsError(n)` for fewer than three points, with
    /// `PointOrderError` when an abscissa is below the one before it, and with
    /// `ArithmeticError` when the second derivatives cannot be computed.
    pub fn try_new(raw_points: &[(Dec, Dec)]) -> (r: Result<Self, HermiteSplineError>)
        requires
            pairs_wf(raw_points@),
        ensures
            raw_points@.len() < 3 ==> r == Err::<Self, _>(
                HermiteSplineError::InsufficientPointsError(raw_points@.len() as usize),
            ),
            raw_points@.len() >= 3 && !is_sorted(abscissae(raw_points@)) ==> r == Err::<Self, _>(
                HermiteSplineError::PointOrderError,
            ),
            raw_points@.len() >= 3 && is_sorted(abscissae(raw_points@)) ==> match r {
                Ok(s) => curvatures(abscissae(raw_points@), ordinates(raw_points@)) == Some(s.zs()),
                Err(e) => e == HermiteSplineError::ArithmeticError && curvatures(
                    abscissae(raw_points@),
                    ordinates(raw_points@),
                ) is None,
            },
            r matches Ok(s) ==> {
                &&& s.wf()
                &&& s.xs() == abscissae(raw_points@)
                &&& s.ys() == ordinates(raw_points@)
            },
    {
        if raw_points.len() < 3 {
            return Err(HermiteSplineError::InsufficientPointsError(raw_points.len()));
        }
        let (xs, ys) = match split_sorted_pairs(raw_points) {
            Some(p) => p,
            None => {
                return Err(HermiteSplineError::PointOrderError);
            },
        };
        proof {
            assert forall|i: int| 0 <= i < xs@.len() implies (#[trigger] xs@[i]).wf() by {
                assert(raw_points@[i].0.wf());
            }
            assert forall|i: int| 0 <= i < ys@.len() implies (#[trigger] ys@[i]).wf() by {
                assert(raw_points@[i].1.wf());
            }
        }
        let zs = match solve_curvatures(&xs, &ys) {
            Some(z) => z,
            None => {
                return Err(HermiteSplineError::ArithmeticError);
            },
        };
        Ok(NaturalCubicSpline { xs, ys, zs })
    }

    fn segment(&self, i: usize, x: Dec) -> (r: Option<Dec>)
        requires
            self.wf(),
            x.wf(),
            i + 1 < self.xs().len(),
        ensures
            r == segment_value(self.xs(), self.ys(), self.zs(), i as int, x),
    {
        let n = self.xs.len();
        assert(i + 1 < n);
        let point_x = Some(self.xs[i]);
        let next_x = Some(self.xs[i + 1]);
        let z = Some(self.zs[i]);
        let next_z = Some(self.zs[i + 1]);
        let six = Some(Dec::from_int(6));
        let h = sub_dec(next_x, point_x);
        let right = sub_dec(next_x, Some(x));
        let left = sub_dec(Some(x), point_x);
        let t1 = mul_dec(div_dec(div_dec(mul_dec(mul_dec(right, right), right), six), h), z);
        let t2 = mul_dec(div_dec(div_dec(mul_dec(mul_dec(left, left), left), six), h), next_z);
        let t3 = mul_dec(right, sub_dec(div_dec(Some(self.ys[i]), h), mul_dec(div_dec(h, six), z)));
        let t4 = mul_dec(
            left,
            sub_dec(div_dec(Some(self.ys[i + 1]), h), mul_dec(div_dec(h, six), next_z)),
        );
        add_dec(add_dec(add_dec(t1, t2), t3), t4)
    }

    /// Evaluates the spline at `x`: the stored ordinate on a knot, the
    /// segment's cubic between knots, and `OutOfLowerBound(x)` /
    /// `OutOfUpperBound(x)` outside the knots.
    pub fn try_value(&self, x: Dec) -> (r: Result<Dec, HermiteSplineError>)
        requires
            self.wf(),
            x.wf(),
        ensures
            r == self.value_at(x),
    {
        match find_position(self.xs.as_slice(), x) {
            Position::Knot(k) => Ok(self.ys[k]),
            Position::Below => Err(HermiteSplineError::OutOfLowerBound(x)),
            Position::Above => Err(HermiteSplineError::OutOfUpperBound(x)),
            Position::Segment(i) => match self.segment(i, x) {
                Some(v) => Ok(v),
                None => Err(HermiteSplineError::ArithmeticError),
            },
        }
    }
}

/// Builds the natural-spline system over the sorted knots and solves it.
fn solve_curvatures(xs: &Vec<Dec>, ys: &Vec<Dec>) -> (r: Option<Vec<Dec>>)
    requires
        xs@.len() >= 3,
        ys@.len() == xs@.len(),
        is_sorted(xs@),
        all_wf(xs@),
        all_wf(ys@),
    ensures
        match r {
            Some(z) => curvatures(xs@, ys@) == Some(z@),
            None => curvatures(xs@, ys@) is None,
        },
        r matches Some(z) ==> all_wf(z@) && z@.len() == xs@.len(),
{
    let n = xs.len();
    let six = Some(Dec::from_int(6));
    let three = Some(Dec::from_int(3));
    let mut du: Vec<Dec> = Vec::new();
    let mut dl: Vec<Dec> = Vec::new();
    let mut j: usize = 0;
    while j < n - 1
        invariant
            n == xs@.len(),
            n >= 3,
            all_wf(xs@),
            six == int_opt(6),
            0 <= j <= n - 1,
            du@.len() == j,
            dl@.len() == j,
            forall|k: int| 0 <= k < j ==> system_upper(xs@, k) == Some(#[trigger] du@[k]),
            forall|k: int| 0 <= k < j ==> system_lower(xs@, k) == Some(#[trigger] dl@[k]),
            all_wf(du@),
            all_wf(dl@),
        decreases n - 1 - j,
    {
        let upper = if j == 0 {
            Some(Dec::from_int(0))
        } else {
            div_dec(sub_dec(Some(xs[j + 1]), Some(xs[j])), six)
        };
        let lower = if j + 2 == n {
            Some(Dec::from_int(0))
        } else {
            div_dec(sub_dec(Some(xs[j + 1]), Some(xs[j])), six)
        };
        match (upper, lower) {
            (Some(u), Some(l)) => {
                du.push(u);
                dl.push(l);
            },
            _ => {
                proof {
                    let k = j as int;
                    assert(system_upper(xs@, k) is None || system_lower(xs@, k) is None);
                }
                return None;
            },
        }
        j = j + 1;
    }
    let mut d: Vec<Dec> = Vec::new();
    let mut b: Vec<Dec> = Vec::new();
    let mut i: usize = 0;
    while i < n
        invariant
            n == xs@.len(),
            n == ys@.len(),
            n >= 3,
            all_wf(xs@),
            all_wf(ys@),
            three == int_opt(3),
            0 <= i <= n,
            d@.len() == i,
            b@.len() == i,
            forall|k: int| 0 <= k < i ==> system_diag(xs@, k) == Some(#[trigger] d@[k]),
            forall|k: int| 0 <= k < i ==> system_rhs(xs@, ys@, k) == Some(#[trigger] b@[k]),
            all_wf(d@),
            all_wf(b@),
        decreases n - i,
    {
        let (diag, rhs) = if i == 0 || i + 1 == n {
            (Some(Dec::from_int(1)), Some(Dec::from_int(0)))
        } else {
            let h = sub_dec(Some(xs[i]), Some(xs[i - 1]));
            let h_next = sub_dec(Some(xs[i + 1]), Some(xs[i]));
            let slope_next = div_dec(sub_dec(Some(ys[i + 1]), Some(ys[i])), h_next);
            let slope = div_dec(sub_dec(Some(ys[i]), Some(ys[i - 1])), h);
            (div_dec(add_dec(h, h_next), three), sub_dec(slope_next, slope))
        };
        match (diag, rhs) {
            (Some(v), Some(w)) => {
                d.push(v);
                b.push(w);
            },
            _ => {
                proof {
                    let k = i as int;
                    assert(system_diag(xs@, k) is None || system_rhs(xs@, ys@, k) is None);
                }
                return None;
            },
        }
        i = i + 1;
    }
    let ghost lower_seq = Seq::new((n - 1) as nat, |j: int| system_lower(xs@, j)->0);
    let ghost diag_seq = Seq::new(n as nat, |i: int| system_diag(xs@, i)->0);
    let ghost upper_seq = Seq::new((n - 1) as nat, |j: int| system_upper(xs@, j)->0);
    let ghost rhs_seq = Seq::new(n as nat, |i: int| system_rhs(xs@, ys@, i)->0);
    proof {
        assert(dl@ =~= lower_seq);
        assert(d@ =~= diag_seq);
        assert(du@ =~= upper_seq);
        assert(b@ =~= rhs_seq);
        assert forall|j: int| 0 <= j < n - 1 implies (#[trigger] system_upper(xs@, j)) is Some by {
            assert(system_upper(xs@, j) == Some(du@[j]));
        }
        assert forall|j: int| 0 <= j < n - 1 implies (#[trigger] system_lower(xs@, j)) is Some by {
            assert(system_lower(xs@, j) == Some(dl@[j]));
        }
        assert forall|i: int| 0 <= i < n implies (#[trigger] system_diag(xs@, i)) is Some by {
            assert(system_diag(xs@, i) == Some(d@[i]));
        }
        assert forall|i: int| 0 <= i < n implies (#[trigger] system_rhs(xs@, ys@, i)) is Some by {
            assert(system_rhs(xs@, ys@, i) == Some(b@[i]));
        }
        assert(system_defined(xs@, ys@));
    }
    let matrix = match TridiagonalMatrix::try_new(du, d, dl) {
        Ok(m) => m,
        Err(_) => {
            return None;
        },
    };
    match matrix.try_solve(b.as_slice()) {
        Ok(z) => Some(z),
        Err(_) => None,
    }
}

/// Interpolation: on strictly increasing knots, evaluating at a knot's
/// abscissa gives that knot's ordinate exactly.
pub proof fn lemma_knots_interpolated(s: &NaturalCubicSpline, i: int)
    requires
        s.wf(),
        is_strictly_increasing(s.xs()),
        0 <= i < s.xs().len(),
    ensures
        s.value_at(s.xs()[i]) == Ok::<Dec, HermiteSplineError>(s.ys()[i]),
{
    lemma_locate_knot(s.xs(), i);
}

/// No extrapolation: a query below the first knot fails with
/// `OutOfLowerBound`, one above the last knot with `OutOfUpperBound`.
pub proof fn lemma_out_of_range_rejected(s: &NaturalCubicSpline, x: Dec)
    requires
        s.wf(),
    ensures
        x.units() < s.xs()[0].units() ==> s.value_at(x) == Err::<Dec, _>(
            HermiteSplineError::OutOfLowerBound(x),
        ),
        x.units() > s.xs()[s.xs().len() - 1].units() ==> s.value_at(x) == Err::<Dec, _>(
            HermiteSplineError::OutOfUpperBound(x),
        ),
{
    lemma_locate_outside(s.xs(), x);
}

} // verus!
