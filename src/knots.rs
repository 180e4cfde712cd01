use crate::tridiagonal_matrix::all_wf;
use crate::value::{compare, Dec};
use core::cmp::Ordering;
use vstd::prelude::*;

verus! {

/// Knot abscissae never decrease.
pub open spec fn is_sorted(xs: Seq<Dec>) -> bool {
    forall|i: int, j: int| 0 <= i < j < xs.len() ==> xs[i].units() <= xs[j].units()
}

/// Knot abscissae strictly increase.
pub open spec fn is_strictly_increasing(xs: Seq<Dec>) -> bool {
    forall|i: int, j: int| 0 <= i < j < xs.len() ==> xs[i].units() < xs[j].units()
}

/// Index of the first knot, from `from` on, that is not below `x` (the length
/// when there is none).
pub open spec fn first_not_below(xs: Seq<Dec>, x: Dec, from: nat) -> nat
    decreases xs.len() - from,
{
    if from >= xs.len() {
        xs.len()
    } else if xs[from as int].units() < x.units() {
        first_not_below(xs, x, from + 1)
    } else {
        from
    }
}

/// Where a query falls among the knots.
#[derive(Clone, Copy, Debug, PartialEq, Eq, Structural)]
pub enum Position {
    /// On knot `i` (the first one with that abscissa).
    Knot(usize),
    /// Below the first knot.
    Below,
    /// Above the last knot.
    Above,
    /// Strictly inside segment `i`, between knots `i` and `i + 1`.
    Segment(usize),
}

/// The position of `x` among the sorted knots `xs`.
pub open spec fn locate(xs: Seq<Dec>, x: Dec) -> Position {
    let k = first_not_below(xs, x, 0);
    if k < xs.len() && xs[k as int].units() == x.units() {
        Position::Knot(k as usize)
    } else if k == 0 {
        Position::Below
    } else if k == xs.len() {
        Position::Above
    } else {
        Position::Segment((k - 1) as usize)
    }
}

proof fn lemma_first_not_below(xs: Seq<Dec>, x: Dec, from: nat, k: nat)
    requires
        from <= k <= xs.len(),
        forall|j: int| 0 <= j < k ==> (#[trigger] xs[j]).units() < x.units(),
        k < xs.len() ==> xs[k as int].units() >= x.units(),
    ensures
        first_not_below(xs, x, from) == k,
    decreases k - from,
{
    if from < k {
        lemma_first_not_below(xs, x, from + 1, k);
    }
}

/// On sorted knots, `first_not_below` counts the knots below `x`.
pub proof fn lemma_first_not_below_sorted(xs: Seq<Dec>, x: Dec, k: nat)
    requires
        is_sorted(xs),
        k <= xs.len(),
        forall|j: int| 0 <= j < k ==> (#[trigger] xs[j]).units() < x.units(),
        k < xs.len() ==> xs[k as int].units() >= x.units(),
    ensures
        first_not_below(xs, x, 0) == k,
{
    lemma_first_not_below(xs, x, 0, k);
}

/// On strictly increasing knots, each knot's abscissa is located on that knot.
pub proof fn lemma_locate_knot(xs: Seq<Dec>, i: int)
    requires
        is_strictly_increasing(xs),
        0 <= i < xs.len(),
    ensures
        locate(xs, xs[i]) == Position::Knot(i as usize),
{
    assert(is_sorted(xs));
    lemma_first_not_below_sorted(xs, xs[i], i as nat);
}

/// On sorted knots, a query below the first knot is `Below` and one above the
/// last knot is `Above`.
pub proof fn lemma_locate_outside(xs: Seq<Dec>, x: Dec)
    requires
        is_sorted(xs),
        xs.len() > 0,
    ensures
        x.units() < xs[0].units() ==> locate(xs, x) == Position::Below,
        x.units() > xs[xs.len() - 1].units() ==> locate(xs, x) == Position::Above,
{
    if x.units() < xs[0].units() {
        lemma_first_not_below_sorted(xs, x, 0);
    }
    if x.units() > xs[xs.len() - 1].units() {
        assert forall|j: int| 0 <= j < xs.len() implies (#[trigger] xs[j]).units() < x.units() by {
            if j < xs.len() - 1 {
                assert(xs[j].units() <= xs[xs.len() - 1].units());
            }
        }
        lemma_first_not_below_sorted(xs, x, xs.len());
    }
}

/// Finds where `x` falls among the sorted knots `xs` by binary search.
pub fn find_position(xs: &[Dec], x: Dec) -> (r: Position)
    requires
        is_sorted(xs@),
        all_wf(xs@),
        x.wf(),
    ensures
        r == locate(xs@, x),
        r matches Position::Knot(k) ==> k < xs@.len(),
        r matches Position::Segment(i) ==> i + 1 < xs@.len(),
{
    let mut lo: usize = 0;
    let mut hi: usize = xs.len();
    while lo < hi
        invariant
            0 <= lo <= hi <= xs@.len(),
            is_sorted(xs@),
            all_wf(xs@),
            x.wf(),
            forall|j: int| 0 <= j < lo ==> (#[trigger] xs@[j]).units() < x.units(),
            forall|j: int| hi <= j < xs@.len() ==> (#[trigger] xs@[j]).units() >= x.units(),
        decreases hi - lo,
    {
        let mid = lo + (hi - lo) / 2;
        if matches!(compare(xs[mid], x), Ordering::Less) {
            proof {
                assert forall|j: int| 0 <= j < mid + 1 implies (#[trigger] xs@[j]).units()
                    < x.units() by {
                    if j < mid {
                        assert(xs@[j].units() <= xs@[mid as int].units());
                    }
                }
            }
            lo = mid + 1;
        } else {
            hi = mid;
        }
    }
    proof {
        lemma_first_not_below_sorted(xs@, x, lo as nat);
    }
    if lo < xs.len() && matches!(compare(xs[lo], x), Ordering::Equal) {
        Position::Knot(lo)
    } else if lo == 0 {
        Position::Below
    } else if lo == xs.len() {
        Position::Above
    } else {
        Position::Segment(lo - 1)
    }
}

/// The abscissae of a sequence of `(x, y)` points.
pub open spec fn abscissae(raw: Seq<(Dec, Dec)>) -> Seq<Dec> {
    raw.map_values(|p: (Dec, Dec)| p.0)
}

/// The ordinates of a sequence of `(x, y)` points.
pub open spec fn ordinates(raw: Seq<(Dec, Dec)>) -> Seq<Dec> {
    raw.map_values(|p: (Dec, Dec)| p.1)
}

/// Both coordinates of every point are well formed.
pub open spec fn pairs_wf(raw: Seq<(Dec, Dec)>) -> bool {
    forall|i: int| 0 <= i < raw.len() ==> (#[trigger] raw[i]).0.wf() && raw[i].1.wf()
}

/// Splits `(x, y)` points into abscissae and ordinates, or returns `None`
/// when some abscissa is below the one before it.
pub fn split_sorted_pairs(raw: &[(Dec, Dec)]) -> (r: Option<(Vec<Dec>, Vec<Dec>)>)
    requires
        raw@.len() > 0,
        pairs_wf(raw@),
    ensures
        r is Some <==> is_sorted(abscissae(raw@)),
        r matches Some((xs, ys)) ==> xs@ == abscissae(raw@) && ys@ == ordinates(raw@),
{
    let ghost xs_all = abscissae(raw@);
    let mut temp = raw[0].0;
    let mut xs: Vec<Dec> = Vec::new();
    let mut ys: Vec<Dec> = Vec::new();
    let mut i: usize = 0;
    while i < raw.len()
        invariant
            0 <= i <= raw@.len(),
            raw@.len() > 0,
            pairs_wf(raw@),
            xs_all == abscissae(raw@),
            xs@ == xs_all.take(i as int),
            ys@ == ordinates(raw@).take(i as int),
            is_sorted(xs@),
            temp == if i == 0 { raw@[0].0 } else { raw@[i - 1].0 },
        decreases raw@.len() - i,
    {
        let (x, y) = raw[i];
        if matches!(compare(x, temp), Ordering::Less) {
            proof {
                assert(i > 0);
                assert(xs_all[i - 1] == temp);
                assert(xs_all[i as int] == x);
            }
            return None;
        }
        let ghost prev = temp;
        let ghost before = xs@;
        temp = x;
        xs.push(x);
        ys.push(y);
        proof {
            assert(prev.units() <= x.units());
            assert forall|a: int, b: int| 0 <= a < b < xs@.len() implies xs@[a].units()
                <= xs@[b].units() by {
                if b == i && a < i - 1 {
                    assert(before[a].units() <= before[i - 1].units());
                }
                if b == i && i > 0 {
                    assert(before[i - 1] == prev);
                }
            }
            assert(xs@ =~= xs_all.take(i + 1));
            assert(ys@ =~= ordinates(raw@).take(i + 1));
        }
        i = i + 1;
    }
    proof {
        assert(xs@ =~= xs_all);
        assert(ys@ =~= ordinates(raw@));
    }
    Some((xs, ys))
}

} // verus!
