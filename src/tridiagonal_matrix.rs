use crate::value::{div_dec, div_opt, mul_dec, mul_opt, sub_dec, sub_opt, Dec};
use vstd::prelude::*;

verus! {

/// Why a tridiagonal system could not be built or solved.
#[derive(Clone, Copy, Debug, PartialEq, Eq, Structural)]
pub enum MatrixValidationError {
    /// The diagonals, or the right-hand side, have lengths that do not fit together.
    MatrixShapeError,
    /// A division by zero, or an overflow, during elimination.
    ArithmeticError,
}

/// Every entry is a well-formed decimal.
pub open spec fn all_wf(s: Seq<Dec>) -> bool {
    forall|i: int| 0 <= i < s.len() ==> (#[trigger] s[i]).wf()
}

/// The lengths of a system of size `d.len()`: `n - 1` off-diagonal entries each.
pub open spec fn is_tridiagonal_shape(lower: Seq<Dec>, diag: Seq<Dec>, upper: Seq<Dec>) -> bool {
    lower.len() == upper.len() && upper.len() + 1 == diag.len()
}

/// Modified upper diagonal of the forward sweep:
/// `c'[0] = upper[0] / diag[0]`, `c'[i] = upper[i] / pivot(i)`.
pub open spec fn sweep_upper(lower: Seq<Dec>, diag: Seq<Dec>, upper: Seq<Dec>, i: nat) -> Option<
    Dec,
>
    decreases i,
{
    if i == 0 {
        div_opt(Some(upper[0]), Some(diag[0]))
    } else {
        div_opt(
            Some(upper[i as int]),
            sub_opt(
                Some(diag[i as int]),
                mul_opt(Some(lower[i - 1]), sweep_upper(lower, diag, upper, (i - 1) as nat)),
            ),
        )
    }
}

/// The divisor of row `i` in the forward sweep: `diag[i] - lower[i-1] * c'[i-1]`.
pub open spec fn pivot(lower: Seq<Dec>, diag: Seq<Dec>, upper: Seq<Dec>, i: nat) -> Option<Dec> {
    if i == 0 {
        Some(diag[0])
    } else {
        sub_opt(
            Some(diag[i as int]),
            mul_opt(Some(lower[i - 1]), sweep_upper(lower, diag, upper, (i - 1) as nat)),
        )
    }
}

/// Right-hand side after the forward sweep:
/// `y[0] = b[0] / diag[0]`, `y[i] = (b[i] - lower[i-1] * y[i-1]) / pivot(i)`.
pub open spec fn sweep_rhs(
    lower: Seq<Dec>,
    diag: Seq<Dec>,
    upper: Seq<Dec>,
    b: Seq<Dec>,
    i: nat,
) -> Option<Dec>
    decreases i,
{
    if i == 0 {
        div_opt(Some(b[0]), Some(diag[0]))
    } else {
        div_opt(
            sub_opt(
                Some(b[i as int]),
                mul_opt(Some(lower[i - 1]), sweep_rhs(lower, diag, upper, b, (i - 1) as nat)),
            ),
            pivot(lower, diag, upper, i),
        )
    }
}

/// Back substitution, which runs from row `n - 3` down to row 0:
/// `x[i] = y[i] - c'[i] * x[i+1]`; the last two rows keep `y`.
pub open spec fn back_substituted(
    lower: Seq<Dec>,
    diag: Seq<Dec>,
    upper: Seq<Dec>,
    b: Seq<Dec>,
    i: nat,
) -> Option<Dec>
    decreases diag.len() - i,
{
    if i + 2 >= diag.len() {
        sweep_rhs(lower, diag, upper, b, i)
    } else {
        sub_opt(
            sweep_rhs(lower, diag, upper, b, i),
            mul_opt(
                sweep_upper(lower, diag, upper, i),
                back_substituted(lower, diag, upper, b, i + 1),
            ),
        )
    }
}

/// The solution that the Thomas algorithm computes in decimal arithmetic, or
/// `None` when some step of it fails.
pub open spec fn thomas_solution(lower: Seq<Dec>, diag: Seq<Dec>, upper: Seq<Dec>, b: Seq<Dec>) -> Option<
    Seq<Dec>,
> {
    if forall|i: nat| i < diag.len() ==> (#[trigger] back_substituted(lower, diag, upper, b, i)) is Some {
        Some(Seq::new(diag.len(), |i: int| back_substituted(lower, diag, upper, b, i as nat)->0))
    } else {
        None
    }
}

/// A failed forward step leaves the last unknown, and so the solution, undefined.
proof fn lemma_rhs_failure_propagates(
    lower: Seq<Dec>,
    diag: Seq<Dec>,
    upper: Seq<Dec>,
    b: Seq<Dec>,
    k: nat,
    m: nat,
)
    requires
        k <= m,
        m < diag.len(),
        sweep_rhs(lower, diag, upper, b, k) is None,
    ensures
        sweep_rhs(lower, diag, upper, b, m) is None,
    decreases m - k,
{
    if k < m {
        assert(sweep_rhs(lower, diag, upper, b, k + 1) is None);
        lemma_rhs_failure_propagates(lower, diag, upper, b, k + 1, m);
    }
}

proof fn lemma_rhs_failure_fails(lower: Seq<Dec>, diag: Seq<Dec>, upper: Seq<Dec>, b: Seq<Dec>, k: nat)
    requires
        k < diag.len(),
        sweep_rhs(lower, diag, upper, b, k) is None,
    ensures
        thomas_solution(lower, diag, upper, b) is None,
{
    let last = (diag.len() - 1) as nat;
    lemma_rhs_failure_propagates(lower, diag, upper, b, k, last);
    assert(back_substituted(lower, diag, upper, b, last) is None);
}

/// Solves `A x = b` by the Thomas algorithm, without pivoting.
pub fn solve_with_thomas_algorithm_unchecked(
    matrix_size: usize,
    lower_diagonal: &[Dec],
    diagonal: &[Dec],
    upper_diagonal: &[Dec],
    b: &[Dec],
) -> (r: Option<Vec<Dec>>)
    requires
        matrix_size == diagonal@.len(),
        is_tridiagonal_shape(lower_diagonal@, diagonal@, upper_diagonal@),
        b@.len() == matrix_size,
        all_wf(lower_diagonal@),
        all_wf(diagonal@),
        all_wf(upper_diagonal@),
        all_wf(b@),
    ensures
        match r {
            Some(x) => thomas_solution(lower_diagonal@, diagonal@, upper_diagonal@, b@) == Some(
                x@,
            ),
            None => thomas_solution(lower_diagonal@, diagonal@, upper_diagonal@, b@) is None,
        },
        r matches Some(x) ==> all_wf(x@),
{
    let ghost l = lower_diagonal@;
    let ghost d = diagonal@;
    let ghost u = upper_diagonal@;
    let ghost bb = b@;
    let n = matrix_size;
    if n == 0 {
        let x: Vec<Dec> = Vec::new();
        assert(thomas_solution(l, d, u, bb) == Some(x@)) by {
            assert(Seq::new(d.len(), |i: int| back_substituted(l, d, u, bb, i as nat)->0) =~= x@);
        }
        return Some(x);
    }
    let mut x: Vec<Dec> = Vec::new();
    let mut scratch: Vec<Dec> = Vec::new();
    if n >= 2 {
        match div_dec(Some(upper_diagonal[0]), Some(diagonal[0])) {
            Some(c) => scratch.push(c),
            None => {
                proof {
                    assert(pivot(l, d, u, 1) is None);
                    assert(sweep_rhs(l, d, u, bb, 1) is None);
                    lemma_rhs_failure_fails(l, d, u, bb, 1);
                }
                return None;
            },
        }
    }
    match div_dec(Some(b[0]), Some(diagonal[0])) {
        Some(y) => x.push(y),
        None => {
            proof {
                lemma_rhs_failure_fails(l, d, u, bb, 0);
            }
            return None;
        },
    }
    let mut ix: usize = 1;
    while ix < n
        invariant
            1 <= ix <= n,
            n == d.len(),
            is_tridiagonal_shape(l, d, u),
            bb.len() == n,
            l == lower_diagonal@,
            d == diagonal@,
            u == upper_diagonal@,
            bb == b@,
            all_wf(l),
            all_wf(d),
            all_wf(u),
            all_wf(bb),
            x@.len() == ix,
            scratch@.len() == if ix < n - 1 { ix as int } else { n - 1 },
            forall|k: int| 0 <= k < x@.len() ==> sweep_rhs(l, d, u, bb, k as nat) == Some(#[trigger] x@[k]),
            forall|k: int|
                0 <= k < scratch@.len() ==> sweep_upper(l, d, u, k as nat) == Some(#[trigger] scratch@[k]),
            all_wf(x@),
            all_wf(scratch@),
        decreases n - ix,
    {
        let low = Some(lower_diagonal[ix - 1]);
        let p = sub_dec(Some(diagonal[ix]), mul_dec(low, Some(scratch[ix - 1])));
        assert(p == pivot(l, d, u, ix as nat));
        if ix < n - 1 {
            match div_dec(Some(upper_diagonal[ix]), p) {
                Some(c) => scratch.push(c),
                None => {
                    proof {
                        assert(sweep_upper(l, d, u, ix as nat) is None);
                        assert(pivot(l, d, u, (ix + 1) as nat) is None);
                        assert(sweep_rhs(l, d, u, bb, (ix + 1) as nat) is None);
                        lemma_rhs_failure_fails(l, d, u, bb, (ix + 1) as nat);
                    }
                    return None;
                },
            }
        }
        match div_dec(sub_dec(Some(b[ix]), mul_dec(low, Some(x[ix - 1]))), p) {
            Some(y) => x.push(y),
            None => {
                proof {
                    assert(sweep_rhs(l, d, u, bb, ix as nat) is None);
                    lemma_rhs_failure_fails(l, d, u, bb, ix as nat);
                }
                return None;
            },
        }
        ix = ix + 1;
    }
    let mut k: usize = if n >= 2 { n - 2 } else { 0 };
    while k > 0
        invariant
            k <= n,
            n < 2 ==> k == 0,
            l == lower_diagonal@,
            d == diagonal@,
            u == upper_diagonal@,
            bb == b@,
            n == d.len(),
            n >= 2 ==> k <= n - 2,
            is_tridiagonal_shape(l, d, u),
            bb.len() == n,
            all_wf(l),
            all_wf(d),
            all_wf(u),
            all_wf(bb),
            x@.len() == n,
            scratch@.len() == n - 1,
            forall|j: int|
                0 <= j < scratch@.len() ==> sweep_upper(l, d, u, j as nat) == Some(#[trigger] scratch@[j]),
            forall|j: int| 0 <= j < k ==> sweep_rhs(l, d, u, bb, j as nat) == Some(#[trigger] x@[j]),
            forall|j: int| k <= j < n ==> back_substituted(l, d, u, bb, j as nat) == Some(#[trigger] x@[j]),
            all_wf(x@),
            all_wf(scratch@),
        decreases k,
    {
        k = k - 1;
        let next = Some(x[k + 1]);
        match sub_dec(Some(x[k]), mul_dec(Some(scratch[k]), next)) {
            Some(v) => x.set(k, v),
            None => {
                proof {
                    let kk = k as nat;
                    assert(back_substituted(l, d, u, bb, kk) is None);
                    assert(!(forall|i: nat|
                        i < d.len() ==> (#[trigger] back_substituted(l, d, u, bb, i)) is Some));
                }
                return None;
            },
        }
    }
    proof {
        assert forall|i: nat| i < d.len() implies (#[trigger] back_substituted(l, d, u, bb, i)) is Some by {
            assert(back_substituted(l, d, u, bb, i) == Some(x@[i as int]));
        }
        assert(Seq::new(d.len(), |i: int| back_substituted(l, d, u, bb, i as nat)->0) =~= x@);
    }
    Some(x)
}

/// Solves `A x = b` after checking that `b` has one entry per row.
pub fn thomas(
    matrix_size: usize,
    lower_diagonal: &[Dec],
    diagonal: &[Dec],
    upper_diagonal: &[Dec],
    b: &[Dec],
) -> (r: Result<Vec<Dec>, MatrixValidationError>)
    requires
        matrix_size == diagonal@.len(),
        is_tridiagonal_shape(lower_diagonal@, diagonal@, upper_diagonal@),
        all_wf(lower_diagonal@),
        all_wf(diagonal@),
        all_wf(upper_diagonal@),
        all_wf(b@),
    ensures
        b@.len() != matrix_size ==> r == Err::<Vec<Dec>, _>(MatrixValidationError::MatrixShapeError),
        b@.len() == matrix_size ==> match r {
            Ok(x) => thomas_solution(lower_diagonal@, diagonal@, upper_diagonal@, b@) == Some(x@),
            Err(e) => e == MatrixValidationError::ArithmeticError && thomas_solution(
                lower_diagonal@,
                diagonal@,
                upper_diagonal@,
                b@,
            ) is None,
        },
        r matches Ok(x) ==> all_wf(x@),
{
    if b.len() != matrix_size {
        return Err(MatrixValidationError::MatrixShapeError);
    }
    match solve_with_thomas_algorithm_unchecked(matrix_size, lower_diagonal, diagonal, upper_diagonal, b) {
        Some(x) => Ok(x),
        None => Err(MatrixValidationError::ArithmeticError),
    }
}

/// A tridiagonal matrix of size `n`: `n` diagonal entries and `n - 1` entries
/// on each of the diagonals just above and just below it.
pub struct TridiagonalMatrix {
    upper_diagonal: Vec<Dec>,
    diagonal: Vec<Dec>,
    lower_diagonal: Vec<Dec>,
    size: usize,
}

impl TridiagonalMatrix {
    pub closed spec fn upper(&self) -> Seq<Dec> {
        self.upper_diagonal@
    }

    pub closed spec fn diag(&self) -> Seq<Dec> {
        self.diagonal@
    }

    pub closed spec fn lower(&self) -> Seq<Dec> {
        self.lower_diagonal@
    }

    /// Number of rows.
    pub closed spec fn size(&self) -> nat {
        self.size as nat
    }

    /// The shape holds, the size is the diagonal's length and every entry is well formed.
    pub open spec fn wf(&self) -> bool {
        &&& is_tridiagonal_shape(self.lower(), self.diag(), self.upper())
        &&& self.size() == self.diag().len()
        &&& all_wf(self.lower())
        &&& all_wf(self.diag())
        &&& all_wf(self.upper())
    }

    /// Builds the matrix, or fails with `MatrixShapeError` unless the two
    /// off-diagonals are one entry shorter than the diagonal.
    pub fn try_new(upper_diagonal: Vec<Dec>, diagonal: Vec<Dec>, lower_diagonal: Vec<Dec>) -> (r:
        Result<Self, MatrixValidationError>)
        requires
            all_wf(upper_diagonal@),
            all_wf(diagonal@),
            all_wf(lower_diagonal@),
        ensures
            r is Ok <==> is_tridiagonal_shape(lower_diagonal@, diagonal@, upper_diagonal@),
            r matches Err(e) ==> e == MatrixValidationError::MatrixShapeError,
            r matches Ok(m) ==> {
                &&& m.wf()
                &&& m.upper() == upper_diagonal@
                &&& m.diag() == diagonal@
                &&& m.lower() == lower_diagonal@
            },
    {
        if !(upper_diagonal.len() == lower_diagonal.len() && diagonal.len() >= 1
            && upper_diagonal.len() == diagonal.len() - 1) {
            return Err(MatrixValidationError::MatrixShapeError);
        }
        Ok(TridiagonalMatrix { size: diagonal.len(), upper_diagonal, diagonal, lower_diagonal })
    }

    /// Solves `A x = b`; fails with `MatrixShapeError` when `b` does not have
    /// one entry per row and with `ArithmeticError` when elimination divides
    /// by zero or overflows.
    pub fn solve(self, b: &[Dec]) -> (r: Result<Vec<Dec>, MatrixValidationError>)
        requires
            self.wf(),
            all_wf(b@),
        ensures
            b@.len() != self.size() ==> r == Err::<Vec<Dec>, _>(
                MatrixValidationError::MatrixShapeError,
            ),
            b@.len() == self.size() ==> match r {
                Ok(x) => thomas_solution(self.lower(), self.diag(), self.upper(), b@) == Some(x@),
                Err(e) => e == MatrixValidationError::ArithmeticError && thomas_solution(
                    self.lower(),
                    self.diag(),
                    self.upper(),
                    b@,
                ) is None,
            },
            r matches Ok(x) ==> all_wf(x@),
    {
        if b.len() != self.size {
            return Err(MatrixValidationError::MatrixShapeError);
        }
        match solve_with_thomas_algorithm_unchecked(
            self.size,
            self.lower_diagonal.as_slice(),
            self.diagonal.as_slice(),
            self.upper_diagonal.as_slice(),
            b,
        ) {
            Some(x) => Ok(x),
            None => Err(MatrixValidationError::ArithmeticError),
        }
    }

    /// Solves `A x = b`, failing with `MatrixShapeError` when `b` does not have
    /// one entry per row and with `ArithmeticError` when elimination fails.
    pub fn try_solve(self, b: &[Dec]) -> (r: Result<Vec<Dec>, MatrixValidationError>)
        requires
            self.wf(),
            all_wf(b@),
        ensures
            b@.len() != self.size() ==> r == Err::<Vec<Dec>, _>(
                MatrixValidationError::MatrixShapeError,
            ),
            b@.len() == self.size() ==> match r {
                Ok(x) => thomas_solution(self.lower(), self.diag(), self.upper(), b@) == Some(x@),
                Err(e) => e == MatrixValidationError::ArithmeticError && thomas_solution(
                    self.lower(),
                    self.diag(),
                    self.upper(),
                    b@,
                ) is None,
            },
            r matches Ok(x) ==> all_wf(x@),
    {
        thomas(
            self.size,
            self.lower_diagonal.as_slice(),
            self.diagonal.as_slice(),
            self.upper_diagonal.as_slice(),
            b,
        )
    }
}

} // verus!
