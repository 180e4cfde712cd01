use crate::value::{add_dec, add_opt, mul_dec, mul_opt, wf_opt, Dec};
use vstd::prelude::*;

verus! {

/// Every entry is absent or well formed.
pub open spec fn all_wf_opt(s: Seq<Option<Dec>>) -> bool {
    forall|i: int| 0 <= i < s.len() ==> wf_opt(#[trigger] s[i])
}

/// `a[0]*b[0] + a[1]*b[1] + a[2]*b[2] + a[3]*b[3]`, summed from the left.
#[verifier::opaque]
pub open spec fn dot4(a: Seq<Option<Dec>>, b: Seq<Option<Dec>>) -> Option<Dec> {
    add_opt(
        add_opt(add_opt(mul_opt(a[0], b[0]), mul_opt(a[1], b[1])), mul_opt(a[2], b[2])),
        mul_opt(a[3], b[3]),
    )
}

/// Row `i` of a row-major 4x4 matrix.
pub open spec fn row(m: Seq<Option<Dec>>, i: int) -> Seq<Option<Dec>> {
    seq![m[4 * i], m[4 * i + 1], m[4 * i + 2], m[4 * i + 3]]
}

/// Column `j` of a row-major 4x4 matrix.
pub open spec fn column(m: Seq<Option<Dec>>, j: int) -> Seq<Option<Dec>> {
    seq![m[j], m[4 + j], m[8 + j], m[12 + j]]
}

/// `M f`, each entry `sum_j f[j] * M[i][j]`.
#[verifier::opaque]
pub open spec fn matrix_vector(m: Seq<Option<Dec>>, f: Seq<Option<Dec>>) -> Seq<Option<Dec>> {
    seq![dot4(f, row(m, 0)), dot4(f, row(m, 1)), dot4(f, row(m, 2)), dot4(f, row(m, 3))]
}

/// `d^T M`, each entry `sum_k M[k][j] * d[k]`.
#[verifier::opaque]
pub open spec fn vector_matrix(d: Seq<Option<Dec>>, m: Seq<Option<Dec>>) -> Seq<Option<Dec>> {
    seq![dot4(column(m, 0), d), dot4(column(m, 1), d), dot4(column(m, 2), d), dot4(column(m, 3), d)]
}

pub fn dot(a: &Vec<Option<Dec>>, b: &Vec<Option<Dec>>) -> (r: Option<Dec>)
    requires
        a@.len() == 4,
        b@.len() == 4,
        all_wf_opt(a@),
        all_wf_opt(b@),
    ensures
        r == dot4(a@, b@),
        wf_opt(r),
{
    reveal(dot4);
    let p0 = mul_dec(a[0], b[0]);
    let p1 = mul_dec(a[1], b[1]);
    let p2 = mul_dec(a[2], b[2]);
    let p3 = mul_dec(a[3], b[3]);
    add_dec(add_dec(add_dec(p0, p1), p2), p3)
}

/// `d^T (M f)`: the form in which the Catmull-Rom segments are evaluated.
pub fn form_after_product(m: &Vec<Option<Dec>>, f: &Vec<Option<Dec>>, d: &Vec<Option<Dec>>) -> (r:
    Option<Dec>)
    requires
        m@.len() == 16,
        f@.len() == 4,
        d@.len() == 4,
        all_wf_opt(m@),
        all_wf_opt(f@),
        all_wf_opt(d@),
    ensures
        r == dot4(matrix_vector(m@, f@), d@),
        wf_opt(r),
{
    let r0 = vec![m[0], m[1], m[2], m[3]];
    let r1 = vec![m[4], m[5], m[6], m[7]];
    let r2 = vec![m[8], m[9], m[10], m[11]];
    let r3 = vec![m[12], m[13], m[14], m[15]];
    assert(r0@ =~= row(m@, 0));
    assert(r1@ =~= row(m@, 1));
    assert(r2@ =~= row(m@, 2));
    assert(r3@ =~= row(m@, 3));
    let v = vec![dot(f, &r0), dot(f, &r1), dot(f, &r2), dot(f, &r3)];
    assert(v@ =~= matrix_vector(m@, f@)) by {
        reveal(matrix_vector);
    }
    dot(&v, d)
}

/// `(d^T M) f`: the form in which the Hermite segments are evaluated.
pub fn form_before_product(d: &Vec<Option<Dec>>, m: &Vec<Option<Dec>>, f: &Vec<Option<Dec>>) -> (r:
    Option<Dec>)
    requires
        m@.len() == 16,
        f@.len() == 4,
        d@.len() == 4,
        all_wf_opt(m@),
        all_wf_opt(f@),
        all_wf_opt(d@),
    ensures
        r == dot4(f@, vector_matrix(d@, m@)),
        wf_opt(r),
{
    let c0 = vec![m[0], m[4], m[8], m[12]];
    let c1 = vec![m[1], m[5], m[9], m[13]];
    let c2 = vec![m[2], m[6], m[10], m[14]];
    let c3 = vec![m[3], m[7], m[11], m[15]];
    assert(c0@ =~= column(m@, 0));
    assert(c1@ =~= column(m@, 1));
    assert(c2@ =~= column(m@, 2));
    assert(c3@ =~= column(m@, 3));
    let w = vec![dot(&c0, d), dot(&c1, d), dot(&c2, d), dot(&c3, d)];
    assert(w@ =~= vector_matrix(d@, m@)) by {
        reveal(vector_matrix);
    }
    dot(f, &w)
}

} // verus!
