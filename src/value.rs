use core::cmp::Ordering;
use vstd::prelude::*;

verus! {

/// Largest number of digits after the decimal point.
pub const MAX_SCALE: u32 = 28;

/// Largest magnitude of a mantissa: a 96-bit unsigned integer.
pub const MAX_MANTISSA: i128 = 0xFFFF_FFFF_FFFF_FFFF_FFFF_FFFF;

/// `10^n`.
pub open spec fn pow10(n: nat) -> int
    decreases n,
{
    if n == 0 {
        1
    } else {
        10 * pow10((n - 1) as nat)
    }
}

/// A decimal number `mantissa * 10^-scale`, the scalar type of the splines.
///
/// Arithmetic and comparison are carried out by `rust_decimal`; values are
/// handed to it and read back as a mantissa and a scale.  Equality (`==`)
/// compares the representation, so `0.5` and `0.50` differ under `==` though
/// they are the same number (their `units` agree).
#[derive(Clone, Copy, Debug, PartialEq, Eq, Structural)]
pub struct Dec {
    pub mantissa: i128,
    pub scale: u32,
}

impl Dec {
    pub open spec fn mantissa_spec(&self) -> int {
        self.mantissa as int
    }

    pub open spec fn scale_spec(&self) -> nat {
        self.scale as nat
    }

    /// The mantissa fits in 96 bits and the scale is at most 28.
    pub open spec fn wf(&self) -> bool {
        &&& self.scale <= MAX_SCALE
        &&& -MAX_MANTISSA <= self.mantissa <= MAX_MANTISSA
    }

    /// The number in units of `10^-28`: exact, since the scale is at most 28.
    pub open spec fn units(&self) -> int {
        self.mantissa * pow10((MAX_SCALE - self.scale) as nat)
    }

    /// `num * 10^-scale`.
    pub fn new(num: i64, scale: u32) -> (r: Dec)
        requires
            scale <= MAX_SCALE,
        ensures
            r.wf(),
            r.mantissa_spec() == num,
            r.scale_spec() == scale,
    {
        Dec { mantissa: num as i128, scale }
    }

    /// The integer `n`, with scale 0.
    pub open spec fn of_int(n: int) -> Dec {
        Dec { mantissa: n as i128, scale: 0 }
    }

    /// `-self`, as a value.
    pub open spec fn negated(&self) -> Dec {
        Dec { mantissa: (-self.mantissa) as i128, scale: self.scale }
    }

    /// The small integer `n`, with scale 0.
    pub fn from_int(n: i8) -> (r: Dec)
        ensures
            r.wf(),
            r == Dec::of_int(n as int),
            r.mantissa_spec() == n,
            r.scale_spec() == 0,
    {
        Dec { mantissa: n as i128, scale: 0 }
    }

    pub fn mantissa(&self) -> (r: i128)
        ensures
            r == self.mantissa_spec(),
    {
        self.mantissa
    }

    pub fn scale(&self) -> (r: u32)
        ensures
            r == self.scale_spec(),
    {
        self.scale
    }

    /// `-self`: the mantissa negated, the scale kept.
    pub fn neg(&self) -> (r: Dec)
        requires
            self.wf(),
        ensures
            r.wf(),
            r.mantissa_spec() == -self.mantissa_spec(),
            r.scale_spec() == self.scale_spec(),
            r.units() == -self.units(),
            r == self.negated(),
    {
        proof {
            vstd::arithmetic::mul::lemma_mul_unary_negation(
                self.mantissa as int,
                pow10((MAX_SCALE - self.scale) as nat),
            );
        }
        Dec { mantissa: -self.mantissa, scale: self.scale }
    }
}

/// What `rust_decimal` returns for `a + b`, `None` on overflow.
pub uninterp spec fn decimal_sum(a: Dec, b: Dec) -> Option<Dec>;

/// What `rust_decimal` returns for `a - b`, `None` on overflow.
pub uninterp spec fn decimal_difference(a: Dec, b: Dec) -> Option<Dec>;

/// What `rust_decimal` returns for `a * b`, `None` on overflow.
pub uninterp spec fn decimal_product(a: Dec, b: Dec) -> Option<Dec>;

/// What `rust_decimal` returns for `a / b`, `None` on overflow or a zero divisor.
pub uninterp spec fn decimal_quotient(a: Dec, b: Dec) -> Option<Dec>;

/// Relies on `rust_decimal::Decimal::checked_add`, `from_i128_with_scale`
/// (which accepts every well-formed value), `mantissa` and `scale`.
#[verifier::external_body]
pub(crate) fn checked_add(a: Dec, b: Dec) -> (r: Option<Dec>)
    requires
        a.wf(),
        b.wf(),
    ensures
        r == decimal_sum(a, b),
        r matches Some(v) ==> v.wf(),
{
    let a = rust_decimal::Decimal::from_i128_with_scale(a.mantissa, a.scale);
    let b = rust_decimal::Decimal::from_i128_with_scale(b.mantissa, b.scale);
    match a.checked_add(b) {
        Some(d) => Some(Dec { mantissa: d.mantissa(), scale: d.scale() }),
        None => None,
    }
}

/// Relies on `rust_decimal::Decimal::checked_sub`, `from_i128_with_scale`
/// (which accepts every well-formed value), `mantissa` and `scale`.
#[verifier::external_body]
pub(crate) fn checked_sub(a: Dec, b: Dec) -> (r: Option<Dec>)
    requires
        a.wf(),
        b.wf(),
    ensures
        r == decimal_difference(a, b),
        r matches Some(v) ==> v.wf(),
{
    let a = rust_decimal::Decimal::from_i128_with_scale(a.mantissa, a.scale);
    let b = rust_decimal::Decimal::from_i128_with_scale(b.mantissa, b.scale);
    match a.checked_sub(b) {
        Some(d) => Some(Dec { mantissa: d.mantissa(), scale: d.scale() }),
        None => None,
    }
}

/// Relies on `rust_decimal::Decimal::checked_mul`, `from_i128_with_scale`
/// (which accepts every well-formed value), `mantissa` and `scale`.
#[verifier::external_body]
pub(crate) fn checked_mul(a: Dec, b: Dec) -> (r: Option<Dec>)
    requires
        a.wf(),
        b.wf(),
    ensures
        r == decimal_product(a, b),
        r matches Some(v) ==> v.wf(),
{
    let a = rust_decimal::Decimal::from_i128_with_scale(a.mantissa, a.scale);
    let b = rust_decimal::Decimal::from_i128_with_scale(b.mantissa, b.scale);
    match a.checked_mul(b) {
        Some(d) => Some(Dec { mantissa: d.mantissa(), scale: d.scale() }),
        None => None,
    }
}

/// Relies on `rust_decimal::Decimal::checked_div` (which returns `None` for a
/// zero divisor), `from_i128_with_scale` (which accepts every well-formed
/// value), `mantissa` and `scale`.
#[verifier::external_body]
pub(crate) fn checked_div(a: Dec, b: Dec) -> (r: Option<Dec>)
    requires
        a.wf(),
        b.wf(),
    ensures
        r == decimal_quotient(a, b),
        r matches Some(v) ==> v.wf(),
        b.mantissa_spec() == 0 ==> r is None,
{
    let a = rust_decimal::Decimal::from_i128_with_scale(a.mantissa, a.scale);
    let b = rust_decimal::Decimal::from_i128_with_scale(b.mantissa, b.scale);
    match a.checked_div(b) {
        Some(d) => Some(Dec { mantissa: d.mantissa(), scale: d.scale() }),
        None => None,
    }
}

/// Relies on `Ord for rust_decimal::Decimal`, which orders by numeric value,
/// and on `from_i128_with_scale`, which accepts every well-formed value.
#[verifier::external_body]
pub(crate) fn compare(a: Dec, b: Dec) -> (r: Ordering)
    requires
        a.wf(),
        b.wf(),
    ensures
        (r == Ordering::Less) == (a.units() < b.units()),
        (r == Ordering::Equal) == (a.units() == b.units()),
        (r == Ordering::Greater) == (a.units() > b.units()),
{
    let a = rust_decimal::Decimal::from_i128_with_scale(a.mantissa, a.scale);
    let b = rust_decimal::Decimal::from_i128_with_scale(b.mantissa, b.scale);
    a.cmp(&b)
}

/// A value that is either absent or well formed.
pub open spec fn wf_opt(a: Option<Dec>) -> bool {
    a matches Some(v) ==> v.wf()
}

/// `a + b`, absent when either operand is absent or the sum overflows.
pub open spec fn add_opt(a: Option<Dec>, b: Option<Dec>) -> Option<Dec> {
    match (a, b) {
        (Some(x), Some(y)) => decimal_sum(x, y),
        _ => None,
    }
}

/// `a - b`, absent when either operand is absent or the difference overflows.
pub open spec fn sub_opt(a: Option<Dec>, b: Option<Dec>) -> Option<Dec> {
    match (a, b) {
        (Some(x), Some(y)) => decimal_difference(x, y),
        _ => None,
    }
}

/// `a * b`, absent when either operand is absent or the product overflows.
pub open spec fn mul_opt(a: Option<Dec>, b: Option<Dec>) -> Option<Dec> {
    match (a, b) {
        (Some(x), Some(y)) => decimal_product(x, y),
        _ => None,
    }
}

/// `a / b`, absent when either operand is absent or the division fails.
pub open spec fn div_opt(a: Option<Dec>, b: Option<Dec>) -> Option<Dec> {
    match (a, b) {
        (Some(x), Some(y)) => decimal_quotient(x, y),
        _ => None,
    }
}

pub fn add_dec(a: Option<Dec>, b: Option<Dec>) -> (r: Option<Dec>)
    requires
        wf_opt(a),
        wf_opt(b),
    ensures
        r == add_opt(a, b),
        wf_opt(r),
{
    match (a, b) {
        (Some(x), Some(y)) => checked_add(x, y),
        _ => None,
    }
}

pub fn sub_dec(a: Option<Dec>, b: Option<Dec>) -> (r: Option<Dec>)
    requires
        wf_opt(a),
        wf_opt(b),
    ensures
        r == sub_opt(a, b),
        wf_opt(r),
{
    match (a, b) {
        (Some(x), Some(y)) => checked_sub(x, y),
        _ => None,
    }
}

pub fn mul_dec(a: Option<Dec>, b: Option<Dec>) -> (r: Option<Dec>)
    requires
        wf_opt(a),
        wf_opt(b),
    ensures
        r == mul_opt(a, b),
        wf_opt(r),
{
    match (a, b) {
        (Some(x), Some(y)) => checked_mul(x, y),
        _ => None,
    }
}

pub fn div_dec(a: Option<Dec>, b: Option<Dec>) -> (r: Option<Dec>)
    requires
        wf_opt(a),
        wf_opt(b),
    ensures
        r == div_opt(a, b),
        wf_opt(r),
{
    match (a, b) {
        (Some(x), Some(y)) => checked_div(x, y),
        _ => None,
    }
}

/// `-a`, absent when `a` is.
pub open spec fn neg_opt(a: Option<Dec>) -> Option<Dec> {
    match a {
        Some(x) => Some(x.negated()),
        None => None,
    }
}

pub fn neg_dec(a: Option<Dec>) -> (r: Option<Dec>)
    requires
        wf_opt(a),
    ensures
        r == neg_opt(a),
        wf_opt(r),
{
    match a {
        Some(x) => Some(x.neg()),
        None => None,
    }
}

/// The small integer `n` as a present value.
pub open spec fn int_opt(n: int) -> Option<Dec> {
    Some(Dec::of_int(n))
}

} // verus!
