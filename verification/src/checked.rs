//! Checked arithmetic: every operation either yields the exact reduced
//! result or yields nothing. Nothing stands for an undefined result and for
//! an overflow of the fixed width alike; the two are not told apart. The
//! fixed-width work is done by the `num` crate; what is believed of it is
//! stated on the private functions below.

use vstd::prelude::*;
use vstd::arithmetic::power::pow;
use crate::rational::Rational;

verus! {

/// What `CheckedAdd::checked_add` of `num` returns on `an/ad` and `bn/bd`.
pub uninterp spec fn ratio_checked_add(an: int, ad: int, bn: int, bd: int) -> Option<(int, int)>;

/// What `CheckedSub::checked_sub` of `num` returns on `an/ad` and `bn/bd`.
pub uninterp spec fn ratio_checked_sub(an: int, ad: int, bn: int, bd: int) -> Option<(int, int)>;

/// What `CheckedMul::checked_mul` of `num` returns on `an/ad` and `bn/bd`.
pub uninterp spec fn ratio_checked_mul(an: int, ad: int, bn: int, bd: int) -> Option<(int, int)>;

/// What `CheckedDiv::checked_div` of `num` returns on `an/ad` and `bn/bd`.
pub uninterp spec fn ratio_checked_div(an: int, ad: int, bn: int, bd: int) -> Option<(int, int)>;

/// What `num::traits::checked_pow` returns on the base `n/d` and exponent `e`.
pub uninterp spec fn ratio_checked_pow(n: int, d: int, e: int) -> Option<(int, int)>;

/// Numerator and denominator of an optional fraction, as a pair.
pub open spec fn parts(r: Option<Rational>) -> Option<(int, int)> {
    match r {
        Some(c) => Some((c.numer as int, c.denom as int)),
        None => None,
    }
}

/// `c` is the reduced form of `n / d`.
pub open spec fn reduces(c: Rational, n: int, d: int) -> bool {
    c.wf() && c.numer * d == n * c.denom
}

/// Calls `Ratio::<i64>::new` of `num`, which divides both parts by their
/// greatest common divisor and makes the denominator positive: the result is
/// in lowest terms and denotes `n / d`. It panics on a zero denominator, and
/// with a negative one it negates both parts, so neither may be the least
/// integer.
#[verifier::external_body]
pub(crate) fn ratio_new(n: i64, d: i64) -> (r: Rational)
    requires
        d > 0 || (d < 0 && n > i64::MIN && d > i64::MIN),
    ensures
        reduces(r, n as int, d as int),
{
    let z = num::rational::Ratio::new(n, d);
    Rational { numer: *z.numer(), denom: *z.denom() }
}

/// Calls `checked_add` of `num` on two reduced fractions. A result, when
/// there is one, is the sum in lowest terms; when there is none is left to
/// the outside crate.
#[verifier::external_body]
fn ratio_add(a: &Rational, b: &Rational) -> (r: Option<Rational>)
    requires
        a.wf(),
        b.wf(),
    ensures
        parts(r) == ratio_checked_add(a.numer as int, a.denom as int, b.numer as int, b.denom as int),
        r matches Some(c) ==> reduces(c, a.numer * b.denom + b.numer * a.denom, a.denom * b.denom),
{
    let x = num::rational::Ratio::new_raw(a.numer, a.denom);
    let y = num::rational::Ratio::new_raw(b.numer, b.denom);
    match num::traits::CheckedAdd::checked_add(&x, &y) {
        Some(z) => Some(Rational { numer: *z.numer(), denom: *z.denom() }),
        None => None,
    }
}

/// Calls `checked_sub` of `num` on two reduced fractions. A result, when
/// there is one, is the difference in lowest terms.
#[verifier::external_body]
fn ratio_sub(a: &Rational, b: &Rational) -> (r: Option<Rational>)
    requires
        a.wf(),
        b.wf(),
    ensures
        parts(r) == ratio_checked_sub(a.numer as int, a.denom as int, b.numer as int, b.denom as int),
        r matches Some(c) ==> reduces(c, a.numer * b.denom - b.numer * a.denom, a.denom * b.denom),
{
    let x = num::rational::Ratio::new_raw(a.numer, a.denom);
    let y = num::rational::Ratio::new_raw(b.numer, b.denom);
    match num::traits::CheckedSub::checked_sub(&x, &y) {
        Some(z) => Some(Rational { numer: *z.numer(), denom: *z.denom() }),
        None => None,
    }
}

/// Calls `checked_mul` of `num` on two reduced fractions. A result, when
/// there is one, is the product in lowest terms.
#[verifier::external_body]
fn ratio_mul(a: &Rational, b: &Rational) -> (r: Option<Rational>)
    requires
        a.wf(),
        b.wf(),
    ensures
        parts(r) == ratio_checked_mul(a.numer as int, a.denom as int, b.numer as int, b.denom as int),
        r matches Some(c) ==> reduces(c, a.numer * b.numer, a.denom * b.denom),
{
    let x = num::rational::Ratio::new_raw(a.numer, a.denom);
    let y = num::rational::Ratio::new_raw(b.numer, b.denom);
    match num::traits::CheckedMul::checked_mul(&x, &y) {
        Some(z) => Some(Rational { numer: *z.numer(), denom: *z.denom() }),
        None => None,
    }
}

/// Calls `checked_div` of `num` on two reduced fractions with nonzero
/// numerators (with a zero dividend the outside code may take the absolute
/// value of the least integer). A result, when there is one, is the quotient
/// in lowest terms.
#[verifier::external_body]
fn ratio_div(a: &Rational, b: &Rational) -> (r: Option<Rational>)
    requires
        a.wf(),
        b.wf(),
        a.numer != 0,
        b.numer != 0,
    ensures
        parts(r) == ratio_checked_div(a.numer as int, a.denom as int, b.numer as int, b.denom as int),
        r matches Some(c) ==> reduces(c, a.numer * b.denom, a.denom * b.numer),
{
    let x = num::rational::Ratio::new_raw(a.numer, a.denom);
    let y = num::rational::Ratio::new_raw(b.numer, b.denom);
    match num::traits::CheckedDiv::checked_div(&x, &y) {
        Some(z) => Some(Rational { numer: *z.numer(), denom: *z.denom() }),
        None => None,
    }
}

/// Calls `num::traits::checked_pow`, which multiplies by repeated squaring
/// with `checked_mul`. A result, when there is one, is the power in lowest
/// terms.
#[verifier::external_body]
pub(crate) fn ratio_pow(a: &Rational, e: usize) -> (r: Option<Rational>)
    requires
        a.wf(),
    ensures
        parts(r) == ratio_checked_pow(a.numer as int, a.denom as int, e as int),
        r matches Some(c) ==> reduces(c, pow(a.numer as int, e as nat), pow(a.denom as int, e as nat)),
{
    let x = num::rational::Ratio::new_raw(a.numer, a.denom);
    match num::traits::checked_pow(x, e) {
        Some(z) => Some(Rational { numer: *z.numer(), denom: *z.denom() }),
        None => None,
    }
}

/// Calls `Roots::sqrt` of `num` on a non-negative integer (it panics on a
/// negative one): the truncated square root.
#[verifier::external_body]
pub(crate) fn integer_sqrt(x: i64) -> (s: i64)
    requires
        x >= 0,
    ensures
        s >= 0,
        s * s <= x,
        x < (s + 1) * (s + 1),
{
    num::integer::Roots::sqrt(&x)
}

/// When `Rational::new` yields a fraction: the denominator is not zero, and
/// the fraction in lowest terms does not hold 2^63, which would not fit. It
/// would for the least integer over an odd negative denominator, and for an
/// odd numerator over the least integer.
pub open spec fn new_defined(n: i64, d: i64) -> bool {
    &&& d != 0
    &&& !(d < 0 && n == i64::MIN && d % 2 != 0)
    &&& !(d == i64::MIN && n % 2 != 0)
}

/// Sum of two reduced fractions.
pub fn add(a: Rational, b: Rational) -> (r: Option<Rational>)
    requires
        a.wf(),
        b.wf(),
    ensures
        parts(r) == ratio_checked_add(a.numer as int, a.denom as int, b.numer as int, b.denom as int),
        r matches Some(c) ==> reduces(c, a.numer * b.denom + b.numer * a.denom, a.denom * b.denom),
{
    ratio_add(&a, &b)
}

/// Difference of two reduced fractions.
pub fn sub(a: Rational, b: Rational) -> (r: Option<Rational>)
    requires
        a.wf(),
        b.wf(),
    ensures
        parts(r) == ratio_checked_sub(a.numer as int, a.denom as int, b.numer as int, b.denom as int),
        r matches Some(c) ==> reduces(c, a.numer * b.denom - b.numer * a.denom, a.denom * b.denom),
{
    ratio_sub(&a, &b)
}

/// What `mul` returns: zero as soon as one factor is zero, else whatever the
/// checked product `outcome` of the two nonzero factors was.
pub open spec fn mul_result(a: Rational, b: Rational, outcome: Option<(int, int)>) -> Option<(int, int)> {
    if a.numer == 0 || b.numer == 0 {
        Some((0int, 1int))
    } else {
        outcome
    }
}

/// Product of two reduced fractions. A zero factor gives zero without any
/// fixed-width multiplication, so that case never fails.
pub fn mul(a: Rational, b: Rational) -> (r: Option<Rational>)
    requires
        a.wf(),
        b.wf(),
    ensures
        parts(r) == mul_result(a, b, ratio_checked_mul(a.numer as int, a.denom as int, b.numer as int, b.denom as int)),
        r matches Some(c) ==> reduces(c, a.numer * b.numer, a.denom * b.denom),
{
    if a.numer == 0 || b.numer == 0 {
        let z = Rational::zero();
        assert(z.numer * (a.denom * b.denom) == (a.numer * b.numer) * z.denom) by (nonlinear_arith)
            requires
                z.numer == 0,
                a.numer == 0 || b.numer == 0,
        ;
        Some(z)
    } else {
        ratio_mul(&a, &b)
    }
}

/// What `div` returns: nothing for a zero divisor, zero for a zero dividend,
/// one for equal operands, else whatever the checked quotient `outcome` was.
pub open spec fn div_result(a: Rational, b: Rational, outcome: Option<(int, int)>) -> Option<(int, int)> {
    if b.numer == 0 {
        None
    } else if a.numer == 0 {
        Some((0int, 1int))
    } else if a == b {
        Some((1int, 1int))
    } else {
        outcome
    }
}

/// Quotient of two reduced fractions; nothing when the divisor is zero.
pub fn div(a: Rational, b: Rational) -> (r: Option<Rational>)
    requires
        a.wf(),
        b.wf(),
    ensures
        parts(r) == div_result(a, b, ratio_checked_div(a.numer as int, a.denom as int, b.numer as int, b.denom as int)),
        r matches Some(c) ==> reduces(c, a.numer * b.denom, a.denom * b.numer),
{
    if b.numer == 0 {
        None
    } else if a.numer == 0 {
        let z = Rational::zero();
        assert(z.numer * (a.denom * b.numer) == (a.numer * b.denom) * z.denom) by (nonlinear_arith)
            requires
                z.numer == 0,
                a.numer == 0,
        ;
        Some(z)
    } else if a == b {
        let u = Rational::one();
        assert(u.numer * (a.denom * b.numer) == (a.numer * b.denom) * u.denom) by (nonlinear_arith)
            requires
                u.numer == 1,
                u.denom == 1,
                a.numer == b.numer,
                a.denom == b.denom,
        ;
        Some(u)
    } else {
        ratio_div(&a, &b)
    }
}

impl Rational {
    /// Builds the reduced fraction `n / d`. There is none for a zero
    /// denominator, nor where a part of the reduced fraction would not fit.
    pub fn new(n: i64, d: i64) -> (r: Option<Rational>)
        ensures
            r.is_some() <==> new_defined(n, d),
            r matches Some(c) ==> reduces(c, n as int, d as int),
    {
        if d == 0 {
            None
        } else if d > 0 || (n > i64::MIN && d > i64::MIN) {
            Some(ratio_new(n, d))
        } else if n % 2 == 0 && d % 2 == 0 {
            let hn: i64 = n / 2;
            let hd: i64 = d / 2;
            let c = ratio_new(hn, hd);
            assert(c.numer * d == n * c.denom) by (nonlinear_arith)
                requires
                    c.numer * hd == hn * c.denom,
                    d == 2 * hd,
                    n == 2 * hn,
            ;
            Some(c)
        } else {
            None
        }
    }
}

} // verus!
