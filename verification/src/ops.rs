//! Sign, order and rounding of reduced fractions. None of these leaves the
//! fixed width except the negation of the least numerator.

use vstd::prelude::*;
use vstd::arithmetic::div_mod::{lemma_fundamental_div_mod, lemma_mod_bound};
use crate::rational::{Rational, combination};

verus! {

/// `a < b` as numbers, for positive denominators.
pub open spec fn less(a: Rational, b: Rational) -> bool {
    a.numer * b.denom < b.numer * a.denom
}

/// `k` is the greatest integer not above `n / d`.
pub open spec fn is_floor(k: int, n: int, d: int) -> bool {
    k * d <= n < (k + 1) * d
}

/// `k` is the least integer not below `n / d`.
pub open spec fn is_ceil(k: int, n: int, d: int) -> bool {
    (k - 1) * d < n <= k * d
}

/// `k` is the integer nearest to `n / d`; of two equally near, the one
/// farther from zero.
pub open spec fn is_round(k: int, n: int, d: int) -> bool {
    if n >= 0 {
        2 * n - d < 2 * (k * d) <= 2 * n + d
    } else {
        2 * n - d <= 2 * (k * d) < 2 * n + d
    }
}

/// Each rounding has one result: two integers that both are the floor, the
/// ceiling or the rounding of `n / d` are the same integer.
pub proof fn lemma_rounding_unique(j: int, k: int, n: int, d: int)
    requires
        d > 0,
        (is_floor(j, n, d) && is_floor(k, n, d)) || (is_ceil(j, n, d) && is_ceil(k, n, d)) || (
        is_round(j, n, d) && is_round(k, n, d)),
    ensures
        j == k,
{
    if j < k {
        assert(j * d + d <= k * d) by (nonlinear_arith)
            requires
                j + 1 <= k,
                d > 0,
        ;
        assert((j + 1) * d == j * d + d) by (nonlinear_arith);
        assert((k - 1) * d == k * d - d) by (nonlinear_arith);
    } else if k < j {
        assert(k * d + d <= j * d) by (nonlinear_arith)
            requires
                k + 1 <= j,
                d > 0,
        ;
        assert((k + 1) * d == k * d + d) by (nonlinear_arith);
        assert((j - 1) * d == j * d - d) by (nonlinear_arith);
    }
}

/// The absolute value of `n`, which always fits the unsigned width.
fn magnitude(n: i64) -> (m: u64)
    ensures
        m == if n >= 0 { n as int } else { -(n as int) },
{
    if n >= 0 {
        n as u64
    } else {
        ((-(n + 1)) as u64) + 1
    }
}

/// Quotient and remainder of `m` by `d`.
fn div_rem(m: u64, d: u64) -> (qr: (u64, u64))
    requires
        d > 0,
    ensures
        m == qr.0 * d + qr.1,
        qr.1 < d,
        qr.0 <= m,
        d >= 2 ==> 2 * qr.0 <= m,
{
    let q: u64 = m / d;
    let r: u64 = m % d;
    proof {
        lemma_fundamental_div_mod(m as int, d as int);
        lemma_mod_bound(m as int, d as int);
        assert(d * q == q * d) by (nonlinear_arith);
        assert(q <= q * d) by (nonlinear_arith)
            requires
                d >= 1,
                q >= 0,
        ;
        if d >= 2 {
            assert(2 * q <= q * d) by (nonlinear_arith)
                requires
                    d >= 2,
                    q >= 0,
            ;
        }
    }
    (q, r)
}

/// `a < b`: success with nothing to carry when the relation holds, nothing
/// otherwise.
pub fn less_than(a: Rational, b: Rational) -> (r: Option<()>)
    requires
        a.wf(),
        b.wf(),
    ensures
        r.is_some() <==> less(a, b),
{
    if is_less(a, b) {
        Some(())
    } else {
        None
    }
}

/// `a > b`, encoded as `less_than` is.
pub fn greater_than(a: Rational, b: Rational) -> (r: Option<()>)
    requires
        a.wf(),
        b.wf(),
    ensures
        r.is_some() <==> less(b, a),
{
    if is_less(b, a) {
        Some(())
    } else {
        None
    }
}

/// `a <= b`, encoded as `less_than` is.
pub fn less_or_equal(a: Rational, b: Rational) -> (r: Option<()>)
    requires
        a.wf(),
        b.wf(),
    ensures
        r.is_some() <==> !less(b, a),
{
    if is_less(b, a) {
        None
    } else {
        Some(())
    }
}

/// `a >= b`, encoded as `less_than` is.
pub fn greater_or_equal(a: Rational, b: Rational) -> (r: Option<()>)
    requires
        a.wf(),
        b.wf(),
    ensures
        r.is_some() <==> !less(a, b),
{
    if is_less(a, b) {
        None
    } else {
        Some(())
    }
}

/// Decides `a < b` by cross-multiplying in twice the width.
pub fn is_less(a: Rational, b: Rational) -> (r: bool)
    requires
        a.wf(),
        b.wf(),
    ensures
        r == less(a, b),
{
    let an: i128 = a.numer as i128;
    let ad: i128 = a.denom as i128;
    let bn: i128 = b.numer as i128;
    let bd: i128 = b.denom as i128;
    assert(-0x4000_0000_0000_0000_0000_0000_0000_0000 <= an * bd <= 0x4000_0000_0000_0000_0000_0000_0000_0000)
        by (nonlinear_arith)
        requires
            -0x8000_0000_0000_0000 <= an <= 0x8000_0000_0000_0000,
            0 < bd <= 0x8000_0000_0000_0000,
    ;
    assert(-0x4000_0000_0000_0000_0000_0000_0000_0000 <= bn * ad <= 0x4000_0000_0000_0000_0000_0000_0000_0000)
        by (nonlinear_arith)
        requires
            -0x8000_0000_0000_0000 <= bn <= 0x8000_0000_0000_0000,
            0 < ad <= 0x8000_0000_0000_0000,
    ;
    an * bd < bn * ad
}

/// The smaller of two fractions.
pub fn min(a: Rational, b: Rational) -> (r: Rational)
    requires
        a.wf(),
        b.wf(),
    ensures
        r == if less(b, a) { b } else { a },
{
    if is_less(b, a) {
        b
    } else {
        a
    }
}

/// The larger of two fractions.
pub fn max(a: Rational, b: Rational) -> (r: Rational)
    requires
        a.wf(),
        b.wf(),
    ensures
        r == if less(a, b) { b } else { a },
{
    if is_less(a, b) {
        b
    } else {
        a
    }
}

/// The negation; nothing when the numerator is the least integer, whose
/// negation does not fit.
pub fn neg(a: Rational) -> (r: Option<Rational>)
    requires
        a.wf(),
    ensures
        r.is_some() <==> a.numer > i64::MIN,
        r matches Some(c) ==> c.wf() && c.numer == -a.numer && c.denom == a.denom,
{
    if a.numer == i64::MIN {
        None
    } else {
        proof {
            let (x, y) = choose|x: int, y: int| #[trigger]
                combination(x, a.numer as int, y, a.denom as int) == 1;
            assert(combination(-x, -(a.numer as int), y, a.denom as int) == 1) by (nonlinear_arith)
                requires
                    x * (a.numer as int) + y * (a.denom as int) == 1,
            ;
        }
        Some(Rational { numer: -a.numer, denom: a.denom })
    }
}

/// The absolute value; nothing when the numerator is the least integer.
pub fn abs(a: Rational) -> (r: Option<Rational>)
    requires
        a.wf(),
    ensures
        r.is_some() <==> a.numer > i64::MIN,
        r matches Some(c) ==> c.wf() && c.denom == a.denom && c.numer == (if a.numer < 0 {
            -a.numer
        } else {
            a.numer as int
        }),
{
    if a.numer < 0 {
        neg(a)
    } else {
        Some(a)
    }
}

/// The greatest integer not above `a`; it always fits.
pub fn floor(a: Rational) -> (r: Rational)
    requires
        a.wf(),
    ensures
        r.wf(),
        r.denom == 1,
        is_floor(r.numer as int, a.numer as int, a.denom as int),
{
    if a.denom == 1 {
        return a;
    }
    let d: u64 = a.denom as u64;
    if a.numer >= 0 {
        let (q, _r) = div_rem(a.numer as u64, d);
        assert((q + 1) * d == q * d + d) by (nonlinear_arith);
        Rational::from_integer(q as i64)
    } else {
        let (q, _r) = div_rem(magnitude(a.numer) - 1, d);
        let k: i64 = -(q as i64) - 1;
        assert((k + 1) * d == -(q * d)) by (nonlinear_arith)
            requires
                k == -q - 1,
        ;
        assert(k * d == -(q * d) - d) by (nonlinear_arith)
            requires
                k == -q - 1,
        ;
        Rational::from_integer(k)
    }
}

/// The least integer not below `a`; it always fits.
pub fn ceil(a: Rational) -> (r: Rational)
    requires
        a.wf(),
    ensures
        r.wf(),
        r.denom == 1,
        is_ceil(r.numer as int, a.numer as int, a.denom as int),
{
    if a.denom == 1 {
        return a;
    }
    let d: u64 = a.denom as u64;
    if a.numer > 0 {
        let (q, _r) = div_rem((a.numer - 1) as u64, d);
        let k: i64 = q as i64 + 1;
        assert(k * d == q * d + d) by (nonlinear_arith)
            requires
                k == q + 1,
        ;
        assert((k - 1) * d == q * d) by (nonlinear_arith)
            requires
                k == q + 1,
        ;
        Rational::from_integer(k)
    } else {
        let (q, _r) = div_rem(magnitude(a.numer), d);
        let k: i64 = -(q as i64);
        assert(k * d == -(q * d)) by (nonlinear_arith)
            requires
                k == -q,
        ;
        assert((k - 1) * d == -(q * d) - d) by (nonlinear_arith)
            requires
                k == -q,
        ;
        Rational::from_integer(k)
    }
}

/// The nearest integer, a tie going away from zero; it always fits.
pub fn round(a: Rational) -> (r: Rational)
    requires
        a.wf(),
    ensures
        r.wf(),
        r.denom == 1,
        is_round(r.numer as int, a.numer as int, a.denom as int),
{
    if a.denom == 1 {
        assert(a.numer * a.denom == a.numer) by (nonlinear_arith)
            requires
                a.denom == 1,
        ;
        return a;
    }
    let d: u64 = a.denom as u64;
    let (q, rem) = div_rem(magnitude(a.numer), d);
    let up: u64 = if rem >= d - rem {
        q + 1
    } else {
        q
    };
    assert(up * d == q * d + (up - q) * d) by (nonlinear_arith);
    assert((up - q) * d == if up == q { 0 } else { d as int }) by (nonlinear_arith)
        requires
            up == q || up == q + 1,
    ;
    if a.numer >= 0 {
        Rational::from_integer(up as i64)
    } else {
        let k: i64 = -(up as i64);
        assert(k * d == -(up * d)) by (nonlinear_arith)
            requires
                k == -up,
        ;
        Rational::from_integer(k)
    }
}

} // verus!
