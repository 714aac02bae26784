//! Power, logarithm and roots: defined on the few inputs whose result is
//! again an exact fraction.

use vstd::prelude::*;
use vstd::arithmetic::power::pow as int_pow;
use crate::rational::{Rational, combination, coprime, lemma_reduced_unique};
use crate::checked::{parts, reduces, ratio_checked_pow, ratio_pow, ratio_new, integer_sqrt};

verus! {

/// The answer for an input on which an operation is defined in mathematics
/// but not supported here. It is distinct from "no result".
#[derive(Clone, Copy, Debug, PartialEq, Eq, Structural)]
pub struct NotYetImplemented;

/// The square of `s`.
pub open spec fn square(s: int) -> int {
    s * s
}

/// `x` is the square of a non-negative integer.
pub open spec fn is_square(x: int) -> bool {
    exists|s: int| s >= 0 && #[trigger] square(s) == x
}

/// The exponent is a positive integer that the machine can count to.
pub open spec fn countable_exponent(b: Rational) -> bool {
    b.denom == 1 && 0 < b.numer <= usize::MAX
}

/// What `pow` returns, the rules taken in this order: zero to a positive
/// power is zero; zero to any other power is nothing; a nonzero base to the
/// power zero is one; a positive integer exponent gives the checked power
/// `outcome`; every other exponent gives nothing.
pub open spec fn pow_result(a: Rational, b: Rational, outcome: Option<(int, int)>) -> Option<(int, int)> {
    if a.numer == 0 {
        if b.numer > 0 {
            Some((0int, 1int))
        } else {
            None
        }
    } else if b.numer == 0 {
        Some((1int, 1int))
    } else if countable_exponent(b) {
        outcome
    } else {
        None
    }
}

/// `a` to the power `b`.
pub fn pow(a: Rational, b: Rational) -> (r: Option<Rational>)
    requires
        a.wf(),
        b.wf(),
    ensures
        parts(r) == pow_result(a, b, ratio_checked_pow(a.numer as int, a.denom as int, b.numer as int)),
        r matches Some(c) ==> c.wf(),
        r matches Some(c) ==> a.numer != 0 && b.numer != 0 ==> reduces(
            c,
            int_pow(a.numer as int, b.numer as nat),
            int_pow(a.denom as int, b.numer as nat),
        ),
{
    if a.numer == 0 {
        if b.numer > 0 {
            Some(Rational::zero())
        } else {
            None
        }
    } else if b.numer == 0 {
        Some(Rational::one())
    } else if b.denom == 1 && b.numer > 0 && b.numer as u64 <= usize::MAX as u64 {
        ratio_pow(&a, b.numer as usize)
    } else {
        None
    }
}

/// The logarithm, supported for 1 only.
pub fn log(a: Rational) -> (r: Result<Rational, NotYetImplemented>)
    ensures
        a.numer == 1 && a.denom == 1 ==> r == Ok::<Rational, NotYetImplemented>(Rational { numer: 0, denom: 1 }),
        !(a.numer == 1 && a.denom == 1) ==> r == Err::<Rational, NotYetImplemented>(NotYetImplemented),
{
    if a.numer == 1 && a.denom == 1 {
        Ok(Rational::zero())
    } else {
        Err(NotYetImplemented)
    }
}

/// The cube root, supported for 1 only.
pub fn cbrt(a: Rational) -> (r: Result<Rational, NotYetImplemented>)
    ensures
        a.numer == 1 && a.denom == 1 ==> r == Ok::<Rational, NotYetImplemented>(Rational { numer: 1, denom: 1 }),
        !(a.numer == 1 && a.denom == 1) ==> r == Err::<Rational, NotYetImplemented>(NotYetImplemented),
{
    if a.numer == 1 && a.denom == 1 {
        Ok(Rational::one())
    } else {
        Err(NotYetImplemented)
    }
}

/// An integer strictly between two consecutive squares is no square.
proof fn lemma_between_squares(x: int, s: int)
    requires
        s >= 0,
        s * s < x,
        x < (s + 1) * (s + 1),
    ensures
        !is_square(x),
{
    assert forall|t: int| t >= 0 implies #[trigger] square(t) != x by {
        if t <= s {
            assert(t * t <= s * s) by (nonlinear_arith)
                requires
                    0 <= t <= s,
            ;
        } else {
            assert(t * t >= (s + 1) * (s + 1)) by (nonlinear_arith)
                requires
                    t >= s + 1,
                    s >= 0,
            ;
        }
    }
}

/// The roots of a reduced fraction's parts are coprime too.
proof fn lemma_roots_coprime(s: int, t: int)
    requires
        coprime(s * s, t * t),
    ensures
        coprime(s, t),
{
    let (x, y) = choose|x: int, y: int| #[trigger] combination(x, s * s, y, t * t) == 1;
    assert(combination(x * s, s, y * t, t) == 1) by (nonlinear_arith)
        requires
            x * (s * s) + y * (t * t) == 1,
    ;
}

/// The exact square root: there is one just when numerator and denominator
/// are both squares of non-negative integers.
pub fn sqrt(a: Rational) -> (r: Option<Rational>)
    requires
        a.wf(),
    ensures
        r.is_some() <==> is_square(a.numer as int) && is_square(a.denom as int),
        r matches Some(c) ==> c.wf() && c.numer >= 0 && c.numer * c.numer == a.numer && c.denom
            * c.denom == a.denom,
{
    if a.numer < 0 {
        proof {
            assert forall|t: int| t >= 0 implies #[trigger] square(t) != a.numer by {
                assert(t * t >= 0) by (nonlinear_arith);
            }
        }
        return None;
    }
    let s = integer_sqrt(a.numer);
    let t = integer_sqrt(a.denom);
    if s * s == a.numer && t * t == a.denom {
        assert(t > 0) by (nonlinear_arith)
            requires
                t >= 0,
                t * t > 0,
        ;
        let c = ratio_new(s, t);
        proof {
            let direct = Rational { numer: s, denom: t };
            lemma_roots_coprime(s as int, t as int);
            lemma_reduced_unique(c, direct);
            assert(square(s as int) == a.numer);
            assert(square(t as int) == a.denom);
        }
        Some(c)
    } else {
        proof {
            if s * s != a.numer {
                lemma_between_squares(a.numer as int, s as int);
            } else {
                lemma_between_squares(a.denom as int, t as int);
            }
        }
        None
    }
}

} // verus!
