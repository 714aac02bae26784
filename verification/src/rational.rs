//! The rational value type and the number theory its invariant rests on.

use vstd::prelude::*;

verus! {

/// The integer combination `x * n + y * d`.
pub open spec fn combination(x: int, n: int, y: int, d: int) -> int {
    x * n + y * d
}

/// `n` and `d` share no common factor greater than 1, stated by Bezout's
/// identity: some integer combination of the two equals 1.
pub open spec fn coprime(n: int, d: int) -> bool {
    exists|x: int, y: int| #[trigger] combination(x, n, y, d) == 1
}

/// An exact fraction `numer / denom`.
#[derive(Clone, Copy, Debug, PartialEq, Eq, Structural, Hash)]
pub struct Rational {
    pub numer: i64,
    pub denom: i64,
}

impl Rational {
    /// The invariant of a stored value: positive denominator, lowest terms.
    pub open spec fn wf(&self) -> bool {
        &&& self.denom > 0
        &&& coprime(self.numer as int, self.denom as int)
    }

    /// Two fractions denote the same number.
    pub open spec fn same_value(&self, other: Rational) -> bool {
        self.numer * other.denom == other.numer * self.denom
    }

    /// The integer `n` as the fraction `n / 1`.
    pub fn from_integer(n: i64) -> (r: Rational)
        ensures
            r.wf(),
            r.numer == n,
            r.denom == 1,
    {
        proof {
            assert(combination(0, n as int, 1, 1) == 1);
        }
        Rational { numer: n, denom: 1 }
    }

    /// The fraction `0 / 1`.
    pub fn zero() -> (r: Rational)
        ensures
            r.wf(),
            r.numer == 0,
            r.denom == 1,
    {
        Rational::from_integer(0)
    }

    /// The fraction `1 / 1`.
    pub fn one() -> (r: Rational)
        ensures
            r.wf(),
            r.numer == 1,
            r.denom == 1,
    {
        Rational::from_integer(1)
    }

    /// The reduced numerator.
    pub fn numer(&self) -> (n: i64)
        ensures
            n == self.numer,
    {
        self.numer
    }

    /// The reduced denominator.
    pub fn denom(&self) -> (d: i64)
        ensures
            d == self.denom,
    {
        self.denom
    }
}

/// A fraction coprime by Bezout's identity has no common divisor above 1.
pub proof fn lemma_coprime_no_common_factor(n: int, d: int, k: int)
    requires
        coprime(n, d),
        k > 1,
    ensures
        !(n % k == 0 && d % k == 0),
{
    if n % k == 0 && d % k == 0 {
        let (x, y) = choose|x: int, y: int| #[trigger] combination(x, n, y, d) == 1;
        let qn = n / k;
        let qd = d / k;
        vstd::arithmetic::div_mod::lemma_fundamental_div_mod(n, k);
        vstd::arithmetic::div_mod::lemma_fundamental_div_mod(d, k);
        assert(n == k * qn);
        assert(d == k * qd);
        assert(x * n + y * d == 1);
        assert(k * (x * qn + y * qd) == 1) by (nonlinear_arith)
            requires
                n == k * qn,
                d == k * qd,
                x * n + y * d == 1,
        ;
        assert(false) by (nonlinear_arith)
            requires
                k > 1,
                k * (x * qn + y * qd) == 1,
        ;
    }
}

/// A reduced fraction whose numerator is 0 has denominator 1.
pub proof fn lemma_zero_has_unit_denom(a: Rational)
    requires
        a.wf(),
        a.numer == 0,
    ensures
        a.denom == 1,
{
    let n = a.numer as int;
    let d = a.denom as int;
    let (x, y) = choose|x: int, y: int| #[trigger] combination(x, n, y, d) == 1;
    assert(y * d == 1) by (nonlinear_arith)
        requires
            x * n + y * d == 1,
            n == 0,
    ;
    assert(d == 1) by (nonlinear_arith)
        requires
            y * d == 1,
            d > 0,
    ;
}

/// Numerator and denominator of any fraction are a common multiple of those
/// of its reduced form: where `cn / cd` is reduced and denotes `n / d`, some
/// `k` has `n == cn * k` and `d == cd * k`.
pub proof fn lemma_common_multiple(cn: int, cd: int, n: int, d: int) -> (k: int)
    requires
        coprime(cn, cd),
        cd > 0,
        cn * d == n * cd,
    ensures
        d == cd * k,
        n == cn * k,
{
    let (x, y) = choose|x: int, y: int| #[trigger] combination(x, cn, y, cd) == 1;
    let k = x * n + y * d;
    assert(d == cd * k) by (nonlinear_arith)
        requires
            x * cn + y * cd == 1,
            cn * d == n * cd,
            k == x * n + y * d,
    {
        assert(d * (x * cn + y * cd) == d);
        assert(d * (x * cn + y * cd) == x * (cn * d) + y * (cd * d));
        assert(x * (n * cd) + y * (cd * d) == cd * (x * n + y * d));
    }
    assert(n == cn * k) by (nonlinear_arith)
        requires
            d == cd * k,
            cn * d == n * cd,
            cd > 0,
    {
        assert(cn * (cd * k) == (cn * k) * cd);
        assert((cn * k - n) * cd == 0);
    }
    k
}

/// Lowest terms are unique: two reduced fractions that denote the same
/// number have the same numerator and the same denominator.
pub proof fn lemma_reduced_unique(a: Rational, b: Rational)
    requires
        a.wf(),
        b.wf(),
        a.same_value(b),
    ensures
        a == b,
{
    let an = a.numer as int;
    let ad = a.denom as int;
    let bn = b.numer as int;
    let bd = b.denom as int;
    let k = lemma_common_multiple(an, ad, bn, bd);
    let j = lemma_common_multiple(bn, bd, an, ad);
    assert(k == 1) by (nonlinear_arith)
        requires
            bd == ad * k,
            ad == bd * j,
            ad > 0,
            bd > 0,
    ;
    assert(ad == bd) by (nonlinear_arith)
        requires
            bd == ad * k,
            k == 1,
    ;
    assert(an == bn) by (nonlinear_arith)
        requires
            an * bd == bn * ad,
            ad == bd,
            ad > 0,
    ;
}

} // verus!
