//! Identities of the checked arithmetic, proved from the contracts of the
//! operations.

use vstd::prelude::*;
use vstd::arithmetic::power2::{pow2, lemma_pow2_unfold, lemma2_to64, lemma2_to64_rest};
use crate::rational::{Rational, lemma_common_multiple, lemma_reduced_unique, lemma_zero_has_unit_denom};
use crate::checked::{reduces, mul_result, div_result, new_defined};

verus! {

/// Adding back what was subtracted gives the first operand: when `c` is the
/// difference of `a` and `b` and `e` is the sum of `c` and `b`, neither
/// having overflowed, `e` is `a`.
pub proof fn lemma_add_undoes_sub(a: Rational, b: Rational, c: Rational, e: Rational)
    requires
        a.wf(),
        b.wf(),
        reduces(c, a.numer * b.denom - b.numer * a.denom, a.denom * b.denom),
        reduces(e, c.numer * b.denom + b.numer * c.denom, c.denom * b.denom),
    ensures
        e == a,
{
    let an = a.numer as int;
    let ad = a.denom as int;
    let bn = b.numer as int;
    let bd = b.denom as int;
    let cn = c.numer as int;
    let cd = c.denom as int;
    let en = e.numer as int;
    let ed = e.denom as int;
    let p = cd * bd;
    assert(p > 0) by (nonlinear_arith)
        requires
            p == cd * bd,
            cd > 0,
            bd > 0,
    ;
    assert(cn * bd * ad == (an * bd - bn * ad) * cd) by (nonlinear_arith)
        requires
            cn * (ad * bd) == (an * bd - bn * ad) * cd,
    ;
    assert((en * ad) * p == (cn * bd * ad + bn * cd * ad) * ed) by (nonlinear_arith)
        requires
            en * p == (cn * bd + bn * cd) * ed,
    ;
    let t = cn * bd * ad;
    let u = bn * cd * ad;
    assert(t + u == an * p) by (nonlinear_arith)
        requires
            t == (an * bd - bn * ad) * cd,
            u == bn * cd * ad,
            p == cd * bd,
    ;
    assert((t + u) * ed == (an * ed) * p) by (nonlinear_arith)
        requires
            t + u == an * p,
    ;
    assert(en * ad == an * ed) by (nonlinear_arith)
        requires
            (en * ad) * p == (an * ed) * p,
            p > 0,
    ;
    lemma_reduced_unique(e, a);
}

/// A product with zero is zero, whatever the other factor and without any
/// overflow; and zero has the one reduced form `0 / 1`.
pub proof fn lemma_mul_zero(a: Rational, z: Rational, outcome: Option<(int, int)>)
    requires
        z.wf(),
        z.numer == 0,
    ensures
        z == (Rational { numer: 0, denom: 1 }),
        mul_result(a, z, outcome) == Some((0int, 1int)),
        mul_result(z, a, outcome) == Some((0int, 1int)),
{
    lemma_zero_has_unit_denom(z);
}

/// A value divided by itself is one, and there is no result just when the
/// value is zero.
pub proof fn lemma_div_self(a: Rational, outcome: Option<(int, int)>)
    ensures
        a.numer == 0 <==> div_result(a, a, outcome).is_none(),
        a.numer != 0 ==> div_result(a, a, outcome) == Some((1int, 1int)),
{
}

/// An odd divisor of a power of two is 1 or -1.
proof fn lemma_odd_divisor_of_pow2(k: int, m: int, j: nat)
    requires
        k % 2 != 0,
        k * m == pow2(j),
    ensures
        k == 1 || k == -1,
    decreases j,
{
    if j == 0 {
        lemma2_to64();
        assert(k == 1 || k == -1) by (nonlinear_arith)
            requires
                k * m == 1,
        ;
    } else {
        lemma_pow2_unfold(j);
        let half = pow2((j - 1) as nat) as int;
        let a = k / 2;
        let b = m / 2;
        let r = m % 2;
        assert(k == 2 * a + 1);
        assert(m == 2 * b + r);
        assert(k * m == 2 * (2 * (a * b) + a * r + b) + r) by (nonlinear_arith)
            requires
                k == 2 * a + 1,
                m == 2 * b + r,
        ;
        assert(r == 0);
        assert(k * b == half) by (nonlinear_arith)
            requires
                k * m == 2 * half,
                m == 2 * b,
        ;
        lemma_odd_divisor_of_pow2(k, b, (j - 1) as nat);
    }
}

/// The constructor leaves out nothing that fits: where it yields nothing for
/// a denominator other than zero, no reduced fraction of the fixed width
/// denotes `n / d`.
pub proof fn lemma_new_complete(n: i64, d: i64, c: Rational)
    requires
        d != 0,
        !new_defined(n, d),
    ensures
        !reduces(c, n as int, d as int),
{
    if reduces(c, n as int, d as int) {
        let k = lemma_common_multiple(c.numer as int, c.denom as int, n as int, d as int);
        lemma2_to64_rest();
        let cn = c.numer as int;
        let cd = c.denom as int;
        if d < 0 && n == i64::MIN && d % 2 != 0 {
            assert(k % 2 != 0) by (nonlinear_arith)
                requires
                    d == cd * k,
                    d % 2 != 0,
            {
                if k % 2 == 0 {
                    assert(k == 2 * (k / 2));
                    assert(d == 2 * (cd * (k / 2)));
                }
            }
            assert(k * (-cn) == pow2(63)) by (nonlinear_arith)
                requires
                    n == cn * k,
                    n == -0x8000_0000_0000_0000,
                    pow2(63) == 0x8000_0000_0000_0000,
            ;
            lemma_odd_divisor_of_pow2(k, -cn, 63);
            assert(k < 0) by (nonlinear_arith)
                requires
                    d == cd * k,
                    d < 0,
                    cd > 0,
            ;
            assert(cn == 0x8000_0000_0000_0000) by (nonlinear_arith)
                requires
                    n == cn * k,
                    k == -1,
                    n == -0x8000_0000_0000_0000,
            ;
        } else {
            assert(d == i64::MIN && n % 2 != 0);
            assert(k % 2 != 0) by (nonlinear_arith)
                requires
                    n == cn * k,
                    n % 2 != 0,
            {
                if k % 2 == 0 {
                    assert(k == 2 * (k / 2));
                    assert(n == 2 * (cn * (k / 2)));
                }
            }
            assert(k * (-cd) == pow2(63)) by (nonlinear_arith)
                requires
                    d == cd * k,
                    d == -0x8000_0000_0000_0000,
                    pow2(63) == 0x8000_0000_0000_0000,
            ;
            lemma_odd_divisor_of_pow2(k, -cd, 63);
            assert(k < 0) by (nonlinear_arith)
                requires
                    d == cd * k,
                    d < 0,
                    cd > 0,
            ;
            assert(cd == 0x8000_0000_0000_0000) by (nonlinear_arith)
                requires
                    d == cd * k,
                    k == -1,
                    d == -0x8000_0000_0000_0000,
            ;
        }
    }
}

} // verus!
