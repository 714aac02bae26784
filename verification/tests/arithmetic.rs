use num::rational::Ratio;
use rational_sort::checked::{add, div, mul, sub};
use rational_sort::ops::{
    abs, ceil, floor, greater_or_equal, greater_than, is_less, less_or_equal, less_than, max, min,
    neg, round,
};
use rational_sort::rational::Rational;
use rational_sort::special::{cbrt, log, pow, sqrt, NotYetImplemented};

fn r(n: i64, d: i64) -> Rational {
    Rational::new(n, d).unwrap()
}

fn whole(n: i64) -> Rational {
    Rational::from_integer(n)
}

#[test]
fn new_reduces_to_lowest_terms() {
    assert_eq!(r(6, 4), Rational { numer: 3, denom: 2 });
    assert_eq!(r(6, -4), Rational { numer: -3, denom: 2 });
    assert_eq!(r(-6, -4), Rational { numer: 3, denom: 2 });
    assert_eq!(r(0, 7), Rational { numer: 0, denom: 1 });
    assert_eq!(r(5, 5), Rational { numer: 1, denom: 1 });
    assert_eq!(r(i64::MIN, 2), Rational { numer: i64::MIN / 2, denom: 1 });
}

#[test]
fn new_rejects_zero_denominator() {
    assert_eq!(Rational::new(1, 0), None);
    assert_eq!(Rational::new(0, 0), None);
}

#[test]
fn new_rejects_parts_that_cannot_be_negated() {
    assert_eq!(Rational::new(i64::MIN, -1), None);
    assert_eq!(Rational::new(i64::MIN, -3), None);
    assert_eq!(Rational::new(1, i64::MIN), None);
    assert_eq!(Rational::new(-7, i64::MIN), None);
    assert_eq!(Rational::new(i64::MIN, -2), Some(Rational { numer: 1 << 62, denom: 1 }));
    assert_eq!(Rational::new(i64::MIN, i64::MIN), Some(Rational { numer: 1, denom: 1 }));
    assert_eq!(Rational::new(2, i64::MIN), Some(Rational { numer: -1, denom: 1 << 62 }));
    assert_eq!(Rational::new(i64::MAX, -1), Some(Rational { numer: -i64::MAX, denom: 1 }));
    assert_eq!(Rational::new(i64::MIN, 1), Some(Rational { numer: i64::MIN, denom: 1 }));
}

#[test]
fn projections_give_reduced_parts() {
    let v = r(10, -4);
    assert_eq!(v.numer(), -5);
    assert_eq!(v.denom(), 2);
    assert_eq!(Rational::zero(), Rational { numer: 0, denom: 1 });
    assert_eq!(Rational::one(), Rational { numer: 1, denom: 1 });
}

#[test]
fn add_gives_reduced_sum() {
    assert_eq!(add(r(1, 2), r(1, 3)), Some(r(5, 6)));
    assert_eq!(add(r(1, 6), r(1, 3)), Some(Rational { numer: 1, denom: 2 }));
    assert_eq!(add(r(1, 2), r(-1, 2)), Some(Rational::zero()));
}

#[test]
fn sub_gives_reduced_difference() {
    assert_eq!(sub(r(1, 2), r(1, 3)), Some(r(1, 6)));
    assert_eq!(sub(r(1, 3), r(1, 2)), Some(r(-1, 6)));
}

#[test]
fn mul_gives_reduced_product() {
    assert_eq!(mul(r(2, 3), r(3, 4)), Some(Rational { numer: 1, denom: 2 }));
    assert_eq!(mul(r(-2, 3), r(5, 7)), Some(r(-10, 21)));
}

#[test]
fn div_gives_reduced_quotient() {
    assert_eq!(div(r(1, 2), r(3, 4)), Some(Rational { numer: 2, denom: 3 }));
    assert_eq!(div(r(1, 2), r(-3, 4)), Some(Rational { numer: -2, denom: 3 }));
    assert_eq!(div(whole(0), r(i64::MIN, 3)), Some(Rational::zero()));
}

#[test]
fn div_by_zero_has_no_result() {
    assert_eq!(div(r(1, 2), whole(0)), None);
    assert_eq!(div(whole(0), whole(0)), None);
}

#[test]
fn overflow_has_no_result() {
    assert_eq!(add(whole(i64::MAX), whole(1)), None);
    assert_eq!(sub(whole(i64::MIN), whole(1)), None);
    assert_eq!(mul(whole(i64::MAX), whole(2)), None);
    assert_eq!(div(whole(i64::MAX), r(1, 2)), None);
    assert_eq!(add(r(1, i64::MAX), r(1, i64::MAX - 1)), None);
    assert_eq!(div(whole(i64::MIN), whole(-1)), None);
}

#[test]
fn add_undoes_sub() {
    let values = [r(1, 2), r(-3, 4), whole(0), whole(7), r(22, 7), r(-5, 9)];
    for a in values {
        for b in values {
            let c = sub(a, b).unwrap();
            assert_eq!(add(c, b), Some(a));
        }
    }
}

#[test]
fn mul_by_zero_is_zero() {
    for a in [r(1, 2), whole(i64::MAX), whole(i64::MIN), r(i64::MIN, 3), whole(0)] {
        assert_eq!(mul(a, whole(0)), Some(Rational::zero()));
        assert_eq!(mul(whole(0), a), Some(Rational::zero()));
    }
}

#[test]
fn div_by_itself_is_one_unless_zero() {
    for a in [r(1, 2), whole(i64::MAX), whole(i64::MIN), r(i64::MIN, 3), r(-7, 5)] {
        assert_eq!(div(a, a), Some(Rational::one()));
    }
    assert_eq!(div(whole(0), whole(0)), None);
}

#[test]
fn pow_boundary_cases() {
    assert_eq!(pow(whole(0), whole(3)), Some(whole(0)));
    assert_eq!(pow(whole(0), whole(0)), None);
    assert_eq!(pow(whole(2), whole(-1)), None);
    assert_eq!(pow(whole(3), whole(2)), Some(whole(9)));
}

#[test]
fn pow_follows_the_domain_order() {
    assert_eq!(pow(whole(0), r(1, 2)), Some(whole(0)));
    assert_eq!(pow(whole(0), whole(-2)), None);
    assert_eq!(pow(r(5, 7), whole(0)), Some(whole(1)));
    assert_eq!(pow(r(2, 3), whole(3)), Some(r(8, 27)));
    assert_eq!(pow(r(-2, 3), whole(3)), Some(r(-8, 27)));
    assert_eq!(pow(r(2, 3), whole(1)), Some(r(2, 3)));
    assert_eq!(pow(whole(4), r(1, 2)), None);
    assert_eq!(pow(whole(4), r(3, 2)), None);
    assert_eq!(pow(whole(2), whole(63)), None);
    assert_eq!(pow(whole(2), whole(62)), Some(whole(1 << 62)));
}

#[test]
fn log_is_supported_for_one_only() {
    assert_eq!(log(whole(1)), Ok(whole(0)));
    assert_eq!(log(whole(2)), Err(NotYetImplemented));
    assert_eq!(log(whole(0)), Err(NotYetImplemented));
    assert_eq!(log(whole(-1)), Err(NotYetImplemented));
}

#[test]
fn cbrt_is_supported_for_one_only() {
    assert_eq!(cbrt(whole(1)), Ok(whole(1)));
    assert_eq!(cbrt(whole(8)), Err(NotYetImplemented));
}

#[test]
fn sqrt_cases() {
    assert_eq!(sqrt(r(4, 9)), Some(r(2, 3)));
    assert_eq!(sqrt(whole(2)), None);
    assert_eq!(sqrt(whole(-1)), None);
}

#[test]
fn sqrt_needs_both_parts_square() {
    assert_eq!(sqrt(r(4, 3)), None);
    assert_eq!(sqrt(r(3, 4)), None);
    assert_eq!(sqrt(r(-4, 9)), None);
    assert_eq!(sqrt(whole(0)), Some(whole(0)));
    assert_eq!(sqrt(whole(1)), Some(whole(1)));
    assert_eq!(sqrt(whole(3037000499 * 3037000499)), Some(whole(3037000499)));
    assert_eq!(sqrt(whole(i64::MAX)), None);
}

#[test]
fn rounding_boundaries() {
    assert_eq!(floor(r(-3, 2)), whole(-2));
    assert_eq!(ceil(r(-3, 2)), whole(-1));
    assert_eq!(round(r(1, 2)), whole(1));
}

#[test]
fn round_breaks_ties_away_from_zero() {
    assert_eq!(round(r(-1, 2)), whole(-1));
    assert_eq!(round(r(3, 2)), whole(2));
    assert_eq!(round(r(-3, 2)), whole(-2));
    assert_eq!(round(r(5, 2)), whole(3));
    assert_eq!(round(r(1, 3)), whole(0));
    assert_eq!(round(r(2, 3)), whole(1));
    assert_eq!(round(r(-2, 3)), whole(-1));
    assert_eq!(round(whole(7)), whole(7));
}

#[test]
fn floor_and_ceil_of_positive_and_whole_values() {
    assert_eq!(floor(r(3, 2)), whole(1));
    assert_eq!(ceil(r(3, 2)), whole(2));
    assert_eq!(floor(whole(-4)), whole(-4));
    assert_eq!(ceil(whole(-4)), whole(-4));
    assert_eq!(floor(r(-1, 3)), whole(-1));
    assert_eq!(ceil(r(-1, 3)), whole(0));
    assert_eq!(ceil(r(1, 3)), whole(1));
}

#[test]
fn rounding_fits_at_the_ends_of_the_width() {
    let low = r(i64::MIN, 3);
    assert_eq!(floor(low), whole(-3074457345618258603));
    assert_eq!(ceil(low), whole(-3074457345618258602));
    assert_eq!(round(low), whole(-3074457345618258603));
    let high = r(i64::MAX, 2);
    assert_eq!(floor(high), whole(4611686018427387903));
    assert_eq!(ceil(high), whole(4611686018427387904));
    assert_eq!(round(high), whole(4611686018427387904));
    assert_eq!(floor(whole(i64::MIN)), whole(i64::MIN));
    assert_eq!(round(whole(i64::MIN)), whole(i64::MIN));
    assert_eq!(ceil(whole(i64::MAX)), whole(i64::MAX));
}

#[test]
fn rounding_agrees_with_num() {
    for n in -40i64..=40 {
        for d in 1i64..=12 {
            let v = r(n, d);
            let w = Ratio::new(n, d);
            let f = w.floor();
            let c = w.ceil();
            let o = w.round();
            assert_eq!(floor(v), Rational { numer: *f.numer(), denom: *f.denom() });
            assert_eq!(ceil(v), Rational { numer: *c.numer(), denom: *c.denom() });
            assert_eq!(round(v), Rational { numer: *o.numer(), denom: *o.denom() });
        }
    }
}

#[test]
fn order_agrees_with_num() {
    let parts = [i64::MIN, -7, -1, 0, 1, 3, 7, i64::MAX];
    let dens = [1i64, 2, 3, 7, i64::MAX];
    for an in parts {
        for ad in dens {
            for bn in parts {
                for bd in dens {
                    let (a, b) = (r(an, ad), r(bn, bd));
                    let (x, y) = (Ratio::new(an, ad), Ratio::new(bn, bd));
                    assert_eq!(is_less(a, b), x < y);
                    let lo = x.min(y);
                    let hi = x.max(y);
                    assert_eq!(min(a, b), Rational { numer: *lo.numer(), denom: *lo.denom() });
                    assert_eq!(max(a, b), Rational { numer: *hi.numer(), denom: *hi.denom() });
                }
            }
        }
    }
}

#[test]
fn comparison_encoding() {
    assert_eq!(less_than(r(1, 2), r(3, 4)), Some(()));
    assert_eq!(less_than(r(3, 4), r(1, 2)), None);
}

#[test]
fn comparison_predicates() {
    let (a, b) = (r(1, 2), r(3, 4));
    assert_eq!(less_than(a, a), None);
    assert_eq!(greater_than(b, a), Some(()));
    assert_eq!(greater_than(a, b), None);
    assert_eq!(greater_than(a, a), None);
    assert_eq!(less_or_equal(a, b), Some(()));
    assert_eq!(less_or_equal(a, a), Some(()));
    assert_eq!(less_or_equal(b, a), None);
    assert_eq!(greater_or_equal(b, a), Some(()));
    assert_eq!(greater_or_equal(a, a), Some(()));
    assert_eq!(greater_or_equal(a, b), None);
    assert_eq!(less_than(r(-1, 2), r(-1, 3)), Some(()));
}

#[test]
fn min_and_max_pick_by_value() {
    assert_eq!(min(r(1, 2), r(1, 3)), r(1, 3));
    assert_eq!(max(r(1, 2), r(1, 3)), r(1, 2));
    assert_eq!(min(r(-1, 2), r(1, 3)), r(-1, 2));
    assert_eq!(max(whole(5), whole(5)), whole(5));
}

#[test]
fn neg_and_abs() {
    assert_eq!(neg(r(1, 2)), Some(r(-1, 2)));
    assert_eq!(neg(r(-1, 2)), Some(r(1, 2)));
    assert_eq!(neg(whole(0)), Some(whole(0)));
    assert_eq!(abs(r(-3, 4)), Some(r(3, 4)));
    assert_eq!(abs(r(3, 4)), Some(r(3, 4)));
    assert_eq!(neg(whole(i64::MAX)), Some(whole(-i64::MAX)));
}

#[test]
fn neg_and_abs_of_the_least_numerator_have_no_result() {
    assert_eq!(neg(whole(i64::MIN)), None);
    assert_eq!(abs(whole(i64::MIN)), None);
    assert_eq!(neg(r(i64::MIN, 3)), None);
}
