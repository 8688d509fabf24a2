use tastyworks::rational::Rational64;

fn r(n: i64, d: i64) -> Rational64 {
    Rational64::new(n, d)
}

#[test]
fn new_reduces_to_lowest_terms_with_positive_denominator() {
    let x = r(6, -8);
    assert_eq!(x.numer(), -3);
    assert_eq!(x.denom(), 4);
    assert_eq!(r(0, -5), r(0, 1));
}

#[test]
fn add_gives_the_reduced_sum() {
    assert_eq!(r(1, 2).add(&r(1, 3)), r(5, 6));
    assert_eq!(r(1, 6).add(&r(1, 3)), r(1, 2));
    assert_eq!(r(-1, 4).add(&r(1, 4)), Rational64::zero());
}

#[test]
fn add3_adds_left_to_right() {
    let third = r(1, 3);
    assert_eq!(Rational64::add3(&third, &third, &third), Rational64::from_integer(1));
    assert_eq!(Rational64::add3(&r(1, 2), &r(-3, 4), &r(5, 8)), r(3, 8));
}

#[test]
fn integer_multiplication_and_division() {
    assert_eq!(r(3, 4).mul_integer(-1), r(-3, 4));
    assert_eq!(r(3, 4).mul_integer(2), r(3, 2));
    assert_eq!(r(3, 4).mul_integer(0), Rational64::zero());
    assert_eq!(r(3, 4).div_integer(3), r(1, 4));
    assert_eq!(r(7, 2).div_integer(-3), r(-7, 6));
}

#[test]
fn sign_operations() {
    assert_eq!(r(5, 3).neg(), r(-5, 3));
    assert_eq!(r(-5, 3).abs(), r(5, 3));
    assert_eq!(r(5, 3).abs(), r(5, 3));
    assert!(r(1, 9).is_positive());
    assert!(!r(1, 9).is_negative());
    assert!(r(-1, 9).is_negative());
    assert!(!Rational64::zero().is_positive());
    assert!(!Rational64::zero().is_negative());
}

#[test]
fn zero_and_integers() {
    assert_eq!(Rational64::zero().numer(), 0);
    assert_eq!(Rational64::zero().denom(), 1);
    assert_eq!(Rational64::from_integer(-42).numer(), -42);
    assert_eq!(Rational64::from_integer(-42).denom(), 1);
}

#[test]
fn arithmetic_with_large_denominators_that_do_not_overflow() {
    let tiny = r(1, 1 << 62);
    assert_eq!(tiny.add(&tiny), r(1, 1 << 61));
    let big_den = 4_611_686_018_427_387_903; // more than i64::MAX / 3
    assert_eq!(r(3, big_den).div_integer(3), r(1, big_den));
    assert_eq!(r(i64::MIN + 1, 5).mul_integer(1), r(i64::MIN + 1, 5));
}

#[test]
fn new_reduces_extreme_parts_that_do_not_overflow() {
    assert_eq!(r(i64::MIN, 2), Rational64::from_integer(i64::MIN / 2));
    assert_eq!(r(i64::MIN, 4).denom(), 1);
    assert_eq!(r(0, i64::MIN), Rational64::zero());
    assert_eq!(r(6, i64::MIN), r(-3, 1 << 62));
    assert_eq!(r(2, 4), r(1, 2));
}

#[test]
fn division_by_negative_integers() {
    assert_eq!(r(7, 2).div_integer(-3), r(-7, 6));
    assert_eq!(r(-6, 5).div_integer(-3), r(2, 5));
    assert_eq!(Rational64::zero().div_integer(-7), Rational64::zero());
    assert_eq!(r(6, 1).div_integer(i64::MIN), r(-3, 1 << 62));
}

#[test]
fn every_value_is_canonical() {
    let x = r(-12, -18);
    x.canonical();
    assert_eq!((x.numer(), x.denom()), (2, 3));
    let y = r(10, 4).add(&r(1, 4));
    y.canonical();
    assert_eq!((y.numer(), y.denom()), (11, 4));
}

#[test]
fn negation_distributes_over_addition() {
    let (a, b) = (r(3, 4), r(-5, 6));
    assert_eq!(a.add(&b).neg(), a.neg().add(&b.neg()));
    assert_eq!(a.add(&b).neg(), r(1, 12));
}
