use std::cmp::Ordering;
use tastyworks::common::{CalendarDate, Decimal};
use tastyworks::rational::Rational64;

fn dec(n: i64, d: i64) -> Option<Decimal> {
    Some(Decimal(Rational64::new(n, d)))
}

#[test]
fn parse_reads_decimal_notation() {
    assert_eq!(Decimal::parse("12.50"), dec(25, 2));
    assert_eq!(Decimal::parse("-3"), dec(-3, 1));
    assert_eq!(Decimal::parse("0.001"), dec(1, 1000));
    assert_eq!(Decimal::parse("-0.75"), dec(-3, 4));
    assert_eq!(Decimal::parse("007"), dec(7, 1));
    assert_eq!(Decimal::parse("9223372036854775807"), dec(i64::MAX, 1));
}

#[test]
fn parse_refuses_what_is_not_decimal_notation() {
    for text in ["", "-", "abc", "1.", ".5", "1.2.3", "+1", "1e5", " 1", "1,5", "-.5"] {
        assert_eq!(Decimal::parse(text), None, "{:?}", text);
    }
}

#[test]
fn parse_refuses_numbers_that_do_not_fit() {
    assert_eq!(Decimal::parse("9223372036854775808"), None);
    assert_eq!(Decimal::parse("99999999999999999999"), None);
    assert_eq!(Decimal::parse("1.0000000000000000000"), None);
    assert_eq!(Decimal::parse("0.000000000000000001"), dec(1, 1_000_000_000_000_000_000));
}

#[test]
fn abs_of_a_decimal() {
    assert_eq!(Decimal(Rational64::new(-7, 2)).abs(), Decimal(Rational64::new(7, 2)));
}

#[test]
fn dates_compare_chronologically() {
    let d = |year, month, day| CalendarDate { year, month, day };
    assert_eq!(d(2023, 6, 16).compare(&d(2023, 6, 16)), Ordering::Equal);
    assert_eq!(d(2022, 12, 31).compare(&d(2023, 1, 1)), Ordering::Less);
    assert_eq!(d(2023, 2, 1).compare(&d(2023, 1, 31)), Ordering::Greater);
    assert_eq!(d(2023, 1, 2).compare(&d(2023, 1, 1)), Ordering::Greater);
}
