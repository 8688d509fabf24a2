use std::cmp::Ordering;
use tastyworks::api::market_metrics::{position_of_expiration, Earnings, EarningsTimeOfDay};
use tastyworks::common::CalendarDate;

fn date(year: i32, month: u32, day: u32) -> CalendarDate {
    CalendarDate { year, month, day }
}

fn earnings(d: Option<CalendarDate>, estimated: bool, t: Option<EarningsTimeOfDay>) -> Earnings {
    Earnings { expected_report_date: d, estimated, time_of_day: t }
}

#[test]
fn earnings_order_by_date_then_time_of_day() {
    let a = earnings(Some(date(2023, 7, 20)), false, Some(EarningsTimeOfDay::AMC));
    let b = earnings(Some(date(2023, 7, 21)), false, Some(EarningsTimeOfDay::BTO));
    let c = earnings(Some(date(2023, 7, 20)), true, Some(EarningsTimeOfDay::BTO));
    let unknown = earnings(None, false, Some(EarningsTimeOfDay::AMC));
    assert_eq!(a.cmp(&b), Ordering::Less);
    assert_eq!(b.cmp(&a), Ordering::Greater);
    assert_eq!(c.cmp(&a), Ordering::Less);
    assert_eq!(unknown.cmp(&a), Ordering::Less);
    assert_eq!(a.partial_cmp(&b), Some(Ordering::Less));
    assert!(c < a);
}

#[test]
fn earnings_order_ignores_estimation() {
    let a = earnings(Some(date(2023, 7, 20)), false, None);
    let b = earnings(Some(date(2023, 7, 20)), true, None);
    assert_eq!(a.cmp(&b), Ordering::Equal);
    assert_ne!(a, b);
    let no_time = earnings(Some(date(2023, 7, 20)), false, None);
    let bto = earnings(Some(date(2023, 7, 20)), false, Some(EarningsTimeOfDay::BTO));
    assert_eq!(no_time.cmp(&bto), Ordering::Less);
}

#[test]
fn earnings_order_is_transitive_on_examples() {
    let xs = [
        earnings(None, false, None),
        earnings(None, false, Some(EarningsTimeOfDay::AMC)),
        earnings(Some(date(2023, 1, 5)), true, Some(EarningsTimeOfDay::BTO)),
        earnings(Some(date(2023, 1, 5)), false, Some(EarningsTimeOfDay::AMC)),
        earnings(Some(date(2024, 1, 1)), false, None),
    ];
    for i in 0..xs.len() {
        for j in 0..xs.len() {
            assert_eq!(xs[i].cmp(&xs[j]), i.cmp(&j));
        }
    }
}

#[test]
fn finds_the_first_listed_expiration() {
    let dates = vec![date(2023, 6, 16), date(2023, 6, 23), date(2023, 6, 16)];
    assert_eq!(position_of_expiration(&dates, &date(2023, 6, 16)), Some(0));
    assert_eq!(position_of_expiration(&dates, &date(2023, 6, 23)), Some(1));
    assert_eq!(position_of_expiration(&dates, &date(2023, 6, 30)), None);
    assert_eq!(position_of_expiration(&Vec::new(), &date(2023, 6, 30)), None);
}
