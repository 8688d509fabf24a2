//! Market metrics of a symbol: upcoming earnings and, per expiration, the
//! implied volatility. Volatilities are floating-point numbers and stay with
//! the application; the dates they are looked up by are here.
use vstd::prelude::*;
use crate::common::{
    date_order, day_number, lemma_date_order_chronological, plausible_date, CalendarDate, ExpirationDate,
};
use std::cmp::Ordering;

verus! {

#[derive(Clone, Copy, Debug, PartialEq, Eq, Structural, Hash)]
pub struct Earnings {
    pub expected_report_date: Option<CalendarDate>,
    pub estimated: bool,
    pub time_of_day: Option<EarningsTimeOfDay>,
}

/// Before the open or after the close.
#[derive(Clone, Copy, Debug, PartialEq, Eq, PartialOrd, Ord, Structural, Hash)]
pub enum EarningsTimeOfDay {
    BTO,
    AMC,
}

/// Order of optional report dates: an unknown date comes first.
pub open spec fn report_date_order(a: Option<CalendarDate>, b: Option<CalendarDate>) -> Ordering {
    match (a, b) {
        (None, None) => Ordering::Equal,
        (None, Some(_)) => Ordering::Less,
        (Some(_), None) => Ordering::Greater,
        (Some(x), Some(y)) => date_order(x, y),
    }
}

/// Rank of an optional time of day: unknown, then before the open, then after
/// the close.
pub open spec fn time_of_day_rank(t: Option<EarningsTimeOfDay>) -> int {
    match t {
        None => 0,
        Some(EarningsTimeOfDay::BTO) => 1,
        Some(EarningsTimeOfDay::AMC) => 2,
    }
}

pub open spec fn time_of_day_order(a: Option<EarningsTimeOfDay>, b: Option<EarningsTimeOfDay>) -> Ordering {
    if time_of_day_rank(a) < time_of_day_rank(b) {
        Ordering::Less
    } else if time_of_day_rank(a) > time_of_day_rank(b) {
        Ordering::Greater
    } else {
        Ordering::Equal
    }
}

/// Earnings are ordered by expected report date, then by time of day; whether
/// the date is estimated does not take part.
pub open spec fn earnings_order(a: Earnings, b: Earnings) -> Ordering {
    match report_date_order(a.expected_report_date, b.expected_report_date) {
        Ordering::Equal => time_of_day_order(a.time_of_day, b.time_of_day),
        o => o,
    }
}

fn compare_report_dates(a: &Option<CalendarDate>, b: &Option<CalendarDate>) -> (o: Ordering)
    ensures
        o == report_date_order(*a, *b),
{
    match (a, b) {
        (None, None) => Ordering::Equal,
        (None, Some(_)) => Ordering::Less,
        (Some(_), None) => Ordering::Greater,
        (Some(x), Some(y)) => x.compare(y),
    }
}

fn time_of_day_position(t: &Option<EarningsTimeOfDay>) -> (r: u8)
    ensures
        r == time_of_day_rank(*t),
{
    match t {
        None => 0,
        Some(EarningsTimeOfDay::BTO) => 1,
        Some(EarningsTimeOfDay::AMC) => 2,
    }
}

impl Earnings {
    /// Orders by expected report date, then by time of day.
    pub fn cmp(&self, other: &Earnings) -> (o: Ordering)
        ensures
            o == earnings_order(*self, *other),
    {
        match compare_report_dates(&self.expected_report_date, &other.expected_report_date) {
            Ordering::Equal => {
                let a = time_of_day_position(&self.time_of_day);
                let b = time_of_day_position(&other.time_of_day);
                if a < b {
                    Ordering::Less
                } else if a > b {
                    Ordering::Greater
                } else {
                    Ordering::Equal
                }
            },
            o => o,
        }
    }
}

impl PartialOrd for Earnings {
    fn partial_cmp(&self, other: &Earnings) -> (r: Option<Ordering>) {
        Some(self.cmp(other))
    }
}

impl vstd::std_specs::cmp::PartialOrdSpecImpl for Earnings {
    open spec fn obeys_partial_cmp_spec() -> bool {
        true
    }

    open spec fn partial_cmp_spec(&self, other: &Earnings) -> Option<Ordering> {
        Some(earnings_order(*self, *other))
    }
}

/// Swapping the two earnings reverses their order.
pub proof fn lemma_earnings_order_antisymmetric(a: Earnings, b: Earnings)
    ensures
        earnings_order(a, b) == Ordering::Less <==> earnings_order(b, a) == Ordering::Greater,
        earnings_order(a, b) == Ordering::Equal <==> earnings_order(b, a) == Ordering::Equal,
{
}

/// Earnings compare equal exactly when their report dates and times of day
/// are the same.
pub proof fn lemma_earnings_order_equal(a: Earnings, b: Earnings)
    ensures
        earnings_order(a, b) == Ordering::Equal <==> (a.expected_report_date == b.expected_report_date
            && a.time_of_day == b.time_of_day),
{
}

/// The order of earnings is transitive.
pub proof fn lemma_earnings_order_transitive(a: Earnings, b: Earnings, c: Earnings)
    ensures
        earnings_order(a, b) == Ordering::Less && earnings_order(b, c) == Ordering::Less
            ==> earnings_order(a, c) == Ordering::Less,
        earnings_order(a, b) != Ordering::Greater && earnings_order(b, c) != Ordering::Greater
            ==> earnings_order(a, c) != Ordering::Greater,
{
}

/// Earnings expected on an earlier date come first, whatever their times of
/// day; on the same date, before the open comes before after the close.
pub proof fn lemma_earnings_order_by_date(a: Earnings, b: Earnings)
    ensures
        a.expected_report_date matches Some(x) && b.expected_report_date matches Some(y) && plausible_date(x)
            && plausible_date(y) && day_number(x) < day_number(y) ==> earnings_order(a, b) == Ordering::Less,
        a.expected_report_date == b.expected_report_date && a.time_of_day == Some(EarningsTimeOfDay::BTO)
            && b.time_of_day == Some(EarningsTimeOfDay::AMC) ==> earnings_order(a, b) == Ordering::Less,
{
    if let (Some(x), Some(y)) = (a.expected_report_date, b.expected_report_date) {
        lemma_date_order_chronological(x, y);
    }
    if let Some(x) = a.expected_report_date {
        lemma_date_order_chronological(x, x);
    }
}

/// The first position whose expiration date is `date`, if any: where the
/// implied volatility of that expiration is listed.
pub fn position_of_expiration(dates: &Vec<ExpirationDate>, date: &ExpirationDate) -> (r: Option<usize>)
    ensures
        r matches Some(i) ==> i < dates@.len() && dates@[i as int] == *date && forall|j: int|
            0 <= j < i ==> dates@[j] != *date,
        r is None ==> forall|j: int| 0 <= j < dates@.len() ==> dates@[j] != *date,
{
    let mut i: usize = 0;
    while i < dates.len()
        invariant
            i <= dates@.len(),
            forall|j: int| 0 <= j < i ==> dates@[j] != *date,
        decreases dates@.len() - i,
    {
        if dates[i] == *date {
            return Some(i);
        }
        i += 1;
    }
    None
}

} // verus!
