//! Value types shared by the API records: decimal amounts, calendar dates and
//! execution timestamps.
use vstd::prelude::*;
use crate::rational::{abs_int, lowest_terms, Fraction, Rational64};
use crate::text::chars_of;
use std::cmp::Ordering;

verus! {

/// An instant with the UTC offset it was reported in, as
/// `chrono::DateTime<FixedOffset>` holds it: seconds since the Unix epoch,
/// the nanoseconds past that second, and the offset east of UTC in seconds.
#[derive(Clone, Copy, Debug, PartialEq, Eq, Structural, Hash)]
pub struct Timestamp {
    pub unix_seconds: i64,
    pub nanos: u32,
    pub offset_seconds: i32,
}

/// A decimal amount as the API writes it, held exactly as a rational number.
#[derive(Clone, Copy, Debug, PartialEq, Eq, Hash)]
pub struct Decimal(pub Rational64);

impl Decimal {
    /// The absolute value.
    pub fn abs(&self) -> (r: Decimal)
        requires
            self.0.spec_numer() != i64::MIN,
        ensures
            r.0.frac() == (Fraction { num: abs_int(self.0.frac().num), den: self.0.frac().den }),
    {
        Decimal(self.0.abs())
    }
}

/// A calendar date (proleptic Gregorian), ordered chronologically.
#[derive(Clone, Copy, Debug, PartialEq, Eq, Structural, Hash)]
pub struct CalendarDate {
    pub year: i32,
    pub month: u32,
    pub day: u32,
}

/// Chronological order of calendar dates: by year, then month, then day.
pub open spec fn date_order(a: CalendarDate, b: CalendarDate) -> Ordering {
    if a.year < b.year {
        Ordering::Less
    } else if a.year > b.year {
        Ordering::Greater
    } else if a.month < b.month {
        Ordering::Less
    } else if a.month > b.month {
        Ordering::Greater
    } else if a.day < b.day {
        Ordering::Less
    } else if a.day > b.day {
        Ordering::Greater
    } else {
        Ordering::Equal
    }
}

impl CalendarDate {
    /// Compares two dates chronologically.
    pub fn compare(&self, other: &CalendarDate) -> (o: Ordering)
        ensures
            o == date_order(*self, *other),
    {
        if self.year < other.year {
            Ordering::Less
        } else if self.year > other.year {
            Ordering::Greater
        } else if self.month < other.month {
            Ordering::Less
        } else if self.month > other.month {
            Ordering::Greater
        } else if self.day < other.day {
            Ordering::Less
        } else if self.day > other.day {
            Ordering::Greater
        } else {
            Ordering::Equal
        }
    }
}

/// A month from one to twelve and a day from one to thirty-one.
pub open spec fn plausible_date(d: CalendarDate) -> bool {
    1 <= d.month <= 12 && 1 <= d.day <= 31
}

/// A count that grows with the date: a year is worth more than any month of
/// it, a month more than any day of it.
pub open spec fn day_number(d: CalendarDate) -> int {
    d.year * 416 + d.month * 32 + d.day
}

/// Dates are ordered chronologically: an earlier year, or an earlier month of
/// the same year, or an earlier day of the same month, comes first; a date
/// equals only itself; swapping two dates reverses their order; and on dates
/// with plausible months and days the order is that of their day numbers.
pub proof fn lemma_date_order_chronological(a: CalendarDate, b: CalendarDate)
    ensures
        a.year < b.year ==> date_order(a, b) == Ordering::Less,
        a.year == b.year && a.month < b.month ==> date_order(a, b) == Ordering::Less,
        a.year == b.year && a.month == b.month && a.day < b.day ==> date_order(a, b) == Ordering::Less,
        date_order(a, b) == Ordering::Equal <==> a == b,
        date_order(a, b) == Ordering::Less <==> date_order(b, a) == Ordering::Greater,
        plausible_date(a) && plausible_date(b) ==> (date_order(a, b) == Ordering::Less <==> day_number(a)
            < day_number(b)),
{
}

/// The expiration date of an option series.
pub type ExpirationDate = CalendarDate;


/// An ASCII decimal digit.
pub open spec fn is_digit(c: char) -> bool {
    '0' <= c && c <= '9'
}

/// The number that a run of decimal digits spells.
pub open spec fn digits_value(s: Seq<char>) -> int
    decreases s.len(),
{
    if s.len() == 0 {
        0
    } else {
        digits_value(s.drop_last()) * 10 + (s.last() as int - '0' as int)
    }
}

pub open spec fn pow10(k: nat) -> int
    decreases k,
{
    if k == 0 {
        1
    } else {
        10 * pow10((k - 1) as nat)
    }
}

/// Non-empty and made of decimal digits only.
pub open spec fn is_numeral(s: Seq<char>) -> bool {
    s.len() > 0 && forall|i: int| 0 <= i < s.len() ==> is_digit(#[trigger] s[i])
}

/// Whether decimal notation starts with a minus sign.
pub open spec fn notation_negative(text: Seq<char>) -> bool {
    text.len() > 0 && text[0] == '-'
}

/// Decimal notation without its sign.
pub open spec fn notation_body(text: Seq<char>) -> Seq<char> {
    if notation_negative(text) { text.drop_first() } else { text }
}

pub open spec fn notation_sign(text: Seq<char>) -> int {
    if notation_negative(text) { -1int } else { 1int }
}

/// `body` is a numeral, a point at `p`, and a numeral.
pub open spec fn point_splits(body: Seq<char>, p: int) -> bool {
    0 <= p < body.len() && body[p] == '.' && is_numeral(body.take(p)) && is_numeral(body.skip(p + 1))
}

/// Decimal notation: an optional minus sign, digits, and optionally a point
/// followed by digits. Its value as a fraction over a power of ten, before
/// any bound on the size of the numbers.
pub open spec fn decimal_notation(text: Seq<char>) -> Option<Fraction> {
    let body = notation_body(text);
    let sign = notation_sign(text);
    if is_numeral(body) {
        Some(Fraction { num: sign * digits_value(body), den: 1 })
    } else if exists|p: int| point_splits(body, p) {
        let p = choose|p: int| point_splits(body, p);
        let frac = body.skip(p + 1);
        Some(Fraction {
            num: sign * (digits_value(body.take(p)) * pow10(frac.len()) + digits_value(frac)),
            den: pow10(frac.len()),
        })
    } else {
        None
    }
}

/// Decimal notation without a point is a numeral or nothing.
proof fn lemma_notation_without_point(text: Seq<char>)
    requires
        forall|j: int| 0 <= j < notation_body(text).len() ==> notation_body(text)[j] != '.',
    ensures
        decimal_notation(text) == (if is_numeral(notation_body(text)) {
            Some(Fraction { num: notation_sign(text) * digits_value(notation_body(text)), den: 1 })
        } else {
            None::<Fraction>
        }),
{
    let body = notation_body(text);
    assert forall|p: int| !point_splits(body, p) by {
        if 0 <= p < body.len() {
            assert(body[p] != '.');
        }
    }
}

/// Decimal notation whose first point is at `q` is a numeral, the point and
/// a numeral, or nothing.
proof fn lemma_notation_with_point(text: Seq<char>, q: int)
    requires
        0 <= q < notation_body(text).len(),
        notation_body(text)[q] == '.',
        forall|j: int| 0 <= j < q ==> notation_body(text)[j] != '.',
    ensures
        decimal_notation(text) == (if point_splits(notation_body(text), q) {
            Some(Fraction {
                num: notation_sign(text) * (digits_value(notation_body(text).take(q)) * pow10(
                    notation_body(text).skip(q + 1).len(),
                ) + digits_value(notation_body(text).skip(q + 1))),
                den: pow10(notation_body(text).skip(q + 1).len()),
            })
        } else {
            None::<Fraction>
        }),
{
    let body = notation_body(text);
    assert(!is_digit(body[q]));
    assert(!is_numeral(body));
    assert forall|w: int| point_splits(body, w) implies w == q by {
        if w < q {
            assert(body[w] != '.');
        } else if w > q {
            assert(body.take(w)[q] == body[q]);
            assert(!is_digit(body.take(w)[q]));
        }
    }
}

/// Both parts of the fraction fit in an `i64`.
pub open spec fn fits_i64(f: Fraction) -> bool {
    abs_int(f.num) <= i64::MAX && f.den <= i64::MAX
}

pub proof fn lemma_pow10_positive(k: nat)
    ensures
        pow10(k) >= 1,
    decreases k,
{
    if k > 0 {
        lemma_pow10_positive((k - 1) as nat);
    }
}

pub proof fn lemma_pow10_add(a: nat, b: nat)
    ensures
        pow10(a + b) == pow10(a) * pow10(b),
    decreases b,
{
    if b > 0 {
        lemma_pow10_add(a, (b - 1) as nat);
        assert(pow10(a + b) == 10 * pow10((a + b - 1) as nat));
        assert(10 * (pow10(a) * pow10((b - 1) as nat)) == pow10(a) * (10 * pow10((b - 1) as nat)))
            by (nonlinear_arith);
    }
}

/// The digits of `s` followed by those of `t` spell `s`'s number shifted by
/// `t`'s length plus `t`'s number.
pub proof fn lemma_digits_value_append(s: Seq<char>, t: Seq<char>)
    ensures
        digits_value(s + t) == digits_value(s) * pow10(t.len()) + digits_value(t),
    decreases t.len(),
{
    if t.len() == 0 {
        assert(s + t =~= s);
    } else {
        let u = t.drop_last();
        lemma_digits_value_append(s, u);
        assert((s + t).drop_last() =~= s + u);
        assert(digits_value(s) * pow10(t.len()) == (digits_value(s) * pow10(u.len())) * 10)
            by (nonlinear_arith)
            requires
                pow10(t.len()) == 10 * pow10(u.len()),
        ;
    }
}

/// A numeral spells a number below the power of ten of its length.
pub proof fn lemma_digits_value_range(t: Seq<char>)
    requires
        forall|i: int| 0 <= i < t.len() ==> is_digit(#[trigger] t[i]),
    ensures
        0 <= digits_value(t) < pow10(t.len()),
    decreases t.len(),
{
    if t.len() > 0 {
        let u = t.drop_last();
        assert(forall|i: int| 0 <= i < u.len() ==> is_digit(#[trigger] u[i]) ) by {
            assert forall|i: int| 0 <= i < u.len() implies is_digit(#[trigger] u[i]) by {
                assert(u[i] == t[i]);
            }
        }
        lemma_digits_value_range(u);
        assert(is_digit(t[t.len() - 1]));
    }
}

/// Reads the digits `chars[from..to]` onto `acc`: the number that
/// `acc` followed by those digits spells, when they are all digits and it
/// fits in an `i64`.
fn accumulate_digits(chars: &Vec<char>, from: usize, to: usize, acc: i64) -> (r: Option<i64>)
    requires
        from <= to <= chars@.len(),
        acc >= 0,
    ensures
        r is Some <==> ((forall|i: int| from <= i < to ==> is_digit(#[trigger] chars@[i])) && acc
            * pow10((to - from) as nat) + digits_value(chars@.subrange(from as int, to as int))
            <= i64::MAX),
        r matches Some(v) ==> v == acc * pow10((to - from) as nat) + digits_value(
            chars@.subrange(from as int, to as int),
        ) && v >= 0,
{
    let mut cur: i64 = acc;
    let mut i: usize = from;
    proof {
        assert(chars@.subrange(from as int, from as int) =~= Seq::<char>::empty());
    }
    while i < to
        invariant
            from <= i <= to <= chars@.len(),
            acc >= 0,
            cur >= 0,
            forall|j: int| from <= j < i ==> is_digit(#[trigger] chars@[j]),
            cur == acc * pow10((i - from) as nat) + digits_value(chars@.subrange(from as int, i as int)),
        decreases to - i,
    {
        let c = chars[i];
        if !('0' <= c && c <= '9') {
            return None;
        }
        let d: i64 = (c as u32 - '0' as u32) as i64;
        let ghost prefix = chars@.subrange(from as int, i as int);
        let ghost next = chars@.subrange(from as int, i + 1);
        proof {
            assert(next.drop_last() =~= prefix);
            assert(next.last() == c);
            assert(acc * pow10((i + 1 - from) as nat) == (acc * pow10((i - from) as nat)) * 10)
                by (nonlinear_arith)
                requires
                    pow10((i + 1 - from) as nat) == 10 * pow10((i - from) as nat),
            ;
        }
        if cur > (i64::MAX - d) / 10 {
            proof {
                // The digits read so far already spell too large a number;
                // more digits only make it larger.
                assert(cur * 10 + d > i64::MAX);
                let rest = chars@.subrange(i + 1, to as int);
                assert(chars@.subrange(from as int, to as int) =~= next + rest);
                lemma_digits_value_append(next, rest);
                if forall|j: int| from <= j < to ==> is_digit(#[trigger] chars@[j]) {
                    assert forall|j: int| 0 <= j < rest.len() implies is_digit(#[trigger] rest[j]) by {
                        assert(rest[j] == chars@[i + 1 + j]);
                    }
                    lemma_digits_value_range(rest);
                    lemma_pow10_positive(rest.len());
                    lemma_pow10_add((i + 1 - from) as nat, rest.len());
                    assert((to - from) as nat == (i + 1 - from) as nat + rest.len());
                    let big = acc * pow10((i + 1 - from) as nat) + digits_value(next);
                    assert(big == cur * 10 + d);
                    assert(acc * pow10((to - from) as nat) + digits_value(chars@.subrange(from as int, to as int))
                        == big * pow10(rest.len()) + digits_value(rest)) by (nonlinear_arith)
                        requires
                            pow10((to - from) as nat) == pow10((i + 1 - from) as nat) * pow10(rest.len()),
                            digits_value(chars@.subrange(from as int, to as int)) == digits_value(next) * pow10(rest.len()) + digits_value(rest),
                            big == acc * pow10((i + 1 - from) as nat) + digits_value(next),
                    ;
                    assert(big * pow10(rest.len()) >= big) by (nonlinear_arith)
                        requires
                            big > 0,
                            pow10(rest.len()) >= 1,
                    ;
                }
            }
            return None;
        }
        cur = cur * 10 + d;
        i += 1;
    }
    Some(cur)
}


/// `10` to the power `k`, when it fits in an `i64`.
fn power_of_ten(k: usize) -> (r: Option<i64>)
    ensures
        r is Some <==> pow10(k as nat) <= i64::MAX,
        r matches Some(v) ==> v == pow10(k as nat),
{
    let mut p: i64 = 1;
    let mut i: usize = 0;
    while i < k
        invariant
            i <= k,
            p == pow10(i as nat),
            p >= 1,
        decreases k - i,
    {
        if p > i64::MAX / 10 {
            proof {
                lemma_pow10_add((i + 1) as nat, (k - i - 1) as nat);
                lemma_pow10_positive((k - i - 1) as nat);
                assert(pow10(k as nat) >= pow10((i + 1) as nat)) by (nonlinear_arith)
                    requires
                        pow10(k as nat) == pow10((i + 1) as nat) * pow10((k - i - 1) as nat),
                        pow10((k - i - 1) as nat) >= 1,
                        pow10((i + 1) as nat) >= 1,
                ;
            }
            return None;
        }
        p = p * 10;
        i += 1;
    }
    Some(p)
}

impl Decimal {
    /// Reads an amount written in decimal notation, such as `"-12.50"`.
    /// Absent when the text is not decimal notation, or when the numerator
    /// or the power of ten under it does not fit in an `i64`.
    pub fn parse(text: &str) -> (r: Option<Decimal>)
        ensures
            r is Some <==> (decimal_notation(text@) is Some && fits_i64(decimal_notation(text@).unwrap())),
            r matches Some(d) ==> d.0.frac() == lowest_terms(decimal_notation(text@).unwrap()),
    {
        let chars = chars_of(text);
        let n = chars.len();
        let negative = n > 0 && chars[0] == '-';
        let start: usize = if negative { 1 } else { 0 };
        let ghost body = notation_body(text@);
        proof {
            assert(body =~= chars@.subrange(start as int, n as int));
        }
        let mut p: usize = start;
        while p < n && chars[p] != '.'
            invariant
                start <= p <= n,
                n == chars@.len(),
                forall|j: int| start <= j < p ==> chars@[j] != '.',
            decreases n - p,
        {
            p += 1;
        }
        let ghost q = (p - start) as int;
        proof {
            assert(forall|j: int| 0 <= j < q ==> body[j] == chars@[start + j]);
            assert(forall|j: int| 0 <= j < q ==> body[j] != '.');
            assert(chars@.subrange(start as int, p as int) =~= body.take(q));
            if p < n {
                assert(body[q] == chars@[p as int]);
                lemma_notation_with_point(text@, q);
            } else {
                lemma_notation_without_point(text@);
            }
        }
        if p == start {
            // The body is empty or starts with a point: no digits before it.
            proof {
                assert(!is_numeral(body.take(q)));
            }
            return None;
        }
        if p == n {
            Self::parse_integer(&chars, start, negative, Ghost(text@))
        } else {
            Self::parse_with_point(&chars, start, p, negative, Ghost(text@))
        }
    }

    fn parse_integer(chars: &Vec<char>, start: usize, negative: bool, Ghost(text): Ghost<Seq<char>>) -> (r: Option<Decimal>)
        requires
            chars@ == text,
            negative == notation_negative(text),
            start == (if negative { 1int } else { 0int }),
            start < chars@.len(),
            notation_body(text) == chars@.subrange(start as int, chars@.len() as int),
            decimal_notation(text) == (if is_numeral(notation_body(text)) {
                Some(Fraction { num: notation_sign(text) * digits_value(notation_body(text)), den: 1 })
            } else {
                None::<Fraction>
            }),
        ensures
            r is Some <==> (decimal_notation(text) is Some && fits_i64(decimal_notation(text).unwrap())),
            r matches Some(d) ==> d.0.frac() == lowest_terms(decimal_notation(text).unwrap()),
    {
        let n = chars.len();
        let ghost body = notation_body(text);
        match accumulate_digits(chars, start, n, 0) {
            Some(v) => {
                proof {
                    assert(is_numeral(body)) by {
                        assert forall|j: int| 0 <= j < body.len() implies is_digit(#[trigger] body[j]) by {
                            assert(body[j] == chars@[start + j]);
                        }
                    }
                }
                Some(Decimal(Rational64::new(if negative { -v } else { v }, 1)))
            },
            None => {
                proof {
                    if is_numeral(body) {
                        assert forall|j: int| start <= j < n implies is_digit(#[trigger] chars@[j]) by {
                            assert(chars@[j] == body[j - start]);
                        }
                    }
                }
                None
            },
        }
    }

    fn parse_with_point(chars: &Vec<char>, start: usize, p: usize, negative: bool, Ghost(text): Ghost<Seq<char>>) -> (r: Option<Decimal>)
        requires
            chars@ == text,
            negative == notation_negative(text),
            start == (if negative { 1int } else { 0int }),
            start < p < chars@.len(),
            notation_body(text) == chars@.subrange(start as int, chars@.len() as int),
            chars@[p as int] == '.',
            decimal_notation(text) == (if point_splits(notation_body(text), p - start) {
                Some(Fraction {
                    num: notation_sign(text) * (digits_value(notation_body(text).take(p - start)) * pow10(
                        notation_body(text).skip(p - start + 1).len(),
                    ) + digits_value(notation_body(text).skip(p - start + 1))),
                    den: pow10(notation_body(text).skip(p - start + 1).len()),
                })
            } else {
                None::<Fraction>
            }),
        ensures
            r is Some <==> (decimal_notation(text) is Some && fits_i64(decimal_notation(text).unwrap())),
            r matches Some(d) ==> d.0.frac() == lowest_terms(decimal_notation(text).unwrap()),
    {
        let n = chars.len();
        let ghost body = notation_body(text);
        let ghost q = p - start;
        let ghost int_part = body.take(q);
        let ghost frac = body.skip(q + 1);
        proof {
            assert(int_part =~= chars@.subrange(start as int, p as int));
            assert(frac =~= chars@.subrange(p + 1, n as int));
        }
        let whole = match accumulate_digits(chars, start, p, 0) {
            Some(v) => v,
            None => {
                proof {
                    if is_numeral(int_part) && is_numeral(frac) {
                        assert forall|j: int| start <= j < p implies is_digit(#[trigger] chars@[j]) by {
                            assert(chars@[j] == int_part[j - start]);
                        }
                        lemma_digits_value_range(frac);
                        lemma_pow10_positive(frac.len());
                        assert(digits_value(int_part) * pow10(frac.len()) + digits_value(frac) >= digits_value(int_part))
                            by (nonlinear_arith)
                            requires
                                digits_value(int_part) > 0,
                                pow10(frac.len()) >= 1,
                                digits_value(frac) >= 0,
                        ;
                    }
                }
                return None;
            },
        };
        proof {
            assert(is_numeral(int_part)) by {
                assert forall|j: int| 0 <= j < int_part.len() implies is_digit(#[trigger] int_part[j]) by {
                    assert(int_part[j] == chars@[start + j]);
                }
            }
        }
        let k = n - p - 1;
        let all = match accumulate_digits(chars, p + 1, n, whole) {
            Some(v) => v,
            None => {
                proof {
                    if is_numeral(frac) {
                        assert forall|j: int| p + 1 <= j < n implies is_digit(#[trigger] chars@[j]) by {
                            assert(chars@[j] == frac[j - p - 1]);
                        }
                    }
                }
                return None;
            },
        };
        if k == 0 {
            return None;
        }
        proof {
            assert(is_numeral(frac)) by {
                assert forall|j: int| 0 <= j < frac.len() implies is_digit(#[trigger] frac[j]) by {
                    assert(frac[j] == chars@[p + 1 + j]);
                }
            }
        }
        let den = match power_of_ten(k) {
            Some(d) => d,
            None => {
                return None;
            },
        };
        proof {
            lemma_pow10_positive(k as nat);
        }
        let signed = if negative { -all } else { all };
        Some(Decimal(Rational64::new(signed, den)))
    }
}

} // verus!
