//! Calendar dates of the proleptic Gregorian calendar.

use chrono::{Datelike, Timelike};
use vstd::prelude::*;
use crate::text;

verus! {

/// A calendar date.
#[derive(Debug, Clone, Copy, PartialEq, Eq, Structural)]
pub struct Date {
    pub year: i32,
    pub month: u32,
    pub day: u32,
}

/// Whether `year` has a 29 February.
pub open spec fn is_leap(year: int) -> bool {
    year % 4 == 0 && (year % 100 != 0 || year % 400 == 0)
}

/// The number of days in a month.
pub open spec fn month_len(year: int, month: int) -> int {
    if month == 2 {
        if is_leap(year) {
            29
        } else {
            28
        }
    } else if month == 4 || month == 6 || month == 9 || month == 11 {
        30
    } else {
        31
    }
}

/// Whether there is such a day.
pub open spec fn is_calendar_day(year: int, month: int, day: int) -> bool {
    1 <= month <= 12 && 1 <= day <= month_len(year, month)
}

/// The first and the last year that dates are kept for.
pub const MIN_YEAR: i32 = -262_143;

pub const MAX_YEAR: i32 = 262_142;

impl Date {
    /// The date is a day of the calendar, in a year that dates are kept for.
    pub open spec fn wf(self) -> bool {
        &&& MIN_YEAR <= self.year <= MAX_YEAR
        &&& is_calendar_day(self.year as int, self.month as int, self.day as int)
    }
}

/// A moment in UTC.
#[derive(Debug, Clone, Copy, PartialEq, Eq, Structural)]
pub struct UtcTime {
    pub date: Date,
    pub seconds_of_day: u32,
    pub nanos: u32,
}

/// `a` is not later than `b`.
pub open spec fn date_le(a: Date, b: Date) -> bool {
    if a.year != b.year {
        a.year < b.year
    } else if a.month != b.month {
        a.month < b.month
    } else {
        a.day <= b.day
    }
}

pub fn not_later(a: &Date, b: &Date) -> (r: bool)
    ensures
        r == date_le(*a, *b),
{
    if a.year != b.year {
        a.year < b.year
    } else if a.month != b.month {
        a.month < b.month
    } else {
        a.day <= b.day
    }
}

/// `chrono::NaiveDate::parse_from_str`, on eight digits and the format
/// `%Y%m%d`: four digits for the year, two for the month, two for the day. It
/// succeeds exactly on the days of the calendar, and gives that day.
#[verifier::external_body]
fn naive_date_parse_from_str(s: &str, format: &str) -> (r: Option<Date>)
    requires
        s@.len() == 8,
        text::all_digits(s@),
        format@ == "%Y%m%d"@,
    ensures
        r == compact_date(s@),
{
    match chrono::NaiveDate::parse_from_str(s, format) {
        Ok(d) => Some(Date { year: d.year(), month: d.month(), day: d.day() }),
        Err(_) => None,
    }
}

/// The date that eight digits write, year first.
pub open spec fn compact_date(s: Seq<char>) -> Option<Date> {
    let year = text::number(s.subrange(0, 4)) as int;
    let month = text::number(s.subrange(4, 6)) as int;
    let day = text::number(s.subrange(6, 8)) as int;
    if s.len() == 8 && text::all_digits(s) && is_calendar_day(year, month, day) {
        Some(Date { year: year as i32, month: month as u32, day: day as u32 })
    } else {
        None
    }
}

/// The date that `s` writes as `YYYYMMDD`.
pub fn parse_compact(s: &str) -> (r: Option<Date>)
    ensures
        r == compact_date(s@),
{
    if text::len(s) == 8 && text::digits_only(s) {
        naive_date_parse_from_str(s, "%Y%m%d")
    } else {
        None
    }
}

/// A date read from eight digits is a day of the calendar.
pub proof fn law_compact_date_wf(s: Seq<char>)
    ensures
        compact_date(s) matches Some(d) ==> d.wf() && 0 <= d.year <= 9999,
{
    if s.len() == 8 {
        text::lemma_number_bound(s.subrange(0, 4));
        text::lemma_number_bound(s.subrange(4, 6));
        text::lemma_number_bound(s.subrange(6, 8));
        assert(text::pow10(4) == 10_000) by {
            reveal_with_fuel(text::pow10, 5);
        }
        assert(text::pow10(2) == 100) by {
            reveal_with_fuel(text::pow10, 3);
        }
    }
}

// ---------------------------------------------------------------------------
// Writing

/// A year in four digits; one that four digits do not hold, or a negative one,
/// has a sign.
pub open spec fn year_text(year: int) -> Seq<char> {
    if 0 <= year <= 9999 {
        text::four_digits(year as nat)
    } else {
        let size = (if year < 0 {
            -year
        } else {
            year
        }) as nat;
        (if year < 0 {
            seq!['-']
        } else {
            seq!['+']
        }) + (if size <= 9999 {
            text::four_digits(size)
        } else {
            text::decimal(size)
        })
    }
}

/// A date as `YYYYMMDD`.
pub open spec fn compact_text(d: Date) -> Seq<char> {
    year_text(d.year as int) + text::two_digits(d.month as nat) + text::two_digits(d.day as nat)
}

/// A date as `YYYY-MM-DD`.
pub open spec fn dashed_text(d: Date) -> Seq<char> {
    year_text(d.year as int) + seq!['-'] + text::two_digits(d.month as nat) + seq!['-']
        + text::two_digits(d.day as nat)
}

/// The name of a month.
pub open spec fn month_name(month: int) -> Seq<char> {
    if month == 1 {
        "January"@
    } else if month == 2 {
        "February"@
    } else if month == 3 {
        "March"@
    } else if month == 4 {
        "April"@
    } else if month == 5 {
        "May"@
    } else if month == 6 {
        "June"@
    } else if month == 7 {
        "July"@
    } else if month == 8 {
        "August"@
    } else if month == 9 {
        "September"@
    } else if month == 10 {
        "October"@
    } else if month == 11 {
        "November"@
    } else {
        "December"@
    }
}

/// A date as in `May 27, 2026`.
pub open spec fn long_text(d: Date) -> Seq<char> {
    month_name(d.month as int) + seq![' '] + text::decimal(d.day as nat) + seq![',', ' ']
        + year_text(d.year as int)
}

/// A month as in `May 2026`.
pub open spec fn month_text(d: Date) -> Seq<char> {
    month_name(d.month as int) + seq![' '] + year_text(d.year as int)
}

/// `chrono::NaiveDate::format`, for the formats `%Y%m%d`, `%Y-%m-%d`,
/// `%B %-d, %Y` and `%B %Y`: the year in four digits (with a sign, and as many
/// digits as it takes, where that is not enough), the month and the day in two,
/// or the month by its English name and the day without a leading zero.
#[verifier::external_body]
fn naive_date_format(d: &Date, format: &str) -> (r: String)
    requires
        d.wf(),
        format@ == "%Y%m%d"@ || format@ == "%Y-%m-%d"@ || format@ == "%B %-d, %Y"@ || format@
            == "%B %Y"@,
    ensures
        format@ == "%Y%m%d"@ ==> r@ == compact_text(*d),
        format@ == "%Y-%m-%d"@ ==> r@ == dashed_text(*d),
        format@ == "%B %-d, %Y"@ ==> r@ == long_text(*d),
        format@ == "%B %Y"@ ==> r@ == month_text(*d),
{
    chrono::NaiveDate::from_ymd_opt(d.year, d.month, d.day).unwrap().format(format).to_string()
}

/// The date as `YYYYMMDD`.
pub fn format_compact(d: &Date) -> (r: String)
    requires
        d.wf(),
    ensures
        r@ == compact_text(*d),
{
    naive_date_format(d, "%Y%m%d")
}

/// The date as `YYYY-MM-DD`.
pub fn format_dashed(d: &Date) -> (r: String)
    requires
        d.wf(),
    ensures
        r@ == dashed_text(*d),
{
    naive_date_format(d, "%Y-%m-%d")
}

/// The date as in `May 27, 2026`.
pub fn format_long(d: &Date) -> (r: String)
    requires
        d.wf(),
    ensures
        r@ == long_text(*d),
{
    naive_date_format(d, "%B %-d, %Y")
}

/// The month as in `May 2026`.
pub fn format_month(d: &Date) -> (r: String)
    requires
        d.wf(),
    ensures
        r@ == month_text(*d),
{
    naive_date_format(d, "%B %Y")
}

/// A date of a four-digit year that is written as `YYYYMMDD` reads as that date.
pub proof fn law_compact_round_trip(d: Date)
    requires
        d.wf(),
        0 <= d.year <= 9999,
    ensures
        compact_date(compact_text(d)) == Some(d),
{
    let s = compact_text(d);
    let y = text::four_digits(d.year as nat);
    let m = text::two_digits(d.month as nat);
    let n = text::two_digits(d.day as nat);
    text::lemma_four_digits(d.year as nat);
    text::lemma_two_digits(d.month as nat);
    text::lemma_two_digits(d.day as nat);
    assert(s.subrange(0, 4) =~= y);
    assert(s.subrange(4, 6) =~= m);
    assert(s.subrange(6, 8) =~= n);
    assert forall|i: int| 0 <= i < s.len() implies text::is_digit(#[trigger] s[i]) by {
        if i < 4 {
            assert(text::is_digit(y[i]));
        } else if i < 6 {
            assert(text::is_digit(m[i - 4]));
        } else {
            assert(text::is_digit(n[i - 6]));
        }
    }
}

// ---------------------------------------------------------------------------
// Moments

/// The moment that an RFC 3339 timestamp tells, in UTC.
pub uninterp spec fn rfc3339_utc(s: Seq<char>) -> Option<UtcTime>;

/// `chrono::DateTime::parse_from_rfc3339`, brought to UTC: whether `s` is such
/// a timestamp, and of which moment, depends on `s` alone. The moment is one
/// that `chrono` has.
#[verifier::external_body]
pub(crate) fn parse_rfc3339(s: &str) -> (r: Option<UtcTime>)
    ensures
        r == rfc3339_utc(s@),
        r matches Some(t) ==> t.wf(),
{
    let t = chrono::DateTime::parse_from_rfc3339(s).ok()?.with_timezone(&chrono::Utc);
    let day = t.date_naive();
    Some(
        UtcTime {
            date: Date { year: day.year(), month: day.month(), day: day.day() },
            seconds_of_day: t.num_seconds_from_midnight(),
            nanos: t.nanosecond(),
        },
    )
}

/// The first moment of a day.
pub open spec fn midnight(d: Date) -> UtcTime {
    UtcTime { date: d, seconds_of_day: 0, nanos: 0 }
}

impl UtcTime {
    /// The moment is one of a day of the calendar. The last second of a minute
    /// may be followed by a leap second, which counts as more nanoseconds.
    pub open spec fn wf(self) -> bool {
        &&& self.date.wf()
        &&& self.seconds_of_day < 86_400
        &&& self.nanos < 2_000_000_000
        &&& self.nanos >= 1_000_000_000 ==> self.seconds_of_day % 60 == 59
    }
}

/// A moment as in `May 27, 2026 · 04:30 UTC`, with the month cut to three
/// letters.
pub open spec fn moment_text(t: UtcTime) -> Seq<char> {
    month_name(t.date.month as int).take(3) + seq![' '] + text::decimal(t.date.day as nat)
        + seq![',', ' '] + year_text(t.date.year as int) + " · "@ + text::two_digits(
        (t.seconds_of_day / 3600) as nat,
    ) + seq![':'] + text::two_digits((t.seconds_of_day / 60 % 60) as nat) + " UTC"@
}

/// `chrono::DateTime::format`, for the format `%b %-d, %Y · %H:%M UTC`: the
/// month by the first three letters of its English name, the day without a
/// leading zero, the year, and hour and minute in two digits.
#[verifier::external_body]
fn utc_format(t: &UtcTime, format: &str) -> (r: String)
    requires
        t.wf(),
        format@ == "%b %-d, %Y · %H:%M UTC"@,
    ensures
        r@ == moment_text(*t),
{
    let day = chrono::NaiveDate::from_ymd_opt(t.date.year, t.date.month, t.date.day).unwrap();
    let time = chrono::NaiveTime::from_num_seconds_from_midnight_opt(t.seconds_of_day, t.nanos);
    day.and_time(time.unwrap()).and_utc().format(format).to_string()
}

/// The moment as in `May 27, 2026 · 04:30 UTC`.
pub fn format_moment(t: &UtcTime) -> (r: String)
    requires
        t.wf(),
    ensures
        r@ == moment_text(*t),
{
    utc_format(t, "%b %-d, %Y · %H:%M UTC")
}

// ---------------------------------------------------------------------------
// Counting days

/// The number of days before the first day of a year, from the first day of
/// the year 1 on.
pub open spec fn days_before_year(year: int) -> int {
    365 * (year - 1) + (year - 1) / 4 - (year - 1) / 100 + (year - 1) / 400
}

/// The number of days of a year before the first day of a month.
pub open spec fn days_before_month(year: int, month: int) -> int
    decreases month,
{
    if month <= 1 {
        0
    } else {
        days_before_month(year, month - 1) + month_len(year, month - 1)
    }
}

/// The days counted from the first day of the year 1, which is day 1.
pub open spec fn day_number(d: Date) -> int {
    days_before_year(d.year as int) + days_before_month(d.year as int, d.month as int)
        + d.day
}

/// The day of that number and name, where there is one in the years that dates
/// are kept for.
pub open spec fn calendar_date(year: int, month: int, day: int) -> Option<Date> {
    if MIN_YEAR <= year <= MAX_YEAR && is_calendar_day(year, month, day) {
        Some(Date { year: year as i32, month: month as u32, day: day as u32 })
    } else {
        None
    }
}

/// Whether `year` has a 29 February.
fn leap(year: i32) -> (r: bool)
    ensures
        r == is_leap(year as int),
{
    if year >= 0 {
        year % 4 == 0 && (year % 100 != 0 || year % 400 == 0)
    } else {
        let past: i64 = -(year as i64);
        proof {
            let p = past as int;
            assert((-p) % 4 == 0 <==> p % 4 == 0);
            assert((-p) % 100 == 0 <==> p % 100 == 0);
            assert((-p) % 400 == 0 <==> p % 400 == 0);
        }
        past % 4 == 0 && (past % 100 != 0 || past % 400 == 0)
    }
}

/// The day of that name, where there is one in the years that dates are kept
/// for.
pub fn from_ymd_opt(year: i32, month: u32, day: u32) -> (r: Option<Date>)
    ensures
        r == calendar_date(year as int, month as int, day as int),
        r matches Some(d) ==> d.wf(),
{
    if year < MIN_YEAR || year > MAX_YEAR || month < 1 || month > 12 || day < 1 {
        return None;
    }
    let last: u32 = if month == 2 {
        if leap(year) {
            29
        } else {
            28
        }
    } else if month == 4 || month == 6 || month == 9 || month == 11 {
        30
    } else {
        31
    };
    if day > last {
        None
    } else {
        Some(Date { year, month, day })
    }
}

/// `chrono::NaiveDate::signed_duration_since`, in days: how many days `earlier`
/// has to be moved on to be `later`.
#[verifier::external_body]
fn signed_days_since(later: &Date, earlier: &Date) -> (r: i64)
    requires
        later.wf(),
        earlier.wf(),
    ensures
        r == day_number(*later) - day_number(*earlier),
{
    let a = chrono::NaiveDate::from_ymd_opt(later.year, later.month, later.day).unwrap();
    let b = chrono::NaiveDate::from_ymd_opt(earlier.year, earlier.month, earlier.day).unwrap();
    a.signed_duration_since(b).num_days()
}

/// The day of the week: 0 for Monday.
pub open spec fn weekday(d: Date) -> int {
    (day_number(d) - 1) % 7
}

/// `chrono::NaiveDate::weekday`, counted from Monday: the days of the week
/// follow each other from the first day of the year 1 on, which is a Monday.
#[verifier::external_body]
pub(crate) fn weekday_from_monday(d: &Date) -> (r: u32)
    requires
        d.wf(),
    ensures
        r == weekday(*d),
{
    let day = chrono::NaiveDate::from_ymd_opt(d.year, d.month, d.day).unwrap();
    day.weekday().num_days_from_monday()
}

/// The first day of the month of `d`.
pub open spec fn first_of(d: Date) -> Date {
    Date { year: d.year, month: d.month, day: 1 }
}

/// The first day of the next month; `d` itself where there is none.
pub open spec fn month_after(d: Date) -> Date {
    if d.month == 12 {
        if d.year < MAX_YEAR {
            Date { year: (d.year + 1) as i32, month: 1, day: 1 }
        } else {
            d
        }
    } else {
        Date { year: d.year, month: (d.month + 1) as u32, day: 1 }
    }
}

/// The first day of the previous month; `d` itself where there is none.
pub open spec fn month_before(d: Date) -> Date {
    if d.month == 1 {
        if d.year > MIN_YEAR {
            Date { year: (d.year - 1) as i32, month: 12, day: 1 }
        } else {
            d
        }
    } else {
        Date { year: d.year, month: (d.month - 1) as u32, day: 1 }
    }
}

pub fn first_of_month(d: &Date) -> (r: Date)
    requires
        d.wf(),
    ensures
        r == first_of(*d),
        r.wf(),
{
    match from_ymd_opt(d.year, d.month, 1) {
        Some(x) => x,
        None => *d,
    }
}

/// The first day of the next month; `d` itself where there is none.
pub fn next_month(d: &Date) -> (r: Date)
    requires
        d.wf(),
    ensures
        r == month_after(*d),
        r.wf(),
{
    let next = if d.month == 12 {
        from_ymd_opt(d.year + 1, 1, 1)
    } else {
        from_ymd_opt(d.year, d.month + 1, 1)
    };
    match next {
        Some(x) => x,
        None => *d,
    }
}

/// The first day of the previous month; `d` itself where there is none.
pub fn previous_month(d: &Date) -> (r: Date)
    requires
        d.wf(),
    ensures
        r == month_before(*d),
        r.wf(),
{
    let previous = if d.month == 1 {
        from_ymd_opt(d.year - 1, 12, 1)
    } else {
        from_ymd_opt(d.year, d.month - 1, 1)
    };
    match previous {
        Some(x) => x,
        None => *d,
    }
}

proof fn lemma_year_len(year: int)
    ensures
        days_before_year(year + 1) - days_before_year(year) == (if is_leap(year) {
            366int
        } else {
            365int
        }),
{
    let y = year - 1;
    assert((y + 1) / 4 - y / 4 == (if (y + 1) % 4 == 0 {
        1int
    } else {
        0int
    }));
    assert((y + 1) / 100 - y / 100 == (if (y + 1) % 100 == 0 {
        1int
    } else {
        0int
    }));
    assert((y + 1) / 400 - y / 400 == (if (y + 1) % 400 == 0 {
        1int
    } else {
        0int
    }));
}

proof fn lemma_december(year: int)
    ensures
        days_before_month(year, 12) == (if is_leap(year) {
            335int
        } else {
            334int
        }),
{
    reveal_with_fuel(days_before_month, 13);
}

/// From the first day of a month to the first day of the next there are as many
/// days as the month has.
pub proof fn law_month_length(d: Date)
    requires
        d.wf(),
        !(d.month == 12 && d.year == MAX_YEAR),
    ensures
        day_number(month_after(d)) - day_number(first_of(d)) == month_len(
            d.year as int,
            d.month as int,
        ),
        month_after(d).wf(),
{
    if d.month == 12 {
        lemma_year_len(d.year as int);
        lemma_december(d.year as int);
    }
}

/// How many days the month of `d` has. The last month that dates are kept for
/// has no next month: it counts up to the day before `d`.
pub open spec fn days_of_month(d: Date) -> int {
    if d.month == 12 && d.year == MAX_YEAR {
        d.day - 1
    } else {
        month_len(d.year as int, d.month as int)
    }
}

/// How many days the month of `date` has.
pub fn days_in_month(date: &Date) -> (r: u32)
    requires
        date.wf(),
    ensures
        r == days_of_month(*date),
{
    let next = next_month(date);
    let first = first_of_month(date);
    proof {
        if !(date.month == 12 && date.year == MAX_YEAR) {
            law_month_length(*date);
        }
    }
    signed_days_since(&next, &first) as u32
}

/// Going to the next month and back again leads to the same month, and so does
/// going to the previous month first.
pub proof fn law_month_navigation(d: Date)
    requires
        d.wf(),
    ensures
        !(d.month == 12 && d.year == MAX_YEAR) ==> month_before(month_after(d)) == first_of(d),
        !(d.month == 1 && d.year == MIN_YEAR) ==> month_after(month_before(d)) == first_of(d),
{
}

/// A later day has a larger number.
pub proof fn law_day_numbers_follow_the_calendar(a: Date, b: Date)
    requires
        a.wf(),
        b.wf(),
    ensures
        date_le(a, b) <==> day_number(a) <= day_number(b),
{
    lemma_day_order(a, b);
    lemma_day_order(b, a);
}

proof fn lemma_months_grow(year: int, a: int, b: int)
    requires
        1 <= a < b <= 13,
    ensures
        days_before_month(year, a) + month_len(year, a) <= days_before_month(year, b),
    decreases b - a,
{
    if a + 1 < b {
        lemma_months_grow(year, a, b - 1);
    }
}

proof fn lemma_years_grow(a: int, b: int)
    requires
        a < b,
    ensures
        days_before_year(a + 1) <= days_before_year(b),
    decreases b - a,
{
    if a + 1 < b {
        lemma_years_grow(a, b - 1);
        lemma_year_len(b - 1);
    }
}

proof fn lemma_year_holds(year: int)
    ensures
        days_before_year(year) + days_before_month(year, 13) == days_before_year(year + 1),
{
    lemma_year_len(year);
    lemma_december(year);
}

proof fn lemma_day_order(a: Date, b: Date)
    requires
        a.wf(),
        b.wf(),
    ensures
        !date_le(b, a) ==> day_number(a) < day_number(b),
{
    if a.year < b.year {
        lemma_years_grow(a.year as int, b.year as int);
        lemma_year_holds(a.year as int);
        lemma_months_grow(a.year as int, a.month as int, 13);
        lemma_months_nonnegative(b.year as int, b.month as int);
    } else if a.year == b.year && a.month < b.month {
        lemma_months_grow(a.year as int, a.month as int, b.month as int);
    }
}

proof fn lemma_months_nonnegative(year: int, month: int)
    ensures
        days_before_month(year, month) >= 0,
    decreases month,
{
    if month > 1 {
        lemma_months_nonnegative(year, month - 1);
    }
}

/// A day of a later year is later; within a year one of a later month; within a
/// month one with a larger number. Of two days one is not later, and only a day
/// itself is neither.
pub proof fn law_order_of_days(a: Date, b: Date)
    ensures
        a.year < b.year ==> date_le(a, b) && !date_le(b, a),
        a.year == b.year && a.month < b.month ==> date_le(a, b) && !date_le(b, a),
        a.year == b.year && a.month == b.month && a.day < b.day ==> date_le(a, b) && !date_le(b, a),
        date_le(a, b) && date_le(b, a) <==> a == b,
{
}

/// The days that there are: none of a month but the twelve, none numbered nought,
/// none behind the last of its month; and a twenty-ninth of February every four
/// years, but not every hundred, but every four hundred.
pub proof fn law_calendar(year: int, month: int, day: int)
    requires
        MIN_YEAR <= year <= MAX_YEAR,
    ensures
        month < 1 || month > 12 || day < 1 || day > 31 ==> calendar_date(year, month, day) is None,
        1 <= month <= 12 && 1 <= day <= 28 ==> calendar_date(year, month, day) is Some,
        calendar_date(year, 2, 30) is None,
        calendar_date(year, 2, 29) is Some <==> (year % 400 == 0 || (year % 4 == 0 && year % 100
            != 0)),
        calendar_date(year, 4, 31) is None && calendar_date(year, 6, 31) is None && calendar_date(
            year,
            9,
            31,
        ) is None && calendar_date(year, 11, 31) is None,
        1 <= month <= 12 && month != 2 ==> calendar_date(year, month, 30) is Some,
        month == 1 || month == 3 || month == 5 || month == 7 || month == 8 || month == 10 || month
            == 12 ==> calendar_date(year, month, 31) is Some,
        calendar_date(year, month, day) matches Some(d) ==> d.year == year && d.month == month
            && d.day == day,
{
}

/// Eight digits are the year, the month and the day in this order, and a date only
/// where there is that day.
pub proof fn law_compact_digits(y: Seq<char>, m: Seq<char>, d: Seq<char>)
    requires
        y.len() == 4 && text::all_digits(y),
        m.len() == 2 && text::all_digits(m),
        d.len() == 2 && text::all_digits(d),
    ensures
        compact_date(y + m + d) == calendar_date(
            text::number(y) as int,
            text::number(m) as int,
            text::number(d) as int,
        ),
{
    let s = y + m + d;
    assert(s.subrange(0, 4) =~= y);
    assert(s.subrange(4, 6) =~= m);
    assert(s.subrange(6, 8) =~= d);
    assert forall|i: int| 0 <= i < s.len() implies text::is_digit(#[trigger] s[i]) by {
        if i < 4 {
            assert(text::is_digit(y[i]));
        } else if i < 6 {
            assert(text::is_digit(m[i - 4]));
        } else {
            assert(text::is_digit(d[i - 6]));
        }
    }
    text::lemma_number_bound(y);
    assert(text::pow10(4) == 10_000) by {
        reveal_with_fuel(text::pow10, 5);
    }
}

/// A date is written with its own numbers: the year in four digits, the month and
/// the day in two, with or without hyphens between them.
pub proof fn law_dates_as_text(d: Date)
    requires
        d.wf(),
        0 <= d.year <= 9999,
    ensures
        compact_text(d).len() == 8,
        text::number(compact_text(d).subrange(0, 4)) == d.year,
        text::number(compact_text(d).subrange(4, 6)) == d.month,
        text::number(compact_text(d).subrange(6, 8)) == d.day,
        dashed_text(d) == compact_text(d).subrange(0, 4) + seq!['-'] + compact_text(d).subrange(4, 6)
            + seq!['-'] + compact_text(d).subrange(6, 8),
        text::ends_in(long_text(d), seq![' '] + compact_text(d).subrange(0, 4)),
        text::begins_with(
            long_text(d),
            month_name(d.month as int) + seq![' '] + text::decimal(d.day as nat) + seq![','],
        ),
        month_text(d) == month_name(d.month as int) + seq![' '] + compact_text(d).subrange(0, 4),
{
    let s = compact_text(d);
    let y = text::four_digits(d.year as nat);
    let m = text::two_digits(d.month as nat);
    let n = text::two_digits(d.day as nat);
    text::lemma_four_digits(d.year as nat);
    text::lemma_two_digits(d.month as nat);
    text::lemma_two_digits(d.day as nat);
    assert(s.subrange(0, 4) =~= y);
    assert(s.subrange(4, 6) =~= m);
    assert(s.subrange(6, 8) =~= n);
    let l = long_text(d);
    let end = seq![' '] + y;
    assert(l.subrange(l.len() - end.len(), l.len() as int) =~= end);
    assert(l.skip(l.len() - end.len()) =~= end);
    let start = month_name(d.month as int) + seq![' '] + text::decimal(d.day as nat) + seq![','];
    assert(l.subrange(0, start.len() as int) =~= start);
    assert(l.take(start.len() as int) =~= start);
}

/// The names of the months.
pub proof fn law_names_of_the_months()
    ensures
        month_name(1) == "January"@ && month_name(2) == "February"@ && month_name(3) == "March"@,
        month_name(4) == "April"@ && month_name(5) == "May"@ && month_name(6) == "June"@,
        month_name(7) == "July"@ && month_name(8) == "August"@ && month_name(9) == "September"@,
        month_name(10) == "October"@ && month_name(11) == "November"@ && month_name(12)
            == "December"@,
{
}

/// A moment is shown with its day, and its hour and minute on a clock of
/// twenty-four hours.
pub proof fn law_moment_as_text(t: UtcTime, hour: nat, minute: nat, second: nat)
    requires
        t.date.wf(),
        hour < 24 && minute < 60 && second < 60,
        t.seconds_of_day == hour * 3600 + minute * 60 + second,
    ensures
        text::ends_in(
            moment_text(t),
            text::two_digits(hour) + seq![':'] + text::two_digits(minute) + " UTC"@,
        ),
        text::begins_with(
            moment_text(t),
            month_name(t.date.month as int).take(3) + seq![' '] + text::decimal(t.date.day as nat)
                + seq![','],
        ),
{
    assert(t.seconds_of_day / 3600 == hour);
    assert(t.seconds_of_day / 60 % 60 == minute);
    let s = moment_text(t);
    let end = text::two_digits(hour) + seq![':'] + text::two_digits(minute) + " UTC"@;
    assert(s.subrange(s.len() - end.len(), s.len() as int) =~= end);
    assert(s.skip(s.len() - end.len()) =~= end);
    let start = month_name(t.date.month as int).take(3) + seq![' '] + text::decimal(
        t.date.day as nat,
    ) + seq![','];
    assert(s.subrange(0, start.len() as int) =~= start);
    assert(s.take(start.len() as int) =~= start);
}

/// The days of the week follow each other, and one Monday is the first of January
/// 2024.
pub proof fn law_days_of_the_week(a: Date, b: Date)
    ensures
        0 <= weekday(a) < 7,
        day_number(b) == day_number(a) + 1 ==> weekday(b) == (weekday(a) + 1) % 7,
        day_number(b) == day_number(a) + 7 ==> weekday(b) == weekday(a),
        weekday(Date { year: 2024, month: 1, day: 1 }) == 0,
        a.year == b.year && a.month == b.month && b.day == a.day + 1 ==> day_number(b) == day_number(
            a,
        ) + 1,
{
    reveal_with_fuel(days_before_month, 2);
}

/// The first of a month, and of the months around it: the next month is the one
/// with the next number, or January of the next year.
pub proof fn law_months_around(d: Date)
    requires
        d.wf(),
        MIN_YEAR < d.year < MAX_YEAR,
    ensures
        first_of(d).year == d.year && first_of(d).month == d.month && first_of(d).day == 1,
        month_after(d).day == 1 && month_before(d).day == 1,
        month_after(d).year * 12 + month_after(d).month == d.year * 12 + d.month + 1,
        month_before(d).year * 12 + month_before(d).month == d.year * 12 + d.month - 1,
        1 <= month_after(d).month <= 12 && 1 <= month_before(d).month <= 12,
        date_le(first_of(d), d) && !date_le(month_after(d), d) && !date_le(
            first_of(d),
            month_before(d),
        ),
{
}

} // verus!
