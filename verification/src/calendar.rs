//! Days and instants: the dates that costs are kept by, and the time between two
//! moments.
use chrono::Datelike;
use vstd::prelude::*;

use crate::text::{later, padded2, padded4, text_before};

verus! {

// ---------------------------------------------------------------------------
// Instants
// ---------------------------------------------------------------------------

/// The nanoseconds from one moment to another, both written as RFC 3339 has it;
/// none where either is no such writing.
pub uninterp spec fn elapsed(now: Seq<char>, last: Seq<char>) -> Option<int>;

/// `chrono::DateTime::parse_from_rfc3339` of both texts and
/// `DateTime::signed_duration_since` of what they are read as, in whole seconds
/// and the nanoseconds beyond them: a function of the two texts alone.
#[verifier::external_body]
fn time_between(now: &str, last: &str) -> (r: Option<(i64, i32)>)
    ensures
        match r {
            Some(d) => elapsed(now@, last@) == Some(d.0 * 1_000_000_000 + d.1),
            None => elapsed(now@, last@) is None,
        },
{
    let now = chrono::DateTime::parse_from_rfc3339(now).ok()?;
    let last = chrono::DateTime::parse_from_rfc3339(last).ok()?;
    let d = now.signed_duration_since(last);
    Some((d.num_seconds(), d.subsec_nanos()))
}

/// Whether that many days lie between two moments.
pub open spec fn days_passed(now: Seq<char>, last: Seq<char>, days: int) -> bool {
    elapsed(now, last) matches Some(n) && n >= days * 86_400_000_000_000
}

/// Whether that many days lie between two moments.
pub fn have_days_passed(now: &str, last: &str, days: i64) -> (r: bool)
    ensures
        r == days_passed(now@, last@, days as int),
{
    match time_between(now, last) {
        Some(d) => d.0 as i128 * 1_000_000_000 + d.1 as i128 >= days as i128 * 86_400_000_000_000,
        None => false,
    }
}

// ---------------------------------------------------------------------------
// Days
// ---------------------------------------------------------------------------

/// A day of the calendar.
#[derive(Debug, Clone, Copy, PartialEq, Eq, Structural)]
pub struct Day {
    pub year: i32,
    pub month: u32,
    pub day: u32,
}

/// A leap year of the Gregorian calendar.
pub open spec fn leap(year: int) -> bool {
    year % 4 == 0 && (year % 100 != 0 || year % 400 == 0)
}

/// The days of a month.
pub open spec fn month_days(year: int, month: int) -> int {
    if month == 2 {
        if leap(year) {
            29
        } else {
            28
        }
    } else if month == 4 || month == 6 || month == 9 || month == 11 {
        30
    } else {
        31
    }
}

impl Day {
    /// A day that is in the calendar.
    pub open spec fn wf(self) -> bool {
        &&& -262143 <= self.year <= 262142
        &&& 1 <= self.month <= 12
        &&& 1 <= self.day <= month_days(self.year as int, self.month as int)
    }
}

/// The day that `chrono::NaiveDate::parse_from_str` reads in a text of the form
/// year-month-day.
pub uninterp spec fn day_read(s: Seq<char>) -> Option<Day>;

/// The writing of a day as year-month-day by `chrono::NaiveDate::format`.
pub uninterp spec fn day_written(d: Day) -> Seq<char>;

/// The day that `chrono::NaiveDate::checked_sub_signed` finds that many days
/// before another; none where that is out of the calendar.
pub uninterp spec fn day_before(d: Day, days: int) -> Option<Day>;

/// `chrono::NaiveDate::parse_from_str` with `%Y-%m-%d`: the day that a text alone
/// determines, and always one of the calendar.
#[verifier::external_body]
fn parse_date(s: &str) -> (r: Option<Day>)
    ensures
        r == day_read(s@),
        r matches Some(d) ==> d.wf(),
{
    let d = chrono::NaiveDate::parse_from_str(s, "%Y-%m-%d").ok()?;
    Some(Day { year: d.year(), month: d.month(), day: d.day() })
}

/// `chrono::NaiveDate::format` with `%Y-%m-%d` of a day of the calendar: for a year
/// of at most four digits the year, the month and the day with zeros in front,
/// which `chrono::NaiveDate::parse_from_str` reads as that day again.
#[verifier::external_body]
fn format_date(d: Day) -> (r: String)
    requires
        d.wf(),
    ensures
        r@ == day_written(d),
        0 <= d.year <= 9999 ==> r@ == padded4(d.year as nat) + "-"@ + padded2(d.month as nat)
            + "-"@ + padded2(d.day as nat),
        0 <= d.year <= 9999 ==> day_read(r@) == Some(d),
{
    let date = chrono::NaiveDate::from_ymd_opt(d.year, d.month, d.day).unwrap();
    date.format("%Y-%m-%d").to_string()
}

/// `chrono::NaiveDate::checked_sub_signed`: the day of the calendar that lies that
/// many days before another. Within the month it is found by counting back.
#[verifier::external_body]
fn shift_date(d: Day, days: i64) -> (r: Option<Day>)
    requires
        d.wf(),
    ensures
        r == day_before(d, days as int),
        r matches Some(e) ==> e.wf(),
        1 <= d.day - days <= month_days(d.year as int, d.month as int) ==> r == Some(
            (Day { day: (d.day - days) as u32, ..d }),
        ),
{
    let date = chrono::NaiveDate::from_ymd_opt(d.year, d.month, d.day).unwrap();
    let e = date.checked_sub_signed(chrono::TimeDelta::try_days(days)?)?;
    Some(Day { year: e.year(), month: e.month(), day: e.day() })
}

/// The first day of the year 2000, which stands in for a text that is no day.
pub open spec fn fallback_day() -> Day {
    Day { year: 2000, month: 1, day: 1 }
}

/// The day that a text stands for.
pub open spec fn day_of(s: Seq<char>) -> Day {
    match day_read(s) {
        Some(d) => d,
        None => fallback_day(),
    }
}

/// The first day of a day's month.
pub open spec fn first_of_month(d: Day) -> Day {
    Day { day: 1, ..d }
}

/// The day that a text stands for.
pub fn parse_day(day: &str) -> (r: Day)
    ensures
        r == day_of(day@),
        r.wf(),
{
    match parse_date(day) {
        Some(d) => d,
        None => Day { year: 2000, month: 1, day: 1 },
    }
}

/// The first day of a day's month.
pub fn month_start_str(day: &str) -> (r: String)
    ensures
        r@ == day_written(first_of_month(day_of(day@))),
        0 <= day_of(day@).year <= 9999 ==> day_of(r@) == first_of_month(day_of(day@)),
{
    let d = parse_day(day);
    format_date(Day { year: d.year, month: d.month, day: 1 })
}

/// The day that many days before another; none where that is out of the calendar.
pub fn minus_days(day: &str, n: i64) -> (r: Option<String>)
    ensures
        match (r, day_before(day_of(day@), n as int)) {
            (Some(s), Some(e)) => s@ == day_written(e),
            (None, None) => true,
            _ => false,
        },
{
    match shift_date(parse_day(day), n) {
        Some(e) => Some(format_date(e)),
        None => None,
    }
}

/// A billing window: from its first day up to, and without, its last.
#[derive(Debug)]
pub struct CostWindow {
    pub start: String,
    pub end: String,
}

/// The window from the first of a day's month through the day itself; none for
/// the last day of the calendar.
pub fn month_to_date_window(day: &str) -> (r: Option<CostWindow>)
    ensures
        match (r, day_before(day_of(day@), -1)) {
            (Some(w), Some(e)) => w.start@ == day_written(first_of_month(day_of(day@))) && w.end@
                == day_written(e),
            (None, None) => true,
            _ => false,
        },
{
    match minus_days(day, -1) {
        Some(end) => Some(CostWindow { start: month_start_str(day), end }),
        None => None,
    }
}

impl CostWindow {
    /// The window from the first of the current month through today; none on the
    /// last day of the calendar.
    pub fn current_month(today: &str) -> (r: Option<CostWindow>)
        ensures
            match (r, day_before(day_of(today@), -1)) {
                (Some(w), Some(e)) => w.start@ == day_written(first_of_month(day_of(today@)))
                    && w.end@ == day_written(e),
                (None, None) => true,
                _ => false,
            },
    {
        month_to_date_window(today)
    }
}

/// The days of a day's month.
pub fn days_in_month(day: &str) -> (r: u32)
    ensures
        r == month_days(day_of(day@).year as int, day_of(day@).month as int),
{
    let d = parse_day(day);
    if d.month == 2 {
        let y = d.year;
        if y % 4 == 0 && (y % 100 != 0 || y % 400 == 0) {
            29
        } else {
            28
        }
    } else if d.month == 4 || d.month == 6 || d.month == 9 || d.month == 11 {
        30
    } else {
        31
    }
}

/// The number of a day in its month.
pub fn day_of_month(day: &str) -> (r: u32)
    ensures
        r == day_of(day@).day,
        1 <= r <= 31,
{
    parse_day(day).day
}

/// The later of two days by their writings.
pub fn max_day(a: &str, b: &str) -> (r: String)
    ensures
        r@ == later(a@, b@),
{
    if text_before(a, b) {
        b.to_owned()
    } else {
        a.to_owned()
    }
}

/// The first of a month is in that month, and is its own first.
pub proof fn law_month_starts_once(d: Day)
    requires
        d.wf(),
    ensures
        first_of_month(d).wf(),
        first_of_month(first_of_month(d)) == first_of_month(d),
        first_of_month(d).day <= d.day,
{
}

/// The months have their days, February one more in a leap year: every fourth year, but
/// of the years that end a century only every fourth.
pub proof fn law_days_of_the_months(year: int)
    ensures
        month_days(year, 1) == 31 && month_days(year, 3) == 31 && month_days(year, 5) == 31,
        month_days(year, 7) == 31 && month_days(year, 8) == 31 && month_days(year, 10) == 31,
        month_days(year, 12) == 31,
        month_days(year, 4) == 30 && month_days(year, 6) == 30,
        month_days(year, 9) == 30 && month_days(year, 11) == 30,
        year % 400 == 0 ==> month_days(year, 2) == 29,
        year % 100 == 0 && year % 400 != 0 ==> month_days(year, 2) == 28,
        year % 4 == 0 && year % 100 != 0 ==> month_days(year, 2) == 29,
        year % 4 != 0 ==> month_days(year, 2) == 28,
{
}

/// A text that is no day stands for the first of the year 2000; the first of a day's
/// month is of the same year and month; and a number of days has passed once that many
/// times twenty-four hours have.
pub proof fn law_days_and_moments(s: Seq<char>, d: Day, now: Seq<char>, last: Seq<char>, days: int)
    ensures
        day_read(s) matches Some(r) ==> day_of(s) == r,
        day_read(s) is None ==> day_of(s) == (Day { year: 2000, month: 1, day: 1 }),
        first_of_month(d).year == d.year && first_of_month(d).month == d.month,
        first_of_month(d).day == 1,
        elapsed(now, last) is None ==> !days_passed(now, last, days),
        elapsed(now, last) matches Some(n) ==> (days_passed(now, last, days) <==> n >= days * (24 * 60
            * 60 * 1_000_000_000)),
{
}

} // verus!
