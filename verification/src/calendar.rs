//! Calendar dates as chrono handles them, and dates written as integers
//! `yyyymmdd`.
use vstd::prelude::*;
use chrono::Datelike;

verus! {

/// The earliest year chrono's `NaiveDate` represents.
pub const MIN_YEAR: i32 = -262143;

/// The latest year chrono's `NaiveDate` represents.
pub const MAX_YEAR: i32 = 262142;

pub open spec fn is_leap_year(y: int) -> bool {
    (y % 4 == 0 && y % 100 != 0) || y % 400 == 0
}

pub open spec fn days_in_month(y: int, m: int) -> int {
    if m == 2 {
        if is_leap_year(y) {
            29
        } else {
            28
        }
    } else if m == 4 || m == 6 || m == 9 || m == 11 {
        30
    } else {
        31
    }
}

/// A day of the proleptic Gregorian calendar within chrono's range.
pub open spec fn is_valid_date(y: int, m: int, d: int) -> bool {
    &&& MIN_YEAR <= y <= MAX_YEAR
    &&& 1 <= m <= 12
    &&& 1 <= d <= days_in_month(y, m)
}

/// The days from 0001-01-01 to the first day of year `y` (negative before it).
pub open spec fn days_before_year(y: int) -> int {
    let p = y - 1;
    365 * p + p / 4 - p / 100 + p / 400
}

/// The days of year `y` before the first day of month `m`.
pub open spec fn days_before_month(y: int, m: int) -> int
    decreases m,
{
    if m <= 1 {
        0
    } else {
        days_before_month(y, m - 1) + days_in_month(y, m - 1)
    }
}

/// The number of a day of the proleptic Gregorian calendar, counted so that
/// 0001-01-01 is day 1 (chrono's `num_days_from_ce`).
pub open spec fn day_number(y: int, m: int, d: int) -> int {
    days_before_year(y) + days_before_month(y, m) + d
}

/// Whether date `a` comes before date `b` in the calendar.
pub open spec fn date_before(a: (int, int, int), b: (int, int, int)) -> bool {
    ||| a.0 < b.0
    ||| a.0 == b.0 && a.1 < b.1
    ||| a.0 == b.0 && a.1 == b.1 && a.2 < b.2
}

/// The calendar date `days` days after the date `year-month-day` (before it
/// when `days` is negative): the valid date whose day number is that many
/// days on.
pub open spec fn shifted_date(year: int, month: int, day: int, days: int) -> (int, int, int) {
    choose|t: (int, int, int)|
        is_valid_date(t.0, t.1, t.2) && day_number(t.0, t.1, t.2) == day_number(year, month, day)
            + days
}

proof fn lemma_days_before_month_grows(y: int, m1: int, m2: int)
    requires
        1 <= m1 < m2,
    ensures
        days_before_month(y, m1) + days_in_month(y, m1) <= days_before_month(y, m2),
    decreases m2 - m1,
{
    if m2 > m1 + 1 {
        lemma_days_before_month_grows(y, m1, m2 - 1);
    }
}

/// A year has as many days as its months together.
pub proof fn lemma_year_length(y: int)
    ensures
        days_before_month(y, 13) == days_before_year(y + 1) - days_before_year(y),
{
    reveal_with_fuel(days_before_month, 13);
    let p = y - 1;
    assert((p + 1) / 4 - p / 4 == (if y % 4 == 0 { 1int } else { 0 }));
    assert((p + 1) / 100 - p / 100 == (if y % 100 == 0 { 1int } else { 0 }));
    assert((p + 1) / 400 - p / 400 == (if y % 400 == 0 { 1int } else { 0 }));
}

proof fn lemma_days_before_year_grows(y1: int, y2: int)
    requires
        y1 < y2,
    ensures
        days_before_year(y1 + 1) <= days_before_year(y2),
    decreases y2 - y1,
{
    if y2 > y1 + 1 {
        lemma_days_before_year_grows(y1, y2 - 1);
        lemma_year_length(y2 - 1);
        lemma_days_before_month_grows(y2 - 1, 1, 13);
    }
}

/// A valid date lies within its year's days.
proof fn lemma_day_within_year(y: int, m: int, d: int)
    requires
        is_valid_date(y, m, d),
    ensures
        days_before_year(y) < day_number(y, m, d) <= days_before_year(y + 1),
{
    lemma_year_length(y);
    if m < 12 {
        lemma_days_before_month_grows(y, m, 13);
    }
    if m > 1 {
        lemma_days_before_month_grows(y, 1, m);
    }
    reveal_with_fuel(days_before_month, 2);
}

/// Day numbers follow the calendar: an earlier date has a smaller number.
pub proof fn lemma_day_number_follows_calendar(a: (int, int, int), b: (int, int, int))
    requires
        is_valid_date(a.0, a.1, a.2),
        is_valid_date(b.0, b.1, b.2),
        date_before(a, b),
    ensures
        day_number(a.0, a.1, a.2) < day_number(b.0, b.1, b.2),
{
    lemma_day_within_year(a.0, a.1, a.2);
    lemma_day_within_year(b.0, b.1, b.2);
    if a.0 < b.0 {
        lemma_days_before_year_grows(a.0, b.0);
    } else if a.1 < b.1 {
        lemma_days_before_month_grows(a.0, a.1, b.1);
    }
}

/// Two valid dates with the same day number are the same date.
pub proof fn lemma_day_number_injective(a: (int, int, int), b: (int, int, int))
    requires
        is_valid_date(a.0, a.1, a.2),
        is_valid_date(b.0, b.1, b.2),
        day_number(a.0, a.1, a.2) == day_number(b.0, b.1, b.2),
    ensures
        a == b,
{
    if date_before(a, b) {
        lemma_day_number_follows_calendar(a, b);
    } else if date_before(b, a) {
        lemma_day_number_follows_calendar(b, a);
    }
}

/// The day number of chrono's first date, -262143-01-01.
pub const MIN_DAY_NUMBER: i64 = -95746129;

/// The day number of chrono's last date, 262142-12-31.
pub const MAX_DAY_NUMBER: i64 = 95745399;

/// Whether the date `days` days after `y-m-d` lies within chrono's dates.
pub open spec fn shift_in_range(y: int, m: int, d: int, days: int) -> bool {
    MIN_DAY_NUMBER <= day_number(y, m, d) + days <= MAX_DAY_NUMBER
}

/// A valid date whose day number lies between those of two valid dates lies
/// between them in the calendar.
pub proof fn lemma_between_day_numbers(a: (int, int, int), t: (int, int, int), b: (int, int, int))
    requires
        is_valid_date(a.0, a.1, a.2),
        is_valid_date(t.0, t.1, t.2),
        is_valid_date(b.0, b.1, b.2),
        day_number(a.0, a.1, a.2) <= day_number(t.0, t.1, t.2) <= day_number(b.0, b.1, b.2),
    ensures
        !date_before(t, a),
        !date_before(b, t),
{
    if date_before(t, a) {
        lemma_day_number_follows_calendar(t, a);
    }
    if date_before(b, t) {
        lemma_day_number_follows_calendar(b, t);
    }
}

/// Every valid date has a day number between those of chrono's first and
/// last dates.
pub proof fn lemma_day_number_limits(y: int, m: int, d: int)
    requires
        is_valid_date(y, m, d),
    ensures
        MIN_DAY_NUMBER <= day_number(y, m, d) <= MAX_DAY_NUMBER,
{
    reveal_with_fuel(days_before_month, 13);
    assert(day_number(MIN_YEAR as int, 1, 1) == MIN_DAY_NUMBER);
    assert(day_number(MAX_YEAR as int, 12, 31) == MAX_DAY_NUMBER);
    if (y, m, d) != (MIN_YEAR as int, 1int, 1int) {
        lemma_day_number_follows_calendar((MIN_YEAR as int, 1, 1), (y, m, d));
    }
    if (y, m, d) != (MAX_YEAR as int, 12int, 31int) {
        lemma_day_number_follows_calendar((y, m, d), (MAX_YEAR as int, 12, 31));
    }
}

/// Calls chrono's `NaiveDate::from_ymd_opt`, adds `TimeDelta::days(days)` to
/// the date (`Add` for `NaiveDate`) and reads back `year()`, `month()` and
/// `day()`. Claimed, as chrono documents it: there is a result exactly when
/// the date exists in the calendar and lies within chrono's years; the result
/// is a valid date whose day number in the proleptic Gregorian calendar is
/// `days` more. The `requires` keeps the shifted day of an existing date
/// between chrono's first and last dates ([`MIN_DAY_NUMBER`] and
/// [`MAX_DAY_NUMBER`]), where neither `TimeDelta::days` nor the addition
/// panics; when the date does not exist, no shift is computed.
#[verifier::external_body]
fn chrono_shift_date(year: i32, month: u32, day: u32, days: i64) -> (r: Option<(i32, u32, u32)>)
    requires
        is_valid_date(year as int, month as int, day as int) ==> shift_in_range(
            year as int,
            month as int,
            day as int,
            days as int,
        ),
    ensures
        r is Some <==> is_valid_date(year as int, month as int, day as int),
        r matches Some(t) ==> is_valid_date(t.0 as int, t.1 as int, t.2 as int),
        r matches Some(t) ==> day_number(t.0 as int, t.1 as int, t.2 as int) == day_number(
            year as int,
            month as int,
            day as int,
        ) + days,
{
    let base = chrono::NaiveDate::from_ymd_opt(year, month, day)?;
    let shifted = base + chrono::Duration::days(days);
    Some((shifted.year(), shifted.month(), shifted.day()))
}

/// The date `days` days after `year-month-day`, or `None` when that date
/// does not exist.
pub(crate) fn shift_date(year: i32, month: u32, day: u32, days: i64) -> (r: Option<(i32, u32, u32)>)
    requires
        is_valid_date(year as int, month as int, day as int) ==> shift_in_range(
            year as int,
            month as int,
            day as int,
            days as int,
        ),
    ensures
        r is Some <==> is_valid_date(year as int, month as int, day as int),
        r matches Some(t) ==> (t.0 as int, t.1 as int, t.2 as int) == shifted_date(
            year as int,
            month as int,
            day as int,
            days as int,
        ),
        r matches Some(t) ==> is_valid_date(t.0 as int, t.1 as int, t.2 as int),
        r matches Some(t) ==> day_number(t.0 as int, t.1 as int, t.2 as int) == day_number(
            year as int,
            month as int,
            day as int,
        ) + days,
{
    let r = chrono_shift_date(year, month, day, days);
    proof {
        if let Some(t) = r {
            let a = (t.0 as int, t.1 as int, t.2 as int);
            let s = shifted_date(year as int, month as int, day as int, days as int);
            assert(is_valid_date(a.0, a.1, a.2) && day_number(a.0, a.1, a.2) == day_number(
                year as int,
                month as int,
                day as int,
            ) + days);
            lemma_day_number_injective(a, s);
        }
    }
    r
}

/// A date shifted back by days comes before the date itself.
pub proof fn lemma_shift_back_is_earlier(y: int, m: int, d: int, days: int)
    requires
        is_valid_date(y, m, d),
        days < 0,
        exists|t: (int, int, int)|
            is_valid_date(t.0, t.1, t.2) && day_number(t.0, t.1, t.2) == day_number(y, m, d)
                + days,
    ensures
        date_before(shifted_date(y, m, d, days), (y, m, d)),
        ({
            let t = shifted_date(y, m, d, days);
            is_valid_date(t.0, t.1, t.2)
        }),
{
    let t = shifted_date(y, m, d, days);
    if !date_before(t, (y, m, d)) {
        if t != (y, m, d) {
            lemma_day_number_follows_calendar((y, m, d), t);
        }
    }
}

/// The earliest unix time chrono represents: -262143-01-01 00:00:00 UTC.
pub const MIN_TIMESTAMP: i64 = -8334601228800;

/// The latest unix time chrono represents: 262142-12-31 23:59:59 UTC.
pub const MAX_TIMESTAMP: i64 = 8210266876799;

pub open spec fn timestamp_in_range(secs: int) -> bool {
    MIN_TIMESTAMP <= secs <= MAX_TIMESTAMP
}

/// Calls chrono's `DateTime::from_timestamp(secs, 0)` and tells whether it
/// gave a time. Claimed, from chrono's source: a whole-second unix time has a
/// `DateTime` exactly when its day lies between chrono's first and last
/// dates, which are the bounds [`MIN_TIMESTAMP`] and [`MAX_TIMESTAMP`].
#[verifier::external_body]
pub(crate) fn timestamp_representable(secs: i64) -> (r: bool)
    ensures
        r == timestamp_in_range(secs as int),
{
    chrono::DateTime::from_timestamp(secs, 0).is_some()
}

/// The integer `yyyymmdd` of a date, computed in `i32` as
/// `year * 10_000 + month * 100 + day`.
pub open spec fn date_int(year: int, month: int, day: int) -> int {
    year * 10000 + month * 100 + day
}

/// Whether every step of `year * 10_000 + month * 100 + day` fits in `i32`.
pub open spec fn date_int_fits(year: int, month: int, day: int) -> bool {
    &&& i32::MIN <= year * 10000 <= i32::MAX
    &&& i32::MIN <= month * 100 <= i32::MAX
    &&& i32::MIN <= year * 10000 + month * 100 <= i32::MAX
    &&& i32::MIN <= date_int(year, month, day) <= i32::MAX
}

/// Writes a date as the integer `yyyymmdd`.
pub fn date_to_int(year: i32, month: i32, day: i32) -> (r: i32)
    requires
        date_int_fits(year as int, month as int, day as int),
    ensures
        r == date_int(year as int, month as int, day as int),
{
    year * 10_000 + month * 100 + day
}

} // verus!
