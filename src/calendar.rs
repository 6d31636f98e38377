//! Instants, day numbers and civil dates in the proleptic Gregorian calendar.
//!
//! An instant is a count of seconds since 1970-01-01T00:00:00 UTC; a day
//! number counts days from 1970-01-01 (day 0).

use chrono::{Datelike, Timelike};
use vstd::prelude::*;

verus! {

pub const SECONDS_PER_DAY: i64 = 86400;

/// The earliest year a calendar date may carry.
pub const MIN_YEAR: i32 = -262143;

/// The latest year a calendar date may carry.
pub const MAX_YEAR: i32 = 262142;

/// A calendar date.
#[derive(Clone, Copy, Debug, PartialEq, Eq, Structural)]
pub struct CivilDate {
    pub year: i32,
    pub month: u32,
    pub day: u32,
}

pub open spec fn is_leap_year(y: int) -> bool {
    y % 4 == 0 && (y % 100 != 0 || y % 400 == 0)
}

pub open spec fn days_in_month(y: int, m: int) -> int {
    if m == 2 {
        if is_leap_year(y) { 29 } else { 28 }
    } else if m == 4 || m == 6 || m == 9 || m == 11 {
        30
    } else {
        31
    }
}

pub open spec fn is_valid_date(y: int, m: int, d: int) -> bool {
    1 <= m <= 12 && 1 <= d <= days_in_month(y, m)
}

/// Days from 0001-01-01 to the first of January of year `y`.
pub open spec fn days_before_year(y: int) -> int {
    365 * (y - 1) + (y - 1) / 4 - (y - 1) / 100 + (y - 1) / 400
}

/// Days from the first of January of year `y` to the first of month `m`.
pub open spec fn days_before_month(y: int, m: int) -> int {
    let common: int = if m <= 1 {
        0
    } else if m == 2 {
        31
    } else if m == 3 {
        59
    } else if m == 4 {
        90
    } else if m == 5 {
        120
    } else if m == 6 {
        151
    } else if m == 7 {
        181
    } else if m == 8 {
        212
    } else if m == 9 {
        243
    } else if m == 10 {
        273
    } else if m == 11 {
        304
    } else {
        334
    };
    common + if m > 2 && is_leap_year(y) { 1int } else { 0int }
}

/// The day number of the date `y-m-d`.
pub open spec fn epoch_day(y: int, m: int, d: int) -> int {
    days_before_year(y) + days_before_month(y, m) + d - 1 - 719162
}

/// The day number of the first representable date.
pub open spec fn first_day() -> int {
    epoch_day(MIN_YEAR as int, 1, 1)
}

/// The day number of the last representable date.
pub open spec fn last_day() -> int {
    epoch_day(MAX_YEAR as int, 12, 31)
}

impl CivilDate {
    pub open spec fn wf(self) -> bool {
        &&& MIN_YEAR <= self.year <= MAX_YEAR
        &&& is_valid_date(self.year as int, self.month as int, self.day as int)
    }

    pub open spec fn epoch_day(self) -> int {
        epoch_day(self.year as int, self.month as int, self.day as int)
    }
}

/// The calendar date of day number `n`.
pub open spec fn civil_of_day(n: int) -> CivilDate {
    choose|c: CivilDate| c.wf() && c.epoch_day() == n
}

pub open spec fn year_length(y: int) -> int {
    if is_leap_year(y) { 366 } else { 365 }
}

/// Consecutive years are `year_length` days apart.
pub proof fn lemma_year_step(y: int)
    ensures
        days_before_year(y + 1) == days_before_year(y) + year_length(y),
{
}

/// Earlier years start earlier, by at least the length of the earlier year.
pub proof fn lemma_years_ordered(y1: int, y2: int)
    requires
        y1 < y2,
    ensures
        days_before_year(y1) + year_length(y1) <= days_before_year(y2),
    decreases y2 - y1,
{
    lemma_year_step(y1);
    if y1 + 1 < y2 {
        lemma_years_ordered(y1 + 1, y2);
    }
}

/// Earlier months of one year start earlier, by at least the earlier month's length.
pub proof fn lemma_months_ordered(y: int, m1: int, m2: int)
    requires
        1 <= m1 < m2 <= 12,
    ensures
        days_before_month(y, m1) + days_in_month(y, m1) <= days_before_month(y, m2),
{
}

/// A valid date lies inside its year.
pub proof fn lemma_date_in_year(y: int, m: int, d: int)
    requires
        is_valid_date(y, m, d),
    ensures
        days_before_year(y) <= epoch_day(y, m, d) + 719162 < days_before_year(y) + year_length(
            y,
        ),
{
}

/// Distinct valid dates have distinct day numbers.
pub proof fn lemma_epoch_day_injective(a: CivilDate, b: CivilDate)
    requires
        is_valid_date(a.year as int, a.month as int, a.day as int),
        is_valid_date(b.year as int, b.month as int, b.day as int),
        a.epoch_day() == b.epoch_day(),
    ensures
        a == b,
{
    lemma_date_in_year(a.year as int, a.month as int, a.day as int);
    lemma_date_in_year(b.year as int, b.month as int, b.day as int);
    if a.year < b.year {
        lemma_years_ordered(a.year as int, b.year as int);
    } else if b.year < a.year {
        lemma_years_ordered(b.year as int, a.year as int);
    } else if a.month < b.month {
        lemma_months_ordered(a.year as int, a.month as int, b.month as int);
    } else if b.month < a.month {
        lemma_months_ordered(a.year as int, b.month as int, a.month as int);
    }
}

/// The date that a valid day number names is the one `civil_of_day` gives.
pub proof fn lemma_civil_of_day(c: CivilDate)
    requires
        c.wf(),
    ensures
        civil_of_day(c.epoch_day()) == c,
{
    let n = c.epoch_day();
    assert(exists|x: CivilDate| x.wf() && x.epoch_day() == n);
    let d = civil_of_day(n);
    lemma_epoch_day_injective(c, d);
}

/// Consecutive months are `days_in_month` days apart; December ends the year.
pub proof fn lemma_month_step(y: int, m: int)
    requires
        1 <= m <= 12,
    ensures
        m < 12 ==> days_before_month(y, m + 1) == days_before_month(y, m) + days_in_month(y, m),
        m == 12 ==> days_before_month(y, m) + days_in_month(y, m) == year_length(y),
{
}

/// Every day number between two valid dates names some valid date.
proof fn lemma_day_has_valid_date(n: int) -> (c: (int, int, int))
    ensures
        is_valid_date(c.0, c.1, c.2),
        epoch_day(c.0, c.1, c.2) == n,
    decreases
            if n >= 0 {
                n
            } else {
                -n
            },
{
    if n == 0 {
        (1970, 1, 1)
    } else if n > 0 {
        let p = lemma_day_has_valid_date(n - 1);
        let (y, m, d) = p;
        lemma_month_step(y, m);
        lemma_year_step(y);
        if d < days_in_month(y, m) {
            (y, m, d + 1)
        } else if m < 12 {
            (y, m + 1, 1)
        } else {
            (y + 1, 1, 1)
        }
    } else {
        let p = lemma_day_has_valid_date(n + 1);
        let (y, m, d) = p;
        if d > 1 {
            (y, m, d - 1)
        } else if m > 1 {
            lemma_month_step(y, m - 1);
            (y, m - 1, days_in_month(y, m - 1))
        } else {
            lemma_month_step(y - 1, 12);
            lemma_year_step(y - 1);
            (y - 1, 12, 31)
        }
    }
}

/// Each day number in range names exactly the date `civil_of_day` gives.
pub proof fn lemma_day_has_date(n: int)
    requires
        first_day() <= n <= last_day(),
    ensures
        civil_of_day(n).wf(),
        civil_of_day(n).epoch_day() == n,
{
    let t = lemma_day_has_valid_date(n);
    lemma_date_in_year(t.0, t.1, t.2);
    if t.0 > MAX_YEAR {
        lemma_years_ordered(MAX_YEAR as int, t.0);
    }
    if t.0 < MIN_YEAR {
        lemma_years_ordered(t.0, MIN_YEAR as int);
    }
    let c = CivilDate { year: t.0 as i32, month: t.1 as u32, day: t.2 as u32 };
    assert(c.wf());
    lemma_civil_of_day(c);
}

/// Dates of later years have larger day numbers.
pub proof fn lemma_year_bounds(c: CivilDate, y: int)
    requires
        is_valid_date(c.year as int, c.month as int, c.day as int),
    ensures
        c.year >= y ==> c.epoch_day() >= epoch_day(y, 1, 1),
        c.year <= y ==> c.epoch_day() <= epoch_day(y, 12, 31),
{
    lemma_date_in_year(c.year as int, c.month as int, c.day as int);
    if c.year > y {
        lemma_years_ordered(y, c.year as int);
    }
    if c.year < y {
        lemma_years_ordered(c.year as int, y);
    }
}

/// The day that holds instant `t`.
pub open spec fn day_of_instant(t: int) -> int {
    t / (SECONDS_PER_DAY as int)
}

/// Days since the last Monday, for day number `n` (1970-01-01 was a Thursday).
pub open spec fn days_since_monday(n: int) -> int {
    (n + 3) % 7
}

/// The text `chrono` gives a date under the pattern `%Y-%m-%d`.
pub uninterp spec fn date_text(y: int, m: int, d: int) -> Seq<char>;

pub open spec fn digit_char(n: int) -> char {
    (48 + n) as char
}

/// `n` written with exactly `width` decimal digits, zero-padded on the left.
pub open spec fn padded_digits(n: nat, width: nat) -> Seq<char>
    decreases width,
{
    if width == 0 {
        Seq::empty()
    } else {
        padded_digits(n / 10, (width - 1) as nat).push(digit_char((n % 10) as int))
    }
}

/// `YYYY-MM-DD` for a year of at most four digits.
pub open spec fn iso_date_text(y: nat, m: nat, d: nat) -> Seq<char> {
    padded_digits(y, 4) + seq!['-'] + padded_digits(m, 2) + seq!['-'] + padded_digits(d, 2)
}

/// Relies on chrono's `NaiveDate::from_epoch_days` and its `year`, `month` and
/// `day` accessors: the date `day` days after 1970-01-01, while it is in range.
#[verifier::external_body]
pub fn civil_date_of_day(day: i32) -> (r: Option<CivilDate>)
    ensures
        r is Some <==> first_day() <= day <= last_day(),
        r matches Some(c) ==> c.wf() && c.epoch_day() == day,
{
    match chrono::NaiveDate::from_epoch_days(day) {
        Some(d) => Some(CivilDate { year: d.year(), month: d.month(), day: d.day() }),
        None => None,
    }
}

/// Relies on chrono's `NaiveDate::from_ymd_opt` and `NaiveDate::to_epoch_days`:
/// the day number of a valid date within chrono's years.
#[verifier::external_body]
pub fn day_of_civil_date(year: i32, month: u32, day: u32) -> (r: Option<i32>)
    ensures
        r is Some <==> (MIN_YEAR <= year <= MAX_YEAR && is_valid_date(
            year as int,
            month as int,
            day as int,
        )),
        r matches Some(n) ==> n == epoch_day(year as int, month as int, day as int),
{
    match chrono::NaiveDate::from_ymd_opt(year, month, day) {
        Some(d) => Some(d.to_epoch_days()),
        None => None,
    }
}

/// Relies on chrono's `format("%Y-%m-%d")` on a `NaiveDate`: four zero-padded
/// year digits for the years 0 to 9999, then two-digit month and day.
#[verifier::external_body]
pub fn format_date(date: CivilDate) -> (r: String)
    requires
        date.wf(),
    ensures
        r@ == date_text(date.year as int, date.month as int, date.day as int),
        0 <= date.year <= 9999 ==> r@ == iso_date_text(
            date.year as nat,
            date.month as nat,
            date.day as nat,
        ),
{
    match chrono::NaiveDate::from_ymd_opt(date.year, date.month, date.day) {
        Some(d) => d.format("%Y-%m-%d").to_string(),
        None => String::new(),
    }
}

/// A time of day.
#[derive(Clone, Copy, Debug, PartialEq, Eq, Structural)]
pub struct TimeOfDay {
    pub hour: u32,
    pub minute: u32,
    pub second: u32,
}

/// The hour, minute and second chrono reads from a text under `%H:%M:%S`.
pub uninterp spec fn clock_time_of_text(s: Seq<char>) -> Option<(int, int, int)>;

/// The instant chrono reads from a text under `%Y-%m-%dT%H:%M`, taken as UTC.
pub uninterp spec fn minute_instant_of_text(s: Seq<char>) -> Option<int>;

/// Relies on chrono's `NaiveTime::parse_from_str` with `%H:%M:%S` and its
/// `hour`, `minute` and `second` accessors; the error text where it fails.
#[verifier::external_body]
pub fn parse_clock_time(text: &str) -> (r: Result<TimeOfDay, String>)
    ensures
        match r {
            Ok(t) => clock_time_of_text(text@) == Some(
                (t.hour as int, t.minute as int, t.second as int),
            ) && t.hour < 24 && t.minute < 60 && t.second < 60,
            Err(_) => clock_time_of_text(text@) is None,
        },
{
    match chrono::NaiveTime::parse_from_str(text, "%H:%M:%S") {
        Ok(t) => Ok(TimeOfDay { hour: t.hour(), minute: t.minute(), second: t.second() }),
        Err(e) => Err(e.to_string()),
    }
}

/// Relies on chrono's `NaiveDateTime::parse_from_str` with `%Y-%m-%dT%H:%M`,
/// then `and_utc().timestamp()`; the error text where it fails.
#[verifier::external_body]
pub fn parse_minute_instant(text: &str) -> (r: Result<i64, String>)
    ensures
        match r {
            Ok(t) => minute_instant_of_text(text@) == Some(t as int),
            Err(_) => minute_instant_of_text(text@) is None,
        },
{
    match chrono::NaiveDateTime::parse_from_str(text, "%Y-%m-%dT%H:%M") {
        Ok(t) => Ok(t.and_utc().timestamp()),
        Err(e) => Err(e.to_string()),
    }
}

/// The day that holds instant `t`.
pub fn day_of(t: i64) -> (r: i64)
    ensures
        r == day_of_instant(t as int),
{
    if t >= 0 {
        t / SECONDS_PER_DAY
    } else {
        let back: i64 = -(t + 1);
        let q: i64 = back / SECONDS_PER_DAY;
        proof {
            let tt = t as int;
            let b = back as int;
            assert(b == -tt - 1);
            vstd::arithmetic::div_mod::lemma_fundamental_div_mod(b, 86400);
            vstd::arithmetic::div_mod::lemma_fundamental_div_mod(tt, 86400);
            let qb = b / 86400;
            let rb = b % 86400;
            assert(tt == 86400 * (-qb - 1) + (86399 - rb));
            vstd::arithmetic::div_mod::lemma_fundamental_div_mod_converse(
                tt,
                86400,
                -qb - 1,
                86399 - rb,
            );
        }
        -q - 1
    }
}

} // verus!
