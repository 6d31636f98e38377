//! The reporting period: the half-open window of instants `[start, end)` that a
//! period token names at a given instant, and the window's display label.

use vstd::prelude::*;
use vstd::string::*;
use crate::calendar::{
    civil_date_of_day, civil_of_day, date_text, day_of, day_of_civil_date, day_of_instant,
    days_since_monday, epoch_day, first_day, format_date, is_valid_date, last_day,
    lemma_civil_of_day, lemma_day_has_date, lemma_month_step, lemma_year_bounds, lemma_year_step, CivilDate, MAX_YEAR, MIN_YEAR,
    SECONDS_PER_DAY,
};
use crate::text::{owned, str_eq};

verus! {

/// The granularity of a report.
#[derive(Clone, Copy, Debug, PartialEq, Eq, Structural)]
pub enum PeriodKind {
    Day,
    Week,
    Month,
}

/// A resolved reporting window: instants `t` with `start <= t < end`.
#[derive(Clone, Debug)]
pub struct ReportPeriod {
    pub start: i64,
    pub end: i64,
    pub label: String,
}

/// Why a report could not be produced.
#[derive(Clone, Debug, PartialEq, Eq)]
pub enum ReportError {
    /// The period token is none of `day`, `week`, `month`.
    InvalidPeriod,
    /// A fetch of orders or reference data failed; the message is passed on.
    DataAccess(String),
    /// The exact amounts of the report do not fit the fixed-point range.
    AmountOverflow,
}

impl ReportError {
    /// The text shown to the caller.
    pub fn message(&self) -> (r: String)
        ensures
            match self {
                ReportError::InvalidPeriod => r@
                    == "Invalid time period specified. Use 'day', 'week', or 'month'"@,
                ReportError::DataAccess(m) => r@ == m@,
                ReportError::AmountOverflow => r@ == "Report amounts exceed the supported range"@,
            },
    {
        match self {
            ReportError::InvalidPeriod => owned(
                "Invalid time period specified. Use 'day', 'week', or 'month'",
            ),
            ReportError::DataAccess(m) => m.clone(),
            ReportError::AmountOverflow => owned("Report amounts exceed the supported range"),
        }
    }
}

pub open spec fn period_of_token(token: Seq<char>) -> Option<PeriodKind> {
    if token == "day"@ {
        Some(PeriodKind::Day)
    } else if token == "week"@ {
        Some(PeriodKind::Week)
    } else if token == "month"@ {
        Some(PeriodKind::Month)
    } else {
        None
    }
}

/// The instants whose periods stay within the calendar's years, with a year
/// to spare on either side.
pub open spec fn instant_in_range(t: int) -> bool {
    &&& epoch_day(MIN_YEAR + 1, 1, 1) <= day_of_instant(t)
    &&& day_of_instant(t) <= epoch_day(MAX_YEAR - 1, 12, 31)
}

pub open spec fn next_month(y: int, m: int) -> (int, int) {
    if m == 12 {
        (y + 1, 1)
    } else {
        (y, m + 1)
    }
}

/// The first day of the window of `kind` that holds day `n`.
pub open spec fn window_first_day(kind: PeriodKind, n: int) -> int {
    match kind {
        PeriodKind::Day => n,
        PeriodKind::Week => n - days_since_monday(n),
        PeriodKind::Month => {
            let c = civil_of_day(n);
            epoch_day(c.year as int, c.month as int, 1)
        },
    }
}

/// The first day after the window of `kind` that holds day `n`.
pub open spec fn window_end_day(kind: PeriodKind, n: int) -> int {
    match kind {
        PeriodKind::Day => n + 1,
        PeriodKind::Week => n - days_since_monday(n) + 7,
        PeriodKind::Month => {
            let c = civil_of_day(n);
            let (y, m) = next_month(c.year as int, c.month as int);
            epoch_day(y, m, 1)
        },
    }
}

pub open spec fn period_start(kind: PeriodKind, t: int) -> int {
    window_first_day(kind, day_of_instant(t)) * SECONDS_PER_DAY
}

pub open spec fn period_end(kind: PeriodKind, t: int) -> int {
    window_end_day(kind, day_of_instant(t)) * SECONDS_PER_DAY
}

pub open spec fn text_of_day(n: int) -> Seq<char> {
    let c = civil_of_day(n);
    date_text(c.year as int, c.month as int, c.day as int)
}

/// `%Y-%m` of the first day of a month: its `%Y-%m-%d` without the day.
pub open spec fn month_text(n: int) -> Seq<char> {
    let t = text_of_day(n);
    if t.len() >= 3 {
        t.subrange(0, t.len() - 3)
    } else {
        t
    }
}

pub open spec fn period_label(kind: PeriodKind, t: int) -> Seq<char> {
    let first = window_first_day(kind, day_of_instant(t));
    match kind {
        PeriodKind::Day => text_of_day(first),
        PeriodKind::Week => "Week starting "@ + text_of_day(first),
        PeriodKind::Month => month_text(first),
    }
}

/// The period a token names, if any.
pub fn parse_period(token: &str) -> (r: Option<PeriodKind>)
    ensures
        r == period_of_token(token@),
{
    if str_eq(token, "day") {
        Some(PeriodKind::Day)
    } else if str_eq(token, "week") {
        Some(PeriodKind::Week)
    } else if str_eq(token, "month") {
        Some(PeriodKind::Month)
    } else {
        None
    }
}

/// The date of day `n`, which lies in the calendar's range.
fn date_of_day(n: i64) -> (r: CivilDate)
    requires
        first_day() <= n <= last_day(),
    ensures
        r == civil_of_day(n as int),
        r.wf(),
        r.epoch_day() == n,
{
    proof {
        lemma_day_has_date(n as int);
    }
    match civil_date_of_day(n as i32) {
        Some(c) => {
            proof {
                lemma_civil_of_day(c);
            }
            c
        },
        None => {
            proof {
                assert(false);
            }
            CivilDate { year: 1970, month: 1, day: 1 }
        },
    }
}

/// The day number of a valid date in the calendar's range.
fn day_of_date(y: i32, m: u32, d: u32) -> (r: i64)
    requires
        MIN_YEAR <= y <= MAX_YEAR,
        is_valid_date(y as int, m as int, d as int),
    ensures
        r == epoch_day(y as int, m as int, d as int),
{
    match day_of_civil_date(y, m, d) {
        Some(n) => n as i64,
        None => {
            proof {
                assert(false);
            }
            0
        },
    }
}

/// The first and last years of the calendar border the instants in range.
proof fn lemma_year_edges()
    ensures
        epoch_day(MAX_YEAR as int, 1, 1) == epoch_day(MAX_YEAR - 1, 12, 31) + 1,
        epoch_day(MIN_YEAR + 1, 1, 1) == epoch_day(MIN_YEAR as int, 12, 31) + 1,
{
    lemma_year_step(MAX_YEAR - 1);
    lemma_year_step(MIN_YEAR as int);
}

/// Whether periods can be resolved at instant `t`.
pub fn instant_supported(t: i64) -> (r: bool)
    ensures
        r == instant_in_range(t as int),
{
    proof {
        assert(epoch_day(MIN_YEAR + 1, 1, 1) == -96464927);
        assert(epoch_day(MAX_YEAR - 1, 12, 31) == 95025871);
    }
    -8_334_569_692_800 <= t && t < 8_210_235_340_800
}

/// Resolves `token` at instant `now` into its window and label: `day` is the
/// day that holds `now`, `week` the week from the Monday on or before it, and
/// `month` its calendar month.
pub fn resolve_period(token: &str, now: i64) -> (r: Result<ReportPeriod, ReportError>)
    requires
        instant_in_range(now as int),
    ensures
        match period_of_token(token@) {
            None => r == Err::<ReportPeriod, ReportError>(ReportError::InvalidPeriod),
            Some(kind) => r matches Ok(p) && p.start == period_start(kind, now as int) && p.end
                == period_end(kind, now as int) && p.label@ == period_label(kind, now as int),
        },
{
    let kind = match parse_period(token) {
        Some(k) => k,
        None => return Err(ReportError::InvalidPeriod),
    };
    let n = day_of(now);
    match kind {
        PeriodKind::Day => {
            let c = date_of_day(n);
            let label = format_date(c);
            Ok(ReportPeriod { start: n * SECONDS_PER_DAY, end: (n + 1) * SECONDS_PER_DAY, label })
        },
        PeriodKind::Week => {
            let shifted: i64 = n + 3 + 140_000_000;
            let since: i64 = shifted % 7;
            assert(since == days_since_monday(n as int));
            let first: i64 = n - since;
            let c = date_of_day(first);
            let mut label = owned("Week starting ");
            let date = format_date(c);
            label.append(date.as_str());
            Ok(
                ReportPeriod {
                    start: first * SECONDS_PER_DAY,
                    end: (first + 7) * SECONDS_PER_DAY,
                    label,
                },
            )
        },
        PeriodKind::Month => {
            let c = date_of_day(n);
            proof {
                lemma_year_bounds(c, MAX_YEAR as int);
                lemma_year_bounds(c, MIN_YEAR as int);
                lemma_year_edges();
            }
            let first = day_of_date(c.year, c.month, 1);
            let (ny, nm) = if c.month == 12 {
                (c.year + 1, 1u32)
            } else {
                (c.year, c.month + 1)
            };
            let end = day_of_date(ny, nm, 1);
            let first_date = CivilDate { year: c.year, month: c.month, day: 1 };
            proof {
                lemma_civil_of_day(first_date);
            }
            let text = format_date(first_date);
            let len = text.as_str().unicode_len();
            let label = if len >= 3 {
                owned(text.as_str().substring_char(0, len - 3))
            } else {
                text
            };
            Ok(ReportPeriod { start: first * SECONDS_PER_DAY, end: end * SECONDS_PER_DAY, label })
        },
    }
}

/// Windows of one granularity tile time: the window that holds the instant at
/// which another window ends starts exactly there.
pub proof fn lemma_windows_tile(kind: PeriodKind, t: int)
    requires
        instant_in_range(t),
        instant_in_range(period_end(kind, t)),
    ensures
        period_start(kind, period_end(kind, t)) == period_end(kind, t),
{
    let n = day_of_instant(t);
    let e = window_end_day(kind, n);
    assert(day_of_instant(e * SECONDS_PER_DAY) == e);
    if kind == PeriodKind::Month {
        lemma_day_has_date(n);
        let c = civil_of_day(n);
        lemma_year_bounds(c, MAX_YEAR as int);
        lemma_year_bounds(c, MIN_YEAR as int);
        lemma_year_edges();
        let (y, m) = next_month(c.year as int, c.month as int);
        let d = CivilDate { year: y as i32, month: m as u32, day: 1 };
        lemma_civil_of_day(d);
    }
}

/// The window resolved at an instant holds that instant.
pub proof fn lemma_window_holds_instant(kind: PeriodKind, t: int)
    requires
        instant_in_range(t),
    ensures
        period_start(kind, t) <= t < period_end(kind, t),
{
    let n = day_of_instant(t);
    assert(n * SECONDS_PER_DAY <= t < (n + 1) * SECONDS_PER_DAY);
    if kind == PeriodKind::Month {
        lemma_day_has_date(n);
        let c = civil_of_day(n);
        lemma_month_step(c.year as int, c.month as int);
        lemma_year_step(c.year as int);
    }
}

/// A month window opened in December closes at midnight on the first of
/// January of the following year.
pub proof fn lemma_december_rolls_over(t: int)
    requires
        instant_in_range(t),
        civil_of_day(day_of_instant(t)).month == 12,
    ensures
        period_end(PeriodKind::Month, t) == epoch_day(
            civil_of_day(day_of_instant(t)).year + 1,
            1,
            1,
        ) * SECONDS_PER_DAY,
{
}

} // verus!
