use park_backend::calendar::{civil_date_of_day, day_of, day_of_civil_date, format_date, CivilDate};
use park_backend::income::IncomeReportHandler;
use park_backend::period::{instant_supported, parse_period, resolve_period, PeriodKind, ReportError};

#[test]
fn day_window_is_the_utc_day() {
    let p = resolve_period("day", 1718447400).unwrap();
    assert_eq!(p.start, 1718409600);
    assert_eq!(p.end, 1718496000);
    assert_eq!(p.label, "2024-06-15");
}

#[test]
fn week_window_starts_on_monday() {
    let p = resolve_period("week", 1718447400).unwrap();
    assert_eq!(p.start, 1717977600);
    assert_eq!(p.end, 1718582400);
    assert_eq!(p.label, "Week starting 2024-06-10");
}

#[test]
fn week_window_on_a_monday_starts_that_day() {
    let p = resolve_period("week", 1718006400).unwrap();
    assert_eq!(p.start, 1717977600);
    assert_eq!(p.end, 1718582400);
}

#[test]
fn month_window_is_the_calendar_month() {
    let p = resolve_period("month", 1718447400).unwrap();
    assert_eq!(p.start, 1717200000);
    assert_eq!(p.end, 1719792000);
    assert_eq!(p.label, "2024-06");
}

#[test]
fn month_window_in_leap_february() {
    let p = resolve_period("month", 1709182800).unwrap();
    assert_eq!(p.start, 1706745600);
    assert_eq!(p.end, 1709251200);
    assert_eq!(p.label, "2024-02");
}

#[test]
fn december_month_rolls_over_to_january() {
    let p = resolve_period("month", 1735689599).unwrap();
    assert_eq!(p.start, 1733011200);
    assert_eq!(p.end, 1735689600);
    assert_eq!(p.label, "2024-12");
    let next = resolve_period("month", p.end).unwrap();
    assert_eq!(next.start, 1735689600);
    assert_eq!(next.label, "2025-01");
}

#[test]
fn consecutive_windows_meet() {
    for token in ["day", "week", "month"] {
        let p = resolve_period(token, 1718447400).unwrap();
        let next = resolve_period(token, p.end).unwrap();
        assert_eq!(next.start, p.end);
        assert!(next.end > next.start);
    }
}

#[test]
fn instants_before_the_epoch_round_down() {
    let p = resolve_period("day", -43200).unwrap();
    assert_eq!(p.start, -86400);
    assert_eq!(p.end, 0);
    assert_eq!(p.label, "1969-12-31");
    assert_eq!(day_of(-1), -1);
    assert_eq!(day_of(0), 0);
}

#[test]
fn unknown_token_is_rejected() {
    assert_eq!(resolve_period("year", 1718447400).unwrap_err(), ReportError::InvalidPeriod);
    assert_eq!(resolve_period("Day", 1718447400).unwrap_err(), ReportError::InvalidPeriod);
    assert_eq!(
        IncomeReportHandler::resolve_period("", 1718447400).unwrap_err().message(),
        "Invalid time period specified. Use 'day', 'week', or 'month'"
    );
    assert_eq!(parse_period("week"), Some(PeriodKind::Week));
    assert_eq!(parse_period("weeks"), None);
}

#[test]
fn supported_instants() {
    assert!(instant_supported(0));
    assert!(instant_supported(1718447400));
    assert!(!instant_supported(i64::MAX));
    assert!(!instant_supported(i64::MIN));
}

#[test]
fn calendar_conversions_agree() {
    assert_eq!(civil_date_of_day(0), Some(CivilDate { year: 1970, month: 1, day: 1 }));
    assert_eq!(civil_date_of_day(19889), Some(CivilDate { year: 2024, month: 6, day: 15 }));
    assert_eq!(civil_date_of_day(i32::MAX), None);
    assert_eq!(day_of_civil_date(2024, 6, 15), Some(19889));
    assert_eq!(day_of_civil_date(2023, 2, 29), None);
    assert_eq!(format_date(CivilDate { year: 987, month: 3, day: 4 }), "0987-03-04");
}
