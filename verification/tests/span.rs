use gettime::date::CivilDate;
use gettime::error::LogtimeError;
use gettime::span::current_day_span;
use gettime::span::current_month_span;
use gettime::span::current_week_span;
use gettime::span::explicit_span;
use gettime::span::resolve_span;
use gettime::span::SpanMode;

#[test]
fn month_span_leap_february() {
    let today = CivilDate { year: 2024, month: 2, day: 10 };
    let span = current_month_span(today);
    assert_eq!(span.from, "2024-02-01");
    assert_eq!(span.to, "2024-02-29");
}

#[test]
fn month_span_common_february() {
    let today = CivilDate { year: 2023, month: 2, day: 10 };
    let span = current_month_span(today);
    assert_eq!(span.from, "2023-02-01");
    assert_eq!(span.to, "2023-02-28");
}

#[test]
fn month_span_ordinary_month() {
    let today = CivilDate { year: 2024, month: 6, day: 12 };
    let span = current_month_span(today);
    assert_eq!(span.from, "2024-06-01");
    assert_eq!(span.to, "2024-06-30");
}

#[test]
fn week_span_starts_on_monday() {
    // Wednesday 2024-06-12: the week runs [2024-06-10, 2024-06-17)
    let today = CivilDate { year: 2024, month: 6, day: 12 };
    let span = current_week_span(today);
    assert_eq!(span.from, "2024-06-10");
    assert_eq!(span.to, "2024-06-17");
}

#[test]
fn week_span_on_a_monday_keeps_the_day() {
    let today = CivilDate { year: 2024, month: 6, day: 10 };
    let span = current_week_span(today);
    assert_eq!(span.from, "2024-06-10");
    assert_eq!(span.to, "2024-06-17");
}

#[test]
fn week_span_across_a_month_boundary() {
    // Saturday 2024-06-01: the week began Monday 2024-05-27
    let today = CivilDate { year: 2024, month: 6, day: 1 };
    let span = current_week_span(today);
    assert_eq!(span.from, "2024-05-27");
    assert_eq!(span.to, "2024-06-03");
}

#[test]
fn day_span_runs_to_tomorrow() {
    let today = CivilDate { year: 2024, month: 6, day: 12 };
    let span = current_day_span(today);
    assert_eq!(span.from, "2024-06-12");
    assert_eq!(span.to, "2024-06-13");
}

#[test]
fn day_span_rolls_over_the_year() {
    let today = CivilDate { year: 2023, month: 12, day: 31 };
    let span = current_day_span(today);
    assert_eq!(span.from, "2023-12-31");
    assert_eq!(span.to, "2024-01-01");
}

#[test]
fn explicit_span_keeps_valid_strings() {
    let span = explicit_span("2024-01-15", "2024-02-31").unwrap();
    assert_eq!(span.from, "2024-01-15");
    // calendar legality is not validated for explicit ranges
    assert_eq!(span.to, "2024-02-31");
}

#[test]
fn explicit_span_rejects_bad_patterns() {
    assert_eq!(explicit_span("2024-1-15", "2024-02-01").unwrap_err(), LogtimeError::InvalidDateFormat);
    assert_eq!(explicit_span("2024-01-15", "tomorrow").unwrap_err(), LogtimeError::InvalidDateFormat);
}

#[test]
fn resolve_span_modes() {
    let today = CivilDate { year: 2024, month: 6, day: 12 };
    let day = resolve_span(SpanMode::CurrentDay, today, &None, &None).unwrap();
    assert_eq!((day.from.as_str(), day.to.as_str()), ("2024-06-12", "2024-06-13"));
    let week = resolve_span(SpanMode::CurrentWeek, today, &None, &None).unwrap();
    assert_eq!((week.from.as_str(), week.to.as_str()), ("2024-06-10", "2024-06-17"));
    let month = resolve_span(SpanMode::CurrentMonth, today, &None, &None).unwrap();
    assert_eq!((month.from.as_str(), month.to.as_str()), ("2024-06-01", "2024-06-30"));
}

#[test]
fn resolve_span_configured_range() {
    let today = CivilDate { year: 2024, month: 6, day: 12 };
    let from = Some(String::from("2024-03-01"));
    let to = Some(String::from("2024-04-01"));
    let span = resolve_span(SpanMode::Configured, today, &from, &to).unwrap();
    assert_eq!((span.from.as_str(), span.to.as_str()), ("2024-03-01", "2024-04-01"));
}

#[test]
fn resolve_span_configured_bad_date_fails() {
    let today = CivilDate { year: 2024, month: 6, day: 12 };
    let from = Some(String::from("01-03-2024"));
    let to = Some(String::from("2024-04-01"));
    let r = resolve_span(SpanMode::Configured, today, &from, &to);
    assert_eq!(r.unwrap_err(), LogtimeError::InvalidDateFormat);
}

#[test]
fn resolve_span_without_range_falls_back_to_month() {
    let today = CivilDate { year: 2024, month: 6, day: 12 };
    let span = resolve_span(SpanMode::Configured, today, &None, &None).unwrap();
    assert_eq!((span.from.as_str(), span.to.as_str()), ("2024-06-01", "2024-06-30"));
    // a half-configured range is treated as no range
    let from = Some(String::from("2024-03-01"));
    let span = resolve_span(SpanMode::Configured, today, &from, &None).unwrap();
    assert_eq!((span.from.as_str(), span.to.as_str()), ("2024-06-01", "2024-06-30"));
}
