//! Resolution of the reporting date span: explicit range, current
//! day, current week, or current month.

use vstd::prelude::*;

verus! {

use crate::date::CivilDate;
use crate::date::spec_date_format_ok;
use crate::date::spec_day_number;
use crate::date::spec_format_date;
use crate::date::spec_month_length;
use crate::date::spec_parse_date;
use crate::date::spec_weekday;
use crate::error::LogtimeError;

/// The resolved reporting range, as the two `YYYY-MM-DD` strings the
/// wire protocol carries. `to` is an exclusive boundary.
#[derive(Clone, Debug)]
pub struct DateSpan {
    pub from: String,
    pub to: String,
}

impl DateSpan {
    /// Both bounds match the `YYYY-MM-DD` pattern.
    pub open spec fn wf(self) -> bool {
        spec_date_format_ok(self.from@) && spec_date_format_ok(self.to@)
    }
}

/// How the reporting span is selected.
#[derive(Clone, Copy, PartialEq, Eq, Structural, Debug)]
pub enum SpanMode {
    CurrentDay,
    CurrentWeek,
    CurrentMonth,
    Configured,
}

/// The span covering the month of `today`, first day through last.
pub open spec fn spec_is_month_span(r: DateSpan, today: CivilDate) -> bool {
    let start = CivilDate { year: today.year, month: today.month, day: 1 };
    let end = CivilDate {
        year: today.year,
        month: today.month,
        day: spec_month_length(today.year as int, today.month as int) as u32,
    };
    &&& r.wf()
    &&& r.from@ == spec_format_date(start)
    &&& r.to@ == spec_format_date(end)
    &&& spec_parse_date(r.from@) == start
    &&& spec_parse_date(r.to@) == end
    &&& spec_day_number(start) < spec_day_number(end)
}

/// The span covering the day of `today`: today through tomorrow.
pub open spec fn spec_is_day_span(r: DateSpan, today: CivilDate) -> bool {
    &&& r.wf()
    &&& r.from@ == spec_format_date(today)
    &&& spec_parse_date(r.from@) == today
    &&& spec_parse_date(r.to@).valid()
    &&& spec_day_number(spec_parse_date(r.to@)) == spec_day_number(today) + 1
    &&& r.to@ == spec_format_date(spec_parse_date(r.to@))
}

/// The span covering the week of `today`: the most recent Monday on
/// or before `today` through the following Monday.
pub open spec fn spec_is_week_span(r: DateSpan, today: CivilDate) -> bool {
    &&& r.wf()
    &&& spec_parse_date(r.from@).valid()
    &&& spec_parse_date(r.to@).valid()
    &&& spec_weekday(spec_parse_date(r.from@)) == 0
    &&& spec_day_number(spec_parse_date(r.from@)) == spec_day_number(today) - spec_weekday(today)
    &&& spec_day_number(spec_parse_date(r.to@)) == spec_day_number(spec_parse_date(r.from@)) + 7
    &&& r.from@ == spec_format_date(spec_parse_date(r.from@))
    &&& r.to@ == spec_format_date(spec_parse_date(r.to@))
}

/// A February month span ends on day 29 in a year satisfying the
/// leap rule and on day 28 otherwise.
pub proof fn lemma_month_span_february(r: DateSpan, today: CivilDate)
    requires
        today.valid(),
        today.month == 2,
        spec_is_month_span(r, today),
    ensures
        spec_parse_date(r.to@).day == if crate::date::spec_is_leap_year(today.year as int) {
            29int
        } else {
            28int
        },
{
}

/// A week span always starts on a Monday.
pub proof fn lemma_week_span_starts_monday(r: DateSpan, today: CivilDate)
    requires
        spec_is_week_span(r, today),
    ensures
        spec_weekday(spec_parse_date(r.from@)) == 0,
{
}

/// Builds the span of an explicit `from`/`to` range, validating only
/// the `YYYY-MM-DD` pattern of each bound, never calendar legality.
pub fn explicit_span(from: &str, to: &str) -> (r: Result<DateSpan, LogtimeError>)
    ensures
        r is Ok <==> spec_date_format_ok(from@) && spec_date_format_ok(to@),
        r matches Ok(ds) ==> ds.wf() && ds.from@ == from@ && ds.to@ == to@,
        r is Err ==> r == Err::<DateSpan, _>(LogtimeError::InvalidDateFormat),
{
    if !crate::date::valid_date_format(from) || !crate::date::valid_date_format(to) {
        return Err(LogtimeError::InvalidDateFormat);
    }
    Ok(DateSpan { from: from.to_owned(), to: to.to_owned() })
}

/// The span of the current month of `today`.
pub fn current_month_span(today: CivilDate) -> (r: DateSpan)
    requires
        today.valid(),
    ensures
        spec_is_month_span(r, today),
{
    let (start, end) = crate::date::month_span(today);
    proof {
        crate::date::lemma_format_date_ok(start);
        crate::date::lemma_format_date_ok(end);
        crate::date::lemma_format_parse_roundtrip(start);
        crate::date::lemma_format_parse_roundtrip(end);
    }
    DateSpan { from: crate::date::format_date(&start), to: crate::date::format_date(&end) }
}

/// The span of the current day of `today`.
pub fn current_day_span(today: CivilDate) -> (r: DateSpan)
    requires
        today.valid(),
        !(today.year == 9999 && today.month == 12 && today.day == 31),
    ensures
        spec_is_day_span(r, today),
{
    let (start, end) = crate::date::day_span(today);
    proof {
        crate::date::lemma_format_date_ok(start);
        crate::date::lemma_format_date_ok(end);
        crate::date::lemma_format_parse_roundtrip(start);
        crate::date::lemma_format_parse_roundtrip(end);
    }
    DateSpan { from: crate::date::format_date(&start), to: crate::date::format_date(&end) }
}

/// The span of the current week of `today`.
pub fn current_week_span(today: CivilDate) -> (r: DateSpan)
    requires
        today.valid(),
        crate::date::spec_week_representable(today),
    ensures
        spec_is_week_span(r, today),
{
    let (start, end) = crate::date::week_span(today);
    proof {
        crate::date::lemma_format_date_ok(start);
        crate::date::lemma_format_date_ok(end);
        crate::date::lemma_format_parse_roundtrip(start);
        crate::date::lemma_format_parse_roundtrip(end);
    }
    DateSpan { from: crate::date::format_date(&start), to: crate::date::format_date(&end) }
}

/// Resolves the reporting span from the selected mode, the current
/// local calendar date, and the configured explicit range. Without a
/// mode override and without a complete configured range, the current
/// month is used.
pub fn resolve_span(
    mode: SpanMode,
    today: CivilDate,
    from: &Option<String>,
    to: &Option<String>,
) -> (r: Result<DateSpan, LogtimeError>)
    requires
        today.valid(),
        1 <= today.year <= 9998,
    ensures
        match mode {
            SpanMode::CurrentDay => r matches Ok(ds) && spec_is_day_span(ds, today),
            SpanMode::CurrentWeek => r matches Ok(ds) && spec_is_week_span(ds, today),
            SpanMode::CurrentMonth => r matches Ok(ds) && spec_is_month_span(ds, today),
            SpanMode::Configured => match (from, to) {
                (Some(f), Some(t)) => {
                    &&& r is Ok <==> spec_date_format_ok(f@) && spec_date_format_ok(t@)
                    &&& r matches Ok(ds) ==> ds.wf() && ds.from@ == f@ && ds.to@ == t@
                    &&& r is Err ==> r == Err::<DateSpan, _>(LogtimeError::InvalidDateFormat)
                },
                _ => r matches Ok(ds) && spec_is_month_span(ds, today),
            },
        },
{
    match mode {
        SpanMode::CurrentDay => Ok(current_day_span(today)),
        SpanMode::CurrentWeek => {
            proof {
                crate::date::lemma_mid_years_week_representable(today);
            }
            Ok(current_week_span(today))
        },
        SpanMode::CurrentMonth => Ok(current_month_span(today)),
        SpanMode::Configured => {
            match (from, to) {
                (Some(f), Some(t)) => explicit_span(f.as_str(), t.as_str()),
                _ => Ok(current_month_span(today)),
            }
        },
    }
}

} // verus!
