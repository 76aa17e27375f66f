//! Civil (calendar) dates under the proleptic Gregorian rules: leap
//! years, month lengths, day numbering, and weekday computation.

use vstd::prelude::*;

verus! {

use vstd::arithmetic::div_mod::lemma_div_denominator;
use vstd::arithmetic::div_mod::lemma_fundamental_div_mod;
use vstd::arithmetic::div_mod::lemma_mod_multiples_basic;

/// A calendar date without time-of-day or timezone component.
#[derive(Clone, Copy, PartialEq, Eq, Structural, Debug)]
pub struct CivilDate {
    pub year: u32,
    pub month: u32,
    pub day: u32,
}

/// The standard Gregorian leap rule: divisible by 400 leap; else
/// divisible by 100 not leap; else divisible by 4 leap; else not.
pub open spec fn spec_is_leap_year(y: int) -> bool {
    if y % 400 == 0 {
        true
    } else if y % 100 == 0 {
        false
    } else {
        y % 4 == 0
    }
}

pub fn is_leap_year(y: u32) -> (r: bool)
    ensures
        r == spec_is_leap_year(y as int),
{
    if y % 400 == 0 {
        true
    } else if y % 100 == 0 {
        false
    } else {
        y % 4 == 0
    }
}

/// Number of days of month `m` (1-based) of year `y`.
pub open spec fn spec_month_length(y: int, m: int) -> int {
    if m == 2 {
        if spec_is_leap_year(y) {
            29
        } else {
            28
        }
    } else if m == 4 || m == 6 || m == 9 || m == 11 {
        30
    } else {
        31
    }
}

pub fn month_length(y: u32, m: u32) -> (r: u32)
    ensures
        r as int == spec_month_length(y as int, m as int),
{
    if m == 2 {
        if is_leap_year(y) {
            29
        } else {
            28
        }
    } else if m == 4 || m == 6 || m == 9 || m == 11 {
        30
    } else {
        31
    }
}

/// Length of a year in days.
pub open spec fn spec_days_in_year(y: int) -> int {
    if spec_is_leap_year(y) {
        366
    } else {
        365
    }
}

/// Days from 0000-01-01 up to the first day of year `y` in the
/// proleptic Gregorian calendar.
pub open spec fn spec_days_before_year(y: int) -> int
    decreases y,
{
    if y <= 0 {
        0
    } else {
        spec_days_before_year(y - 1) + spec_days_in_year(y - 1)
    }
}

/// Days of year `y` that precede the first day of month `m`.
pub open spec fn spec_days_before_month(y: int, m: int) -> int
    decreases m,
{
    if m <= 1 {
        0
    } else {
        spec_days_before_month(y, m - 1) + spec_month_length(y, m - 1)
    }
}

/// Index of a date in the proleptic Gregorian calendar, counting
/// 0000-01-01 as day 0.
pub open spec fn spec_day_number(d: CivilDate) -> int {
    spec_days_before_year(d.year as int) + spec_days_before_month(d.year as int, d.month as int)
        + d.day - 1
}

/// Weekday of a date with Monday as 0 and Sunday as 6.
/// 0000-01-01 of the proleptic Gregorian calendar is a Saturday.
pub open spec fn spec_weekday(d: CivilDate) -> int {
    (spec_day_number(d) + 5) % 7
}

/// The twelve month lengths of a year sum to its day count.
pub proof fn lemma_days_before_month_full(y: int)
    ensures
        spec_days_before_month(y, 13) == spec_days_in_year(y),
{
    assert(spec_days_before_month(y, 1) == 0);
    assert(spec_days_before_month(y, 2) == 31);
    assert(spec_days_before_month(y, 3) == spec_days_before_month(y, 2) + spec_month_length(y, 2));
    assert(spec_days_before_month(y, 4) == spec_days_before_month(y, 3) + 31);
    assert(spec_days_before_month(y, 5) == spec_days_before_month(y, 4) + 30);
    assert(spec_days_before_month(y, 6) == spec_days_before_month(y, 5) + 31);
    assert(spec_days_before_month(y, 7) == spec_days_before_month(y, 6) + 30);
    assert(spec_days_before_month(y, 8) == spec_days_before_month(y, 7) + 31);
    assert(spec_days_before_month(y, 9) == spec_days_before_month(y, 8) + 31);
    assert(spec_days_before_month(y, 10) == spec_days_before_month(y, 9) + 30);
    assert(spec_days_before_month(y, 11) == spec_days_before_month(y, 10) + 31);
    assert(spec_days_before_month(y, 12) == spec_days_before_month(y, 11) + 30);
    assert(spec_days_before_month(y, 13) == spec_days_before_month(y, 12) + 31);
}

/// `spec_days_before_month` grows with the month.
pub proof fn lemma_days_before_month_mono(y: int, m1: int, m2: int)
    requires
        m1 <= m2,
    ensures
        spec_days_before_month(y, m1) <= spec_days_before_month(y, m2),
    decreases m2 - m1,
{
    if m1 < m2 {
        lemma_days_before_month_mono(y, m1, m2 - 1);
        assert(spec_month_length(y, m2 - 1) >= 28);
    }
}

/// Day-count bounds of the years that precede year `y`.
pub proof fn lemma_days_before_year_bounds(y: int)
    requires
        y >= 0,
    ensures
        365 * y <= spec_days_before_year(y) <= 366 * y,
    decreases y,
{
    if y > 0 {
        lemma_days_before_year_bounds(y - 1);
    }
}

/// The day number of a valid date lies within its year's day range.
pub proof fn lemma_day_number_in_year(d: CivilDate)
    requires
        d.valid(),
    ensures
        spec_days_before_year(d.year as int) <= spec_day_number(d) < spec_days_before_year(
            d.year as int + 1,
        ),
{
    let y = d.year as int;
    let m = d.month as int;
    lemma_days_before_month_mono(y, 1, m);
    lemma_days_before_month_mono(y, m + 1, 13);
    lemma_days_before_month_full(y);
    assert(spec_days_before_month(y, m + 1) == spec_days_before_month(y, m) + spec_month_length(
        y,
        m,
    ));
    assert(spec_days_before_year(y + 1) == spec_days_before_year(y) + spec_days_in_year(y));
}

/// `spec_days_before_year` grows with the year.
pub proof fn lemma_days_before_year_mono(y1: int, y2: int)
    requires
        y1 <= y2,
    ensures
        spec_days_before_year(y1) <= spec_days_before_year(y2),
    decreases y2 - y1,
{
    if y1 < y2 {
        lemma_days_before_year_mono(y1, y2 - 1);
        assert(spec_days_in_year(y2 - 1) >= 365);
    }
}

impl CivilDate {
    /// A date this library works with: a four-digit year and a
    /// calendar-legal month/day pair.
    pub open spec fn valid(self) -> bool {
        &&& self.year <= 9999
        &&& 1 <= self.month <= 12
        &&& 1 <= self.day <= spec_month_length(self.year as int, self.month as int)
    }

    /// Index of this date in the proleptic Gregorian calendar,
    /// counting 0000-01-01 as day 0.
    pub fn day_number(&self) -> (r: u32)
        requires
            self.valid(),
        ensures
            r as int == spec_day_number(*self),
    {
        let mut sum: u32 = 0;
        let mut y: u32 = 0;
        while y < self.year
            invariant
                y <= self.year <= 9999,
                sum as int == spec_days_before_year(y as int),
                sum <= 366 * y,
            decreases self.year - y,
        {
            proof {
                lemma_days_before_year_bounds(y as int + 1);
            }
            sum = sum + if is_leap_year(y) {
                366
            } else {
                365
            };
            y = y + 1;
        }
        let mut m: u32 = 1;
        while m < self.month
            invariant
                1 <= m <= self.month <= 12,
                self.valid(),
                sum as int == spec_days_before_year(self.year as int) + spec_days_before_month(
                    self.year as int,
                    m as int,
                ),
                sum <= 366 * 9999 + 31 * 12,
            decreases self.month - m,
        {
            proof {
                lemma_days_before_year_bounds(self.year as int);
                lemma_days_before_month_mono(self.year as int, 1, m as int);
                lemma_days_before_month_mono(self.year as int, m as int, 12);
                lemma_days_before_month_full(self.year as int);
                lemma_days_before_month_mono(self.year as int, m as int + 1, 13);
            }
            sum = sum + month_length(self.year, m);
            m = m + 1;
        }
        sum + (self.day - 1)
    }

    /// Weekday of this date, with Monday as 0 and Sunday as 6.
    pub fn weekday(&self) -> (r: u32)
        requires
            self.valid(),
        ensures
            r as int == spec_weekday(*self),
            r <= 6,
    {
        proof {
            lemma_day_number_in_year(*self);
            lemma_days_before_year_bounds(self.year as int + 1);
        }
        (self.day_number() + 5) % 7
    }

    /// The next calendar day.
    pub fn succ(&self) -> (r: CivilDate)
        requires
            self.valid(),
            !(self.year == 9999 && self.month == 12 && self.day == 31),
        ensures
            r.valid(),
            spec_day_number(r) == spec_day_number(*self) + 1,
    {
        let y = self.year;
        let m = self.month;
        if self.day < month_length(y, m) {
            CivilDate { year: y, month: m, day: self.day + 1 }
        } else if self.month < 12 {
            proof {
                assert(spec_days_before_month(y as int, m as int + 1) == spec_days_before_month(
                    y as int,
                    m as int,
                ) + spec_month_length(y as int, m as int));
            }
            CivilDate { year: y, month: m + 1, day: 1 }
        } else {
            proof {
                lemma_days_before_month_full(y as int);
                assert(spec_days_before_month(y as int, 13) == spec_days_before_month(y as int, 12)
                    + 31);
                assert(spec_days_before_year(y as int + 1) == spec_days_before_year(y as int)
                    + spec_days_in_year(y as int));
            }
            CivilDate { year: y + 1, month: 1, day: 1 }
        }
    }

    /// The previous calendar day.
    pub fn pred(&self) -> (r: CivilDate)
        requires
            self.valid(),
            spec_day_number(*self) >= 1,
        ensures
            r.valid(),
            spec_day_number(r) == spec_day_number(*self) - 1,
    {
        let y = self.year;
        let m = self.month;
        if self.day > 1 {
            CivilDate { year: y, month: m, day: self.day - 1 }
        } else if m > 1 {
            proof {
                assert(spec_days_before_month(y as int, m as int) == spec_days_before_month(
                    y as int,
                    m as int - 1,
                ) + spec_month_length(y as int, m as int - 1));
            }
            CivilDate { year: y, month: m - 1, day: month_length(y, m - 1) }
        } else {
            proof {
                assert(spec_days_before_month(y as int, 1) == 0);
                assert(y >= 1) by {
                    if y == 0 {
                        assert(spec_days_before_year(0) == 0);
                    }
                }
                lemma_days_before_month_full(y as int - 1);
                assert(spec_days_before_month(y as int - 1, 13) == spec_days_before_month(
                    y as int - 1,
                    12,
                ) + 31);
                assert(spec_days_before_year(y as int) == spec_days_before_year(y as int - 1)
                    + spec_days_in_year(y as int - 1));
            }
            CivilDate { year: y - 1, month: 12, day: 31 }
        }
    }

    /// Builds a date after checking calendar legality.
    pub fn new(year: u32, month: u32, day: u32) -> (r: Option<CivilDate>)
        ensures
            match r {
                Some(d) => d.valid() && d.year == year && d.month == month && d.day == day,
                None => !(CivilDate { year, month, day }).valid(),
            },
    {
        if year <= 9999 && 1 <= month && month <= 12 && 1 <= day && day <= month_length(year, month) {
            Some(CivilDate { year, month, day })
        } else {
            None
        }
    }
}

/// The `YYYY-MM-DD` shape: exactly ten characters, dashes after the
/// four-digit year and the two-digit month, decimal digits elsewhere.
/// Calendar legality is no part of this predicate.
pub open spec fn spec_date_format_ok(s: Seq<char>) -> bool {
    &&& s.len() == 10
    &&& s[4] == '-'
    &&& s[7] == '-'
    &&& forall|i: int|
        0 <= i < 10 && i != 4 && i != 7 ==> crate::text::spec_is_digit(#[trigger] s[i])
}

/// Numeric value of a digit character.
pub open spec fn spec_digit_val(c: char) -> int {
    c as u32 - 48
}

/// The date that a `YYYY-MM-DD` string denotes.
pub open spec fn spec_parse_date(s: Seq<char>) -> CivilDate
    recommends
        spec_date_format_ok(s),
{
    CivilDate {
        year: (spec_digit_val(s[0]) * 1000 + spec_digit_val(s[1]) * 100 + spec_digit_val(s[2]) * 10
            + spec_digit_val(s[3])) as u32,
        month: (spec_digit_val(s[5]) * 10 + spec_digit_val(s[6])) as u32,
        day: (spec_digit_val(s[8]) * 10 + spec_digit_val(s[9])) as u32,
    }
}

/// The `YYYY-MM-DD` string of a date.
pub open spec fn spec_format_date(d: CivilDate) -> Seq<char> {
    let y = d.year as int;
    let m = d.month as int;
    let day = d.day as int;
    seq![
        crate::text::spec_digit_char(y / 1000),
        crate::text::spec_digit_char(y / 100 % 10),
        crate::text::spec_digit_char(y / 10 % 10),
        crate::text::spec_digit_char(y % 10),
        '-',
        crate::text::spec_digit_char(m / 10),
        crate::text::spec_digit_char(m % 10),
        '-',
        crate::text::spec_digit_char(day / 10),
        crate::text::spec_digit_char(day % 10),
    ]
}

/// A digit character carries its digit value.
pub proof fn lemma_digit_char_val(v: int)
    requires
        0 <= v <= 9,
    ensures
        spec_digit_val(crate::text::spec_digit_char(v)) == v,
        crate::text::spec_is_digit(crate::text::spec_digit_char(v)),
{
}

/// Parsing the formatted string of a valid date gives the date back.
pub proof fn lemma_format_parse_roundtrip(d: CivilDate)
    requires
        d.valid(),
    ensures
        spec_parse_date(spec_format_date(d)) == d,
{
    let y = d.year as int;
    let m = d.month as int;
    let day = d.day as int;
    lemma_digit_char_val(y / 1000);
    lemma_digit_char_val(y / 100 % 10);
    lemma_digit_char_val(y / 10 % 10);
    lemma_digit_char_val(y % 10);
    lemma_digit_char_val(m / 10);
    lemma_digit_char_val(m % 10);
    lemma_digit_char_val(day / 10);
    lemma_digit_char_val(day % 10);
    lemma_fundamental_div_mod(y, 10);
    lemma_fundamental_div_mod(y / 10, 10);
    lemma_fundamental_div_mod(y / 100, 10);
    lemma_div_denominator(y, 10, 10);
    lemma_div_denominator(y, 100, 10);
    lemma_div_denominator(y / 10, 10, 10);
    assert(y / 10 / 10 == y / 100);
    assert(y / 100 / 10 == y / 1000);
    assert(y == 1000 * (y / 1000) + 100 * (y / 100 % 10) + 10 * (y / 10 % 10) + y % 10);
    lemma_fundamental_div_mod(m, 10);
    lemma_fundamental_div_mod(day, 10);
    assert(spec_parse_date(spec_format_date(d)).year == d.year);
    assert(spec_parse_date(spec_format_date(d)).month == d.month);
    assert(spec_parse_date(spec_format_date(d)).day == d.day);
}

/// Formatted valid dates match the `YYYY-MM-DD` pattern.
pub proof fn lemma_format_date_ok(d: CivilDate)
    requires
        d.valid(),
    ensures
        spec_date_format_ok(spec_format_date(d)),
{
    lemma_digit_char_val(d.year as int / 1000);
    lemma_digit_char_val(d.year as int / 100 % 10);
    lemma_digit_char_val(d.year as int / 10 % 10);
    lemma_digit_char_val(d.year as int % 10);
    lemma_digit_char_val(d.month as int / 10);
    lemma_digit_char_val(d.month as int % 10);
    lemma_digit_char_val(d.day as int / 10);
    lemma_digit_char_val(d.day as int % 10);
}

/// Checks a date string for the `YYYY-MM-DD` digit-grouping pattern,
/// regardless of calendar legality.
pub fn valid_date_format(date: &str) -> (r: bool)
    ensures
        r == spec_date_format_ok(date@),
{
    if date.unicode_len() != 10 {
        return false;
    }
    let mut i: usize = 0;
    while i < 10
        invariant
            date@.len() == 10,
            i <= 10,
            forall|j: int|
                0 <= j < i && j != 4 && j != 7 ==> crate::text::spec_is_digit(#[trigger] date@[j]),
            date@.len() > 4 && i > 4 ==> date@[4] == '-',
            date@.len() > 7 && i > 7 ==> date@[7] == '-',
        decreases 10 - i,
    {
        let c = date.get_char(i);
        if i == 4 || i == 7 {
            if c != '-' {
                return false;
            }
        } else {
            let v = c as u32;
            if !(48 <= v && v <= 57) {
                return false;
            }
        }
        i = i + 1;
    }
    true
}

/// Checks a date string for the `YYYY-MM-DD` digit-grouping pattern.
/// Calendar legality is deliberately not checked: a day such as a
/// February 31st passes and simply matches no intervals upstream.
pub fn valid_format(date: &str) -> (r: bool)
    ensures
        r == spec_date_format_ok(date@),
{
    valid_date_format(date)
}

/// Reads the year, month and day fields out of a `YYYY-MM-DD` string.
/// The result need not be a calendar-legal date.
pub fn parse_date(date: &str) -> (r: CivilDate)
    requires
        spec_date_format_ok(date@),
    ensures
        r == spec_parse_date(date@),
{
    let d0 = date.get_char(0) as u32 - 48;
    let d1 = date.get_char(1) as u32 - 48;
    let d2 = date.get_char(2) as u32 - 48;
    let d3 = date.get_char(3) as u32 - 48;
    let d5 = date.get_char(5) as u32 - 48;
    let d6 = date.get_char(6) as u32 - 48;
    let d8 = date.get_char(8) as u32 - 48;
    let d9 = date.get_char(9) as u32 - 48;
    CivilDate {
        year: d0 * 1000 + d1 * 100 + d2 * 10 + d3,
        month: d5 * 10 + d6,
        day: d8 * 10 + d9,
    }
}

/// Writes a date as a `YYYY-MM-DD` string.
pub fn format_date(d: &CivilDate) -> (r: String)
    requires
        d.valid(),
    ensures
        r@ == spec_format_date(*d),
        spec_date_format_ok(r@),
{
    let y = d.year as u64;
    let m = d.month as u64;
    let day = d.day as u64;
    let mut s = String::new();
    s.append(crate::text::digit_str(y / 1000));
    s.append(crate::text::digit_str(y / 100 % 10));
    s.append(crate::text::digit_str(y / 10 % 10));
    s.append(crate::text::digit_str(y % 10));
    proof {
        reveal_strlit("-");
    }
    s.append("-");
    s.append(crate::text::digit_str(m / 10));
    s.append(crate::text::digit_str(m % 10));
    s.append("-");
    s.append(crate::text::digit_str(day / 10));
    s.append(crate::text::digit_str(day % 10));
    proof {
        assert(s@ =~= spec_format_date(*d));
    }
    s
}

/// Calendar span of the month of `today`: its first day through its
/// last day, by the Gregorian leap rule and the month-length table.
pub fn month_span(today: CivilDate) -> (r: (CivilDate, CivilDate))
    requires
        today.valid(),
    ensures
        r.0 == (CivilDate { year: today.year, month: today.month, day: 1 }),
        r.1 == (CivilDate {
            year: today.year,
            month: today.month,
            day: spec_month_length(today.year as int, today.month as int) as u32,
        }),
        r.0.valid(),
        r.1.valid(),
        spec_day_number(r.0) < spec_day_number(r.1),
{
    let start = CivilDate { year: today.year, month: today.month, day: 1 };
    let end = CivilDate { year: today.year, month: today.month, day: month_length(today.year, today.month) };
    (start, end)
}

/// Calendar span of the day of `today`: today through tomorrow
/// (exclusive boundary).
pub fn day_span(today: CivilDate) -> (r: (CivilDate, CivilDate))
    requires
        today.valid(),
        !(today.year == 9999 && today.month == 12 && today.day == 31),
    ensures
        r.0 == today,
        r.1.valid(),
        spec_day_number(r.1) == spec_day_number(today) + 1,
{
    (today, today.succ())
}

/// The week around `today` fits the representable calendar: its
/// Monday is on or after 0000-01-01 and the following Monday is on
/// or before 9999-12-31.
pub open spec fn spec_week_representable(today: CivilDate) -> bool {
    &&& spec_day_number(today) - spec_weekday(today) >= 0
    &&& spec_day_number(today) - spec_weekday(today) + 7 <= spec_day_number(
        CivilDate { year: 9999, month: 12, day: 31 },
    )
}

/// Any valid date whose year is neither 0 nor 9999 has its whole
/// week inside the representable calendar.
pub proof fn lemma_mid_years_week_representable(today: CivilDate)
    requires
        today.valid(),
        1 <= today.year <= 9998,
    ensures
        spec_week_representable(today),
{
    let y = today.year as int;
    let dn = spec_day_number(today);
    lemma_day_number_in_year(today);
    assert(spec_days_before_year(0) == 0);
    assert(spec_days_before_year(1) == 366);
    lemma_days_before_year_mono(1, y);
    lemma_days_before_year_mono(y + 1, 9999);
    lemma_days_before_month_mono(9999, 1, 12);
    assert(0 <= spec_weekday(today) < 7);
    assert(dn >= 366);
    assert(spec_day_number(CivilDate { year: 9999, month: 12, day: 31 })
        >= spec_days_before_year(9999) + 30);
}

/// Calendar span of the week of `today`: the most recent Monday on or
/// before `today` through the following Monday (exclusive boundary).
pub fn week_span(today: CivilDate) -> (r: (CivilDate, CivilDate))
    requires
        today.valid(),
        spec_week_representable(today),
    ensures
        r.0.valid(),
        r.1.valid(),
        spec_weekday(r.0) == 0,
        spec_day_number(r.0) == spec_day_number(today) - spec_weekday(today),
        spec_day_number(r.1) == spec_day_number(r.0) + 7,
{
    let days_from_monday = today.weekday();
    let mut week_start = today;
    let mut back: u32 = 0;
    while back < days_from_monday
        invariant
            back <= days_from_monday,
            days_from_monday as int == spec_weekday(today),
            week_start.valid(),
            spec_day_number(week_start) == spec_day_number(today) - back,
            spec_day_number(today) - spec_weekday(today) >= 0,
        decreases days_from_monday - back,
    {
        week_start = week_start.pred();
        back = back + 1;
    }
    proof {
        let a = spec_day_number(today) + 5;
        lemma_fundamental_div_mod(a, 7);
        lemma_mod_multiples_basic(a / 7, 7);
        assert(spec_day_number(week_start) + 5 == (a / 7) * 7);
        assert(spec_weekday(week_start) == 0);
    }
    let mut week_end = week_start;
    let mut fwd: u32 = 0;
    while fwd < 7
        invariant
            fwd <= 7,
            week_end.valid(),
            spec_day_number(week_end) == spec_day_number(week_start) + fwd,
            spec_day_number(week_start) + 7 <= spec_day_number(
                CivilDate { year: 9999, month: 12, day: 31 },
            ),
        decreases 7 - fwd,
    {
        proof {
            // the last representable date would leave no room for the
            // remaining days of the week
            if week_end.year == 9999 && week_end.month == 12 && week_end.day == 31 {
                assert(week_end == (CivilDate { year: 9999, month: 12, day: 31 }));
            }
        }
        week_end = week_end.succ();
        fwd = fwd + 1;
    }
    (week_start, week_end)
}

} // verus!
