//! Verified calendar arithmetic for month reports: leap years, month
//! lengths, day stepping and `YYYY-MM-DD` rendering. Dates are held as plain
//! year/month/day fields so every rule here is provable; the month's last
//! day is computed, as the aggregator requires, by stepping back one day
//! from the first day of the following month.

use vstd::prelude::*;
use vstd::string::StringExecFns;
use crate::text::{spec_dec, spec_pad2, u32_to_2digits, u32_to_string};

verus! {

/// Smallest year a report may be requested for.
pub const MIN_YEAR: u32 = 1900;

/// Largest year a report may be requested for.
pub const MAX_YEAR: u32 = 3000;

/// One year past the largest: the first day of the month after December of
/// `MAX_YEAR` must still be representable while computing a last day.
pub const LIMIT_YEAR: u32 = 3001;

/// A calendar date.
#[derive(Clone, Copy, Debug, PartialEq, Eq, Structural)]
pub struct Date {
    pub year: u32,
    pub month: u32,
    pub day: u32,
}

/// The Gregorian leap-year rule.
pub open spec fn spec_is_leap_year(y: int) -> bool {
    (y % 4 == 0 && y % 100 != 0) || y % 400 == 0
}

/// Whether `year` is a leap year.
pub fn is_leap_year(year: u32) -> (r: bool)
    ensures
        r == spec_is_leap_year(year as int),
{
    (year % 4 == 0 && year % 100 != 0) || year % 400 == 0
}

/// How many days the month has, honoring the leap-year rule for February.
pub open spec fn spec_days_in_month(y: int, m: int) -> int {
    if m == 2 {
        if spec_is_leap_year(y) {
            29
        } else {
            28
        }
    } else if m == 4 || m == 6 || m == 9 || m == 11 {
        30
    } else {
        31
    }
}

/// Number of days in the given month of the given year.
pub fn days_in_month(year: u32, month: u32) -> (d: u32)
    requires
        1 <= month <= 12,
    ensures
        d == spec_days_in_month(year as int, month as int),
{
    if month == 2 {
        if is_leap_year(year) {
            29
        } else {
            28
        }
    } else if month == 4 || month == 6 || month == 9 || month == 11 {
        30
    } else {
        31
    }
}

/// A date the calendar routines can represent: the year may run one past
/// `MAX_YEAR` so that stepping off the end of December of `MAX_YEAR` stays
/// representable, and the day must exist in its month.
pub open spec fn valid_date(d: Date) -> bool {
    &&& MIN_YEAR <= d.year <= LIMIT_YEAR
    &&& 1 <= d.month <= 12
    &&& 1 <= d.day <= spec_days_in_month(d.year as int, d.month as int)
}

/// The last representable date.
pub open spec fn spec_top_date() -> Date {
    Date { year: LIMIT_YEAR, month: 12, day: 31 }
}

/// The year and month that follow the given month, rolling December over to
/// January of the next year.
pub open spec fn spec_next_ym(y: int, m: int) -> (int, int) {
    if m == 12 {
        (y + 1, 1)
    } else {
        (y, m + 1)
    }
}

/// The year/month pair following the given month; December rolls over to
/// January of the next year.
pub fn next_year_month(year: u32, month: u32) -> (r: (u32, u32))
    requires
        1 <= month <= 12,
        year < u32::MAX,
    ensures
        (r.0 as int, r.1 as int) == spec_next_ym(year as int, month as int),
{
    if month == 12 {
        (year + 1, 1)
    } else {
        (year, month + 1)
    }
}

/// The day after `d` in calendar order.
pub open spec fn spec_date_succ(d: Date) -> Date {
    if d.day < spec_days_in_month(d.year as int, d.month as int) {
        Date { year: d.year, month: d.month, day: (d.day + 1) as u32 }
    } else if d.month < 12 {
        Date { year: d.year, month: (d.month + 1) as u32, day: 1 }
    } else {
        Date { year: (d.year + 1) as u32, month: 1, day: 1 }
    }
}

/// The day before `d` in calendar order.
pub open spec fn spec_date_pred(d: Date) -> Date {
    if d.day > 1 {
        Date { year: d.year, month: d.month, day: (d.day - 1) as u32 }
    } else if d.month > 1 {
        Date {
            year: d.year,
            month: (d.month - 1) as u32,
            day: spec_days_in_month(d.year as int, d.month - 1) as u32,
        }
    } else {
        Date { year: (d.year - 1) as u32, month: 12, day: 31 }
    }
}

/// Steps one day forward; yields nothing only at the last representable
/// date, so callers can stop early instead of leaving the representable
/// range.
pub fn date_succ_opt(d: Date) -> (r: Option<Date>)
    requires
        valid_date(d),
    ensures
        d == spec_top_date() ==> r is None,
        d != spec_top_date() ==> r == Some(spec_date_succ(d)) && valid_date(spec_date_succ(d)),
{
    let dim = days_in_month(d.year, d.month);
    if d.day < dim {
        Some(Date { year: d.year, month: d.month, day: d.day + 1 })
    } else if d.month < 12 {
        Some(Date { year: d.year, month: d.month + 1, day: 1 })
    } else if d.year < LIMIT_YEAR {
        Some(Date { year: d.year + 1, month: 1, day: 1 })
    } else {
        None
    }
}

/// Steps one day backward.
pub fn date_pred(d: Date) -> (r: Date)
    requires
        valid_date(d),
        d != (Date { year: MIN_YEAR, month: 1, day: 1 }),
    ensures
        r == spec_date_pred(d),
        valid_date(r),
{
    if d.day > 1 {
        Date { year: d.year, month: d.month, day: d.day - 1 }
    } else if d.month > 1 {
        Date { year: d.year, month: d.month - 1, day: days_in_month(d.year, d.month - 1) }
    } else {
        Date { year: d.year - 1, month: 12, day: 31 }
    }
}

/// Calendar order on dates.
pub open spec fn spec_date_le(a: Date, b: Date) -> bool {
    ||| a.year < b.year
    ||| (a.year == b.year && a.month < b.month)
    ||| (a.year == b.year && a.month == b.month && a.day <= b.day)
}

/// Whether `a` is on or before `b`.
pub fn date_le(a: Date, b: Date) -> (r: bool)
    ensures
        r == spec_date_le(a, b),
{
    if a.year != b.year {
        a.year < b.year
    } else if a.month != b.month {
        a.month < b.month
    } else {
        a.day <= b.day
    }
}

/// The first calendar day of the month.
pub fn month_first_day(year: u32, month: u32) -> (d: Date)
    requires
        MIN_YEAR <= year <= MAX_YEAR,
        1 <= month <= 12,
    ensures
        d == (Date { year, month, day: 1u32 }),
        valid_date(d),
{
    Date { year, month, day: 1 }
}

/// The last calendar day of the month, found by taking the first day of the
/// following month and stepping back one day; December rolls over to January
/// of the next year on the way. The result carries exactly
/// [`spec_days_in_month`] as its day, so leap years need no special case.
pub fn month_last_day(year: u32, month: u32) -> (d: Date)
    requires
        MIN_YEAR <= year <= MAX_YEAR,
        1 <= month <= 12,
    ensures
        d == (Date { year, month, day: spec_days_in_month(year as int, month as int) as u32 }),
        valid_date(d),
{
    let (next_year, next_month) = next_year_month(year, month);
    let first_of_next = Date { year: next_year, month: next_month, day: 1 };
    date_pred(first_of_next)
}

/// The date rendered as `YYYY-MM-DD`: the year in plain decimal (always four
/// digits in the representable range), month and day zero-padded to two.
pub open spec fn spec_date_str(d: Date) -> Seq<char> {
    spec_dec(d.year as nat) + seq!['-'] + spec_pad2(d.month as nat) + seq!['-'] + spec_pad2(
        d.day as nat,
    )
}

/// Renders the date as `YYYY-MM-DD`.
pub fn format_date(d: Date) -> (s: String)
    ensures
        s@ == spec_date_str(d),
{
    proof {
        reveal_strlit("-");
    }
    let mut s = u32_to_string(d.year);
    s.append("-");
    let mm = u32_to_2digits(d.month);
    s.append(mm.as_str());
    s.append("-");
    let dd = u32_to_2digits(d.day);
    s.append(dd.as_str());
    proof {
        assert("-"@ =~= seq!['-']);
        assert(s@ =~= spec_date_str(d));
    }
    s
}

} // verus!
