//! Gregorian calendar arithmetic: validity of dates, month lengths with the
//! leap-year rule, and the first/last day of a month.

use vstd::prelude::*;

verus! {

/// A calendar date. Years run from 0 through 9999, the range that the
/// four-digit `YYYY` field of an ISO date can carry.
#[derive(Clone, Copy, PartialEq, Eq, Structural, Debug)]
pub struct Date {
    pub year: u32,
    pub month: u32,
    pub day: u32,
}

/// The largest year a four-digit ISO date can name.
pub const MAX_YEAR: u32 = 9999;

/// The Gregorian leap-year rule: every fourth year, except centuries that are
/// not multiples of 400.
pub open spec fn spec_is_leap_year(year: int) -> bool {
    year % 4 == 0 && (year % 100 != 0 || year % 400 == 0)
}

/// Number of days in the given month of the given year.
pub open spec fn spec_days_in_month(year: int, month: int) -> int {
    if month == 2 {
        if spec_is_leap_year(year) {
            29
        } else {
            28
        }
    } else if month == 4 || month == 6 || month == 9 || month == 11 {
        30
    } else {
        31
    }
}

/// A date this library accepts: a four-digit year and a day that exists in
/// its month.
pub open spec fn spec_date_valid(d: Date) -> bool {
    &&& d.year <= MAX_YEAR
    &&& 1 <= d.month <= 12
    &&& 1 <= d.day <= spec_days_in_month(d.year as int, d.month as int)
}

pub fn is_leap_year(year: u32) -> (r: bool)
    ensures
        r == spec_is_leap_year(year as int),
{
    year % 4 == 0 && (year % 100 != 0 || year % 400 == 0)
}

pub fn days_in_month(year: u32, month: u32) -> (r: u32)
    requires
        1 <= month <= 12,
    ensures
        r == spec_days_in_month(year as int, month as int),
{
    if month == 2 {
        if is_leap_year(year) {
            29
        } else {
            28
        }
    } else if month == 4 || month == 6 || month == 9 || month == 11 {
        30
    } else {
        31
    }
}

/// The first and last day of the given month, both inclusive.
pub fn month_range(year: u32, month: u32) -> (r: (Date, Date))
    requires
        year <= MAX_YEAR,
        1 <= month <= 12,
    ensures
        r.0 == (Date { year, month, day: 1 }),
        r.1 == (Date { year, month, day: spec_days_in_month(year as int, month as int) as u32 }),
        spec_date_valid(r.0),
        spec_date_valid(r.1),
{
    let last = days_in_month(year, month);
    (Date { year, month, day: 1 }, Date { year, month, day: last })
}

/// Every day of the given month, in calendar order.
pub fn month_days(year: u32, month: u32) -> (r: Vec<Date>)
    requires
        year <= MAX_YEAR,
        1 <= month <= 12,
    ensures
        r@.len() == spec_days_in_month(year as int, month as int),
        forall|i: int|
            0 <= i < r@.len() ==> r@[i] == (Date { year, month, day: (i + 1) as u32 }),
        forall|i: int| 0 <= i < r@.len() ==> spec_date_valid(#[trigger] r@[i]),
{
    let n = days_in_month(year, month);
    let mut out: Vec<Date> = Vec::new();
    let mut d: u32 = 1;
    while d <= n
        invariant
            1 <= d <= n + 1,
            n == spec_days_in_month(year as int, month as int),
            year <= MAX_YEAR,
            1 <= month <= 12,
            out@.len() == d - 1,
            forall|i: int|
                0 <= i < out@.len() ==> out@[i] == (Date { year, month, day: (i + 1) as u32 }),
        decreases n + 1 - d,
    {
        out.push(Date { year, month, day: d });
        d = d + 1;
    }
    out
}

} // verus!
