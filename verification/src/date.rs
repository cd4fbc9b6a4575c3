//! Calendar dates as plain values: validity (proleptic Gregorian, with the
//! usual leap-year rule), day/month matching, and whole years elapsed.

use vstd::prelude::*;

verus! {

/// Smallest year a `Date` may carry; the range covers every year that
/// chrono's `NaiveDate` supports, so the current date always fits.
pub const MIN_YEAR: i32 = -262144;

/// Largest year a `Date` may carry.
pub const MAX_YEAR: i32 = 262143;

/// A calendar date held as plain numbers.
#[derive(Clone, Copy, PartialEq, Eq, Structural, Debug)]
pub struct Date {
    pub year: i32,
    pub month: u32,
    pub day: u32,
}

/// A year has 366 days when divisible by 4, except century years not
/// divisible by 400.
pub open spec fn spec_is_leap_year(y: int) -> bool {
    y % 4 == 0 && (y % 100 != 0 || y % 400 == 0)
}

/// Number of days of month `m` in year `y` (only meaningful for `1 <= m <= 12`).
pub open spec fn spec_days_in_month(y: int, m: int) -> int {
    if m == 2 {
        if spec_is_leap_year(y) {
            29
        } else {
            28
        }
    } else if m == 4 || m == 6 || m == 9 || m == 11 {
        30
    } else {
        31
    }
}

/// `(y, m, d)` names a real calendar day.
pub open spec fn spec_date_valid(y: int, m: int, d: int) -> bool {
    1 <= m <= 12 && 1 <= d <= spec_days_in_month(y, m)
}

impl Date {
    /// A well-formed date: a real calendar day within the supported year range.
    pub open spec fn wf(&self) -> bool {
        MIN_YEAR <= self.year <= MAX_YEAR && spec_date_valid(
            self.year as int,
            self.month as int,
            self.day as int,
        )
    }

    /// `self` and `other` fall on the same day and month, the year ignored.
    pub open spec fn spec_same_day_month(&self, other: &Date) -> bool {
        self.day == other.day && self.month == other.month
    }
}

/// Whole years from `base` up to `at`: the year difference, one less if the
/// (month, day) of `at` lies before that of `base`; `None` when negative.
pub open spec fn spec_years_since(at: Date, base: Date) -> Option<u32> {
    let diff = at.year - base.year - (if (at.month < base.month || (at.month == base.month
        && at.day < base.day)) {
        1int
    } else {
        0int
    });
    if diff >= 0 {
        Some(diff as u32)
    } else {
        None
    }
}

pub fn is_leap_year(y: i32) -> (r: bool)
    requires
        y >= 0,
    ensures
        r == spec_is_leap_year(y as int),
{
    y % 4 == 0 && (y % 100 != 0 || y % 400 == 0)
}

pub fn days_in_month(y: i32, m: u32) -> (r: u32)
    requires
        y >= 0,
        1 <= m <= 12,
    ensures
        r == spec_days_in_month(y as int, m as int),
{
    if m == 2 {
        if is_leap_year(y) {
            29
        } else {
            28
        }
    } else if m == 4 || m == 6 || m == 9 || m == 11 {
        30
    } else {
        31
    }
}

impl Date {
    /// Builds a date, accepting exactly the real calendar days in range.
    pub fn new(year: i32, month: u32, day: u32) -> (r: Option<Date>)
        requires
            0 <= year <= MAX_YEAR,
        ensures
            (match r {
                Some(d) => d.wf() && d.year == year && d.month == month && d.day == day,
                None => !spec_date_valid(year as int, month as int, day as int),
            }),
    {
        if 1 <= month && month <= 12 && 1 <= day && day <= days_in_month(year, month) {
            Some(Date { year, month, day })
        } else {
            None
        }
    }

    /// True exactly when both dates share day and month, whatever the years.
    pub fn same_day_month(&self, other: &Date) -> (r: bool)
        ensures
            r == self.spec_same_day_month(other),
    {
        self.day == other.day && self.month == other.month
    }

    /// Whole years from `base` until `self`; `None` if `base` lies after `self`.
    pub fn years_since(&self, base: &Date) -> (r: Option<u32>)
        requires
            self.wf(),
            base.wf(),
        ensures
            r == spec_years_since(*self, *base),
    {
        let mut years: i32 = self.year - base.year;
        if self.month < base.month || (self.month == base.month && self.day < base.day) {
            years = years - 1;
        }
        if years >= 0 {
            Some(years as u32)
        } else {
            None
        }
    }
}

/// Relies on chrono's `Utc::now` and `NaiveDate`: the current UTC date is a
/// real calendar day, and every `NaiveDate` year lies in chrono's documented
/// supported range, which `MIN_YEAR ..= MAX_YEAR` covers.
#[verifier::external_body]
pub fn current_date() -> (r: Date)
    ensures
        r.wf(),
{
    let now = chrono::Utc::now().date_naive();
    Date { year: chrono::Datelike::year(&now), month: chrono::Datelike::month(&now), day: chrono::Datelike::day(&now) }
}

} // verus!
