//! Calendar dates as plain values.
//!
//! A date is held as year, month and day numbers so that every rule
//! about it can be stated and checked directly.

use vstd::prelude::*;

verus! {

/// A calendar date. A value is meaningful when `is_valid` holds;
/// every date this library produces satisfies it.
#[derive(Clone, Copy, PartialEq, Eq, Structural, Debug)]
pub struct Date {
    pub year: i32,
    pub month: u8,
    pub day: u8,
}

/// True exactly for leap years of the proleptic Gregorian calendar.
pub open spec fn spec_is_leap_year(year: int) -> bool {
    (year % 4 == 0 && year % 100 != 0) || year % 400 == 0
}

/// Number of days in the given month of the given year.
pub open spec fn spec_days_in_month(year: int, month: int) -> int {
    if month == 2 {
        if spec_is_leap_year(year) {
            29
        } else {
            28
        }
    } else if month == 4 || month == 6 || month == 9 || month == 11 {
        30
    } else {
        31
    }
}

impl Date {
    /// A well-formed date: the month exists and the day lies inside it.
    /// Years are limited to four decimal digits, the range the export
    /// format can spell.
    pub open spec fn is_valid(self) -> bool {
        &&& 0 <= self.year <= 9999
        &&& 1 <= self.month <= 12
        &&& 1 <= self.day <= spec_days_in_month(self.year as int, self.month as int)
    }

    /// Builds the first day of the given month, the normalization the
    /// export format calls for: a year-month period becomes day one of
    /// that month.
    pub fn first_of_month(year: i32, month: u8) -> (d: Date)
        requires
            0 <= year <= 9999,
            1 <= month <= 12,
        ensures
            d == (Date { year, month, day: 1 }),
            d.is_valid(),
    {
        Date { year, month, day: 1 }
    }
}

} // verus!
