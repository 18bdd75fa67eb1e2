//! Calendar dates: the ledger keys balance snapshots by (account, date) and
//! orders them chronologically, so dates carry a well-formedness predicate
//! and a total order.

use vstd::prelude::*;

verus! {

/// A calendar date (no time component), as the year, month and day of an
/// ISO date.
#[derive(Clone, Copy, Debug, PartialEq, Eq, Structural)]
pub struct Date {
    pub year: u32,
    pub month: u32,
    pub day: u32,
}

/// True when `year` is a leap year of the Gregorian calendar.
pub open spec fn spec_is_leap_year(year: u32) -> bool {
    year % 4 == 0 && (year % 100 != 0 || year % 400 == 0)
}

/// The number of days of `month` in `year`.
pub open spec fn spec_days_in_month(year: u32, month: u32) -> u32 {
    if month == 2 {
        if spec_is_leap_year(year) {
            29
        } else {
            28
        }
    } else if month == 4 || month == 6 || month == 9 || month == 11 {
        30
    } else {
        31
    }
}

/// Chronological order on dates: year, then month, then day.
pub open spec fn date_le(a: Date, b: Date) -> bool {
    if a.year != b.year {
        a.year < b.year
    } else if a.month != b.month {
        a.month < b.month
    } else {
        a.day <= b.day
    }
}

/// Strict chronological order on dates.
pub open spec fn date_lt(a: Date, b: Date) -> bool {
    date_le(a, b) && a != b
}

/// Membership of a date in an optional closed range: a `None` bound does
/// not constrain that side.
pub open spec fn date_in_range(d: Date, from: Option<Date>, to: Option<Date>) -> bool {
    &&& (match from {
        Some(f) => date_le(f, d),
        None => true,
    })
    &&& (match to {
        Some(t) => date_le(d, t),
        None => true,
    })
}

impl Date {
    /// A well-formed calendar date of the years an ISO date can write.
    pub open spec fn valid(self) -> bool {
        &&& 1 <= self.year <= 9999
        &&& 1 <= self.month <= 12
        &&& 1 <= self.day <= spec_days_in_month(self.year, self.month)
    }

    /// Checks that `self` is a well-formed calendar date.
    pub fn is_valid(&self) -> (r: bool)
        ensures
            r == self.valid(),
    {
        if !(1 <= self.year && self.year <= 9999) {
            return false;
        }
        if !(1 <= self.month && self.month <= 12) {
            return false;
        }
        let days: u32 = if self.month == 2 {
            if self.year % 4 == 0 && (self.year % 100 != 0 || self.year % 400 == 0) {
                29
            } else {
                28
            }
        } else if self.month == 4 || self.month == 6 || self.month == 9 || self.month == 11 {
            30
        } else {
            31
        };
        1 <= self.day && self.day <= days
    }

    /// Chronological comparison: `self` on or before `other`.
    pub fn le(&self, other: &Date) -> (r: bool)
        ensures
            r == date_le(*self, *other),
    {
        if self.year != other.year {
            self.year < other.year
        } else if self.month != other.month {
            self.month < other.month
        } else {
            self.day <= other.day
        }
    }

    /// Chronological comparison: `self` strictly before `other`.
    pub fn lt(&self, other: &Date) -> (r: bool)
        ensures
            r == date_lt(*self, *other),
    {
        if self.year != other.year {
            self.year < other.year
        } else if self.month != other.month {
            self.month < other.month
        } else {
            self.day < other.day
        }
    }

    /// The last day of this date's calendar month.
    pub open spec fn spec_month_end(self) -> Date {
        Date { year: self.year, month: self.month, day: spec_days_in_month(self.year, self.month) }
    }

    /// The last day of this date's calendar month.
    pub fn month_end(&self) -> (r: Date)
        ensures
            r == self.spec_month_end(),
    {
        let days: u32 = if self.month == 2 {
            if self.year % 4 == 0 && (self.year % 100 != 0 || self.year % 400 == 0) {
                29
            } else {
                28
            }
        } else if self.month == 4 || self.month == 6 || self.month == 9 || self.month == 11 {
            30
        } else {
            31
        };
        Date { year: self.year, month: self.month, day: days }
    }

    /// Membership of `self` in an optional closed date range.
    pub fn in_range(&self, from: &Option<Date>, to: &Option<Date>) -> (r: bool)
        ensures
            r == date_in_range(*self, *from, *to),
    {
        let lower_ok = match from {
            Some(f) => f.le(self),
            None => true,
        };
        let upper_ok = match to {
            Some(t) => self.le(t),
            None => true,
        };
        lower_ok && upper_ok
    }
}

/// The chronological order is total.
pub proof fn lemma_date_le_total(a: Date, b: Date)
    ensures
        date_le(a, b) || date_le(b, a),
{
}

/// The chronological order is transitive.
pub proof fn lemma_date_le_trans(a: Date, b: Date, c: Date)
    requires
        date_le(a, b),
        date_le(b, c),
    ensures
        date_le(a, c),
{
}

} // verus!
