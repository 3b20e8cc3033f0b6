//! Dates of the Gregorian calendar after the reform.

use vstd::prelude::*;
use crate::cal::{days_in_month, spec_days_in_month, valid_month, REFORM_YEAR};

verus! {

/// Whether year, month and day name a day of the Gregorian calendar after the
/// reform.
pub open spec fn valid_date(year: int, month: int, day: int) -> bool {
    &&& valid_month(year, month)
    &&& 1 <= day <= spec_days_in_month(year, month)
}

/// A day of the Gregorian calendar after the reform. Every value is a day
/// that exists.
#[derive(Clone, Copy, Debug, PartialEq, Eq, Structural)]
pub struct Date {
    year: u16,
    month: u8,
    day: u8,
}

/// The month after `month` of `year`, as a year and a month.
pub open spec fn month_after(year: int, month: int) -> (int, int) {
    if month == 12 {
        (year + 1, 1)
    } else {
        (year, month + 1)
    }
}

/// The month before `month` of `year`, as a year and a month.
pub open spec fn month_before(year: int, month: int) -> (int, int) {
    if month == 1 {
        (year - 1, 12)
    } else {
        (year, month - 1)
    }
}

/// The day `day` in `month` of `year`, or the month's last day where the
/// month is shorter than that.
pub open spec fn day_within(year: int, month: int, day: int) -> int {
    if day <= spec_days_in_month(year, month) {
        day
    } else {
        spec_days_in_month(year, month)
    }
}

impl Date {
    /// The date's year.
    pub closed spec fn spec_year(&self) -> u16 {
        self.year
    }

    /// The date's month, 1 for January to 12 for December.
    pub closed spec fn spec_month(&self) -> u8 {
        self.month
    }

    /// The date's day of the month, from 1 on.
    pub closed spec fn spec_day(&self) -> u8 {
        self.day
    }

    /// The date exists.
    #[verifier::type_invariant]
    pub open spec fn wf(&self) -> bool {
        valid_date(self.spec_year() as int, self.spec_month() as int, self.spec_day() as int)
    }

    /// The date with this year, month and day, where there is one.
    pub fn new(year: u16, month: u8, day: u8) -> (date: Option<Date>)
        ensures
            date is Some <==> valid_date(year as int, month as int, day as int),
            date matches Some(d) ==> d.wf() && d.spec_year() == year && d.spec_month() == month
                && d.spec_day() == day,
    {
        if year > REFORM_YEAR && 1 <= month && month <= 12 && 1 <= day && day <= days_in_month(
            year,
            month,
        ) {
            Some(Date { year, month, day })
        } else {
            None
        }
    }

    /// The first day of 1970.
    pub fn unix_epoch() -> (date: Date)
        ensures
            date.wf(),
            date.spec_year() == 1970,
            date.spec_month() == 1,
            date.spec_day() == 1,
    {
        Date { year: 1970, month: 1, day: 1 }
    }

    /// The same day one month later, or the last day of that month where
    /// the month is too short. There is none after the last year that a date
    /// can hold.
    pub fn next_month(&self) -> (later: Option<Date>)
        ensures
            later is Some <==> month_after(self.spec_year() as int, self.spec_month() as int).0
                <= u16::MAX,
            later matches Some(d) ==> {
                let (year, month) = month_after(self.spec_year() as int, self.spec_month() as int);
                &&& d.wf()
                &&& d.spec_year() == year
                &&& d.spec_month() == month
                &&& d.spec_day() == day_within(year, month, self.spec_day() as int)
            },
    {
        proof {
            use_type_invariant(self);
        }
        if self.month == 12 && self.year == u16::MAX {
            return None;
        }
        let (year, month) = if self.month == 12 {
            (self.year + 1, 1)
        } else {
            (self.year, self.month + 1)
        };
        let length = days_in_month(year, month);
        let day = if self.day <= length {
            self.day
        } else {
            length
        };
        Some(Date { year, month, day })
    }

    /// The same day one month earlier, or the last day of that month where
    /// the month is too short. There is none before the first year after the
    /// reform.
    pub fn prev_month(&self) -> (earlier: Option<Date>)
        ensures
            earlier is Some <==> month_before(self.spec_year() as int, self.spec_month() as int).0
                > REFORM_YEAR,
            earlier matches Some(d) ==> {
                let (year, month) = month_before(self.spec_year() as int, self.spec_month() as int);
                &&& d.wf()
                &&& d.spec_year() == year
                &&& d.spec_month() == month
                &&& d.spec_day() == day_within(year, month, self.spec_day() as int)
            },
    {
        proof {
            use_type_invariant(self);
        }
        if self.month == 1 && self.year == REFORM_YEAR + 1 {
            return None;
        }
        let (year, month) = if self.month == 1 {
            (self.year - 1, 12)
        } else {
            (self.year, self.month - 1)
        };
        let length = days_in_month(year, month);
        let day = if self.day <= length {
            self.day
        } else {
            length
        };
        Some(Date { year, month, day })
    }

    /// The date's year.
    #[verifier::when_used_as_spec(spec_year)]
    pub fn year(&self) -> (year: u16)
        ensures
            year == self.spec_year(),
            year > REFORM_YEAR,
    {
        proof {
            use_type_invariant(self);
        }
        self.year
    }

    /// The date's month, 1 for January to 12 for December.
    #[verifier::when_used_as_spec(spec_month)]
    pub fn month(&self) -> (month: u8)
        ensures
            month == self.spec_month(),
            1 <= month <= 12,
    {
        proof {
            use_type_invariant(self);
        }
        self.month
    }

    /// The date's day of the month, from 1 on.
    #[verifier::when_used_as_spec(spec_day)]
    pub fn day(&self) -> (day: u8)
        ensures
            day == self.spec_day(),
            1 <= day <= spec_days_in_month(self.spec_year() as int, self.spec_month() as int),
    {
        proof {
            use_type_invariant(self);
        }
        self.day
    }
}

} // verus!
