//! Calendar dates, and reading one from text.

use chrono::Datelike;
use vstd::prelude::*;

verus! {

/// Whether `year` has a 29th of February in the proleptic Gregorian
/// calendar.
pub open spec fn is_leap_year(year: int) -> bool {
    year % 4 == 0 && (year % 100 != 0 || year % 400 == 0)
}

/// The number of days of a month; zero where `month` is no month.
pub open spec fn days_in_month(year: int, month: int) -> int {
    if month == 2 {
        if is_leap_year(year) {
            29
        } else {
            28
        }
    } else if month == 4 || month == 6 || month == 9 || month == 11 {
        30
    } else if 1 <= month <= 12 {
        31
    } else {
        0
    }
}

/// Whether the three numbers name a day of the calendar.
pub open spec fn valid_date(year: int, month: int, day: int) -> bool {
    1 <= month <= 12 && 1 <= day <= days_in_month(year, month)
}

/// A day of the proleptic Gregorian calendar.
#[derive(Clone, Copy, Debug, PartialEq, Eq)]
pub struct Date {
    year: i32,
    month: u32,
    day: u32,
}

/// The mathematical value of a [`Date`].
pub ghost struct DateView {
    pub year: int,
    pub month: int,
    pub day: int,
}

impl View for Date {
    type V = DateView;

    closed spec fn view(&self) -> DateView {
        DateView { year: self.year as int, month: self.month as int, day: self.day as int }
    }
}

/// The year, month and day of the date that `chrono` reads from `text`, or
/// `None` where it rejects `text`.
pub uninterp spec fn naive_date(text: Seq<char>) -> Option<(i32, u32, u32)>;

/// Calls the `FromStr` impl of `chrono::NaiveDate` on `text` and takes the
/// date apart with `Datelike::year`, `month` and `day`. The contract claims
/// only that the outcome is a function of `text`, which it names
/// `naive_date`.
#[verifier::external_body]
fn parse_naive_date(text: &str) -> (r: Option<(i32, u32, u32)>)
    ensures
        r == naive_date(text@),
{
    match text.parse::<chrono::NaiveDate>() {
        Ok(date) => Some((date.year(), date.month(), date.day())),
        Err(_) => None,
    }
}

/// The date that `text` denotes: what `naive_date` makes of it, where that
/// is a day of the calendar.
pub open spec fn spec_parse_date(text: Seq<char>) -> Option<DateView> {
    match naive_date(text) {
        Some((year, month, day)) => if valid_date(year as int, month as int, day as int) {
            Some(DateView { year: year as int, month: month as int, day: day as int })
        } else {
            None
        },
        None => None,
    }
}

/// Whether `year` is a leap year.
pub fn leap_year(year: i32) -> (r: bool)
    ensures
        r == is_leap_year(year as int),
{
    // 2_147_484_000 is a multiple of 400 that lifts every `i32` above zero.
    let lifted: i64 = year as i64 + 2_147_484_000i64;
    lifted % 4 == 0 && (lifted % 100 != 0 || lifted % 400 == 0)
}

impl Date {
    #[verifier::type_invariant]
    spec fn is_valid(self) -> bool {
        valid_date(self.year as int, self.month as int, self.day as int)
    }

    /// The date of the given year, month and day, where there is one.
    pub fn from_ymd(year: i32, month: u32, day: u32) -> (r: Option<Date>)
        ensures
            r is Some <==> valid_date(year as int, month as int, day as int),
            r matches Some(date) ==> date@ == (DateView {
                year: year as int,
                month: month as int,
                day: day as int,
            }),
    {
        if month < 1 || month > 12 || day < 1 {
            return None;
        }
        let last: u32 = if month == 2 {
            if leap_year(year) {
                29
            } else {
                28
            }
        } else if month == 4 || month == 6 || month == 9 || month == 11 {
            30
        } else {
            31
        };
        if day > last {
            return None;
        }
        Some(Date { year, month, day })
    }

    /// Reads a date written as year, month and day with `-` between them.
    pub fn parse(text: &str) -> (r: Option<Date>)
        ensures
            r is Some <==> spec_parse_date(text@) is Some,
            r matches Some(date) ==> spec_parse_date(text@) == Some(date@),
    {
        match parse_naive_date(text) {
            Some((year, month, day)) => Date::from_ymd(year, month, day),
            None => None,
        }
    }

    /// The year; zero is the year before year one.
    pub fn year(&self) -> (r: i32)
        ensures
            r == self@.year,
    {
        self.year
    }

    /// The month, from 1 to 12.
    pub fn month(&self) -> (r: u32)
        ensures
            r == self@.month,
            1 <= r <= 12,
    {
        proof {
            use_type_invariant(self);
        }
        self.month
    }

    /// The day of the month, from 1.
    pub fn day(&self) -> (r: u32)
        ensures
            r == self@.day,
            1 <= r <= days_in_month(self@.year, self@.month),
    {
        proof {
            use_type_invariant(self);
        }
        self.day
    }
}

} // verus!
