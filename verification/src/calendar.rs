//! Calendar dates in UTC, month arithmetic on them, and their text form.
//!
//! The arithmetic and the formatting are chrono's. This module states what
//! chrono does with a date as functions on year, month and day.

use chrono::{DateTime, Months, NaiveDate, NaiveDateTime, NaiveTime, Utc};
use vstd::prelude::*;

verus! {

/// The earliest year that a date can lie in.
pub const MIN_YEAR: i32 = -262143;

/// The latest year that a date can lie in.
pub const MAX_YEAR: i32 = 262142;

/// A year, a month and a day, as mathematical values.
pub struct Ymd {
    pub year: int,
    pub month: int,
    pub day: int,
}

/// The given year, month and day.
pub open spec fn ymd(year: i32, month: u32, day: u32) -> Ymd {
    Ymd { year: year as int, month: month as int, day: day as int }
}

/// Whether `year` is a leap year of the proleptic Gregorian calendar.
pub open spec fn is_leap_year(year: int) -> bool {
    year % 4 == 0 && (year % 100 != 0 || year % 400 == 0)
}

/// Number of days of a month, January being month 1.
pub open spec fn days_in_month(year: int, month: int) -> int {
    if month == 2 {
        if is_leap_year(year) {
            29
        } else {
            28
        }
    } else if month == 4 || month == 6 || month == 9 || month == 11 {
        30
    } else {
        31
    }
}

impl Ymd {
    /// Whether the date is a day of the calendar, in a year that a date can
    /// lie in.
    pub open spec fn is_date(self) -> bool {
        &&& MIN_YEAR <= self.year <= MAX_YEAR
        &&& 1 <= self.month <= 12
        &&& 1 <= self.day <= days_in_month(self.year, self.month)
    }

    /// The date `months` months later, or earlier for a negative number: the
    /// same day of that month, or the month's last day where it has no such
    /// day. `None` where that month lies outside the years of the calendar.
    pub open spec fn shifted(self, months: int) -> Option<Ymd> {
        let index = self.year * 12 + (self.month - 1) + months;
        let year = index / 12;
        let month = index % 12 + 1;
        let last_day = days_in_month(year, month);
        if MIN_YEAR <= year <= MAX_YEAR {
            Some(
                Ymd {
                    year,
                    month,
                    day: if self.day > last_day {
                        last_day
                    } else {
                        self.day
                    },
                },
            )
        } else {
            None
        }
    }

    /// The date at midnight as `YYYY-MM-DDT00:00:00`.
    pub open spec fn midnight_text(self) -> Seq<char> {
        year_text(self.year) + seq!['-'] + zero_padded(self.month as nat, 2) + seq!['-']
            + zero_padded(self.day as nat, 2) + seq!['T', '0', '0', ':', '0', '0', ':', '0', '0']
    }
}

/// The character of a decimal digit.
pub open spec fn digit_char(digit: int) -> char {
    seq!['0', '1', '2', '3', '4', '5', '6', '7', '8', '9'][digit]
}

/// A number in decimal.
pub open spec fn decimal(n: nat) -> Seq<char>
    decreases n,
{
    if n < 10 {
        seq![digit_char(n as int)]
    } else {
        decimal(n / 10).push(digit_char((n % 10) as int))
    }
}

/// A number in decimal, with zeros in front up to `width` digits.
pub open spec fn zero_padded(n: nat, width: nat) -> Seq<char> {
    let digits = decimal(n);
    if digits.len() >= width {
        digits
    } else {
        Seq::new((width - digits.len()) as nat, |i: int| '0') + digits
    }
}

/// A year with four digits; with a sign and at least four digits where it
/// lies outside `0..=9999`.
pub open spec fn year_text(year: int) -> Seq<char> {
    if 0 <= year <= 9999 {
        zero_padded(year as nat, 4)
    } else if year < 0 {
        seq!['-'] + zero_padded((-year) as nat, 4)
    } else {
        seq!['+'] + zero_padded(year as nat, 4)
    }
}

/// A day of the calendar.
#[derive(Clone, Copy, Debug, PartialEq, Eq)]
pub struct CalendarDate {
    year: i32,
    month: u32,
    day: u32,
}

impl View for CalendarDate {
    type V = Ymd;

    closed spec fn view(&self) -> Ymd {
        Ymd { year: self.year as int, month: self.month as int, day: self.day as int }
    }
}

/// Calls `chrono::NaiveDate::from_ymd_opt`, which returns a date exactly for
/// a day that exists, in a year from `MIN_YEAR` to `MAX_YEAR`; the date that
/// comes back is the one that was asked for.
#[verifier::external_body]
fn checked_date(year: i32, month: u32, day: u32) -> (date: Option<CalendarDate>)
    ensures
        date is Some <==> ymd(year, month, day).is_date(),
        date matches Some(d) ==> d@ == ymd(year, month, day),
{
    NaiveDate::from_ymd_opt(year, month, day).map(|_| CalendarDate { year, month, day })
}

/// Calls `chrono::DateTime::<Utc>::checked_add_months` on midnight of the
/// date. In UTC this is `NaiveDate::checked_add_months`: it moves to the
/// month that many months later, keeps the day or takes the month's last
/// day where the day does not exist, and returns nothing where the year
/// leaves chrono's range.
#[verifier::external_body]
fn months_later(date: &CalendarDate, months: u32) -> (later: Option<CalendarDate>)
    requires
        date@.is_date(),
    ensures
        match date@.shifted(months as int) {
            Some(expected) => later matches Some(d) && d@ == expected,
            None => later is None,
        },
{
    let day: NaiveDate = NaiveDate::from_ymd_opt(date.year, date.month, date.day)?;
    let midnight: DateTime<Utc> = DateTime::from_naive_utc_and_offset(
        NaiveDateTime::new(day, NaiveTime::default()),
        Utc,
    );
    midnight.checked_add_months(Months::new(months)).map(
        |d| CalendarDate {
            year: chrono::Datelike::year(&d),
            month: chrono::Datelike::month(&d),
            day: chrono::Datelike::day(&d),
        },
    )
}

/// Calls `chrono::DateTime::<Utc>::checked_sub_months` on midnight of the
/// date: as `months_later`, towards the past.
#[verifier::external_body]
fn months_earlier(date: &CalendarDate, months: u32) -> (earlier: Option<CalendarDate>)
    requires
        date@.is_date(),
    ensures
        match date@.shifted(-(months as int)) {
            Some(expected) => earlier matches Some(d) && d@ == expected,
            None => earlier is None,
        },
{
    let day: NaiveDate = NaiveDate::from_ymd_opt(date.year, date.month, date.day)?;
    let midnight: DateTime<Utc> = DateTime::from_naive_utc_and_offset(
        NaiveDateTime::new(day, NaiveTime::default()),
        Utc,
    );
    midnight.checked_sub_months(Months::new(months)).map(
        |d| CalendarDate {
            year: chrono::Datelike::year(&d),
            month: chrono::Datelike::month(&d),
            day: chrono::Datelike::day(&d),
        },
    )
}

/// The pattern that writes a date as `midnight_text` says.
pub const MIDNIGHT_PATTERN: &'static str = "%Y-%m-%dT00:00:00";

/// Calls `chrono::DateTime::<Utc>::format` on midnight of the date. The
/// contract speaks of one pattern only. For `%Y` chrono writes the year with
/// four digits, or with a sign and at least four digits outside `0..=9999`;
/// for `%m` and `%d` the month and the day with two digits each; everything
/// else in the pattern as it stands.
#[verifier::external_body]
fn formatted_midnight(date: &CalendarDate, pattern: &str) -> (text: Option<String>)
    requires
        date@.is_date(),
        pattern@ == MIDNIGHT_PATTERN@,
    ensures
        text is Some,
        text matches Some(t) ==> t@ == date@.midnight_text(),
{
    let day: NaiveDate = NaiveDate::from_ymd_opt(date.year, date.month, date.day)?;
    let midnight: DateTime<Utc> = DateTime::from_naive_utc_and_offset(
        NaiveDateTime::new(day, NaiveTime::default()),
        Utc,
    );
    Some(format!("{}", midnight.format(pattern)))
}

impl CalendarDate {
    #[verifier::type_invariant]
    spec fn is_a_day(self) -> bool {
        self@.is_date()
    }

    /// The date of the given year, month and day, where there is such a
    /// day.
    pub fn from_ymd_opt(year: i32, month: u32, day: u32) -> (date: Option<CalendarDate>)
        ensures
            date is Some <==> ymd(year, month, day).is_date(),
            date matches Some(d) ==> d@ == ymd(year, month, day),
    {
        checked_date(year, month, day)
    }

    pub fn year(&self) -> (year: i32)
        ensures
            year == self@.year,
    {
        self.year
    }

    pub fn month(&self) -> (month: u32)
        ensures
            month == self@.month,
    {
        self.month
    }

    pub fn day(&self) -> (day: u32)
        ensures
            day == self@.day,
    {
        self.day
    }

    /// The date `months` months later, on the same day of the month or on
    /// the month's last; `None` past the last year of the calendar.
    pub fn checked_add_months(&self, months: u32) -> (later: Option<CalendarDate>)
        ensures
            match self@.shifted(months as int) {
                Some(expected) => later matches Some(d) && d@ == expected,
                None => later is None,
            },
    {
        proof {
            use_type_invariant(self);
        }
        months_later(self, months)
    }

    /// The date `months` months earlier, on the same day of the month or on
    /// the month's last; `None` before the first year of the calendar.
    pub fn checked_sub_months(&self, months: u32) -> (earlier: Option<CalendarDate>)
        ensures
            match self@.shifted(-(months as int)) {
                Some(expected) => earlier matches Some(d) && d@ == expected,
                None => earlier is None,
            },
    {
        proof {
            use_type_invariant(self);
        }
        months_earlier(self, months)
    }

    /// Midnight of the date as `YYYY-MM-DDT00:00:00`.
    pub fn midnight_stamp(&self) -> (text: String)
        ensures
            text@ == self@.midnight_text(),
    {
        proof {
            use_type_invariant(self);
        }
        formatted_midnight(self, MIDNIGHT_PATTERN).unwrap()
    }
}

} // verus!
