//! Calendar days of the proleptic Gregorian calendar.

use chrono::{Datelike, NaiveDate};
use vstd::prelude::*;
use vstd::utf8::*;

verus! {

/// The earliest year a [`Day`] can lie in: the earliest that a `NaiveDate`
/// of chrono holds.
pub const MIN_YEAR: i32 = -262143;

/// The latest year a [`Day`] can lie in: the latest that a `NaiveDate` of
/// chrono holds.
pub const MAX_YEAR: i32 = 262142;

/// Whether `year` has a 29th of February.
pub open spec fn is_leap_year(year: int) -> bool {
    year % 4 == 0 && (year % 100 != 0 || year % 400 == 0)
}

/// The number of days of `month` in `year`.
pub open spec fn days_in_month(year: int, month: int) -> int {
    if month == 2 {
        if is_leap_year(year) {
            29
        } else {
            28
        }
    } else if month == 4 || month == 6 || month == 9 || month == 11 {
        30
    } else {
        31
    }
}

/// The character that stands for a decimal digit.
pub open spec fn digit(value: int) -> char {
    ((48 + value) as u8) as char
}

/// `value` in decimal, filled with zeros from the left to at least `width` digits.
pub open spec fn decimal(value: nat, width: nat) -> Seq<char>
    decreases value + width,
{
    if value < 10 && width <= 1 {
        seq![digit(value as int)]
    } else {
        decimal(value / 10, if width > 0 {
            (width - 1) as nat
        } else {
            0
        }).push(digit((value % 10) as int))
    }
}

/// The year as ISO 8601 writes it: four digits, and a sign in front of at
/// least four digits for a year before 0 or after 9999.
pub open spec fn year_text(year: int) -> Seq<char> {
    if 0 <= year <= 9999 {
        decimal(year as nat, 4)
    } else if year < 0 {
        seq!['-'] + decimal((-year) as nat, 4)
    } else {
        seq!['+'] + decimal(year as nat, 4)
    }
}

/// A calendar day, written as year, month and day of the month.
#[derive(Clone, Copy, Debug, PartialEq, Eq, Structural)]
pub struct Day {
    /// The year; 0 is the year before the year 1.
    pub year: i32,
    /// The month, from 1 to 12.
    pub month: u32,
    /// The day of the month, from 1 on.
    pub day: u32,
}

impl Day {
    /// The day exists in the calendar and its year is within the supported range.
    pub open spec fn wf(&self) -> bool {
        &&& MIN_YEAR <= self.year <= MAX_YEAR
        &&& 1 <= self.month <= 12
        &&& 1 <= self.day <= days_in_month(self.year as int, self.month as int)
    }

    /// The last day of the supported range, which has no successor.
    pub open spec fn is_last(&self) -> bool {
        self.year == MAX_YEAR && self.month == 12 && self.day == 31
    }

    /// The following calendar day.
    pub open spec fn succ(&self) -> Day {
        if self.day < days_in_month(self.year as int, self.month as int) {
            Day { year: self.year, month: self.month, day: (self.day + 1) as u32 }
        } else if self.month < 12 {
            Day { year: self.year, month: (self.month + 1) as u32, day: 1 }
        } else {
            Day { year: (self.year + 1) as i32, month: 1, day: 1 }
        }
    }

    /// The day in the form `YYYY-MM-DD`.
    pub open spec fn iso_text(&self) -> Seq<char> {
        year_text(self.year as int) + seq!['-'] + decimal(self.month as nat, 2) + seq!['-']
            + decimal(self.day as nat, 2)
    }

    /// Tells whether the three numbers name a day of the calendar.
    pub fn is_valid(&self) -> (valid: bool)
        ensures
            valid == self.wf(),
    {
        if self.year < MIN_YEAR || self.year > MAX_YEAR || self.month < 1 || self.month > 12 {
            return false;
        }
        // A multiple of 400 moves the year above zero and keeps every remainder.
        let shifted: u32 = (self.year + 262400) as u32;
        let leap = shifted % 4 == 0 && (shifted % 100 != 0 || shifted % 400 == 0);
        assert(leap == is_leap_year(self.year as int));
        let length: u32 = if self.month == 2 {
            if leap {
                29
            } else {
                28
            }
        } else if self.month == 4 || self.month == 6 || self.month == 9 || self.month == 11 {
            30
        } else {
            31
        };
        1 <= self.day && self.day <= length
    }

    /// Tells whether this is the last day of the supported range.
    pub fn is_end(&self) -> (last: bool)
        ensures
            last == self.is_last(),
    {
        self.year == MAX_YEAR && self.month == 12 && self.day == 31
    }

    /// The day with the given numbers, if the calendar has it.
    pub fn new(year: i32, month: u32, day: u32) -> (made: Option<Day>)
        ensures
            made == (if (Day { year, month, day }).wf() {
                Some(Day { year, month, day })
            } else {
                None
            }),
    {
        let candidate = Day { year, month, day };
        if candidate.is_valid() {
            Some(candidate)
        } else {
            None
        }
    }
}

/// Every day but the last is followed by a day of the calendar.
pub proof fn lemma_succ_wf(day: Day)
    requires
        day.wf(),
        !day.is_last(),
    ensures
        day.succ().wf(),
{
}

/// Two days with the same successor are the same day.
pub proof fn lemma_succ_injective(a: Day, b: Day)
    requires
        a.wf(),
        b.wf(),
        a.succ() == b.succ(),
    ensures
        a == b,
{
}

/// What `NaiveDate::parse_from_str` of chrono makes of `text` under the
/// format `format`: the day it reads, or nothing where it reports an error.
pub uninterp spec fn parsed_day(text: Seq<char>, format: Seq<char>) -> Option<Day>;

/// Calls `NaiveDate::parse_from_str` of chrono and hands the day out as
/// numbers. A day that chrono reads is a day of the calendar.
#[verifier::external_body]
pub(crate) fn parse_day(text: &str, format: &str) -> (parsed: Option<Day>)
    ensures
        parsed == parsed_day(text@, format@),
        parsed matches Some(day) ==> day.wf(),
{
    match NaiveDate::parse_from_str(text, format) {
        Ok(date) => Some(Day { year: date.year(), month: date.month(), day: date.day() }),
        Err(_) => None,
    }
}

/// Calls `to_string` on a `NaiveDate` of chrono, whose `Display` writes the
/// year, the month and the day in the form `YYYY-MM-DD`.
#[verifier::external_body]
pub(crate) fn iso_string(day: &Day) -> (text: String)
    requires
        day.wf(),
    ensures
        text@ == day.iso_text(),
{
    NaiveDate::from_ymd_opt(day.year, day.month, day.day).unwrap().to_string()
}

/// Calls `NaiveDate::succ_opt` of chrono, which gives the next calendar day
/// and nothing for the last day that it can hold.
#[verifier::external_body]
pub(crate) fn following(day: &Day) -> (next: Option<Day>)
    requires
        day.wf(),
    ensures
        next == (if day.is_last() {
            None
        } else {
            Some(day.succ())
        }),
{
    match NaiveDate::from_ymd_opt(day.year, day.month, day.day).unwrap().succ_opt() {
        Some(date) => Some(Day { year: date.year(), month: date.month(), day: date.day() }),
        None => None,
    }
}

/// The text of a day of the calendar has between ten and thirteen
/// characters, and ten where the year has no more than four digits and no
/// sign.
pub proof fn lemma_iso_text_len(day: Day)
    requires
        day.wf(),
    ensures
        10 <= day.iso_text().len() <= 13,
        0 <= day.year <= 9999 ==> day.iso_text().len() == 10,
{
    reveal_with_fuel(decimal, 8);
}

/// A number is written in characters of ASCII.
pub proof fn lemma_decimal_ascii(value: nat, width: nat)
    ensures
        is_ascii_chars(decimal(value, width)),
    decreases value + width,
{
    if !(value < 10 && width <= 1) {
        lemma_decimal_ascii(value / 10, if width > 0 {
            (width - 1) as nat
        } else {
            0
        });
    }
}

/// A day is written in characters of ASCII.
pub proof fn lemma_iso_text_ascii(day: Day)
    ensures
        is_ascii_chars(day.iso_text()),
{
    lemma_decimal_ascii(day.year as nat, 4);
    lemma_decimal_ascii((-day.year) as nat, 4);
    lemma_decimal_ascii(day.month as nat, 2);
    lemma_decimal_ascii(day.day as nat, 2);
}

} // verus!
