//! Calendar dates of the proleptic Gregorian calendar, as an advertisement
//! carries them, and the Russian month names that announce them.

use crate::text::{
    decimal_text, digit_char, opt_text, parse_decimal, parse_i32, parse_signed32, parse_unsigned,
    same_text,
};
use chrono::Datelike;
use vstd::prelude::*;
use vstd::string::*;

verus! {

/// The earliest year a date can have.
pub const MIN_YEAR: i32 = -262143;

/// The latest year a date can have.
pub const MAX_YEAR: i32 = 262142;

/// Leap years of the proleptic Gregorian calendar; year 0 is 1 BCE.
pub open spec fn is_leap_year(year: int) -> bool {
    year % 4 == 0 && (year % 100 != 0 || year % 400 == 0)
}

/// The number of days of a month, for `month` from 1 to 12.
pub open spec fn days_in_month(year: int, month: int) -> int {
    if month == 2 {
        if is_leap_year(year) {
            29
        } else {
            28
        }
    } else if month == 4 || month == 6 || month == 9 || month == 11 {
        30
    } else {
        31
    }
}

/// Whether year, month and day name a day of the calendar.
pub open spec fn valid_ymd(year: int, month: int, day: int) -> bool {
    &&& MIN_YEAR <= year <= MAX_YEAR
    &&& 1 <= month <= 12
    &&& 1 <= day <= days_in_month(year, month)
}

/// What a date is: a year, a month from 1 and a day of the month from 1.
pub struct DateView {
    pub year: int,
    pub month: int,
    pub day: int,
}

/// A day of the calendar.
#[derive(Clone, Copy, Debug, PartialEq, Eq)]
pub struct CalendarDate {
    year: i32,
    month: u32,
    day: u32,
}

impl View for CalendarDate {
    type V = DateView;

    closed spec fn view(&self) -> DateView {
        DateView { year: self.year as int, month: self.month as int, day: self.day as int }
    }
}

/// `n` below one hundred, written with two digits.
pub open spec fn two_digits(n: nat) -> Seq<char> {
    seq![digit_char(n / 10), digit_char(n % 10)]
}

/// `t` with zeros in front until it is `width` long.
pub open spec fn zero_padded(t: Seq<char>, width: nat) -> Seq<char> {
    if t.len() >= width {
        t
    } else {
        Seq::new((width - t.len()) as nat, |i: int| '0') + t
    }
}

/// A year as ISO 8601 writes it: four digits from 0 to 9999, and beyond that
/// range an explicit sign before at least four digits.
pub open spec fn year_text(year: int) -> Seq<char> {
    if 0 <= year <= 9999 {
        two_digits((year / 100) as nat) + two_digits((year % 100) as nat)
    } else if year > 9999 {
        seq!['+'] + decimal_text(year as nat)
    } else {
        seq!['-'] + zero_padded(decimal_text((-year) as nat), 4)
    }
}

/// A date as `year-month-day`, month and day with two digits each.
pub open spec fn date_text(date: DateView) -> Seq<char> {
    year_text(date.year) + seq!['-'] + two_digits(date.month as nat) + seq!['-'] + two_digits(
        date.day as nat,
    )
}

/// The text of a date is never empty.
pub proof fn lemma_date_text_nonempty(date: DateView)
    ensures
        date_text(date).len() > 0,
{
}

/// Calls `chrono::NaiveDate::from_ymd_opt` and reads the date back with
/// `Datelike::year`, `month` and `day`.
///
/// Trusted: chrono accepts exactly the days of the proleptic Gregorian
/// calendar with a year from `MIN_YEAR` to `MAX_YEAR`, and a date it accepts
/// reads back as the year, month and day it was made from.
#[verifier::external_body]
fn checked_date(year: i32, month: u32, day: u32) -> (r: Option<CalendarDate>)
    ensures
        r == if valid_ymd(year as int, month as int, day as int) {
            Some(CalendarDate { year, month, day })
        } else {
            None
        },
{
    match chrono::NaiveDate::from_ymd_opt(year, month, day) {
        Some(d) => Some(CalendarDate { year: d.year(), month: d.month(), day: d.day() }),
        None => None,
    }
}

/// Calls `ToString::to_string` on the `chrono::NaiveDate` of this day.
///
/// Trusted: chrono displays a date as `date_text` says, and makes no text
/// only where `from_ymd_opt` refuses the day.
#[verifier::external_body]
fn displayed_date(year: i32, month: u32, day: u32) -> (r: Option<String>)
    ensures
        opt_text(r) == if valid_ymd(year as int, month as int, day as int) {
            Some(date_text(DateView { year: year as int, month: month as int, day: day as int }))
        } else {
            None
        },
{
    match chrono::NaiveDate::from_ymd_opt(year, month, day) {
        Some(d) => Some(d.to_string()),
        None => None,
    }
}

impl CalendarDate {
    /// Every date that this type can hold is a day of the calendar.
    #[verifier::type_invariant]
    pub closed spec fn wf(&self) -> bool {
        valid_ymd(self.year as int, self.month as int, self.day as int)
    }

    /// The date of the given day, or `None` if the calendar has no such day.
    pub fn from_ymd_opt(year: i32, month: u32, day: u32) -> (r: Option<CalendarDate>)
        ensures
            r is Some <==> valid_ymd(year as int, month as int, day as int),
            r matches Some(d) ==> d.wf() && d@ == (DateView {
                year: year as int,
                month: month as int,
                day: day as int,
            }),
    {
        checked_date(year, month, day)
    }

    pub fn year(&self) -> (r: i32)
        ensures
            r == self@.year,
    {
        self.year
    }

    pub fn month(&self) -> (r: u32)
        ensures
            r == self@.month,
    {
        self.month
    }

    pub fn day(&self) -> (r: u32)
        ensures
            r == self@.day,
    {
        self.day
    }

    /// The date as `year-month-day`.
    pub fn to_text(&self) -> (r: String)
        ensures
            r@ == date_text(self@),
            valid_ymd(self@.year, self@.month, self@.day),
    {
        proof {
            use_type_invariant(self);
        }
        match displayed_date(self.year, self.month, self.day) {
            Some(s) => s,
            None => String::new(),
        }
    }
}

/// The number of the month that a Russian date names in the genitive.
pub open spec fn month_number(name: Seq<char>) -> Option<u32> {
    if name == "января"@ {
        Some(1u32)
    } else if name == "февраля"@ {
        Some(2u32)
    } else if name == "марта"@ {
        Some(3u32)
    } else if name == "апреля"@ {
        Some(4u32)
    } else if name == "мая"@ {
        Some(5u32)
    } else if name == "июня"@ {
        Some(6u32)
    } else if name == "июля"@ {
        Some(7u32)
    } else if name == "августа"@ {
        Some(8u32)
    } else if name == "сентября"@ {
        Some(9u32)
    } else if name == "октября"@ {
        Some(10u32)
    } else if name == "ноября"@ {
        Some(11u32)
    } else if name == "декабря"@ {
        Some(12u32)
    } else {
        None
    }
}

/// Looks a month name up in the table of the twelve names.
pub fn month_from_name(name: &str) -> (r: Option<u32>)
    ensures
        r == month_number(name@),
        r matches Some(m) ==> 1 <= m <= 12,
{
    if same_text(name, "января") {
        Some(1)
    } else if same_text(name, "февраля") {
        Some(2)
    } else if same_text(name, "марта") {
        Some(3)
    } else if same_text(name, "апреля") {
        Some(4)
    } else if same_text(name, "мая") {
        Some(5)
    } else if same_text(name, "июня") {
        Some(6)
    } else if same_text(name, "июля") {
        Some(7)
    } else if same_text(name, "августа") {
        Some(8)
    } else if same_text(name, "сентября") {
        Some(9)
    } else if same_text(name, "октября") {
        Some(10)
    } else if same_text(name, "ноября") {
        Some(11)
    } else if same_text(name, "декабря") {
        Some(12)
    } else {
        None
    }
}

/// The date that a day, a month name and a year spell, each as text: the day
/// and the year in ASCII digits, the month as one of the twelve names.
pub open spec fn date_from_parts(day: Seq<char>, month: Seq<char>, year: Seq<char>) -> Option<
    DateView,
> {
    match (parse_unsigned(day, u32::MAX as nat), month_number(month), parse_signed32(year)) {
        (Some(d), Some(m), Some(y)) => if valid_ymd(y, m as int, d as int) {
            Some(DateView { year: y, month: m as int, day: d as int })
        } else {
            None
        },
        _ => None,
    }
}

/// Builds the date from the three parts of an announcement: the day, the
/// month name, the year. `None` when a number does not parse, the month is
/// not one of the twelve names, or the calendar has no such day.
pub fn date_from_captures(day: &str, month: &str, year: &str) -> (r: Option<CalendarDate>)
    ensures
        r is Some <==> date_from_parts(day@, month@, year@) is Some,
        r matches Some(d) ==> d.wf() && Some(d@) == date_from_parts(day@, month@, year@),
{
    let d = match parse_decimal(day, u32::MAX as u64) {
        Some(d) => d as u32,
        None => {
            return None;
        },
    };
    let m = match month_from_name(month) {
        Some(m) => m,
        None => {
            return None;
        },
    };
    let y = match parse_i32(year) {
        Some(y) => y,
        None => {
            return None;
        },
    };
    CalendarDate::from_ymd_opt(y, m, d)
}

} // verus!
