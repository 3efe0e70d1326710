//! Calendar dates.
//!
//! A [`Date`] is a day of the proleptic Gregorian calendar, held as year,
//! month and day. Reading a date from a text and printing one are done by
//! `chrono`; this module states what each of those calls returns.

use chrono::Datelike;
use chrono::NaiveDate;
use std::str::FromStr;
use vstd::prelude::*;
use crate::text::decimal_digits;
use crate::text::zero_padded;

verus! {

/// The first year a date can lie in.
pub const MIN_YEAR: i32 = -262143i32;

/// The last year a date can lie in.
pub const MAX_YEAR: i32 = 262142i32;

/// Whether the year `y` has a 29th of February.
pub open spec fn is_leap_year(y: int) -> bool {
    y % 4 == 0 && (y % 100 != 0 || y % 400 == 0)
}

/// The number of days of month `m` in year `y`; 0 where `m` is no month.
pub open spec fn days_in_month(y: int, m: int) -> int {
    if m == 2 {
        if is_leap_year(y) { 29 } else { 28 }
    } else if m == 4 || m == 6 || m == 9 || m == 11 {
        30
    } else if 1 <= m <= 12 {
        31
    } else {
        0
    }
}

/// The English name of month `m`; empty where `m` is no month.
pub open spec fn month_name(m: int) -> Seq<char> {
    if m == 1 {
        "January"@
    } else if m == 2 {
        "February"@
    } else if m == 3 {
        "March"@
    } else if m == 4 {
        "April"@
    } else if m == 5 {
        "May"@
    } else if m == 6 {
        "June"@
    } else if m == 7 {
        "July"@
    } else if m == 8 {
        "August"@
    } else if m == 9 {
        "September"@
    } else if m == 10 {
        "October"@
    } else if m == 11 {
        "November"@
    } else if m == 12 {
        "December"@
    } else {
        Seq::<char>::empty()
    }
}

/// A year as it stands at the head of a printed date: four digits from year 0
/// to year 9999, otherwise a sign and at least four digits.
pub open spec fn year_text(y: int) -> Seq<char> {
    if 0 <= y <= 9999 {
        zero_padded(y as nat, 4)
    } else if y < 0 {
        seq!['-'] + zero_padded((-y) as nat, 4)
    } else {
        seq!['+'] + zero_padded(y as nat, 4)
    }
}

/// What a [`Date`] is.
pub struct DateView {
    pub year: int,
    pub month: int,
    pub day: int,
}

impl DateView {
    /// Whether this is a day of the calendar, in a year that a date can hold.
    pub open spec fn valid(self) -> bool {
        &&& MIN_YEAR <= self.year <= MAX_YEAR
        &&& 1 <= self.month <= 12
        &&& 1 <= self.day <= days_in_month(self.year, self.month)
    }

    /// The date as `YYYY-MM-DD`.
    pub open spec fn iso_text(self) -> Seq<char> {
        year_text(self.year) + seq!['-'] + zero_padded(self.month as nat, 2) + seq!['-']
            + zero_padded(self.day as nat, 2)
    }

    /// The date as month name and day, such as `March 7`.
    pub open spec fn month_day_text(self) -> Seq<char> {
        month_name(self.month) + seq![' '] + decimal_digits(self.day as nat)
    }
}

/// The date that `chrono` reads from a text through `FromStr`, as year, month
/// and day; `None` where it rejects the text.
pub uninterp spec fn naive_date_from_str(text: Seq<char>) -> Option<(int, int, int)>;

/// The date that `chrono` reads from a text under the format `%Y-%m-%d`, as
/// year, month and day; `None` where it rejects the text.
pub uninterp spec fn naive_date_parse_ymd(text: Seq<char>) -> Option<(int, int, int)>;

/// A calendar date.
#[derive(Clone, Copy, Debug)]
pub struct Date {
    year: i32,
    month: u32,
    day: u32,
}

impl View for Date {
    type V = DateView;

    closed spec fn view(&self) -> DateView {
        DateView { year: self.year as int, month: self.month as int, day: self.day as int }
    }
}

/// Year, month and day of a date that may be absent.
pub open spec fn date_parts(d: Option<Date>) -> Option<(int, int, int)> {
    match d {
        Some(x) => Some((x@.year, x@.month, x@.day)),
        None => None,
    }
}

fn leap_year(y: i32) -> (r: bool)
    requires
        MIN_YEAR <= y <= MAX_YEAR,
    ensures
        r == is_leap_year(y as int),
{
    // Moved up by a multiple of 400 the year is positive and keeps its
    // remainders.
    let shifted: i32 = y + 262400;
    shifted % 4 == 0 && (shifted % 100 != 0 || shifted % 400 == 0)
}

fn month_length(y: i32, m: u32) -> (r: u32)
    requires
        MIN_YEAR <= y <= MAX_YEAR,
    ensures
        r == days_in_month(y as int, m as int),
{
    if m == 2 {
        if leap_year(y) { 29 } else { 28 }
    } else if m == 4 || m == 6 || m == 9 || m == 11 {
        30
    } else if 1 <= m && m <= 12 {
        31
    } else {
        0
    }
}

impl Date {
    #[verifier::type_invariant]
    spec fn on_calendar(self) -> bool {
        &&& MIN_YEAR <= self.year <= MAX_YEAR
        &&& 1 <= self.month <= 12
        &&& 1 <= self.day <= days_in_month(self.year as int, self.month as int)
    }

    /// The date of the given year, month and day, or `None` if the calendar
    /// has no such day.
    pub fn new(year: i32, month: u32, day: u32) -> (r: Option<Date>)
        ensures
            r is Some <==> (DateView { year: year as int, month: month as int, day: day as int }).valid(),
            r is Some ==> r->0@ == (DateView { year: year as int, month: month as int, day: day as int }),
    {
        if year < MIN_YEAR || year > MAX_YEAR || month < 1 || month > 12 || day < 1 {
            return None;
        }
        if day <= month_length(year, month) {
            Some(Date { year, month, day })
        } else {
            None
        }
    }

    /// The year.
    pub fn year(&self) -> (r: i32)
        ensures
            r == self@.year,
            self@.valid(),
    {
        proof {
            use_type_invariant(self);
        }
        self.year
    }

    /// The month, from 1 to 12.
    pub fn month(&self) -> (r: u32)
        ensures
            r == self@.month,
            self@.valid(),
    {
        proof {
            use_type_invariant(self);
        }
        self.month
    }

    /// The day of the month, from 1.
    pub fn day(&self) -> (r: u32)
        ensures
            r == self@.day,
            self@.valid(),
    {
        proof {
            use_type_invariant(self);
        }
        self.day
    }

    /// Reads a date as `chrono` reads one from a text.
    pub fn parse(text: &str) -> (r: Option<Date>)
        ensures
            date_parts(r) == naive_date_from_str(text@),
    {
        date_from_str(text)
    }

    /// Reads a date written as `YYYY-MM-DD`, as `chrono` reads that format.
    pub fn parse_ymd(text: &str) -> (r: Option<Date>)
        ensures
            date_parts(r) == naive_date_parse_ymd(text@),
    {
        date_parse_ymd(text)
    }

    /// The date as `YYYY-MM-DD`, a text that reads back as this date.
    pub fn to_iso(&self) -> (r: String)
        ensures
            r@ == self@.iso_text(),
            naive_date_from_str(r@) == Some((self@.year, self@.month, self@.day)),
    {
        date_iso(self)
    }

    /// The date as month name and day, such as `March 7`.
    pub fn to_month_day(&self) -> (r: String)
        ensures
            r@ == self@.month_day_text(),
    {
        date_month_day(self)
    }
}

/// `NaiveDate::from_str`: the result is the crate's own reading of the text,
/// which this library names and does not restate.
#[verifier::external_body]
fn date_from_str(text: &str) -> (r: Option<Date>)
    ensures
        date_parts(r) == naive_date_from_str(text@),
{
    match NaiveDate::from_str(text) {
        Ok(d) => Some(Date { year: d.year(), month: d.month(), day: d.day() }),
        Err(_) => None,
    }
}

/// `NaiveDate::parse_from_str` with the format `%Y-%m-%d`: the result is the
/// crate's own reading of the text, which this library names and does not
/// restate.
#[verifier::external_body]
fn date_parse_ymd(text: &str) -> (r: Option<Date>)
    ensures
        date_parts(r) == naive_date_parse_ymd(text@),
{
    match NaiveDate::parse_from_str(text, "%Y-%m-%d") {
        Ok(d) => Some(Date { year: d.year(), month: d.month(), day: d.day() }),
        Err(_) => None,
    }
}

/// `NaiveDate`'s `Display`: year, month and day joined by hyphens, month and
/// day in two digits, the year in four, or signed where it lies outside 0 to
/// 9999. This is the format that `NaiveDate::from_str` reads: the text reads
/// back as the date.
#[verifier::external_body]
fn date_iso(date: &Date) -> (r: String)
    ensures
        r@ == date@.iso_text(),
        naive_date_from_str(r@) == Some((date@.year, date@.month, date@.day)),
{
    let d = NaiveDate::from_ymd_opt(date.year, date.month, date.day).unwrap();
    format!("{}", d)
}

/// `NaiveDate::format` with `%B %-d`: the full English month name, a space,
/// and the day without padding.
#[verifier::external_body]
fn date_month_day(date: &Date) -> (r: String)
    ensures
        r@ == date@.month_day_text(),
{
    let d = NaiveDate::from_ymd_opt(date.year, date.month, date.day).unwrap();
    d.format("%B %-d").to_string()
}

} // verus!
