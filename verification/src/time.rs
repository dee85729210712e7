//! Naive local date-times at minute resolution.
//!
//! A [`Timestamp`] holds the calendar fields as plain integers and is always a
//! real date of the proleptic Gregorian calendar. Text is read and written by
//! `chrono`; everything else (ordering, day comparison, minutes since midnight)
//! is computed here on the fields.

use chrono::{Datelike, NaiveDate, NaiveDateTime, Timelike};
use vstd::prelude::*;

use crate::text::{padded4, two_digits};

verus! {

/// Earliest year a timestamp can carry.
pub const MIN_YEAR: i32 = -262143;

/// Latest year a timestamp can carry.
pub const MAX_YEAR: i32 = 262142;

/// Minutes in one day.
pub const MINUTES_PER_DAY: u32 = 1440;

/// Mathematical model of a [`Timestamp`]: its five calendar fields.
pub struct DateTime {
    pub year: int,
    pub month: int,
    pub day: int,
    pub hour: int,
    pub minute: int,
}

/// Leap years of the proleptic Gregorian calendar.
pub open spec fn is_leap_year(year: int) -> bool {
    year % 4 == 0 && (year % 100 != 0 || year % 400 == 0)
}

/// Number of days of `month` in `year`; zero when `month` is not a month.
pub open spec fn days_in_month(year: int, month: int) -> int {
    if month == 2 {
        if is_leap_year(year) {
            29
        } else {
            28
        }
    } else if month == 4 || month == 6 || month == 9 || month == 11 {
        30
    } else if 1 <= month <= 12 {
        31
    } else {
        0
    }
}

impl DateTime {
    /// The fields name a real minute of a real day within the supported years.
    pub open spec fn is_valid(self) -> bool {
        &&& MIN_YEAR <= self.year <= MAX_YEAR
        &&& 1 <= self.month <= 12
        &&& 1 <= self.day <= days_in_month(self.year, self.month)
        &&& 0 <= self.hour < 24
        &&& 0 <= self.minute < 60
    }

    /// Strict chronological order: field by field, most significant first.
    pub open spec fn is_before(self, other: DateTime) -> bool {
        ||| self.year < other.year
        ||| (self.year == other.year && self.month < other.month)
        ||| (self.year == other.year && self.month == other.month && self.day < other.day)
        ||| (self.year == other.year && self.month == other.month && self.day == other.day
            && self.hour < other.hour)
        ||| (self.year == other.year && self.month == other.month && self.day == other.day
            && self.hour == other.hour && self.minute < other.minute)
    }

    /// Minutes elapsed since midnight of the timestamp's own day.
    pub open spec fn minute_of_day(self) -> int {
        self.hour * 60 + self.minute
    }

    /// `minute_of_day` moved back by `minutes`, wrapping around midnight.
    pub open spec fn minute_of_day_before(self, minutes: int) -> int {
        (self.minute_of_day() - minutes) % (MINUTES_PER_DAY as int)
    }

    /// The date as `YYYY-MM-DD`. Years outside `0..=9999` carry a sign.
    pub open spec fn date_text(self) -> Seq<char> {
        year_text(self.year) + seq!['-'] + two_digits(self.month as nat) + seq!['-'] + two_digits(
            self.day as nat,
        )
    }

    /// The timestamp as `YYYY.MM.DD HH:MM`, the form in which export files carry it.
    pub open spec fn stamp_text(self) -> Seq<char> {
        year_text(self.year) + seq!['.'] + two_digits(self.month as nat) + seq!['.'] + two_digits(
            self.day as nat,
        ) + seq![' '] + two_digits(self.hour as nat) + seq![':'] + two_digits(self.minute as nat)
    }
}

/// A year as at least four digits, zero-padded, with a sign outside `0..=9999`.
pub open spec fn year_text(year: int) -> Seq<char> {
    if year < 0 {
        seq!['-'] + padded4((-year) as nat)
    } else if year > 9999 {
        seq!['+'] + padded4(year as nat)
    } else {
        padded4(year as nat)
    }
}

/// What `chrono` makes of `text` under the pattern `%Y.%m.%d %H:%M`: the
/// fields of the date-time it reads, or `None` where it rejects the text.
pub uninterp spec fn parsed_timestamp(text: Seq<char>) -> Option<DateTime>;

/// A naive local date-time at minute resolution.
#[derive(Clone, Copy, Debug, PartialEq, Eq, Structural)]
pub struct Timestamp {
    year: i32,
    month: u32,
    day: u32,
    hour: u32,
    minute: u32,
}

impl View for Timestamp {
    type V = DateTime;

    closed spec fn view(&self) -> DateTime {
        DateTime {
            year: self.year as int,
            month: self.month as int,
            day: self.day as int,
            hour: self.hour as int,
            minute: self.minute as int,
        }
    }
}

/// The model of an optional timestamp.
pub open spec fn stamp_view(stamp: Option<Timestamp>) -> Option<DateTime> {
    match stamp {
        Some(t) => Some(t@),
        None => None,
    }
}

/// Whether `year` is a leap year.
pub fn leap_year(year: i32) -> (leap: bool)
    ensures
        leap == is_leap_year(year as int),
{
    year % 4 == 0 && (year % 100 != 0 || year % 400 == 0)
}

/// Number of days of `month` in `year`; zero when `month` is not in `1..=12`.
pub fn month_length(year: i32, month: u32) -> (days: u32)
    ensures
        days == days_in_month(year as int, month as int),
{
    if month == 2 {
        if leap_year(year) {
            29
        } else {
            28
        }
    } else if month == 4 || month == 6 || month == 9 || month == 11 {
        30
    } else if 1 <= month && month <= 12 {
        31
    } else {
        0
    }
}

/// Reads `text` with `chrono::NaiveDateTime::parse_from_str` under the pattern
/// `%Y.%m.%d %H:%M` and copies the fields of the result.
///
/// Trusted: the outcome depends on `text` alone, and a date-time that chrono
/// hands out is a real calendar minute within chrono's year range.
#[verifier::external_body]
fn chrono_parse(text: &str) -> (stamp: Option<Timestamp>)
    ensures
        stamp_view(stamp) == parsed_timestamp(text@),
        stamp matches Some(t) ==> t@.is_valid(),
{
    match NaiveDateTime::parse_from_str(text, "%Y.%m.%d %H:%M") {
        Ok(t) => Some(
            Timestamp {
                year: t.year(),
                month: t.month(),
                day: t.day(),
                hour: t.hour(),
                minute: t.minute(),
            },
        ),
        Err(_) => None,
    }
}

/// Writes the date of `stamp` with `chrono::NaiveDateTime::format` under the
/// pattern `%Y-%m-%d`.
///
/// Trusted: chrono takes every valid timestamp for a date-time of its own,
/// and writes the year zero-padded to four digits, with a sign when it lies
/// outside `0..=9999`, and month and day as two digits each.
#[verifier::external_body]
fn chrono_format_date(stamp: &Timestamp) -> (text: String)
    requires
        stamp@.is_valid(),
    ensures
        text@ == stamp@.date_text(),
{
    match NaiveDate::from_ymd_opt(stamp.year, stamp.month, stamp.day) {
        Some(date) => match date.and_hms_opt(stamp.hour, stamp.minute, 0) {
            Some(moment) => moment.format("%Y-%m-%d").to_string(),
            None => String::new(),
        },
        None => String::new(),
    }
}

/// Writes `stamp` with `chrono::NaiveDateTime::format` under the pattern
/// `%Y.%m.%d %H:%M`.
///
/// Trusted: chrono takes every valid timestamp for a date-time of its own,
/// and writes the year as in [`chrono_format_date`] and month, day, hour
/// and minute as two digits each.
#[verifier::external_body]
fn chrono_format_stamp(stamp: &Timestamp) -> (text: String)
    requires
        stamp@.is_valid(),
    ensures
        text@ == stamp@.stamp_text(),
{
    match NaiveDate::from_ymd_opt(stamp.year, stamp.month, stamp.day) {
        Some(date) => match date.and_hms_opt(stamp.hour, stamp.minute, 0) {
            Some(moment) => moment.format("%Y.%m.%d %H:%M").to_string(),
            None => String::new(),
        },
        None => String::new(),
    }
}

impl Timestamp {
    #[verifier::type_invariant]
    spec fn well_formed(self) -> bool {
        self@.is_valid()
    }

    /// Builds a timestamp from its fields; `None` unless they name a real
    /// minute of a real day within the supported years.
    pub fn new(year: i32, month: u32, day: u32, hour: u32, minute: u32) -> (stamp: Option<
        Timestamp,
    >)
        ensures
            match stamp {
                Some(t) => t@ == (DateTime {
                    year: year as int,
                    month: month as int,
                    day: day as int,
                    hour: hour as int,
                    minute: minute as int,
                }) && t@.is_valid(),
                None => !(DateTime {
                    year: year as int,
                    month: month as int,
                    day: day as int,
                    hour: hour as int,
                    minute: minute as int,
                }).is_valid(),
            },
    {
        if MIN_YEAR <= year && year <= MAX_YEAR && 1 <= month && month <= 12 && 1 <= day && day
            <= month_length(year, month) && hour < 24 && minute < 60 {
            Some(Timestamp { year, month, day, hour, minute })
        } else {
            None
        }
    }

    /// Midnight of 1 January 1970, the timestamp of a record not yet filled in.
    pub fn epoch() -> (stamp: Timestamp)
        ensures
            stamp@ == (DateTime { year: 1970, month: 1, day: 1, hour: 0, minute: 0 }),
    {
        Timestamp { year: 1970, month: 1, day: 1, hour: 0, minute: 0 }
    }

    /// Reads a timestamp written as `YYYY.MM.DD HH:MM`.
    pub fn parse(text: &str) -> (stamp: Option<Timestamp>)
        ensures
            stamp_view(stamp) == parsed_timestamp(text@),
    {
        chrono_parse(text)
    }

    pub fn year(&self) -> (year: i32)
        ensures
            year == self@.year,
    {
        self.year
    }

    pub fn month(&self) -> (month: u32)
        ensures
            month == self@.month,
            1 <= month <= 12,
    {
        proof {
            use_type_invariant(self);
        }
        self.month
    }

    /// Day of the month, starting at 1.
    pub fn day(&self) -> (day: u32)
        ensures
            day == self@.day,
            1 <= day <= 31,
    {
        proof {
            use_type_invariant(self);
        }
        self.day
    }

    pub fn hour(&self) -> (hour: u32)
        ensures
            hour == self@.hour,
            hour < 24,
    {
        proof {
            use_type_invariant(self);
        }
        self.hour
    }

    pub fn minute(&self) -> (minute: u32)
        ensures
            minute == self@.minute,
            minute < 60,
    {
        proof {
            use_type_invariant(self);
        }
        self.minute
    }

    /// Whether both timestamps name the same minute.
    pub fn same_as(&self, other: &Timestamp) -> (same: bool)
        ensures
            same == (self@ == other@),
    {
        self.year == other.year && self.month == other.month && self.day == other.day && self.hour
            == other.hour && self.minute == other.minute
    }

    /// Whether `self` is strictly earlier than `other`.
    pub fn is_before(&self, other: &Timestamp) -> (before: bool)
        ensures
            before == self@.is_before(other@),
    {
        if self.year != other.year {
            self.year < other.year
        } else if self.month != other.month {
            self.month < other.month
        } else if self.day != other.day {
            self.day < other.day
        } else if self.hour != other.hour {
            self.hour < other.hour
        } else {
            self.minute < other.minute
        }
    }

    /// Minutes elapsed since midnight of the timestamp's own day.
    pub fn minute_of_day(&self) -> (minutes: u32)
        ensures
            minutes == self@.minute_of_day(),
            minutes < MINUTES_PER_DAY,
    {
        proof {
            use_type_invariant(self);
        }
        self.hour * 60 + self.minute
    }

    /// `minute_of_day` moved back by `minutes`, wrapping around midnight.
    pub fn minute_of_day_before(&self, minutes: u32) -> (shifted: u32)
        ensures
            shifted == self@.minute_of_day_before(minutes as int),
            shifted < MINUTES_PER_DAY,
    {
        let now: u32 = self.minute_of_day();
        let back: u32 = minutes % MINUTES_PER_DAY;
        if back <= now {
            now - back
        } else {
            now + MINUTES_PER_DAY - back
        }
    }

    /// The date as `YYYY-MM-DD`.
    pub fn date_text(&self) -> (text: String)
        ensures
            text@ == self@.date_text(),
    {
        proof {
            use_type_invariant(self);
        }
        chrono_format_date(self)
    }

    /// The timestamp as `YYYY.MM.DD HH:MM`.
    pub fn stamp_text(&self) -> (text: String)
        ensures
            text@ == self@.stamp_text(),
    {
        proof {
            use_type_invariant(self);
        }
        chrono_format_stamp(self)
    }
}

/// Two timestamps are the same value exactly when their models agree.
pub proof fn lemma_timestamp_view_injective(a: Timestamp, b: Timestamp)
    ensures
        (a@ == b@) <==> a == b,
{
}

} // verus!
