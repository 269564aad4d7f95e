//! Instants on the agenda's timeline.
//!
//! An [`Instant`] is a whole number of seconds counted from the start of
//! 1970. Civil dates are turned into instants, and instants into text, by
//! `chrono`; the two functions that call it are the only unverified code
//! in this module.

use vstd::prelude::*;

verus! {

/// Leap years of the proleptic Gregorian calendar.
pub open spec fn is_leap_year(year: int) -> bool {
    year % 4 == 0 && (year % 100 != 0 || year % 400 == 0)
}

/// Number of days of `month` in `year`; meaningful for months 1 to 12.
pub open spec fn days_in_month(year: int, month: int) -> int {
    if month == 2 {
        if is_leap_year(year) {
            29
        } else {
            28
        }
    } else if month == 4 || month == 6 || month == 9 || month == 11 {
        30
    } else {
        31
    }
}

/// The day exists in the proleptic Gregorian calendar and the time of day
/// is a minute of a 24-hour clock.
pub open spec fn is_calendar_time(year: int, month: int, day: int, hour: int, minute: int) -> bool {
    &&& 1 <= month <= 12
    &&& 1 <= day <= days_in_month(year, month)
    &&& 0 <= hour < 24
    &&& 0 <= minute < 60
}

/// Seconds from 1970-01-01 00:00:00 to the start of the given minute, in
/// the count `chrono` keeps (no leap seconds). Only meaningful where
/// [`is_calendar_time`] holds.
pub uninterp spec fn civil_seconds(year: int, month: int, day: int, hour: int, minute: int) -> int;

/// The text `chrono` writes for the instant `seconds` after the start of
/// 1970, or `None` where that instant lies outside the years it can hold.
pub uninterp spec fn timeline_text(seconds: int) -> Option<Seq<char>>;

/// The view of an optional string.
pub open spec fn text_view(text: Option<String>) -> Option<Seq<char>> {
    match text {
        Some(t) => Some(t@),
        None => None,
    }
}

/// The value of an optional clock field: an absent field counts as zero.
pub open spec fn or_zero(field: Option<u8>) -> int {
    match field {
        Some(v) => v as int,
        None => 0,
    }
}

/// Calls `chrono::NaiveDate::from_ymd_opt`, then `NaiveDate::and_hms_opt`
/// with zero seconds, then `NaiveDateTime::and_utc` and
/// `DateTime::timestamp`.
///
/// Trusted: the date and the time of day are accepted exactly when they
/// satisfy [`is_calendar_time`] (every `u16` year is within the range of
/// `NaiveDate`), and the timestamp of an accepted one is what
/// [`civil_seconds`] names.
#[verifier::external_body]
fn seconds_of_civil(year: u16, month: u8, day: u8, hour: u8, minute: u8) -> (r: Option<i64>)
    ensures
        r is Some <==> is_calendar_time(
            year as int,
            month as int,
            day as int,
            hour as int,
            minute as int,
        ),
        r matches Some(s) ==> s == civil_seconds(
            year as int,
            month as int,
            day as int,
            hour as int,
            minute as int,
        ),
{
    let date = chrono::NaiveDate::from_ymd_opt(year.into(), month.into(), day.into())?;
    let moment = date.and_hms_opt(hour.into(), minute.into(), 0)?;
    Some(moment.and_utc().timestamp())
}

/// Calls `chrono::DateTime::from_timestamp` with zero nanoseconds, then
/// `DateTime::naive_utc`, and formats the result with the `Display` of
/// `NaiveDateTime`.
///
/// Trusted: the outcome is what [`timeline_text`] names for `seconds`.
#[verifier::external_body]
fn text_of_seconds(seconds: i64) -> (r: Option<String>)
    ensures
        text_view(r) == timeline_text(seconds as int),
{
    let moment = chrono::DateTime::from_timestamp(seconds, 0)?;
    Some(format!("{}", moment.naive_utc()))
}

/// A point on the timeline, to the second.
#[derive(Clone, Copy, Debug, PartialEq, Eq, PartialOrd, Ord, Hash)]
pub struct Instant {
    /// Seconds since 1970-01-01 00:00:00, negative before it.
    pub seconds: i64,
}

impl Instant {
    /// The instant at which the given minute of the given day begins.
    ///
    /// An absent `hour` or `minute` counts as zero, so a date without a
    /// time of day stands for its midnight. Returns `None` exactly when
    /// the date does not exist or the time of day is out of range.
    pub fn from_civil(year: u16, month: u8, day: u8, hour: Option<u8>, minute: Option<u8>) -> (r:
        Option<Instant>)
        ensures
            r is Some <==> is_calendar_time(
                year as int,
                month as int,
                day as int,
                or_zero(hour),
                or_zero(minute),
            ),
            r matches Some(t) ==> t.seconds == civil_seconds(
                year as int,
                month as int,
                day as int,
                or_zero(hour),
                or_zero(minute),
            ),
    {
        let h: u8 = match hour {
            Some(v) => v,
            None => 0,
        };
        let m: u8 = match minute {
            Some(v) => v,
            None => 0,
        };
        match seconds_of_civil(year, month, day, h, m) {
            Some(seconds) => Some(Instant { seconds }),
            None => None,
        }
    }

    /// The date and time of this instant as text, such as
    /// `2024-03-01 09:00:00`; `None` where the instant lies outside the
    /// years that can be written.
    pub fn text(&self) -> (r: Option<String>)
        ensures
            text_view(r) == timeline_text(self.seconds as int),
    {
        text_of_seconds(self.seconds)
    }
}

} // verus!
