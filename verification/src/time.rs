//! Points in time and calendar days, with second precision.
//!
//! A [`Timestamp`] counts seconds from 1970-01-01T00:00:00 and a [`Date`]
//! counts days from 1970-01-01. Both are confined to the years 0000 to 9999,
//! the range in which the stored text form `YYYY-MM-DDTHH:MM:SS` has a fixed
//! width and orders as the instants do.

use chrono::{DateTime, Local, NaiveDate, NaiveDateTime, NaiveTime, Timelike};
use vstd::prelude::*;

verus! {

/// Seconds of 0000-01-01T00:00:00.
pub const MIN_SECS: i64 = -62_167_219_200;

/// Seconds of 9999-12-31T23:59:59.
pub const MAX_SECS: i64 = 253_402_300_799;

/// Day number of 0000-01-01.
pub const MIN_DAYS: i64 = -719_528;

/// Day number of 9999-12-31.
pub const MAX_DAYS: i64 = 2_932_896;

pub const SECS_PER_DAY: i64 = 86_400;

pub open spec fn secs_in_range(secs: int) -> bool {
    MIN_SECS <= secs <= MAX_SECS
}

pub open spec fn days_in_range(days: int) -> bool {
    MIN_DAYS <= days <= MAX_DAYS
}

/// The day on which the second `secs` falls.
pub open spec fn day_of(secs: int) -> int {
    secs / 86_400
}

/// Whole minutes from `earlier` to `later`, rounded toward zero.
pub open spec fn minutes_between(earlier: int, later: int) -> int {
    if later >= earlier {
        (later - earlier) / 60
    } else {
        -((earlier - later) / 60)
    }
}

/// The second `secs` where it lies in the years 0000 to 9999, else the
/// nearest second of those years.
pub open spec fn clamp_secs(secs: int) -> int {
    if secs < MIN_SECS {
        MIN_SECS as int
    } else if secs > MAX_SECS {
        MAX_SECS as int
    } else {
        secs
    }
}

/// What chrono prints for the second `secs` under the format `fmt`.
pub uninterp spec fn datetime_text(secs: i64, fmt: Seq<char>) -> Option<Seq<char>>;

/// What chrono reads from `text` as a date and time under the format `fmt`.
pub uninterp spec fn datetime_parsed(text: Seq<char>, fmt: Seq<char>) -> Option<i64>;

/// What chrono reads from `text` as a date under the format `fmt`.
pub uninterp spec fn date_parsed(text: Seq<char>, fmt: Seq<char>) -> Option<i64>;

/// What chrono reads from `text` as a time of day under the format `fmt`.
pub uninterp spec fn time_of_day_parsed(text: Seq<char>, fmt: Seq<char>) -> Option<u32>;

pub open spec fn known_format(fmt: Seq<char>) -> bool {
    ||| fmt == "%H:%M"@
    ||| fmt == "%Y-%m-%d"@
    ||| fmt == "%Y-%m-%d %H:%M"@
    ||| fmt == "%Y-%m-%dT%H:%M:%S"@
}

pub open spec fn text_view(text: Option<String>) -> Option<Seq<char>> {
    match text {
        Some(s) => Some(s@),
        None => None,
    }
}

/// `chrono::NaiveDateTime::parse_from_str`, the result given as seconds from
/// 1970-01-01T00:00:00 (`and_utc().timestamp()`). Nothing is claimed beyond
/// that the result is a function of the two texts.
#[verifier::external_body]
pub(crate) fn parse_datetime_secs(text: &str, fmt: &str) -> (r: Option<i64>)
    ensures
        r == datetime_parsed(text@, fmt@),
{
    match NaiveDateTime::parse_from_str(text, fmt) {
        Ok(d) => Some(d.and_utc().timestamp()),
        Err(_) => None,
    }
}

/// `chrono::NaiveDate::parse_from_str`, the result given as the seconds of
/// that day's midnight. Nothing is claimed beyond that the result is a
/// function of the two texts.
#[verifier::external_body]
pub(crate) fn parse_date_secs(text: &str, fmt: &str) -> (r: Option<i64>)
    ensures
        r == date_parsed(text@, fmt@),
{
    match NaiveDate::parse_from_str(text, fmt) {
        Ok(d) => Some(d.and_time(NaiveTime::MIN).and_utc().timestamp()),
        Err(_) => None,
    }
}

/// `chrono::NaiveTime::parse_from_str`, the result given as seconds from
/// midnight (`num_seconds_from_midnight`). Nothing is claimed beyond that the
/// result is a function of the two texts.
#[verifier::external_body]
pub(crate) fn parse_time_of_day_secs(text: &str, fmt: &str) -> (r: Option<u32>)
    ensures
        r == time_of_day_parsed(text@, fmt@),
{
    match NaiveTime::parse_from_str(text, fmt) {
        Ok(t) => Some(t.num_seconds_from_midnight()),
        Err(_) => None,
    }
}

/// `chrono::DateTime::from_timestamp` followed by `format`. The text is a
/// function of the second and the format; `from_timestamp` accepts every
/// second of the years 0000 to 9999, so a text comes back for each of them.
/// The format must be one of those this library uses, all of which chrono
/// accepts.
#[verifier::external_body]
pub(crate) fn format_secs(secs: i64, fmt: &str) -> (r: Option<String>)
    requires
        known_format(fmt@),
    ensures
        text_view(r) == datetime_text(secs, fmt@),
        secs_in_range(secs as int) ==> r is Some,
{
    match DateTime::from_timestamp(secs, 0) {
        Some(d) => Some(d.naive_utc().format(fmt).to_string()),
        None => None,
    }
}

/// `chrono::Local::now`, as the seconds that the local wall clock shows,
/// counted from 1970-01-01T00:00:00. The result depends on the moment of the
/// call and on the machine's time zone, so nothing is claimed of it.
#[verifier::external_body]
pub(crate) fn local_now_secs() -> i64 {
    Local::now().naive_local().and_utc().timestamp()
}

/// A calendar day of the years 0000 to 9999.
#[derive(Clone, Copy, Debug, PartialEq, Eq, Structural)]
pub struct Date {
    days: i64,
}

/// A second of the years 0000 to 9999.
#[derive(Clone, Copy, Debug, PartialEq, Eq, Structural)]
pub struct Timestamp {
    secs: i64,
}

impl View for Date {
    type V = int;

    closed spec fn view(&self) -> int {
        self.days as int
    }
}

impl View for Timestamp {
    type V = int;

    closed spec fn view(&self) -> int {
        self.secs as int
    }
}

impl Date {
    #[verifier::type_invariant]
    pub closed spec fn inv(self) -> bool {
        days_in_range(self.days as int)
    }

    /// The day numbered `days` from 1970-01-01, if it lies in the years 0000
    /// to 9999.
    pub fn from_days(days: i64) -> (r: Option<Date>)
        ensures
            days_in_range(days as int) ==> (r matches Some(d) && d@ == days && d.inv()),
            !days_in_range(days as int) ==> r is None,
    {
        if MIN_DAYS <= days && days <= MAX_DAYS {
            Some(Date { days })
        } else {
            None
        }
    }

    pub fn days(&self) -> (r: i64)
        ensures
            r == self@,
            days_in_range(r as int),
            self.inv(),
    {
        proof {
            use_type_invariant(self);
        }
        self.days
    }

    /// The day before, if it lies in the years 0000 to 9999.
    pub fn pred(&self) -> (r: Option<Date>)
        ensures
            match r {
                Some(d) => self@ > MIN_DAYS && d@ == self@ - 1,
                None => self@ == MIN_DAYS,
            },
    {
        let days: i64 = self.days();
        Date::from_days(days - 1)
    }

    /// The second `second_of_day` of this day, counted from midnight.
    pub fn at_second(&self, second_of_day: u32) -> (r: Timestamp)
        requires
            second_of_day < 86_400,
        ensures
            r@ == self@ * 86_400 + second_of_day,
    {
        let days: i64 = self.days();
        let secs: i64 = days * SECS_PER_DAY + second_of_day as i64;
        Timestamp { secs }
    }

    /// The day as `YYYY-MM-DD`.
    pub fn format_iso(&self) -> (r: String)
        ensures
            Some(r@) == datetime_text((self@ * 86_400) as i64, "%Y-%m-%d"@),
    {
        let days: i64 = self.days();
        match format_secs(days * SECS_PER_DAY, "%Y-%m-%d") {
            Some(text) => text,
            None => unreached(),
        }
    }
}

impl Timestamp {
    #[verifier::type_invariant]
    pub closed spec fn inv(self) -> bool {
        secs_in_range(self.secs as int)
    }

    /// The second numbered `secs` from 1970-01-01T00:00:00, if it lies in
    /// the years 0000 to 9999.
    pub fn from_secs(secs: i64) -> (r: Option<Timestamp>)
        ensures
            secs_in_range(secs as int) ==> (r matches Some(t) && t@ == secs && t.inv()),
            !secs_in_range(secs as int) ==> r is None,
    {
        if MIN_SECS <= secs && secs <= MAX_SECS {
            Some(Timestamp { secs })
        } else {
            None
        }
    }

    /// Every time lies in the years 0000 to 9999.
    pub proof fn lemma_in_range(self)
        requires
            self.inv(),
        ensures
            secs_in_range(self@),
    {
    }

    /// The second numbered `secs`, or the nearest second of the years 0000
    /// to 9999 where it lies outside them.
    pub fn clamped(secs: i64) -> (r: Timestamp)
        ensures
            secs_in_range(secs as int) ==> r@ == secs,
            secs < MIN_SECS ==> r@ == MIN_SECS,
            secs > MAX_SECS ==> r@ == MAX_SECS,
    {
        if secs < MIN_SECS {
            Timestamp { secs: MIN_SECS }
        } else if secs > MAX_SECS {
            Timestamp { secs: MAX_SECS }
        } else {
            Timestamp { secs }
        }
    }

    pub fn secs(&self) -> (r: i64)
        ensures
            r == self@,
            secs_in_range(r as int),
            self.inv(),
    {
        proof {
            use_type_invariant(self);
        }
        self.secs
    }

    /// The day on which the second falls.
    pub fn date(&self) -> (r: Date)
        ensures
            r@ == day_of(self@),
    {
        let secs: i64 = self.secs();
        let days: i64 = if secs >= 0 {
            secs / SECS_PER_DAY
        } else {
            -((-secs + (SECS_PER_DAY - 1)) / SECS_PER_DAY)
        };
        Date { days }
    }

    /// The time of day as `HH:MM`.
    pub fn format_hm(&self) -> (r: String)
        ensures
            Some(r@) == datetime_text(self@ as i64, "%H:%M"@),
    {
        match format_secs(self.secs(), "%H:%M") {
            Some(text) => text,
            None => unreached(),
        }
    }

    /// The day as `YYYY-MM-DD`.
    pub fn format_date(&self) -> (r: String)
        ensures
            Some(r@) == datetime_text(self@ as i64, "%Y-%m-%d"@),
    {
        match format_secs(self.secs(), "%Y-%m-%d") {
            Some(text) => text,
            None => unreached(),
        }
    }

    /// The day and the time of day as `YYYY-MM-DD HH:MM`.
    pub fn format_minute(&self) -> (r: String)
        ensures
            Some(r@) == datetime_text(self@ as i64, "%Y-%m-%d %H:%M"@),
    {
        match format_secs(self.secs(), "%Y-%m-%d %H:%M") {
            Some(text) => text,
            None => unreached(),
        }
    }

    /// The stored form `YYYY-MM-DDTHH:MM:SS`.
    pub fn format_stored(&self) -> (r: String)
        ensures
            Some(r@) == datetime_text(self@ as i64, "%Y-%m-%dT%H:%M:%S"@),
    {
        match format_secs(self.secs(), "%Y-%m-%dT%H:%M:%S") {
            Some(text) => text,
            None => unreached(),
        }
    }

    /// Whole minutes from `earlier` to `self`, rounded toward zero.
    pub fn minutes_since(&self, earlier: &Timestamp) -> (r: i64)
        ensures
            r == minutes_between(earlier@, self@),
    {
        let a: i64 = earlier.secs();
        let b: i64 = self.secs();
        if b >= a {
            (b - a) / 60
        } else {
            -((a - b) / 60)
        }
    }
}

} // verus!
