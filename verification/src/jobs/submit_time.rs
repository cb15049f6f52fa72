//! Points in time as the accounting tool writes them, read and written
//! through `chrono`.

use chrono::Datelike;
use chrono::Timelike;
use vstd::prelude::*;

verus! {

/// `chrono::ParseError`, why `chrono` rejects a text; nothing is read from
/// it.
#[verifier::external_type_specification]
#[verifier::external_body]
pub struct ExParseError(chrono::ParseError);

/// A calendar date and a time of day, without a time zone.
///
/// `nanosecond` is below one billion, except within a leap second, which is
/// held as second 59 with a nanosecond of one billion or more.
#[derive(Clone, Copy, Debug, PartialEq, Eq, Structural)]
pub struct SubmitTime {
    pub year: i32,
    pub month: u32,
    pub day: u32,
    pub hour: u32,
    pub minute: u32,
    pub second: u32,
    pub nanosecond: u32,
}

/// Whether `year` is a leap year of the proleptic Gregorian calendar.
pub open spec fn is_leap_year(year: int) -> bool {
    year % 4 == 0 && (year % 100 != 0 || year % 400 == 0)
}

/// The number of days of `month` in `year`; 0 where `month` is no month.
pub open spec fn days_in_month(year: int, month: int) -> int {
    if month == 2 {
        if is_leap_year(year) {
            29
        } else {
            28
        }
    } else if month == 4 || month == 6 || month == 9 || month == 11 {
        30
    } else if 1 <= month <= 12 {
        31
    } else {
        0
    }
}

impl SubmitTime {
    /// Whether the fields name a day that exists, within the years that
    /// `chrono` can hold, and a time of that day.
    pub open spec fn wf(self) -> bool {
        &&& -262143 <= self.year <= 262142
        &&& 1 <= self.month <= 12
        &&& 1 <= self.day <= days_in_month(self.year as int, self.month as int)
        &&& self.hour < 24
        &&& self.minute < 60
        &&& self.second < 60
        &&& (self.nanosecond < 1_000_000_000 || (self.second == 59 && self.nanosecond
            < 2_000_000_000))
    }

    /// Whether `self` is strictly earlier than `other`.
    pub open spec fn earlier(self, other: SubmitTime) -> bool {
        ||| self.year < other.year
        ||| self.year == other.year && self.month < other.month
        ||| self.year == other.year && self.month == other.month && self.day < other.day
        ||| self.year == other.year && self.month == other.month && self.day == other.day
            && self.hour < other.hour
        ||| self.year == other.year && self.month == other.month && self.day == other.day
            && self.hour == other.hour && self.minute < other.minute
        ||| self.year == other.year && self.month == other.month && self.day == other.day
            && self.hour == other.hour && self.minute == other.minute && self.second
            < other.second
        ||| self.year == other.year && self.month == other.month && self.day == other.day
            && self.hour == other.hour && self.minute == other.minute && self.second
            == other.second && self.nanosecond < other.nanosecond
    }

    /// Whether `self` is strictly earlier than `other`.
    pub fn is_earlier(&self, other: &SubmitTime) -> (r: bool)
        ensures
            r == self.earlier(*other),
    {
        if self.year != other.year {
            self.year < other.year
        } else if self.month != other.month {
            self.month < other.month
        } else if self.day != other.day {
            self.day < other.day
        } else if self.hour != other.hour {
            self.hour < other.hour
        } else if self.minute != other.minute {
            self.minute < other.minute
        } else if self.second != other.second {
            self.second < other.second
        } else {
            self.nanosecond < other.nanosecond
        }
    }
}

/// What `chrono` reads from a text in the form `%Y-%m-%dT%H:%M:%S`, or
/// `None` where it rejects the text.
pub uninterp spec fn datetime_of(text: Seq<char>) -> Option<SubmitTime>;

/// What `chrono` writes for a point in time in the form `%Y-%m-%d %H:%M:%S`.
pub uninterp spec fn datetime_text(t: SubmitTime) -> Seq<char>;

/// The seconds since midnight of the time of day that `chrono` reads from a
/// text in the form `%H:%M:%S`, or `None` where it rejects the text.
pub uninterp spec fn clock_seconds_of(text: Seq<char>) -> Option<u32>;

/// Calls `chrono::NaiveDateTime::parse_from_str` with the pattern
/// `%Y-%m-%dT%H:%M:%S` and hands back the fields of what was read.
///
/// Assumed of `chrono`: the outcome depends on the text alone, and a value
/// that it read is a day that exists and a time of that day.
#[verifier::external_body]
pub(crate) fn parse_datetime(s: &str) -> (r: Result<SubmitTime, chrono::ParseError>)
    ensures
        r matches Ok(t) ==> datetime_of(s@) == Some(t) && t.wf(),
        r is Err ==> datetime_of(s@) is None,
{
    match chrono::NaiveDateTime::parse_from_str(s, "%Y-%m-%dT%H:%M:%S") {
        Ok(t) => Ok(
            SubmitTime {
                year: t.year(),
                month: t.month(),
                day: t.day(),
                hour: t.hour(),
                minute: t.minute(),
                second: t.second(),
                nanosecond: t.nanosecond(),
            },
        ),
        Err(e) => Err(e),
    }
}

/// Builds the `chrono::NaiveDateTime` with the fields of `t` and calls its
/// `format` with the pattern `%Y-%m-%d %H:%M:%S`.
///
/// Assumed of `chrono`: it accepts every well-formed `t`, and the text
/// depends on `t` alone.
#[verifier::external_body]
pub(crate) fn format_datetime(t: &SubmitTime) -> (s: String)
    requires
        t.wf(),
    ensures
        s@ == datetime_text(*t),
{
    chrono::NaiveDate::from_ymd_opt(t.year, t.month, t.day)
        .unwrap()
        .and_hms_nano_opt(t.hour, t.minute, t.second, t.nanosecond)
        .unwrap()
        .format("%Y-%m-%d %H:%M:%S")
        .to_string()
}

/// Calls `chrono::NaiveTime::parse_from_str` with the pattern `%H:%M:%S`
/// and hands back `num_seconds_from_midnight` of what was read.
///
/// Assumed of `chrono`: the outcome depends on the text alone.
#[verifier::external_body]
pub(crate) fn parse_clock_seconds(s: &str) -> (r: Result<u32, chrono::ParseError>)
    ensures
        r matches Ok(n) ==> clock_seconds_of(s@) == Some(n),
        r is Err ==> clock_seconds_of(s@) is None,
{
    match chrono::NaiveTime::parse_from_str(s, "%H:%M:%S") {
        Ok(t) => Ok(t.num_seconds_from_midnight()),
        Err(e) => Err(e),
    }
}

} // verus!
