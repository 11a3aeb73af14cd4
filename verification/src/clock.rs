//! Calendar dates and the clock.

use vstd::prelude::*;

verus! {

/// A calendar date.
#[derive(Debug, Clone, Copy, PartialEq, Eq, Structural)]
pub struct Date {
    pub year: i32,
    pub month: u32,
    pub day: u32,
}

impl Date {
    /// Whether month and day are numbers that a calendar can show.
    pub open spec fn in_calendar(self) -> bool {
        1 <= self.month <= 12 && 1 <= self.day <= 31
    }

    /// Whether `self` is a later day than `other`.
    pub open spec fn is_after(self, other: Date) -> bool {
        ||| self.year > other.year
        ||| self.year == other.year && self.month > other.month
        ||| self.year == other.year && self.month == other.month && self.day > other.day
    }

    /// A date from its three numbers.
    pub fn new(year: i32, month: u32, day: u32) -> (date: Date)
        ensures
            date == (Date { year, month, day }),
    {
        Date { year, month, day }
    }

    /// Reads a date from a text in the form `%Y-%m-%d`.
    pub fn parse(text: &str) -> (parsed: Option<Date>)
        ensures
            match parsed {
                Some(d) => date_in(text@) == Some((d.year as int, d.month as int, d.day as int))
                    && d.in_calendar(),
                None => date_in(text@) is None,
            },
    {
        parse_date(text)
    }

    /// Tells whether `self` is a later day than `other`.
    pub fn after(&self, other: &Date) -> (later: bool)
        ensures
            later == self.is_after(*other),
    {
        self.year > other.year || (self.year == other.year && self.month > other.month) || (
        self.year == other.year && self.month == other.month && self.day > other.day)
    }
}

/// Year, month and day that `chrono` reads out of a text in the form
/// `%Y-%m-%d`, or nothing where it refuses the text.
pub uninterp spec fn date_in(text: Seq<char>) -> Option<(int, int, int)>;

/// Calls `chrono::NaiveDate::parse_from_str` with the format `%Y-%m-%d` and
/// takes year, month and day from the date it returns. A month is between 1
/// and 12, a day between 1 and 31.
#[verifier::external_body]
pub(crate) fn parse_date(text: &str) -> (parsed: Option<Date>)
    ensures
        match parsed {
            Some(d) => date_in(text@) == Some((d.year as int, d.month as int, d.day as int))
                && d.in_calendar(),
            None => date_in(text@) is None,
        },
{
    match chrono::NaiveDate::parse_from_str(text, "%Y-%m-%d") {
        Ok(d) => Some(
            Date {
                year: chrono::Datelike::year(&d),
                month: chrono::Datelike::month(&d),
                day: chrono::Datelike::day(&d),
            },
        ),
        Err(_) => None,
    }
}

/// The second that `chrono` reads out of a text in the form
/// `%Y-%m-%d %H:%M:%S`, counted from 1970-01-01 00:00:00 UTC, or nothing
/// where it refuses the text.
pub uninterp spec fn second_in(text: Seq<char>) -> Option<int>;

/// Calls `chrono::NaiveDateTime::parse_from_str` with the format
/// `%Y-%m-%d %H:%M:%S`, reads the result as a time in UTC and takes its
/// `timestamp`.
#[verifier::external_body]
pub(crate) fn parse_second(text: &str) -> (parsed: Option<i64>)
    ensures
        match parsed {
            Some(second) => second_in(text@) == Some(second as int),
            None => second_in(text@) is None,
        },
{
    match chrono::NaiveDateTime::parse_from_str(text, "%Y-%m-%d %H:%M:%S") {
        Ok(moment) => Some(moment.and_utc().timestamp()),
        Err(_) => None,
    }
}

/// The text that `chrono` writes for a second counted from 1970-01-01
/// 00:00:00 UTC, in the form `%Y-%m-%d %H:%M:%S`, or nothing where the second
/// lies outside the years that `chrono` can show.
pub uninterp spec fn text_of_second(second: int) -> Option<Seq<char>>;

/// Calls `chrono::DateTime::from_timestamp` with no nanoseconds and formats
/// the result with `%Y-%m-%d %H:%M:%S`.
#[verifier::external_body]
pub(crate) fn second_text(second: i64) -> (text: Option<String>)
    ensures
        match text {
            Some(t) => text_of_second(second as int) == Some(t@),
            None => text_of_second(second as int) is None,
        },
{
    match chrono::DateTime::from_timestamp(second, 0) {
        Some(moment) => Some(moment.format("%Y-%m-%d %H:%M:%S").to_string()),
        None => None,
    }
}

/// Calls `chrono::Utc::now` and takes year, month and day of its date in UTC.
/// A month is between 1 and 12, a day between 1 and 31. The call panics on a
/// clock that stands before 1970-01-01 00:00:00 UTC.
#[verifier::external_body]
pub(crate) fn today() -> (date: Date)
    ensures
        date.in_calendar(),
{
    let d = chrono::Utc::now().date_naive();
    Date {
        year: chrono::Datelike::year(&d),
        month: chrono::Datelike::month(&d),
        day: chrono::Datelike::day(&d),
    }
}

/// A second later than every second that the clock can give.
pub const LATEST_SECOND: i64 = 0x1_0000_0000_0000;

/// Calls `chrono::Utc::now` and takes its `timestamp`: whole seconds since
/// 1970-01-01 00:00:00 UTC. The call panics on a clock before that moment,
/// and `chrono` counts days in 32 bits, which bounds the result.
#[verifier::external_body]
pub(crate) fn unix_now() -> (now: i64)
    ensures
        0 <= now < LATEST_SECOND,
{
    chrono::Utc::now().timestamp()
}

} // verus!
