//! Dates and times, through `chrono`.
use chrono::Datelike;
use std::fmt::Write;
use vstd::prelude::*;

use crate::models::{CalendarDate, UtcTime};

verus! {

/// `chrono::ParseError`, carried through as an opaque value.
#[verifier::external_type_specification]
#[verifier::external_body]
pub struct ExChronoParseError(chrono::ParseError);

/// The UTC instant that `chrono::DateTime::parse_from_rfc2822` reads from
/// `text`, or `None` where it reports an error.
pub uninterp spec fn rfc2822_instant(text: Seq<char>) -> Option<UtcTime>;

/// The date that `chrono::NaiveDate::parse_from_str` reads from `text` with
/// the format `fmt`, or `None` where it reports an error.
pub uninterp spec fn naive_date_parsed(text: Seq<char>, fmt: Seq<char>) -> Option<CalendarDate>;

/// The first second chrono can represent: the start of January 1,
/// 262144 BCE (`DateTime::<Utc>::MIN_UTC`), in Unix seconds.
pub open spec fn first_utc_second() -> int {
    -8_334_601_228_800
}

/// The last second chrono can represent: the last second of December 31,
/// 262142 CE (`DateTime::<Utc>::MAX_UTC`), in Unix seconds.
pub open spec fn last_utc_second() -> int {
    8_210_266_876_799
}

/// Whether `chrono::DateTime::<Utc>::from_timestamp(secs, 0)` gives an
/// instant: it does exactly for the seconds of chrono's range of dates.
pub open spec fn timestamp_in_range(secs: int) -> bool {
    first_utc_second() <= secs <= last_utc_second()
}

/// What `chrono` writes for the instant `(secs, nanos)` with the strftime
/// format `fmt`; `None` where the instant is out of range or the format is
/// invalid.
pub uninterp spec fn strftime_text(secs: int, nanos: int, fmt: Seq<char>) -> Option<Seq<char>>;

/// What `DateTime::<Utc>::to_rfc3339` writes for the instant `(secs, nanos)`;
/// `None` where the instant is out of range.
pub uninterp spec fn rfc3339_text(secs: int, nanos: int) -> Option<Seq<char>>;

/// Calls `chrono::DateTime::parse_from_rfc2822` and converts the result to
/// UTC (`with_timezone(&Utc)`). The contract names the instant read from
/// `text` and says that the call fails exactly where that name is `None`.
#[verifier::external_body]
pub(crate) fn parse_rfc2822(text: &str) -> (res: Result<UtcTime, chrono::ParseError>)
    ensures
        res is Ok <==> rfc2822_instant(text@) is Some,
        res matches Ok(t) ==> rfc2822_instant(text@) == Some(t),
{
    let parsed = chrono::DateTime::parse_from_rfc2822(text)?.with_timezone(&chrono::Utc);
    Ok(UtcTime { seconds: parsed.timestamp(), nanos: parsed.timestamp_subsec_nanos() })
}

/// Calls `chrono::NaiveDate::parse_from_str(text, fmt)`, keeping the date
/// and dropping the error. The result is named by [`naive_date_parsed`].
#[verifier::external_body]
pub(crate) fn parse_naive_date(text: &str, fmt: &str) -> (res: Option<CalendarDate>)
    ensures
        res == naive_date_parsed(text@, fmt@),
{
    let date = chrono::NaiveDate::parse_from_str(text, fmt).ok()?;
    Some(CalendarDate { year: date.year(), month: date.month(), day: date.day() })
}

/// Calls `chrono::DateTime::<Utc>::from_timestamp(secs, 0)`. It gives an
/// instant exactly when `secs` lies in chrono's range of dates (the day
/// `secs` falls on is between `NaiveDate::MIN` and `NaiveDate::MAX`), and
/// that instant is `secs` seconds past the epoch with no fractional part.
#[verifier::external_body]
pub(crate) fn utc_from_timestamp(secs: i64) -> (res: Option<UtcTime>)
    ensures
        res is Some <==> timestamp_in_range(secs as int),
        res matches Some(t) ==> t.seconds == secs && t.nanos == 0,
{
    let t = chrono::DateTime::<chrono::Utc>::from_timestamp(secs, 0)?;
    Some(UtcTime { seconds: t.timestamp(), nanos: t.timestamp_subsec_nanos() })
}

/// Calls `chrono::DateTime::<Utc>::from_timestamp` and writes the instant
/// with `DateTime::format(fmt)`; `None` where the instant is out of range
/// or the format cannot be written. The text is named by [`strftime_text`].
#[verifier::external_body]
pub(crate) fn format_utc(t: UtcTime, fmt: &str) -> (res: Option<String>)
    ensures
        match (res, strftime_text(t.seconds as int, t.nanos as int, fmt@)) {
            (Some(s), Some(v)) => s@ == v,
            (None, None) => true,
            _ => false,
        },
{
    let instant = chrono::DateTime::<chrono::Utc>::from_timestamp(t.seconds, t.nanos)?;
    let mut out = String::new();
    write!(out, "{}", instant.format(fmt)).ok()?;
    Some(out)
}

/// Calls `chrono::DateTime::<Utc>::from_timestamp` and
/// `DateTime::to_rfc3339`; `None` where the instant is out of range. The
/// text is named by [`rfc3339_text`].
#[verifier::external_body]
pub(crate) fn format_rfc3339(t: UtcTime) -> (res: Option<String>)
    ensures
        match (res, rfc3339_text(t.seconds as int, t.nanos as int)) {
            (Some(s), Some(v)) => s@ == v,
            (None, None) => true,
            _ => false,
        },
{
    let instant = chrono::DateTime::<chrono::Utc>::from_timestamp(t.seconds, t.nanos)?;
    Some(instant.to_rfc3339())
}

} // verus!
