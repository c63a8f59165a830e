//! Dates and times, as the `chrono` crate reads and counts them.

use vstd::prelude::*;

use chrono::TimeZone;

verus! {

/// The first day that `chrono` has a date for, January 1 of the year -262143, counted from the Unix
/// epoch.
pub const FIRST_DAY: i64 = -96_465_292;

/// The last day that `chrono` has a date for, December 31 of the year 262142, counted from the Unix
/// epoch.
pub const LAST_DAY: i64 = 95_026_236;

/// The milliseconds of a day.
pub const DAY_MILLIS: i64 = 86_400_000;

/// The microseconds of a day.
pub const DAY_MICROS: i64 = 86_400_000_000;

/// Whether `chrono` has a date and time for a number of milliseconds since the Unix epoch.
pub open spec fn has_millis(millis: int) -> bool {
    FIRST_DAY * DAY_MILLIS <= millis < (LAST_DAY + 1) * DAY_MILLIS
}

/// What `chrono::NaiveDate::parse_from_str` reads from a text in a format, as days since the Unix
/// epoch.
pub uninterp spec fn date_days(raw: Seq<char>, format: Seq<char>) -> Option<i32>;

/// What `chrono::NaiveDateTime::parse_from_str` reads from a text in a format, as microseconds since
/// the Unix epoch: nothing, or a date and time, whose microseconds may be too many for 64 bits.
pub uninterp spec fn naive_date_time_micros(raw: Seq<char>, format: Seq<char>) -> Option<
    Option<i64>,
>;

/// What `chrono::DateTime::parse_from_str` reads from a text in a format, as microseconds since the
/// Unix epoch: nothing, or a date and time with an offset, whose microseconds may be too many for 64
/// bits.
pub uninterp spec fn date_time_micros(raw: Seq<char>, format: Seq<char>) -> Option<Option<i64>>;

/// `chrono::NaiveDate::parse_from_str`, and the days from the Unix epoch to the start of that day in
/// UTC. The result depends on the text and the format alone and is named [`date_days`]; which texts
/// are dates is not stated.
#[verifier::external_body]
pub(crate) fn parse_date(raw: &str, format: &str) -> (r: Option<i32>)
    ensures
        r == date_days(raw@, format@),
{
    let date = chrono::NaiveDate::parse_from_str(raw, format).ok()?.and_hms_opt(0, 0, 0)?;
    let date = chrono::Utc.from_utc_datetime(&date);
    Some(date.signed_duration_since(chrono::DateTime::UNIX_EPOCH).num_days() as i32)
}

/// `chrono::NaiveDateTime::parse_from_str`, and the microseconds from the Unix epoch to that time in
/// UTC. The result depends on the text and the format alone and is named
/// [`naive_date_time_micros`]; which texts are times is not stated.
#[verifier::external_body]
pub(crate) fn parse_naive_date_time(raw: &str, format: &str) -> (r: Option<Option<i64>>)
    ensures
        r == naive_date_time_micros(raw@, format@),
{
    let time = chrono::NaiveDateTime::parse_from_str(raw, format).ok()?;
    let time = chrono::Utc.from_utc_datetime(&time);
    Some(time.signed_duration_since(chrono::DateTime::UNIX_EPOCH).num_microseconds())
}

/// `chrono::DateTime::parse_from_str`, and the microseconds from the Unix epoch to that time. The
/// result depends on the text and the format alone and is named [`date_time_micros`]; which texts
/// are times is not stated.
#[verifier::external_body]
pub(crate) fn parse_date_time(raw: &str, format: &str) -> (r: Option<Option<i64>>)
    ensures
        r == date_time_micros(raw@, format@),
{
    let time = chrono::DateTime::parse_from_str(raw, format).ok()?.naive_utc();
    let time = chrono::Utc.from_utc_datetime(&time);
    Some(time.signed_duration_since(chrono::DateTime::UNIX_EPOCH).num_microseconds())
}

/// `chrono::DateTime::from_timestamp_millis`, and the microseconds of that time: a thousand for each
/// millisecond, wherever `chrono` has a date.
#[verifier::external_body]
pub(crate) fn micros_from_millis(millis: i64) -> (r: Option<i64>)
    ensures
        r is Some <==> has_millis(millis as int),
        r matches Some(micros) ==> micros == millis * 1000,
{
    chrono::DateTime::from_timestamp_millis(millis).map(|time| time.timestamp_micros())
}

/// `chrono::DateTime::checked_add_days` on the Unix epoch, and the microseconds to that time: those
/// of as many days, wherever `chrono` has a date.
#[verifier::external_body]
pub(crate) fn micros_from_days(days: u64) -> (r: Option<i64>)
    ensures
        r is Some <==> days <= LAST_DAY,
        r matches Some(micros) ==> micros == days * DAY_MICROS,
{
    let time = chrono::DateTime::UNIX_EPOCH.checked_add_days(chrono::Days::new(days))?;
    time.signed_duration_since(chrono::DateTime::UNIX_EPOCH).num_microseconds()
}

} // verus!
