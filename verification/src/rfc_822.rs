//! Instants written the way RFC 822 writes dates, as the feed list wants
//! its time of creation.

use crate::member::text_of;
use vstd::prelude::*;

verus! {

/// The pattern of an RFC 822 date: day of the week, day, month, year, time
/// of day and offset from UTC.
pub const FORMAT: &'static str = "%a, %d %b %Y %H:%M:%S %z";

/// The text that chrono writes for the instant `unix_seconds` seconds after
/// the start of 1970, UTC, under a `strftime` pattern; `None` where the
/// instant lies outside chrono's calendar or the pattern is not one.
pub uninterp spec fn formatted_utc(unix_seconds: int, pattern: Seq<char>) -> Option<Seq<char>>;

/// Calls `chrono::DateTime::<Utc>::from_timestamp` with no nanoseconds, then
/// `DateTime::format` and `DelayedFormat::write_to` on what it gives.
///
/// Trusted: the text depends on the two arguments alone, so it is given the
/// name `formatted_utc`. `from_timestamp` answers `None` for seconds outside
/// its range and `write_to` an error for a pattern it cannot read; both come
/// back as `None`.
#[verifier::external_body]
fn format_utc(unix_seconds: i64, pattern: &str) -> (text: Option<String>)
    ensures
        text_of(text) == formatted_utc(unix_seconds as int, pattern@),
{
    let instant = chrono::DateTime::<chrono::Utc>::from_timestamp(unix_seconds, 0)?;
    let mut text = String::new();
    match instant.format(pattern).write_to(&mut text) {
        Ok(()) => Some(text),
        Err(_) => None,
    }
}

/// Writes the instant `date`, given in seconds since the start of 1970 UTC,
/// as an RFC 822 date. The text is whatever chrono writes under [`FORMAT`],
/// and there is none where chrono's calendar does not reach the instant.
pub fn serialize(date: i64) -> (text: Option<String>)
    ensures
        text_of(text) == formatted_utc(date as int, FORMAT@),
{
    format_utc(date, FORMAT)
}

} // verus!
