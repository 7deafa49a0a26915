//! Instants as microseconds since the Unix epoch, and their text form.

use vstd::prelude::*;

verus! {

/// How many microseconds a day has.
pub const MICROS_PER_DAY: i64 = 86_400_000_000;

/// How many microseconds a minute has.
pub const MICROS_PER_MINUTE: i64 = 60_000_000;

/// chrono's error for a text that is no date and time, carried as an
/// opaque value.
#[verifier::external_type_specification]
#[verifier::external_body]
pub struct ExParseError(chrono::ParseError);

/// The RFC 3339 text of an instant, where the calendar can express it.
pub uninterp spec fn rfc3339_text(micros: i64) -> Option<Seq<char>>;

/// The instant that an RFC 3339 text denotes, where it is one.
pub uninterp spec fn rfc3339_micros(text: Seq<char>) -> Option<i64>;

/// The system clock as chrono reads it: `DateTime::<Utc>::from` on
/// `std::time::SystemTime::now`, read through `DateTime::timestamp_micros`.
/// Nothing is claimed of the value: it is whatever the system clock says,
/// also where that is before the Unix epoch.
#[verifier::external_body]
pub(crate) fn now_micros() -> (now: i64) {
    chrono::DateTime::<chrono::Utc>::from(std::time::SystemTime::now()).timestamp_micros()
}

/// `chrono::DateTime::to_rfc3339` on the instant that
/// `DateTime::from_timestamp_micros` makes of `micros`. The text is a
/// function of `micros` alone, named `rfc3339_text`; there is none where
/// chrono's calendar does not reach the instant.
#[verifier::external_body]
pub(crate) fn format_rfc3339(micros: i64) -> (text: Option<String>)
    ensures
        match text {
            Some(t) => rfc3339_text(micros) == Some(t@),
            None => rfc3339_text(micros) is None,
        },
{
    chrono::DateTime::from_timestamp_micros(micros).map(|instant| instant.to_rfc3339())
}

/// `chrono::DateTime::parse_from_rfc3339`, read through
/// `DateTime::timestamp_micros`. The outcome is a function of the text
/// alone, named `rfc3339_micros`; chrono's error comes back where the text
/// is no RFC 3339 date and time.
#[verifier::external_body]
pub(crate) fn parse_rfc3339(text: &str) -> (micros: Result<i64, chrono::ParseError>)
    ensures
        match micros {
            Ok(m) => rfc3339_micros(text@) == Some(m),
            Err(_) => rfc3339_micros(text@) is None,
        },
{
    chrono::DateTime::parse_from_rfc3339(text).map(|instant| instant.timestamp_micros())
}

/// The instant before which events are past a retention horizon of
/// `retention_days` days at `now`.
pub open spec fn retention_cutoff(now: i64, retention_days: u32) -> int {
    now - retention_days * MICROS_PER_DAY
}

} // verus!
