//! Trusted access to wall-clock time and RFC 3339 formatting, through the
//! `chrono` crate. Every result that depends on the arguments alone is
//! given a name; the current time gets no promise at all.

use chrono::TimeZone;
use vstd::prelude::*;

use crate::numparse::digit_char;

verus! {

/// The millisecond value denoted by an RFC 3339 string, if any.
pub uninterp spec fn rfc3339_millis_of(s: Seq<char>) -> Option<i64>;

/// The RFC 3339 rendering of a UTC time given in milliseconds, if the value
/// is representable.
pub uninterp spec fn rfc3339_string_of(ms: i64) -> Option<Seq<char>>;

/// Whether a millisecond value is representable as a UTC instant; the
/// `hh:mm:ss` rendering exists exactly then.
pub uninterp spec fn hms_string_of(ms: i64) -> Option<Seq<char>>;

/// A non-negative value below one hundred, as two decimal digits.
pub open spec fn two_digits(n: int) -> Seq<char> {
    seq![digit_char(n / 10), digit_char(n % 10)]
}

/// The clock-face rendering of a UTC instant given in milliseconds: the
/// hours, minutes and seconds of its day, each two digits. Division is
/// Euclidean, as the calendar arithmetic underneath is.
pub open spec fn spec_hms_of(ms: i64) -> Seq<char> {
    let sod = ((ms as int) / 1000) % 86400;
    two_digits(sod / 3600) + seq![':'] + two_digits((sod / 60) % 60) + seq![':'] + two_digits(
        sod % 60,
    )
}

/// Relies on `chrono::Utc::now` and `DateTime::timestamp_millis`: the
/// current wall-clock time. Nothing can be promised of it.
#[verifier::external_body]
pub fn now_millis() -> i64 {
    chrono::Utc::now().timestamp_millis()
}

/// Relies on `chrono::DateTime::parse_from_rfc3339` and
/// `timestamp_millis`: parsing is a function of the characters alone.
#[verifier::external_body]
pub fn parse_rfc3339_millis(s: &str) -> (r: Option<i64>)
    ensures
        r == rfc3339_millis_of(s@),
{
    match chrono::DateTime::parse_from_rfc3339(s) {
        Ok(dt) => Some(dt.with_timezone(&chrono::Utc).timestamp_millis()),
        Err(_) => None,
    }
}

/// Relies on `chrono::TimeZone::timestamp_millis_opt` and
/// `DateTime::to_rfc3339`: formatting a UTC instant is a function of the
/// millisecond value alone; out-of-range values yield `None`.
#[verifier::external_body]
pub fn format_rfc3339_millis(ms: i64) -> (r: Option<String>)
    ensures
        match r {
            Some(s) => rfc3339_string_of(ms) == Some(s@),
            None => rfc3339_string_of(ms) is None,
        },
{
    match chrono::Utc.timestamp_millis_opt(ms) {
        chrono::LocalResult::Single(dt) => Some(dt.to_rfc3339()),
        _ => None,
    }
}

/// Relies on `chrono::TimeZone::timestamp_millis_opt`, which splits the
/// milliseconds with Euclidean division, and on `DateTime::format` with
/// `%H:%M:%S`, which renders the hours, minutes and seconds of the day as
/// two zero-padded digits each.
#[verifier::external_body]
pub fn format_time_hms(ms: i64) -> (r: Option<String>)
    ensures
        match r {
            Some(s) => hms_string_of(ms) == Some(s@) && s@ == spec_hms_of(ms),
            None => hms_string_of(ms) is None,
        },
{
    match chrono::Utc.timestamp_millis_opt(ms) {
        chrono::LocalResult::Single(dt) => Some(format!("{}", dt.format("%H:%M:%S"))),
        _ => None,
    }
}

} // verus!
