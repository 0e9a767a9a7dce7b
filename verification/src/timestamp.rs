//! Validation of authentication timestamps: a decimal millisecond count
//! that must sit inside a narrow window around the current time.

use vstd::prelude::*;

use crate::clock::now_millis;
use crate::numparse::{parse_i64, spec_parse_i64};

verus! {

/// Half-width of the window around the current time, in milliseconds.
pub const TIMESTAMP_WINDOW_MS: i64 = 60_000;

/// How far in the future a timestamp may at most lie, in milliseconds.
pub const TIMESTAMP_MAX_FUTURE_MS: i64 = 3_600_000;

/// How far in the past a timestamp may at most lie, in milliseconds.
pub const TIMESTAMP_MAX_AGE_MS: i64 = 86_400_000;

/// The outcome of validating a timestamp string against a reference time.
pub open spec fn spec_validate_timestamp(s: Seq<char>, now: i64) -> Result<i64, Seq<char>> {
    match spec_parse_i64(s) {
        None => Err("Invalid timestamp format"@),
        Some(t) => {
            if now - t > TIMESTAMP_WINDOW_MS || t - now > TIMESTAMP_WINDOW_MS {
                Err("Timestamp outside acceptable window"@)
            } else if t > now + TIMESTAMP_MAX_FUTURE_MS {
                Err("Timestamp too far in future"@)
            } else if t < now - TIMESTAMP_MAX_AGE_MS {
                Err("Timestamp too old"@)
            } else {
                Ok(t)
            }
        },
    }
}

/// Validate a timestamp string against a given reference time.
///
/// The timestamp must parse as a decimal millisecond count, lie within
/// sixty seconds of `now`, at most one hour in the future and at most one
/// day in the past.
pub fn validate_timestamp_at(timestamp_str: &str, now: i64) -> (r: Result<i64, &'static str>)
    ensures
        match r {
            Ok(t) => spec_validate_timestamp(timestamp_str@, now) == Ok::<i64, Seq<char>>(t),
            Err(e) => spec_validate_timestamp(timestamp_str@, now) == Err::<i64, Seq<char>>(e@),
        },
{
    let t = match parse_i64(timestamp_str) {
        Some(t) => t,
        None => {
            return Err("Invalid timestamp format");
        },
    };
    // Widen to i128 so that the differences cannot overflow.
    let tw = t as i128;
    let nw = now as i128;
    if nw - tw > TIMESTAMP_WINDOW_MS as i128 || tw - nw > TIMESTAMP_WINDOW_MS as i128 {
        return Err("Timestamp outside acceptable window");
    }
    if tw > nw + TIMESTAMP_MAX_FUTURE_MS as i128 {
        return Err("Timestamp too far in future");
    }
    if tw < nw - TIMESTAMP_MAX_AGE_MS as i128 {
        return Err("Timestamp too old");
    }
    Ok(t)
}

/// Validate a timestamp string against the current time.
pub fn validate_timestamp(timestamp_str: &str) -> (r: Result<i64, &'static str>)
    ensures
        exists|now: i64|
            match r {
                Ok(t) => #[trigger] spec_validate_timestamp(timestamp_str@, now) == Ok::<
                    i64,
                    Seq<char>,
                >(t),
                Err(e) => spec_validate_timestamp(timestamp_str@, now) == Err::<i64, Seq<char>>(
                    e@,
                ),
            },
{
    let now = now_millis();
    let r = validate_timestamp_at(timestamp_str, now);
    proof {
        assert(match r {
            Ok(t) => spec_validate_timestamp(timestamp_str@, now) == Ok::<i64, Seq<char>>(t),
            Err(e) => spec_validate_timestamp(timestamp_str@, now) == Err::<i64, Seq<char>>(e@),
        });
    }
    r
}

} // verus!
