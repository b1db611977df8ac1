//! Time utilities.

use chrono::{DateTime, Utc};
use vstd::prelude::*;
use crate::domain::models::Timestamp;

verus! {

/// What `chrono::DateTime::from_timestamp_millis` returns for `ms`, as
/// (seconds, nanoseconds) since the epoch; `None` outside chrono's range.
pub uninterp spec fn chrono_from_millis(ms: i64) -> Option<(i64, u32)>;

/// Calls `Utc::now()` and reads it as seconds and nanoseconds since the
/// epoch. The reading depends on the clock; the crate's code builds it from
/// the system time since the epoch (it does not return for a clock before
/// the epoch), so the seconds are not negative and the nanoseconds lie
/// below one second.
#[verifier::external_body]
fn utc_now() -> (r: Timestamp)
    ensures
        r.secs >= 0,
        r.nanos < 1_000_000_000,
{
    let t = Utc::now();
    Timestamp { secs: t.timestamp(), nanos: t.timestamp_subsec_nanos() }
}

/// Calls `Utc::now().timestamp_millis()`. The reading depends on the clock.
#[verifier::external_body]
fn utc_now_millis() -> (r: i64) {
    Utc::now().timestamp_millis()
}

/// Calls `DateTime::from_timestamp_millis`. The result is named; beside the
/// name, the crate's code shows that a result is the Euclidean split of
/// `ms` into seconds and nanoseconds, and that every `ms` within
/// ±8·10^15 (about ±250 000 years) has a result.
#[verifier::external_body]
fn chrono_from_timestamp_millis(ms: i64) -> (r: Option<Timestamp>)
    ensures
        match r {
            Some(t) => chrono_from_millis(ms) == Some((t.secs, t.nanos)),
            None => chrono_from_millis(ms) is None,
        },
        r matches Some(t) ==> t.secs == ms / 1000 && t.nanos == (ms % 1000) * 1_000_000,
        -8_000_000_000_000_000 <= ms <= 8_000_000_000_000_000 ==> r is Some,
{
    match DateTime::from_timestamp_millis(ms) {
        Some(d) => Some(Timestamp { secs: d.timestamp(), nanos: d.timestamp_subsec_nanos() }),
        None => None,
    }
}

/// Current UTC time: a time at or after the epoch, with a nanosecond part
/// below one second.
pub fn now() -> (r: Timestamp)
    ensures
        r.secs >= 0,
        r.nanos < 1_000_000_000,
{
    utc_now()
}

/// A Unix epoch in milliseconds as a time; the epoch itself when `ms` is
/// outside the representable range.
pub fn from_epoch_ms(ms: i64) -> (r: Timestamp)
    ensures
        chrono_from_millis(ms) matches Some(t) ==> r == (Timestamp { secs: t.0, nanos: t.1 }),
        chrono_from_millis(ms) is None ==> r == (Timestamp { secs: 0, nanos: 0 }),
        -8_000_000_000_000_000 <= ms <= 8_000_000_000_000_000 ==> r.secs == ms / 1000 && r.nanos
            == (ms % 1000) * 1_000_000,
{
    match chrono_from_timestamp_millis(ms) {
        Some(t) => t,
        None => Timestamp { secs: 0, nanos: 0 },
    }
}

/// Current Unix epoch in milliseconds (for exchange API signatures).
pub fn epoch_ms() -> u64 {
    utc_now_millis() as u64
}

} // verus!
