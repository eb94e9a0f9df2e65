//! Points in time.

use chrono::DateTime;
use vstd::prelude::*;

verus! {

/// A point in time in UTC, as whole seconds since the UNIX epoch and nanoseconds
/// within the second: the two numbers that `chrono::DateTime<Utc>` reports through
/// `timestamp()` and `timestamp_subsec_nanos()`.
#[derive(Debug, Clone, Copy, PartialEq, Eq, Hash, Structural)]
pub struct Timestamp {
    /// Seconds since 1970-01-01T00:00:00Z.
    pub secs: i64,
    /// Nanoseconds within the second.
    pub nanos: u32,
}

/// `chrono::DateTime::from_timestamp_millis`, read back through `timestamp()` and
/// `timestamp_subsec_nanos()`. Its source splits `ms` into `ms.div_euclid(1000)`
/// seconds and `ms.rem_euclid(1000)` milliseconds and returns `None` only where the
/// date falls outside the years that chrono represents (about 262,000 years either
/// side of the common era); the contract states that split and that the result is
/// `Some` for every count from zero to 8 * 10^15 milliseconds (about 253,000 years).
#[verifier::external_body]
pub(crate) fn utc_from_millis(ms: i64) -> (res: Option<Timestamp>)
    ensures
        0 <= ms <= 8_000_000_000_000_000 ==> res is Some,
        res matches Some(t) ==> t.secs == ms as int / 1000 && t.nanos == (ms as int % 1000)
            * 1_000_000,
{
    match DateTime::from_timestamp_millis(ms) {
        Some(d) => Some(Timestamp { secs: d.timestamp(), nanos: d.timestamp_subsec_nanos() }),
        None => None,
    }
}

} // verus!
