//! Wall-clock timestamps for event ordering.
//!
//! The domain only ever stores a timestamp, compares two of them, and hands
//! them back out, so a timestamp is modelled as a plain count of milliseconds
//! since the Unix epoch. Reading the clock itself is the one thing the
//! library cannot do on its own; it is delegated to chrono behind a trusted
//! wrapper.

use vstd::prelude::*;

verus! {

/// A point in time, as milliseconds since the Unix epoch (local clock).
#[derive(Clone, Copy, Debug, PartialEq, Eq, Structural)]
pub struct Timestamp {
    pub millis: i64,
}

impl Timestamp {
    pub fn new(millis: i64) -> (r: Timestamp)
        ensures
            r.millis == millis,
    {
        Timestamp { millis }
    }

    pub fn millis(&self) -> (r: i64)
        ensures
            r == self.millis,
    {
        self.millis
    }
}

/// Relies on chrono's `Local::now` and `DateTime::timestamp_millis`:
/// the current local time as milliseconds since the Unix epoch.
/// Nothing can be promised of the value read from a clock.
#[verifier::external_body]
pub(crate) fn now_timestamp() -> Timestamp {
    Timestamp { millis: chrono::Local::now().timestamp_millis() }
}

} // verus!
