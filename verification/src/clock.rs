use vstd::prelude::*;

verus! {

/// A point in time: whole milliseconds since 1970-01-01T00:00:00 UTC, leap
/// seconds not counted.
#[derive(Clone, Copy, Debug, PartialEq, Eq, Structural)]
pub struct Timestamp {
    pub millis: i64,
}

/// Reads the system clock through `chrono::Utc::now` and hands the instant
/// back as `DateTime::timestamp_millis` gives it. Nothing is claimed of the
/// value: two calls may return anything, in any order.
#[verifier::external_body]
pub(crate) fn utc_now_millis() -> (millis: i64) {
    chrono::Utc::now().timestamp_millis()
}

impl Timestamp {
    /// The current instant by the system clock.
    pub fn now() -> Timestamp {
        Timestamp { millis: utc_now_millis() }
    }

    /// Milliseconds from `earlier` to `self`; negative where `self` lies before.
    pub open spec fn millis_since(self, earlier: Timestamp) -> int {
        self.millis - earlier.millis
    }

    /// Whether more than `interval` milliseconds lie between `earlier` and `self`.
    pub fn later_by_more_than(&self, earlier: &Timestamp, interval: i64) -> (later: bool)
        ensures
            later == (self.millis_since(*earlier) > interval),
    {
        let span: i128 = self.millis as i128 - earlier.millis as i128;
        span > interval as i128
    }

    /// Whole seconds since the epoch, rounded towards the past.
    pub open spec fn spec_unix_seconds(self) -> int {
        self.millis as int / 1000
    }

    /// Whole seconds since the epoch, rounded towards the past, as file
    /// systems count modification times.
    pub fn unix_seconds(&self) -> (secs: i64)
        ensures
            secs == self.spec_unix_seconds(),
    {
        if self.millis >= 0 {
            self.millis / 1000
        } else {
            let back: i64 = -(self.millis + 1);
            -(back / 1000) - 1
        }
    }
}

} // verus!
