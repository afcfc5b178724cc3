//! Points in time as `chrono` holds them: whole seconds since the Unix epoch and the
//! nanoseconds within that second.
use vstd::prelude::*;

verus! {

/// Largest distance from the epoch, in seconds, of a timestamp. Every `chrono`
/// `DateTime<Utc>` (years -262143 to 262142) lies within it.
pub const MAX_ABS_SECS: i64 = 10_000_000_000_000i64;

/// Nanoseconds within a second stay below this (a leap second may hold up to two
/// seconds' worth, as in `chrono`).
pub const NANOS_LIMIT: u32 = 2_000_000_000u32;

/// Nanoseconds in a second.
pub const NANOS_PER_SEC: i128 = 1_000_000_000i128;

/// A UTC instant: seconds since 1970-01-01T00:00:00Z and nanoseconds within the second.
#[derive(Clone, Copy, Debug, PartialEq, Eq, Structural)]
pub struct Timestamp {
    secs: i64,
    nanos: u32,
}

impl View for Timestamp {
    type V = (int, int);

    closed spec fn view(&self) -> (int, int) {
        (self.secs as int, self.nanos as int)
    }
}

/// The seconds and nanoseconds are those of a timestamp.
pub open spec fn ts_parts_valid(secs: int, nanos: int) -> bool {
    -MAX_ABS_SECS <= secs <= MAX_ABS_SECS && 0 <= nanos < NANOS_LIMIT
}

/// `a` is strictly earlier than `b`, comparing seconds and then nanoseconds (the order
/// of `chrono`'s `DateTime`).
pub open spec fn ts_lt(a: Timestamp, b: Timestamp) -> bool {
    a@.0 < b@.0 || (a@.0 == b@.0 && a@.1 < b@.1)
}

/// `a` is not later than `b`.
pub open spec fn ts_le(a: Timestamp, b: Timestamp) -> bool {
    !ts_lt(b, a)
}

/// The nanoseconds from the epoch to the instant.
pub open spec fn total_nanos(t: Timestamp) -> int {
    t@.0 * 1_000_000_000 + t@.1
}

impl Timestamp {
    #[verifier::type_invariant]
    spec fn well_formed(self) -> bool {
        ts_parts_valid(self.secs as int, self.nanos as int)
    }

    /// The instant `secs` seconds and `nanos` nanoseconds after the epoch, where these
    /// are those of a timestamp.
    pub fn new(secs: i64, nanos: u32) -> (t: Option<Timestamp>)
        ensures
            t is Some <==> ts_parts_valid(secs as int, nanos as int),
            t is Some ==> t->0@ == (secs as int, nanos as int),
    {
        if -MAX_ABS_SECS <= secs && secs <= MAX_ABS_SECS && nanos < NANOS_LIMIT {
            Some(Timestamp { secs, nanos })
        } else {
            None
        }
    }

    /// Whole seconds since the epoch.
    pub fn secs(&self) -> (s: i64)
        ensures
            s == self@.0,
            ts_parts_valid(self@.0, self@.1),
    {
        proof {
            use_type_invariant(self);
        }
        self.secs
    }

    /// Nanoseconds within the second.
    pub fn subsec_nanos(&self) -> (n: u32)
        ensures
            n == self@.1,
            ts_parts_valid(self@.0, self@.1),
    {
        proof {
            use_type_invariant(self);
        }
        self.nanos
    }

    /// `self` is strictly earlier than `other`.
    pub fn before(&self, other: &Timestamp) -> (b: bool)
        ensures
            b == ts_lt(*self, *other),
    {
        self.secs < other.secs || (self.secs == other.secs && self.nanos < other.nanos)
    }

    /// The instant `secs` whole seconds earlier, which must still be a timestamp.
    pub fn minus_seconds(&self, secs: i64) -> (t: Timestamp)
        requires
            0 <= secs <= MAX_ABS_SECS,
            self@.0 - secs >= -MAX_ABS_SECS,
        ensures
            t@ == (self@.0 - secs, self@.1),
    {
        proof {
            use_type_invariant(self);
        }
        Timestamp { secs: self.secs - secs, nanos: self.nanos }
    }

    /// The nanoseconds from `start` to `self` (negative when `self` is earlier).
    pub fn nanos_since(&self, start: &Timestamp) -> (d: i128)
        ensures
            d == total_nanos(*self) - total_nanos(*start),
            -2 * MAX_ABS_SECS * NANOS_PER_SEC - NANOS_LIMIT <= d <= 2 * MAX_ABS_SECS * NANOS_PER_SEC + NANOS_LIMIT,
    {
        proof {
            use_type_invariant(self);
            use_type_invariant(start);
        }
        (self.secs as i128 - start.secs as i128) * NANOS_PER_SEC + (self.nanos as i128 - start.nanos as i128)
    }
}

/// Two timestamps with the same seconds and nanoseconds are the same timestamp.
pub proof fn lemma_timestamp_view_injective(a: Timestamp, b: Timestamp)
    ensures
        a@ == b@ ==> a == b,
{
}

} // verus!
