//! Instants in UTC, within the range that `chrono` can represent.
use vstd::prelude::*;

verus! {

/// The earliest second `chrono` represents (the start of year -262143).
pub open spec fn min_timestamp() -> int {
    -8334601315200
}

/// The last second `chrono` represents (the end of year 262142).
pub open spec fn max_timestamp() -> int {
    8210266876799
}

/// The largest number of seconds a `chrono::TimeDelta` holds.
pub open spec fn max_delta_secs() -> int {
    9223372036854775
}

/// An instant: seconds since the Unix epoch and nanoseconds into that second.
#[derive(Clone, Copy, Debug, PartialEq, Eq, Structural)]
pub struct Timestamp {
    pub secs: i64,
    pub nanos: u32,
}

impl Timestamp {
    /// A representable instant that is not inside a leap second.
    pub open spec fn wf(self) -> bool {
        &&& min_timestamp() <= self.secs <= max_timestamp()
        &&& self.nanos < 1_000_000_000
    }

    /// `self < other`.
    pub open spec fn before(self, other: Timestamp) -> bool {
        self.secs < other.secs || (self.secs == other.secs && self.nanos < other.nanos)
    }

    /// `self >= other` (as `DateTime` orders them).
    pub fn at_or_after(&self, other: &Timestamp) -> (r: bool)
        ensures
            r == !self.before(*other),
    {
        !(self.secs < other.secs || (self.secs == other.secs && self.nanos < other.nanos))
    }

    /// `self > other`.
    pub fn after(&self, other: &Timestamp) -> (r: bool)
        ensures
            r == other.before(*self),
    {
        other.secs < self.secs || (other.secs == self.secs && other.nanos < self.nanos)
    }

    /// Whether `self + TimeDelta::seconds(n)` stays representable (otherwise
    /// `chrono` panics).
    pub open spec fn can_add(self, n: int) -> bool {
        &&& -max_delta_secs() <= n <= max_delta_secs()
        &&& min_timestamp() <= self.secs + n <= max_timestamp()
    }

    /// `self + TimeDelta::seconds(n)`.
    pub fn plus_seconds(&self, n: i64) -> (r: Timestamp)
        requires
            self.wf(),
            self.can_add(n as int),
        ensures
            r.wf(),
            r.secs == self.secs + n,
            r.nanos == self.nanos,
    {
        Timestamp { secs: self.secs + n, nanos: self.nanos }
    }
}

/// `SystemTime::now()`, read as a duration since the Unix epoch: whole
/// seconds and the nanoseconds past them (fewer than a billion, as
/// `Duration::subsec_nanos` gives them); `None` when the clock reads before
/// the epoch. The clock decides the value; nothing else is promised of it.
#[verifier::external_body]
fn system_clock() -> (r: Option<(u64, u32)>)
    ensures
        r matches Some((s, n)) ==> n < 1_000_000_000,
{
    std::time::SystemTime::now()
        .duration_since(std::time::UNIX_EPOCH)
        .ok()
        .map(|d| (d.as_secs(), d.subsec_nanos()))
}

/// The instant `secs` seconds and `nanos` nanoseconds after the epoch, when
/// it is in range.
pub open spec fn instant_spec(secs: u64, nanos: u32) -> Option<Timestamp> {
    if secs <= max_timestamp() && nanos < 1_000_000_000 {
        Some(Timestamp { secs: secs as i64, nanos })
    } else {
        None
    }
}

/// The instant `secs` seconds and `nanos` nanoseconds after the epoch, or
/// `None` when it lies past the last representable second or the
/// nanoseconds make a whole second.
pub fn instant_since_epoch(secs: u64, nanos: u32) -> (r: Option<Timestamp>)
    ensures
        r == instant_spec(secs, nanos),
        r matches Some(t) ==> t.wf() && t.secs >= 0,
{
    if secs <= 8210266876799 && nanos < 1_000_000_000 {
        Some(Timestamp { secs: secs as i64, nanos })
    } else {
        None
    }
}

/// The current instant by the system clock, or `None` when the clock reads
/// before the epoch or past the last representable second. Which instant
/// the clock reads is not stated; any instant returned is valid and not
/// before the epoch.
pub fn now() -> (r: Option<Timestamp>)
    ensures
        r matches Some(t) ==> t.wf() && t.secs >= 0,
{
    match system_clock() {
        Some((secs, nanos)) => instant_since_epoch(secs, nanos),
        None => None,
    }
}

} // verus!
