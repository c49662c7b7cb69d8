//! Spans of time and instants, held as whole nanoseconds.

use vstd::prelude::*;

verus! {

/// Nanoseconds in one second.
pub const NANOS_PER_SECOND: i128 = 1_000_000_000;

/// The largest magnitude a duration may have: `i64::MAX` milliseconds, in nanoseconds.
pub const MAX_DURATION_NANOS: i128 = 9_223_372_036_854_775_807_000_000;

/// A bound on the magnitude of the seconds from the Unix epoch of any instant
/// the clock of the date library can give: its years lie within ±262143.
pub const CLOCK_SECONDS_BOUND: i64 = 10_000_000_000_000;

/// The largest magnitude of an instant, in nanoseconds from the Unix epoch;
/// half the duration range, so that the span between two instants is a duration.
pub const MAX_INSTANT_NANOS: i128 = 4_611_686_018_427_387_903_500_000;

/// Whether a number of nanoseconds is a representable duration.
pub open spec fn duration_in_range(nanos: int) -> bool {
    -MAX_DURATION_NANOS <= nanos <= MAX_DURATION_NANOS
}

/// Whole seconds of a span of nanoseconds, rounded toward zero.
pub open spec fn whole_seconds(nanos: int) -> int {
    if nanos >= 0 {
        nanos / (NANOS_PER_SECOND as int)
    } else {
        -((-nanos) / (NANOS_PER_SECOND as int))
    }
}

/// A signed span of time.
#[derive(Clone, Copy, Debug, PartialEq, Eq, Structural)]
pub struct Duration {
    pub nanos: i128,
}

impl Duration {
    /// A duration is well formed when it lies in the representable range.
    pub open spec fn wf(self) -> bool {
        duration_in_range(self.nanos as int)
    }

    /// The empty duration.
    pub fn zero() -> (d: Duration)
        ensures
            d.nanos == 0,
            d.wf(),
    {
        Duration { nanos: 0 }
    }

    /// A duration of whole seconds.
    pub fn seconds(secs: i64) -> (d: Duration)
        requires
            -(i64::MAX / 1000) <= secs <= i64::MAX / 1000,
        ensures
            d.nanos == secs * NANOS_PER_SECOND,
            d.wf(),
    {
        Duration { nanos: (secs as i128) * NANOS_PER_SECOND }
    }

    /// The sum of two durations whose sum is representable.
    pub fn plus(&self, rhs: &Duration) -> (d: Duration)
        requires
            self.wf(),
            rhs.wf(),
            duration_in_range(self.nanos + rhs.nanos),
        ensures
            d.nanos == self.nanos + rhs.nanos,
            d.wf(),
    {
        Duration { nanos: self.nanos + rhs.nanos }
    }

    /// Whole seconds of the duration, rounded toward zero.
    pub fn num_seconds(&self) -> (s: i64)
        requires
            self.wf(),
        ensures
            s == whole_seconds(self.nanos as int),
    {
        let n = self.nanos;
        if n >= 0 {
            (n / NANOS_PER_SECOND) as i64
        } else {
            let m = -n;
            -((m / NANOS_PER_SECOND) as i64)
        }
    }
}

/// The time of the system clock.
#[verifier::external_type_specification]
#[verifier::external_body]
pub struct ExSystemTime(std::time::SystemTime);

/// `std::time::SystemTime::now`: the current time of the system clock. It
/// depends on the clock alone, so nothing is claimed of which time it is.
#[verifier::external_body]
fn system_now() -> (t: std::time::SystemTime) {
    std::time::SystemTime::now()
}

/// `SystemTime::duration_since` with the Unix epoch: how far `t` lies after
/// the epoch, as whole seconds and the nanoseconds past them, or, for a time
/// before the epoch, the error with how far before it lies. The standard
/// library documents the nanoseconds of a span to stay below one second,
/// which is all the contract claims.
#[verifier::external_body]
fn since_unix_epoch(t: &std::time::SystemTime) -> (r: Result<(u64, u32), (u64, u32)>)
    ensures
        r matches Ok(d) ==> d.1 < NANOS_PER_SECOND,
        r matches Err(d) ==> d.1 < NANOS_PER_SECOND,
{
    match t.duration_since(std::time::UNIX_EPOCH) {
        Ok(d) => Ok((d.as_secs(), d.subsec_nanos())),
        Err(e) => Err((e.duration().as_secs(), e.duration().subsec_nanos())),
    }
}

/// Nanoseconds from the Unix epoch of a reading of the clock: after the
/// epoch by the first span, before it by the second.
pub open spec fn reading_nanos(reading: Result<(u64, u32), (u64, u32)>) -> int {
    match reading {
        Ok(d) => d.0 * NANOS_PER_SECOND + d.1,
        Err(d) => -(d.0 * NANOS_PER_SECOND + d.1),
    }
}

/// The instant of a clock reading, held within the instant range: a reading
/// further from the epoch than `MAX_INSTANT_NANOS` (over a hundred million
/// years) is held at that bound.
pub open spec fn reading_instant(reading: Result<(u64, u32), (u64, u32)>) -> int {
    let n = reading_nanos(reading);
    if n > MAX_INSTANT_NANOS {
        MAX_INSTANT_NANOS as int
    } else if n < -MAX_INSTANT_NANOS {
        -MAX_INSTANT_NANOS
    } else {
        n
    }
}

/// An instant, in nanoseconds from the Unix epoch.
#[derive(Clone, Copy, Debug, PartialEq, Eq, Structural)]
pub struct Timestamp {
    pub nanos: i128,
}

impl Timestamp {
    /// An instant is well formed when it lies in the representable range.
    pub open spec fn wf(self) -> bool {
        -MAX_INSTANT_NANOS <= self.nanos <= MAX_INSTANT_NANOS
    }

    /// The instant `secs` seconds and `subsec_nanos` nanoseconds after the Unix epoch.
    pub fn from_parts(secs: i64, subsec_nanos: u32) -> (t: Timestamp)
        requires
            -CLOCK_SECONDS_BOUND < secs < CLOCK_SECONDS_BOUND,
            subsec_nanos < 2 * NANOS_PER_SECOND,
        ensures
            t.nanos == secs * NANOS_PER_SECOND + subsec_nanos,
            t.wf(),
    {
        Timestamp { nanos: (secs as i128) * NANOS_PER_SECOND + (subsec_nanos as i128) }
    }

    /// The instant of a reading of the clock: the span after the Unix epoch,
    /// or before it, as `reading_instant` holds it.
    pub fn from_clock_reading(reading: Result<(u64, u32), (u64, u32)>) -> (t: Timestamp)
        requires
            reading matches Ok(d) ==> d.1 < NANOS_PER_SECOND,
            reading matches Err(d) ==> d.1 < NANOS_PER_SECOND,
        ensures
            t.nanos == reading_instant(reading),
            t.wf(),
    {
        let nanos: i128 = match reading {
            Ok((secs, subsec_nanos)) => (secs as i128) * NANOS_PER_SECOND + (subsec_nanos as i128),
            Err((secs, subsec_nanos)) => -((secs as i128) * NANOS_PER_SECOND + (subsec_nanos as i128)),
        };
        let held = if nanos > MAX_INSTANT_NANOS {
            MAX_INSTANT_NANOS
        } else if nanos < -MAX_INSTANT_NANOS {
            -MAX_INSTANT_NANOS
        } else {
            nanos
        };
        Timestamp { nanos: held }
    }

    /// The current instant, as the system clock gives it; a clock set before
    /// the Unix epoch gives an instant before it.
    pub fn now() -> (t: Timestamp)
        ensures
            t.wf(),
    {
        let time = system_now();
        Timestamp::from_clock_reading(since_unix_epoch(&time))
    }

    /// The span from `earlier` to `self`; negative when `earlier` comes later.
    pub fn duration_since(&self, earlier: &Timestamp) -> (d: Duration)
        requires
            self.wf(),
            earlier.wf(),
        ensures
            d.nanos == self.nanos - earlier.nanos,
            d.wf(),
    {
        Duration { nanos: self.nanos - earlier.nanos }
    }
}

} // verus!
