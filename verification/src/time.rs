//! Points in time, spans of time and the clocks they are read from.

use vstd::prelude::*;

verus! {

/// Nanoseconds in one second.
pub const NANOS_PER_SECOND: u128 = 1_000_000_000;

/// Nanoseconds in ten seconds.
pub const NANOS_PER_TEN_SECONDS: u128 = 10_000_000_000;

/// Nanoseconds in the longest span that a [`Duration`] can hold.
pub const MAX_DURATION_NANOS: u128 = 18_446_744_073_709_551_615_999_999_999;

/// A point in time: nanoseconds since the origin of the clock it was read from.
#[derive(Clone, Copy, Debug, PartialEq, Eq, Structural)]
pub struct Instant {
    pub nanos: u128,
}

impl Instant {
    /// Nanoseconds from `earlier` to `self`, or zero where `earlier` is the later one.
    pub open spec fn since(self, earlier: Instant) -> nat {
        if self.nanos >= earlier.nanos {
            (self.nanos - earlier.nanos) as nat
        } else {
            0
        }
    }

    /// Nanoseconds between two points in time, whichever comes first.
    pub open spec fn distance(self, other: Instant) -> nat {
        if self.nanos >= other.nanos {
            (self.nanos - other.nanos) as nat
        } else {
            (other.nanos - self.nanos) as nat
        }
    }

    /// Nanoseconds from `earlier` to this point, zero where `earlier` is the later one.
    pub fn nanos_since(&self, earlier: Instant) -> (n: u128)
        ensures
            n == self.since(earlier),
    {
        if self.nanos >= earlier.nanos {
            self.nanos - earlier.nanos
        } else {
            0
        }
    }

    /// Whole seconds since the origin of the clock.
    pub fn whole_seconds(&self) -> (seconds: u64)
        requires
            self.nanos <= MAX_DURATION_NANOS,
        ensures
            seconds == self.nanos / NANOS_PER_SECOND,
    {
        (self.nanos / NANOS_PER_SECOND) as u64
    }

    /// Nanoseconds between this point and `other`, whichever comes first.
    pub fn nanos_between(&self, other: Instant) -> (n: u128)
        ensures
            n == self.distance(other),
    {
        if self.nanos >= other.nanos {
            self.nanos - other.nanos
        } else {
            other.nanos - self.nanos
        }
    }
}

/// A span of time in whole seconds and the nanoseconds beyond them.
#[derive(Clone, Copy, Debug, PartialEq, Eq, Structural)]
pub struct Duration {
    pub secs: u64,
    pub subsec_nanos: u32,
}

impl Duration {
    /// The span in nanoseconds.
    pub open spec fn nanos(self) -> nat {
        (self.secs * NANOS_PER_SECOND + self.subsec_nanos) as nat
    }

    /// Less than a second beyond the whole ones.
    pub open spec fn wf(self) -> bool {
        self.subsec_nanos < NANOS_PER_SECOND
    }

    /// The span in nanoseconds.
    pub fn as_nanos(&self) -> (n: u128)
        requires
            self.wf(),
        ensures
            n == self.nanos(),
            n <= MAX_DURATION_NANOS,
    {
        self.secs as u128 * NANOS_PER_SECOND + self.subsec_nanos as u128
    }

    /// The span of `nanos` nanoseconds.
    pub fn from_nanos(nanos: u128) -> (d: Duration)
        requires
            nanos <= MAX_DURATION_NANOS,
        ensures
            d.wf(),
            d.nanos() == nanos,
    {
        Duration {
            secs: (nanos / NANOS_PER_SECOND) as u64,
            subsec_nanos: (nanos % NANOS_PER_SECOND) as u32,
        }
    }
}

/// `std::time::Instant`, which only a [`Clock`] looks into.
#[verifier::external_type_specification]
#[verifier::external_body]
pub struct ExStdInstant(std::time::Instant);

/// `std::time::Instant::now`. Nothing is claimed of what it returns: it is the
/// time of the call on the machine's monotonic clock.
pub assume_specification[ std::time::Instant::now ]() -> std::time::Instant
;

/// `std::time::Instant::elapsed` in nanoseconds.
///
/// How much time has passed is up to the machine; claimed is only that it is a
/// span that a duration can hold.
#[verifier::external_body]
fn elapsed_nanos(origin: &std::time::Instant) -> (n: u128)
    ensures
        n <= MAX_DURATION_NANOS,
{
    origin.elapsed().as_nanos()
}

/// `std::time::SystemTime::elapsed` of the Unix epoch, in milliseconds. `None`
/// where the machine's clock stands before the epoch. Nothing is claimed of the
/// time itself.
#[verifier::external_body]
fn system_millis() -> Option<u128> {
    match std::time::UNIX_EPOCH.elapsed() {
        Ok(elapsed) => Some(elapsed.as_millis()),
        Err(_) => None,
    }
}

/// `reading` is what `std::time::SystemTime::elapsed` may say of the Unix epoch, in
/// milliseconds.
pub closed spec fn is_system_reading(reading: Option<u128>) -> bool {
    call_ensures(system_millis, (), reading)
}

/// The timestamp that a reading of the machine's clock makes: its low 64 bits, or
/// zero where the clock stands before the epoch.
pub open spec fn timestamp_of(reading: Option<u128>) -> u64 {
    match reading {
        Some(millis) => millis as u64,
        None => 0,
    }
}

/// The timestamp that a reading of the machine's clock makes.
pub fn to_timestamp(reading: Option<u128>) -> (timestamp: u64)
    ensures
        timestamp == timestamp_of(reading),
{
    match reading {
        Some(millis) => millis as u64,
        None => 0,
    }
}

/// Milliseconds since the Unix epoch; zero where the machine's clock stands before it.
pub(crate) fn unix_millis() -> (timestamp: u64)
    ensures
        exists|reading: Option<u128>| #[trigger]
            is_system_reading(reading) && timestamp == timestamp_of(reading),
{
    let reading = system_millis();
    assert(is_system_reading(reading));
    to_timestamp(reading)
}

/// A monotonic clock that counts from the moment it was started.
#[derive(Clone, Copy, Debug)]
pub struct Clock {
    origin: std::time::Instant,
}

impl Clock {
    /// The moment from which this clock counts.
    pub closed spec fn started(&self) -> std::time::Instant {
        self.origin
    }

    /// `t` is what `std::time::Instant::elapsed` may say of the clock's origin.
    pub closed spec fn reads(&self, t: Instant) -> bool {
        call_ensures(elapsed_nanos, (&self.origin,), t.nanos)
    }

    /// The clock's origin is what `std::time::Instant::now` may say.
    pub open spec fn starts_now(&self) -> bool {
        call_ensures(std::time::Instant::now, (), self.started())
    }

    /// A clock whose origin is what `std::time::Instant::now` says.
    pub fn start() -> (clock: Clock)
        ensures
            clock.starts_now(),
    {
        Clock { origin: std::time::Instant::now() }
    }

    /// The present point in time.
    pub fn now(&self) -> (t: Instant)
        ensures
            self.reads(t),
            t.nanos <= MAX_DURATION_NANOS,
    {
        Instant { nanos: elapsed_nanos(&self.origin) }
    }

    /// The moment from which this clock counts.
    pub fn origin(&self) -> (origin: std::time::Instant)
        ensures
            origin == self.started(),
    {
        self.origin
    }

    /// Whole seconds since the clock was started.
    pub fn uptime_seconds(&self) -> (seconds: u64)
        ensures
            exists|t: Instant| #[trigger] self.reads(t) && seconds == t.nanos / NANOS_PER_SECOND,
    {
        self.now().whole_seconds()
    }
}

/// Time passed is a difference: it is never negative, and where the later point is
/// the later one, adding it to the earlier point gives the later one.
pub proof fn law_time_passed(earlier: Instant, later: Instant)
    ensures
        earlier.nanos <= later.nanos ==> earlier.nanos + later.since(earlier) == later.nanos,
        earlier.nanos >= later.nanos ==> later.since(earlier) == 0,
{
}

/// Distances have no direction: two points are as far from each other as adding the
/// distance to the lesser of them gives the greater.
pub proof fn law_distance(a: Instant, b: Instant)
    ensures
        a.distance(b) == b.distance(a),
        a.nanos <= b.nanos ==> a.nanos + a.distance(b) == b.nanos,
{
}

/// A span is its seconds and nanoseconds: a second has a thousand million of them.
pub proof fn law_span_in_nanos(d: Duration)
    ensures
        d.nanos() == d.secs * 1_000_000_000 + d.subsec_nanos,
        d.wf() <==> d.subsec_nanos < 1_000_000_000,
        d.wf() ==> d.nanos() <= MAX_DURATION_NANOS,
        MAX_DURATION_NANOS == u64::MAX * 1_000_000_000 + 999_999_999,
{
}

/// A timestamp is the reading itself, as far as 64 bits go, and zero where there is none.
pub proof fn law_timestamp_is_the_reading(reading: Option<u128>)
    ensures
        reading matches Some(millis) ==> timestamp_of(reading) == millis % 0x1_0000_0000_0000_0000,
        reading is None ==> timestamp_of(reading) == 0,
{
    if let Some(millis) = reading {
        assert(millis as u64 == millis % 0x1_0000_0000_0000_0000) by (bit_vector);
    }
}

/// What a clock reads comes from the machine: it is an outcome of asking how much time
/// has passed since the clock's own origin.
proof fn law_readings_come_from_the_machine(clock: Clock, t: Instant, reading: Option<u128>)
    ensures
        clock.reads(t) ==> call_ensures(elapsed_nanos, (&clock.origin,), t.nanos),
        is_system_reading(reading) ==> call_ensures(system_millis, (), reading),
        clock.starts_now() ==> call_ensures(std::time::Instant::now, (), clock.origin),
{
}

} // verus!
