//! Counters and latency samples.

use vstd::prelude::*;

use crate::time::{Duration, MAX_DURATION_NANOS};

verus! {

/// How many latency samples are kept.
pub const MAX_SAMPLES: usize = 1000;

/// Counts messages, bytes and connections, and keeps the latest latency samples.
#[derive(Debug)]
pub struct NetworkMetrics {
    pub messages_per_second: u64,
    pub bytes_per_second: u64,
    pub connection_count: u64,
    pub latency_samples: Vec<Duration>,
}

/// The sum of the samples in nanoseconds.
pub open spec fn total_nanos(samples: Seq<Duration>) -> nat
    decreases samples.len(),
{
    if samples.len() == 0 {
        0
    } else {
        total_nanos(samples.drop_last()) + samples.last().nanos()
    }
}

/// The samples after one more. Beyond the number that is kept, the oldest one goes.
pub open spec fn sampled(samples: Seq<Duration>, latency: Duration) -> Seq<Duration> {
    if samples.len() >= MAX_SAMPLES {
        samples.push(latency).skip(1)
    } else {
        samples.push(latency)
    }
}

/// The samples after recording all of `latencies`, the first one first.
pub open spec fn sampled_all(latencies: Seq<Duration>) -> Seq<Duration>
    decreases latencies.len(),
{
    if latencies.len() == 0 {
        Seq::empty()
    } else {
        sampled(sampled_all(latencies.drop_last()), latencies.last())
    }
}

/// The last of `latencies`, as many as are kept.
pub open spec fn latest(latencies: Seq<Duration>) -> Seq<Duration> {
    if latencies.len() <= MAX_SAMPLES {
        latencies
    } else {
        latencies.skip(latencies.len() - MAX_SAMPLES)
    }
}

/// The mean of the samples in nanoseconds, rounded down.
pub open spec fn mean_nanos(samples: Seq<Duration>) -> int {
    total_nanos(samples) as int / samples.len() as int
}

/// Every sample lies between the two bounds, in nanoseconds.
pub open spec fn within(samples: Seq<Duration>, low: nat, high: nat) -> bool {
    forall|i: int| 0 <= i < samples.len() ==> low <= (#[trigger] samples[i]).nanos() <= high
}

impl NetworkMetrics {
    /// Every sample is a valid span, and there are not more of them than can be divided by.
    pub open spec fn wf(&self) -> bool {
        &&& self.latency_samples@.len() <= u32::MAX
        &&& forall|i: int|
            0 <= i < self.latency_samples@.len() ==> (#[trigger] self.latency_samples@[i]).wf()
    }

    /// Nothing counted and no samples.
    pub fn new() -> (m: NetworkMetrics)
        ensures
            m.wf(),
            m.messages_per_second == 0,
            m.bytes_per_second == 0,
            m.connection_count == 0,
            m.latency_samples@ == Seq::<Duration>::empty(),
    {
        NetworkMetrics {
            messages_per_second: 0,
            bytes_per_second: 0,
            connection_count: 0,
            latency_samples: Vec::new(),
        }
    }

    /// Counts a message of `size` bytes. The counters wrap around.
    pub fn record_message(&mut self, size: u64)
        ensures
            *final(self) == (NetworkMetrics {
                messages_per_second: old(self).messages_per_second.wrapping_add(1),
                bytes_per_second: old(self).bytes_per_second.wrapping_add(size),
                ..*old(self)
            }),
    {
        self.messages_per_second = self.messages_per_second.wrapping_add(1);
        self.bytes_per_second = self.bytes_per_second.wrapping_add(size);
    }

    /// Counts a connection. The counter wraps around.
    pub fn record_connection(&mut self)
        ensures
            *final(self) == (NetworkMetrics {
                connection_count: old(self).connection_count.wrapping_add(1),
                ..*old(self)
            }),
    {
        self.connection_count = self.connection_count.wrapping_add(1);
    }

    /// Counts a connection out. The counter wraps around.
    pub fn record_disconnection(&mut self)
        ensures
            *final(self) == (NetworkMetrics {
                connection_count: old(self).connection_count.wrapping_sub(1),
                ..*old(self)
            }),
    {
        self.connection_count = self.connection_count.wrapping_sub(1);
    }

    /// Keeps a latency sample.
    pub fn record_latency(&mut self, latency: Duration)
        requires
            old(self).wf(),
            latency.wf(),
        ensures
            final(self).wf(),
            final(self).latency_samples@ == sampled(old(self).latency_samples@, latency),
            final(self).messages_per_second == old(self).messages_per_second,
            final(self).bytes_per_second == old(self).bytes_per_second,
            final(self).connection_count == old(self).connection_count,
    {
        self.latency_samples.push(latency);
        if self.latency_samples.len() > MAX_SAMPLES {
            let _ = self.latency_samples.remove(0);
        }
        assert(self.latency_samples@ =~= sampled(old(self).latency_samples@, latency));
    }

    /// The sum of the samples in nanoseconds.
    pub fn total_latency(&self) -> (total: u128)
        requires
            self.wf(),
        ensures
            total == total_nanos(self.latency_samples@),
    {
        let mut total: u128 = 0;
        let mut i: usize = 0;
        while i < self.latency_samples.len()
            invariant
                self.wf(),
                i <= self.latency_samples@.len(),
                total == total_nanos(self.latency_samples@.take(i as int)),
                total <= i * MAX_DURATION_NANOS,
            decreases self.latency_samples@.len() - i,
        {
            let sample = self.latency_samples[i].as_nanos();
            assert(self.latency_samples@.take(i + 1).drop_last() =~= self.latency_samples@.take(
                i as int,
            ));
            total = total + sample;
            i += 1;
        }
        assert(self.latency_samples@.take(i as int) =~= self.latency_samples@);
        total
    }

    /// The mean of the samples, rounded down to nanoseconds. `None` without samples.
    pub fn average_latency(&self) -> (average: Option<Duration>)
        requires
            self.wf(),
            total_nanos(self.latency_samples@) <= MAX_DURATION_NANOS,
        ensures
            match average {
                Some(d) => {
                    &&& self.latency_samples@.len() > 0
                    &&& d.wf()
                    &&& d.nanos() == mean_nanos(self.latency_samples@)
                },
                None => self.latency_samples@.len() == 0,
            },
    {
        if self.latency_samples.is_empty() {
            return None;
        }
        let total = self.total_latency();
        let mean: u128 = total / self.latency_samples.len() as u128;
        Some(Duration::from_nanos(mean))
    }

    /// Sets the counters of messages and bytes back.
    pub fn reset_counters(&mut self)
        ensures
            *final(self) == (NetworkMetrics {
                messages_per_second: 0,
                bytes_per_second: 0,
                ..*old(self)
            }),
    {
        self.messages_per_second = 0;
        self.bytes_per_second = 0;
    }
}

/// Samples are bounded: where no more are kept than should be, recording one more
/// keeps it so, and the newest sample is the last one.
pub proof fn law_samples_are_bounded(samples: Seq<Duration>, latency: Duration)
    requires
        samples.len() <= MAX_SAMPLES,
    ensures
        sampled(samples, latency).len() <= MAX_SAMPLES,
        sampled(samples, latency).last() == latency,
{
}

/// The latest samples count: after recording any number of latencies, the samples
/// are the last ones that were recorded, as many as are kept, and the mean is theirs.
pub proof fn law_latest_samples(latencies: Seq<Duration>)
    ensures
        sampled_all(latencies) == latest(latencies),
        mean_nanos(sampled_all(latencies)) == mean_nanos(latest(latencies)),
    decreases latencies.len(),
{
    if latencies.len() > 0 {
        law_latest_samples(latencies.drop_last());
        assert(sampled_all(latencies) =~= latest(latencies));
    }
}

/// The mean lies among the samples: where all lie between two bounds, so does it.
pub proof fn law_mean_within_bounds(samples: Seq<Duration>, low: nat, high: nat)
    requires
        samples.len() > 0,
        within(samples, low, high),
    ensures
        low <= mean_nanos(samples) <= high,
{
    lemma_total_within(samples, low, high);
    let total = total_nanos(samples) as int;
    let count = samples.len() as int;
    assert(low <= total / count <= high) by (nonlinear_arith)
        requires
            count > 0,
            low * count <= total <= high * count,
    ;
}

/// The sum lies between as many times the bounds as there are samples.
proof fn lemma_total_within(samples: Seq<Duration>, low: nat, high: nat)
    requires
        within(samples, low, high),
    ensures
        low * samples.len() <= total_nanos(samples) <= high * samples.len(),
    decreases samples.len(),
{
    if samples.len() > 0 {
        let before = samples.drop_last();
        assert forall|i: int| 0 <= i < before.len() implies low <= (
        #[trigger] before[i]).nanos() <= high by {
            assert(before[i] == samples[i]);
        }
        lemma_total_within(before, low, high);
        assert(low * samples.len() == low * before.len() + low) by (nonlinear_arith)
            requires
                samples.len() == before.len() + 1,
        ;
        assert(high * samples.len() == high * before.len() + high) by (nonlinear_arith)
            requires
                samples.len() == before.len() + 1,
        ;
        assert(samples.last() == samples[samples.len() - 1]);
    } else {
        assert(low * 0 == 0 && high * 0 == 0) by (nonlinear_arith);
    }
}

/// A disconnection undoes a connection.
pub proof fn law_disconnection_undoes_connection(count: u64)
    ensures
        count.wrapping_add(1).wrapping_sub(1) == count,
{
}

/// A sum is made of its parts: nothing sums up to nothing, one sample to itself, and
/// two runs of samples to what each sums up to.
pub proof fn law_total_is_a_sum(a: Seq<Duration>, b: Seq<Duration>, d: Duration)
    ensures
        total_nanos(Seq::<Duration>::empty()) == 0,
        total_nanos(seq![d]) == d.secs * 1_000_000_000 + d.subsec_nanos,
        total_nanos(a + b) == total_nanos(a) + total_nanos(b),
    decreases b.len(),
{
    reveal_with_fuel(total_nanos, 2);
    assert(seq![d].drop_last() =~= Seq::<Duration>::empty());
    if b.len() > 0 {
        law_total_is_a_sum(a, b.drop_last(), d);
        assert((a + b).drop_last() =~= a + b.drop_last());
    } else {
        assert(a + b =~= a);
    }
}

/// A mean is a sum shared out: as often as there are samples it gives at most their
/// sum, and one nanosecond more would give more than the sum.
pub proof fn law_mean_shares_out(samples: Seq<Duration>)
    requires
        samples.len() > 0,
    ensures
        mean_nanos(samples) * samples.len() <= total_nanos(samples),
        total_nanos(samples) < (mean_nanos(samples) + 1) * samples.len(),
{
    let total = total_nanos(samples) as int;
    let count = samples.len() as int;
    assert((total / count) * count <= total < (total / count + 1) * count) by (nonlinear_arith)
        requires
            count > 0,
            total >= 0,
    ;
}

/// A sample is kept behind the others: up to a thousand all are kept, beyond that the
/// oldest goes and the others move up.
pub proof fn law_sample_is_kept_last(samples: Seq<Duration>, latency: Duration)
    ensures
        samples.len() < 1000 ==> {
            &&& sampled(samples, latency).len() == samples.len() + 1
            &&& forall|i: int|
                0 <= i < samples.len() ==> #[trigger] sampled(samples, latency)[i] == samples[i]
        },
        samples.len() >= 1000 ==> {
            &&& sampled(samples, latency).len() == samples.len()
            &&& forall|i: int|
                0 <= i < samples.len() - 1 ==> #[trigger] sampled(samples, latency)[i]
                    == samples[i + 1]
        },
        sampled(samples, latency).last() == latency,
{
}

} // verus!
