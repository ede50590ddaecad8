//! Throughput samples and the statistics drawn from them.

use vstd::prelude::*;
use vstd::arithmetic::div_mod::lemma_div_is_ordered_by_denominator;
use vstd::relations::sorted_by;
use vstd::relations::total_ordering;
use vstd::seq_lib::lemma_sorted_unique;
use vstd::seq_lib::to_multiset_build;
use vstd::seq_lib::to_multiset_insert;
use std::collections::VecDeque;
use crate::factor::MAX_THROUGHPUT;

verus! {

pub const NANOS_PER_SECOND: u64 = 1_000_000_000;

pub const NANOS_PER_MILLISECOND: u64 = 1_000_000;

/// The number one in the fixed-point format of the harmonic mean: 64
/// fractional bits.
pub const FIXED_ONE: u128 = 0x1_0000_0000_0000_0000;

/// Smallest reciprocal a sample can have in that format.
pub const MIN_RECIPROCAL: u128 = 0x1_0000_0001;

/// The percentile that the estimate draws from the samples.
pub const LOW_PERCENTILE: u32 = 20;

/// A measured throughput, in bytes per second, and the time it was taken
/// at, in nanoseconds on the caller's monotonic clock.
#[derive(Debug, Clone, Copy, PartialEq, Eq)]
pub struct BandwidthSample {
    pub timestamp: u64,
    pub throughput: u32,
}

/// Bytes per second at which `segment_size` bytes arrived in
/// `download_duration` nanoseconds, rounded down. A download of less than
/// a millisecond counts as instantaneous, and a rate beyond
/// `MAX_THROUGHPUT` as `MAX_THROUGHPUT`.
pub open spec fn throughput(segment_size: u32, download_duration: u64) -> int {
    if download_duration < NANOS_PER_MILLISECOND {
        MAX_THROUGHPUT as int
    } else {
        let rate = (segment_size * NANOS_PER_SECOND) / (download_duration as int);
        if rate > MAX_THROUGHPUT {
            MAX_THROUGHPUT as int
        } else {
            rate
        }
    }
}

/// Computes `throughput(segment_size, download_duration)`.
pub fn measure_throughput(segment_size: u32, download_duration: u64) -> (rate: u32)
    ensures
        rate == throughput(segment_size, download_duration),
{
    if download_duration < NANOS_PER_MILLISECOND {
        MAX_THROUGHPUT
    } else {
        let scaled: u64 = (segment_size as u64) * NANOS_PER_SECOND;
        let rate: u64 = scaled / download_duration;
        if rate > MAX_THROUGHPUT as u64 {
            MAX_THROUGHPUT
        } else {
            rate as u32
        }
    }
}

/// Time elapsed at `now` since `timestamp`; zero where the timestamp lies
/// ahead of `now`.
pub open spec fn age(now: u64, timestamp: u64) -> int {
    if now >= timestamp {
        now - timestamp
    } else {
        0
    }
}

/// Whether the sample is older than the window at `now`.
pub open spec fn is_stale(sample: BandwidthSample, now: u64, window: u64) -> bool {
    age(now, sample.timestamp) > window
}

/// Length of the longest prefix of `samples` in which every sample is
/// stale.
pub open spec fn stale_prefix(samples: Seq<BandwidthSample>, now: u64, window: u64) -> nat
    decreases samples.len(),
{
    if samples.len() > 0 && is_stale(samples[0], now, window) {
        1 + stale_prefix(samples.drop_first(), now, window)
    } else {
        0
    }
}

/// The samples that are kept at `now`: all but the stale prefix.
pub open spec fn retained(samples: Seq<BandwidthSample>, now: u64, window: u64) -> Seq<
    BandwidthSample,
> {
    samples.skip(stale_prefix(samples, now, window) as int)
}

/// Whether the samples stand in the order in which they were taken.
pub open spec fn time_ordered(samples: Seq<BandwidthSample>) -> bool {
    forall|i: int, j: int|
        0 <= i <= j < samples.len() ==> (#[trigger] samples[i]).timestamp <= (
        #[trigger] samples[j]).timestamp
}

/// The stale prefix ends at the first sample that is still within the
/// window, or at the end of the history.
pub proof fn lemma_stale_prefix_is_longest(samples: Seq<BandwidthSample>, now: u64, window: u64)
    ensures
        stale_prefix(samples, now, window) <= samples.len(),
        forall|i: int|
            0 <= i < stale_prefix(samples, now, window) ==> is_stale(
                #[trigger] samples[i],
                now,
                window,
            ),
        stale_prefix(samples, now, window) < samples.len() ==> !is_stale(
            samples[stale_prefix(samples, now, window) as int],
            now,
            window,
        ),
    decreases samples.len(),
{
    if samples.len() > 0 && is_stale(samples[0], now, window) {
        let rest = samples.drop_first();
        lemma_stale_prefix_is_longest(rest, now, window);
        let k = stale_prefix(rest, now, window);
        assert forall|i: int| 0 <= i < 1 + k implies is_stale(#[trigger] samples[i], now, window) by {
            if i > 0 {
                assert(samples[i] == rest[i - 1]);
            }
        }
        if 1 + k < samples.len() {
            assert(samples[1 + k as int] == rest[k as int]);
        }
    }
}

/// In a history that is ordered by time, dropping the stale prefix leaves
/// no stale sample behind.
pub proof fn lemma_retained_are_fresh(samples: Seq<BandwidthSample>, now: u64, window: u64)
    requires
        time_ordered(samples),
    ensures
        time_ordered(retained(samples, now, window)),
        forall|i: int|
            0 <= i < retained(samples, now, window).len() ==> !is_stale(
                #[trigger] retained(samples, now, window)[i],
                now,
                window,
            ),
{
    lemma_stale_prefix_is_longest(samples, now, window);
    let k = stale_prefix(samples, now, window) as int;
    let kept = retained(samples, now, window);
    assert forall|i: int| 0 <= i < kept.len() implies !is_stale(#[trigger] kept[i], now, window) by {
        assert(kept[i] == samples[k + i]);
        assert(samples[k].timestamp <= samples[k + i].timestamp);
    }
    assert forall|i: int, j: int| 0 <= i <= j < kept.len() implies (#[trigger] kept[i]).timestamp
        <= (#[trigger] kept[j]).timestamp by {
        assert(kept[i] == samples[k + i]);
        assert(kept[j] == samples[k + j]);
    }
}

/// Drops the stale prefix of the history.
pub fn evict_stale(history: &mut VecDeque<BandwidthSample>, now: u64, window: u64)
    ensures
        final(history)@ == retained(old(history)@, now, window),
{
    while history.len() > 0 && now >= history[0].timestamp && now - history[0].timestamp > window
        invariant
            retained(history@, now, window) == retained(old(history)@, now, window),
        decreases history.len(),
    {
        let ghost before = history@;
        history.pop_front();
        assert(history@ == before.drop_first());
        let ghost rest_prefix = stale_prefix(before.drop_first(), now, window) as int;
        proof {
            lemma_stale_prefix_is_longest(before.drop_first(), now, window);
        }
        assert(before.skip(1 + rest_prefix) == before.drop_first().skip(rest_prefix));
    }
    assert(stale_prefix(history@, now, window) == 0);
    assert(history@.skip(0) == history@);
}

/// The throughputs of the samples, in the samples' order.
pub open spec fn throughputs(samples: Seq<BandwidthSample>) -> Seq<u32> {
    Seq::new(samples.len(), |i: int| samples[i].throughput)
}

/// Copies the throughputs out of the history.
pub fn collect_throughputs(history: &VecDeque<BandwidthSample>) -> (rates: Vec<u32>)
    ensures
        rates@ == throughputs(history@),
{
    let mut rates: Vec<u32> = Vec::new();
    let count: usize = history.len();
    for i in 0..count
        invariant
            count == history@.len(),
            rates@.len() == i,
            forall|k: int| 0 <= k < i ==> rates@[k] == history@[k].throughput,
    {
        rates.push(history[i].throughput);
    }
    assert(rates@ =~= throughputs(history@));
    rates
}

/// The reciprocal of a throughput in fixed point, rounded down. A
/// throughput of zero counts as one byte per second.
pub open spec fn reciprocal(sample: u32) -> int {
    if sample == 0 {
        FIXED_ONE as int
    } else {
        FIXED_ONE as int / sample as int
    }
}

/// The sum of the reciprocals of all samples.
pub open spec fn reciprocal_sum(samples: Seq<u32>) -> int
    decreases samples.len(),
{
    if samples.len() == 0 {
        0
    } else {
        reciprocal_sum(samples.drop_last()) + reciprocal(samples.last())
    }
}

/// The harmonic mean of the samples, the number of samples over the sum
/// of their reciprocals, evaluated in fixed point and rounded down. Zero
/// for no samples.
pub open spec fn harmonic_mean(samples: Seq<u32>) -> int {
    if samples.len() == 0 {
        0
    } else {
        (samples.len() * FIXED_ONE) / reciprocal_sum(samples)
    }
}

/// Every reciprocal lies between `MIN_RECIPROCAL` and `FIXED_ONE`.
pub proof fn lemma_reciprocal_bounds(sample: u32)
    ensures
        MIN_RECIPROCAL <= reciprocal(sample) <= FIXED_ONE,
{
    if sample != 0 {
        lemma_div_is_ordered_by_denominator(FIXED_ONE as int, sample as int, 0xFFFF_FFFF);
        lemma_div_is_ordered_by_denominator(FIXED_ONE as int, 1, sample as int);
        assert(0x1_0000_0000_0000_0000int / 0xFFFF_FFFF == 0x1_0000_0001) by (nonlinear_arith);
        assert(0x1_0000_0000_0000_0000int / 1 == 0x1_0000_0000_0000_0000);
    }
}

/// The sum of `n` reciprocals lies between `n * MIN_RECIPROCAL` and
/// `n * FIXED_ONE`.
pub proof fn lemma_reciprocal_sum_bounds(samples: Seq<u32>)
    ensures
        samples.len() * MIN_RECIPROCAL <= reciprocal_sum(samples) <= samples.len() * FIXED_ONE,
    decreases samples.len(),
{
    if samples.len() > 0 {
        lemma_reciprocal_sum_bounds(samples.drop_last());
        lemma_reciprocal_bounds(samples.last());
        assert(samples.len() * MIN_RECIPROCAL == (samples.len() - 1) * MIN_RECIPROCAL
            + MIN_RECIPROCAL) by (nonlinear_arith);
        assert(samples.len() * FIXED_ONE == (samples.len() - 1) * FIXED_ONE + FIXED_ONE)
            by (nonlinear_arith);
    }
}

/// The harmonic mean is a throughput: it does not exceed `MAX_THROUGHPUT`.
pub proof fn lemma_harmonic_mean_fits(samples: Seq<u32>)
    ensures
        0 <= harmonic_mean(samples) <= MAX_THROUGHPUT,
{
    if samples.len() > 0 {
        lemma_reciprocal_sum_bounds(samples);
        let n = samples.len() as int;
        let sum = reciprocal_sum(samples);
        let mean = harmonic_mean(samples);
        assert(sum >= n * 0x1_0000_0001);
        assert(0 <= mean <= 0xFFFF_FFFF) by (nonlinear_arith)
            requires
                n >= 1,
                sum >= n * 0x1_0000_0001,
                mean == (n * 0x1_0000_0000_0000_0000) / sum,
        ;
    }
}

/// Computes `harmonic_mean(samples@)`.
pub fn harmonic_mean_bandwidth(samples: &Vec<u32>) -> (mean: u32)
    ensures
        mean == harmonic_mean(samples@),
{
    let count: usize = samples.len();
    if count == 0 {
        return 0;
    }
    let mut sum: u128 = 0;
    for i in 0..count
        invariant
            count == samples@.len(),
            sum == reciprocal_sum(samples@.take(i as int)),
    {
        proof {
            lemma_reciprocal_sum_bounds(samples@.take(i as int));
            lemma_reciprocal_bounds(samples@[i as int]);
            assert(samples@.take(i + 1).drop_last() == samples@.take(i as int));
            assert(i * FIXED_ONE + FIXED_ONE <= 0xFFFF_FFFF_FFFF_FFFF * FIXED_ONE) by (nonlinear_arith)
                requires
                    i < 0xFFFF_FFFF_FFFF_FFFF,
            ;
        }
        let sample: u32 = samples[i];
        let term: u128 = if sample == 0 {
            FIXED_ONE
        } else {
            FIXED_ONE / (sample as u128)
        };
        sum = sum + term;
    }
    proof {
        assert(samples@.take(count as int) == samples@);
        lemma_reciprocal_sum_bounds(samples@);
        lemma_harmonic_mean_fits(samples@);
        assert(count * FIXED_ONE <= 0xFFFF_FFFF_FFFF_FFFF * FIXED_ONE) by (nonlinear_arith)
            requires
                count <= 0xFFFF_FFFF_FFFF_FFFF,
        ;
        assert(count * MIN_RECIPROCAL > 0) by (nonlinear_arith)
            requires
                count >= 1,
        ;
    }
    let scaled_count: u128 = (count as u128) * FIXED_ONE;
    let mean: u128 = scaled_count / sum;
    mean as u32
}

/// The order by which samples are arranged for a percentile.
pub open spec fn at_most() -> spec_fn(u32, u32) -> bool {
    |a: u32, b: u32| a <= b
}

/// The samples arranged from the lowest to the highest.
pub open spec fn ascending(samples: Seq<u32>) -> Seq<u32> {
    samples.sort_by(at_most())
}

/// The position of the `percent`-th percentile among `count` samples in
/// ascending order: `count * percent / 100` rounded down, and the last
/// position where that lies beyond it.
pub open spec fn percentile_index(count: int, percent: u32) -> int {
    let index = (count * percent) / 100;
    if index > count - 1 {
        count - 1
    } else {
        index
    }
}

/// The `percent`-th percentile of the samples: the sample at
/// `percentile_index` in ascending order. Zero for no samples.
pub open spec fn percentile(samples: Seq<u32>, percent: u32) -> int {
    if samples.len() == 0 {
        0
    } else {
        ascending(samples)[percentile_index(samples.len() as int, percent)] as int
    }
}

/// The ascending arrangement holds the same samples and is in order.
pub proof fn lemma_ascending_is_sorted(samples: Seq<u32>)
    ensures
        ascending(samples).len() == samples.len(),
        ascending(samples).to_multiset() == samples.to_multiset(),
        forall|i: int, j: int|
            0 <= i <= j < samples.len() ==> ascending(samples)[i] <= ascending(samples)[j],
{
    broadcast use vstd::seq_lib::group_to_multiset_ensures;

    assert(total_ordering(at_most()));
    samples.lemma_sort_by_ensures(at_most());
    let sorted = ascending(samples);
    assert(sorted.len() == sorted.to_multiset().len());
    assert(samples.len() == samples.to_multiset().len());
    assert forall|i: int, j: int| 0 <= i <= j < samples.len() implies sorted[i] <= sorted[j] by {
        if i < j {
            assert(at_most()(sorted[i], sorted[j]));
        }
    }
}

/// Arranges the samples in ascending order.
pub fn sort_ascending(samples: &Vec<u32>) -> (sorted: Vec<u32>)
    ensures
        sorted@ == ascending(samples@),
        sorted@.to_multiset() == samples@.to_multiset(),
        forall|i: int, j: int| 0 <= i <= j < sorted@.len() ==> sorted@[i] <= sorted@[j],
{
    let mut sorted: Vec<u32> = Vec::new();
    let count: usize = samples.len();
    assert(sorted@ == samples@.take(0));
    for i in 0..count
        invariant
            count == samples@.len(),
            sorted@.len() == i,
            sorted@.to_multiset() == samples@.take(i as int).to_multiset(),
            sorted_by(sorted@, at_most()),
    {
        let value: u32 = samples[i];
        let mut position: usize = 0;
        while position < sorted.len() && sorted[position] <= value
            invariant
                position <= sorted@.len(),
                forall|k: int| 0 <= k < position ==> sorted@[k] <= value,
            decreases sorted@.len() - position,
        {
            position = position + 1;
        }
        let ghost before = sorted@;
        sorted.insert(position, value);
        proof {
            to_multiset_insert(before, position as int, value);
            to_multiset_build(samples@.take(i as int), value);
            assert(samples@.take(i + 1) == samples@.take(i as int).push(value));
            assert forall|a: int, b: int| 0 <= a < b < sorted@.len() implies at_most()(
                sorted@[a],
                sorted@[b],
            ) by {
                if b < position {
                    assert(at_most()(before[a], before[b]));
                } else if b == position {
                } else if a < position {
                    assert(at_most()(before[a], before[b - 1]));
                } else if a == position {
                    assert(at_most()(before[position as int], before[b - 1]) || position == b - 1);
                } else {
                    assert(at_most()(before[a - 1], before[b - 1]));
                }
            }
        }
    }
    proof {
        assert(samples@.take(count as int) == samples@);
        assert(total_ordering(at_most()));
        samples@.lemma_sort_by_ensures(at_most());
        lemma_sorted_unique(sorted@, ascending(samples@), at_most());
        lemma_ascending_is_sorted(samples@);
    }
    sorted
}

/// Computes `percentile(samples@, percent)`.
pub fn percentile_bandwidth(samples: &Vec<u32>, percent: u32) -> (value: u32)
    ensures
        value == percentile(samples@, percent),
{
    let count: usize = samples.len();
    if count == 0 {
        return 0;
    }
    let sorted: Vec<u32> = sort_ascending(samples);
    proof {
        lemma_ascending_is_sorted(samples@);
        assert(count * percent <= 0xFFFF_FFFF_FFFF_FFFF * 0xFFFF_FFFF) by (nonlinear_arith)
            requires
                count <= 0xFFFF_FFFF_FFFF_FFFF,
                percent <= 0xFFFF_FFFF,
        ;
    }
    let index: u128 = ((count as u128) * (percent as u128)) / 100;
    if index > (count - 1) as u128 {
        sorted[count - 1]
    } else {
        sorted[index as usize]
    }
}

/// The least of the three statistics that make up an estimate.
pub open spec fn least_of(harmonic: int, weighted: int, low: int) -> int {
    let first = if harmonic <= weighted {
        harmonic
    } else {
        weighted
    };
    if first <= low {
        first
    } else {
        low
    }
}

} // verus!
