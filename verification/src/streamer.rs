//! The engine: the state of one playback session and the decisions
//! taken on it.

use vstd::prelude::*;
use std::collections::VecDeque;
use crate::buffer::BufferState;
use crate::estimator::collect_throughputs;
use crate::estimator::evict_stale;
use crate::estimator::harmonic_mean;
use crate::estimator::is_stale;
use crate::estimator::lemma_retained_are_fresh;
use crate::estimator::lemma_stale_prefix_is_longest;
use crate::estimator::stale_prefix;
use crate::estimator::time_ordered;
use crate::estimator::harmonic_mean_bandwidth;
use crate::estimator::least_of;
use crate::estimator::measure_throughput;
use crate::estimator::percentile;
use crate::estimator::percentile_bandwidth;
use crate::estimator::retained;
use crate::estimator::throughput;
use crate::estimator::throughputs;
use crate::estimator::BandwidthSample;
use crate::estimator::LOW_PERCENTILE;
use crate::estimator::NANOS_PER_SECOND;
use crate::factor::Factor;
use crate::ladder::find_highest_affordable;
use crate::ladder::highest_affordable;
use crate::ladder::lemma_highest_affordable;
use crate::ladder::required_bandwidth;
use crate::ladder::QualityLevel;
use crate::selector::lemma_smoothed_change_is_bounded;
use crate::selector::lemma_smoothed_in_range;
use crate::selector::smooth;
use crate::selector::smoothed;

verus! {

/// Number of segment records that are kept; the oldest leaves first.
pub const MAX_SEGMENT_HISTORY: usize = 50;

/// Below this much buffered playback, playback should pause.
pub const PAUSE_FLOOR: u64 = 1_000_000_000;

/// Record of one downloaded segment. Durations are nanoseconds.
#[derive(Debug, Clone, Copy, PartialEq, Eq)]
pub struct SegmentInfo {
    /// Index of the level the segment was requested at.
    pub quality_level: usize,
    pub size_bytes: u32,
    /// Playback time the segment holds.
    pub duration: u64,
    /// Time the download took.
    pub download_time: u64,
}

/// Why a streamer could not be set up.
#[derive(Debug, Clone, Copy, PartialEq, Eq)]
pub enum ConfigError {
    /// The quality ladder holds no level.
    EmptyLadder,
}

/// Chooses, segment by segment, the quality to request next.
pub struct AdaptiveBitrateStreamer {
    quality_levels: Vec<QualityLevel>,
    current_quality: usize,
    bandwidth_history: VecDeque<BandwidthSample>,
    buffer_state: BufferState,
    segment_history: VecDeque<SegmentInfo>,
    bandwidth_window: u64,
    safety_factor: Factor,
    buffer_panic_threshold: u64,
    buffer_seek_threshold: u64,
    min_bandwidth_samples: usize,
}

/// The state of a streamer as contracts see it.
pub struct StreamerView {
    /// The ladder, lowest bitrate first.
    pub quality_levels: Seq<QualityLevel>,
    /// Index of the level in use.
    pub current_quality: int,
    /// Throughput samples, oldest first.
    pub bandwidth_history: Seq<BandwidthSample>,
    pub buffer_state: BufferState,
    /// Records of the latest segments, oldest first.
    pub segment_history: Seq<SegmentInfo>,
    /// How far back throughput samples are kept, in nanoseconds.
    pub bandwidth_window: u64,
    /// Share of the scaled estimate that a level may use up.
    pub safety_factor: Factor,
    pub buffer_panic_threshold: u64,
    pub buffer_seek_threshold: u64,
    /// Number of samples below which the estimate falls back on the
    /// current level.
    pub min_bandwidth_samples: int,
}

impl StreamerView {
    /// The state of a streamer that has just been set up on `levels`.
    pub open spec fn initial(levels: Seq<QualityLevel>) -> StreamerView {
        StreamerView {
            quality_levels: levels,
            current_quality: levels.len() as int / 2,
            bandwidth_history: Seq::empty(),
            buffer_state: BufferState {
                current_level: 0,
                target_level: 30_000_000_000,
                max_level: 60_000_000_000,
                min_level: 5_000_000_000,
            },
            segment_history: Seq::empty(),
            bandwidth_window: 10_000_000_000,
            safety_factor: Factor { numerator: 4, denominator: 5 },
            buffer_panic_threshold: 3_000_000_000,
            buffer_seek_threshold: 45_000_000_000,
            min_bandwidth_samples: 3,
        }
    }

    /// The ladder is not empty, the current quality is one of its levels,
    /// the buffer is within its capacity, and the segment history within
    /// its bound.
    pub open spec fn wf(self) -> bool {
        &&& self.quality_levels.len() > 0
        &&& 0 <= self.current_quality < self.quality_levels.len()
        &&& self.buffer_state.wf()
        &&& self.segment_history.len() <= MAX_SEGMENT_HISTORY
        &&& self.safety_factor.wf()
    }

    /// The level in use.
    pub open spec fn current_level(self) -> QualityLevel {
        self.quality_levels[self.current_quality]
    }

    /// Whether the buffer is below the panic threshold.
    pub open spec fn in_panic(self) -> bool {
        self.buffer_state.current_level < self.buffer_panic_threshold
    }

    /// The factor that the buffer's health puts on the estimate.
    pub open spec fn buffer_factor(self) -> Factor {
        self.buffer_state.factor(self.buffer_panic_threshold, self.buffer_seek_threshold)
    }

    /// The bandwidth estimate in bytes per second. With fewer samples
    /// than `min_bandwidth_samples` it is what the current level needs.
    /// Otherwise it is the least of the samples' harmonic mean, their
    /// low percentile, and `weighted_average`, the caller's
    /// exponentially time-weighted average of them.
    pub open spec fn estimate(self, weighted_average: u32) -> int {
        if self.bandwidth_history.len() < self.min_bandwidth_samples {
            required_bandwidth(self.current_level().bitrate)
        } else {
            let rates = throughputs(self.bandwidth_history);
            least_of(
                harmonic_mean(rates),
                weighted_average as int,
                percentile(rates, LOW_PERCENTILE),
            )
        }
    }

    /// The estimate scaled by the buffer factor.
    pub open spec fn effective_bandwidth(self, weighted_average: u32) -> int {
        self.buffer_factor().scale(self.estimate(weighted_average))
    }

    /// The level that `available_bandwidth` can sustain once the safety
    /// margin is taken off.
    pub open spec fn suitable_quality(self, available_bandwidth: int) -> int {
        highest_affordable(self.quality_levels, self.safety_factor.scale(available_bandwidth))
    }

    /// The level that the next decision moves to from the current one
    /// when the ladder calls for `target_quality`.
    pub open spec fn smoothed_quality(self, target_quality: int) -> int {
        smoothed(
            self.current_quality,
            target_quality,
            self.in_panic(),
            self.quality_levels.len() as int,
        )
    }

    /// The quality that the next decision selects.
    pub open spec fn next_quality(self, weighted_average: u32) -> int {
        self.smoothed_quality(self.suitable_quality(self.effective_bandwidth(weighted_average)))
    }

    /// The state after that decision.
    pub open spec fn after_selection(self, weighted_average: u32) -> StreamerView {
        StreamerView { current_quality: self.next_quality(weighted_average), ..self }
    }

    /// The segment history once `record` has been added: the oldest
    /// record leaves where the bound is passed.
    pub open spec fn segments_with(self, record: SegmentInfo) -> Seq<SegmentInfo> {
        let added = self.segment_history.push(record);
        if added.len() > MAX_SEGMENT_HISTORY {
            added.drop_first()
        } else {
            added
        }
    }

    /// The state after a segment of `segment_size` bytes and
    /// `segment_duration` of playback has arrived at `now`, its download
    /// having taken `download_duration`: the throughput is sampled, stale
    /// samples are dropped, the segment is recorded and the buffer grows.
    pub open spec fn after_download(
        self,
        now: u64,
        segment_size: u32,
        download_duration: u64,
        segment_duration: u64,
    ) -> StreamerView {
        let sample = BandwidthSample {
            timestamp: now,
            throughput: throughput(segment_size, download_duration) as u32,
        };
        let record = SegmentInfo {
            quality_level: self.current_quality as usize,
            size_bytes: segment_size,
            duration: segment_duration,
            download_time: download_duration,
        };
        StreamerView {
            bandwidth_history: retained(
                self.bandwidth_history.push(sample),
                now,
                self.bandwidth_window,
            ),
            segment_history: self.segments_with(record),
            buffer_state: self.buffer_state.after_arrival(segment_duration),
            ..self
        }
    }

    /// The state after `consumed_duration` of playback has drained the
    /// buffer.
    pub open spec fn after_consumption(self, consumed_duration: u64) -> StreamerView {
        StreamerView {
            buffer_state: self.buffer_state.after_consumption(consumed_duration),
            ..self
        }
    }
}

/// Recording a download, draining the buffer and selecting a quality
/// each leave a well-formed state well-formed.
pub proof fn lemma_transitions_preserve_wf(
    state: StreamerView,
    now: u64,
    segment_size: u32,
    download_duration: u64,
    duration: u64,
    weighted_average: u32,
)
    requires
        state.wf(),
    ensures
        state.after_download(now, segment_size, download_duration, duration).wf(),
        state.after_consumption(duration).wf(),
        state.after_selection(weighted_average).wf(),
{
    lemma_smoothed_in_range(
        state.current_quality,
        state.suitable_quality(state.effective_bandwidth(weighted_average)),
        state.in_panic(),
        state.quality_levels.len() as int,
    );
}

/// A decision selects a level of the ladder, and one that lies within
/// one level of the current quality, unless the buffer is in panic and
/// the quality drops.
pub proof fn lemma_selection_is_smooth(state: StreamerView, weighted_average: u32)
    requires
        state.wf(),
    ensures
        0 <= state.next_quality(weighted_average) < state.quality_levels.len(),
        -1 <= state.next_quality(weighted_average) - state.current_quality <= 1 || (
        state.in_panic() && state.next_quality(weighted_average) < state.current_quality),
{
    let target = state.suitable_quality(state.effective_bandwidth(weighted_average));
    let count = state.quality_levels.len() as int;
    lemma_smoothed_in_range(state.current_quality, target, state.in_panic(), count);
    lemma_smoothed_change_is_bounded(state.current_quality, target, state.in_panic(), count);
}

/// Where downloads are recorded at times that do not run backwards, the
/// history stays in time order, ends with the sample just taken, and
/// holds no sample older than the window.
pub proof fn lemma_download_keeps_history_fresh(
    state: StreamerView,
    now: u64,
    segment_size: u32,
    download_duration: u64,
    segment_duration: u64,
)
    requires
        time_ordered(state.bandwidth_history),
        forall|i: int|
            0 <= i < state.bandwidth_history.len() ==> (
            #[trigger] state.bandwidth_history[i]).timestamp <= now,
    ensures
        ({
            let history = state.after_download(
                now,
                segment_size,
                download_duration,
                segment_duration,
            ).bandwidth_history;
            &&& time_ordered(history)
            &&& history.len() > 0
            &&& history.last().timestamp == now
            &&& history.last().throughput == throughput(segment_size, download_duration)
            &&& forall|i: int|
                0 <= i < history.len() ==> (#[trigger] history[i]).timestamp <= now && !is_stale(
                    history[i],
                    now,
                    state.bandwidth_window,
                )
        }),
{
    let sample = BandwidthSample {
        timestamp: now,
        throughput: throughput(segment_size, download_duration) as u32,
    };
    let added = state.bandwidth_history.push(sample);
    let history = retained(added, now, state.bandwidth_window);
    let dropped = stale_prefix(added, now, state.bandwidth_window) as int;
    assert(time_ordered(added));
    lemma_stale_prefix_is_longest(added, now, state.bandwidth_window);
    lemma_retained_are_fresh(added, now, state.bandwidth_window);
    assert(!is_stale(added[added.len() - 1], now, state.bandwidth_window));
    assert(dropped < added.len());
    assert(history.last() == sample);
    assert forall|i: int| 0 <= i < history.len() implies (#[trigger] history[i]).timestamp
        <= now by {
        assert(history[i] == added[dropped + i]);
    }
}

impl View for AdaptiveBitrateStreamer {
    type V = StreamerView;

    closed spec fn view(&self) -> StreamerView {
        StreamerView {
            quality_levels: self.quality_levels@,
            current_quality: self.current_quality as int,
            bandwidth_history: self.bandwidth_history@,
            buffer_state: self.buffer_state,
            segment_history: self.segment_history@,
            bandwidth_window: self.bandwidth_window,
            safety_factor: self.safety_factor,
            buffer_panic_threshold: self.buffer_panic_threshold,
            buffer_seek_threshold: self.buffer_seek_threshold,
            min_bandwidth_samples: self.min_bandwidth_samples as int,
        }
    }
}

impl AdaptiveBitrateStreamer {
    /// Sets up a streamer on a ladder, starting at its middle level with
    /// an empty buffer and the default thresholds.
    pub fn new(quality_levels: Vec<QualityLevel>) -> (streamer: Self)
        requires
            quality_levels@.len() > 0,
        ensures
            streamer@ == StreamerView::initial(quality_levels@),
            streamer@.current_quality == quality_levels@.len() / 2,
            streamer@.wf(),
    {
        let initial_quality: usize = quality_levels.len() / 2;
        Self {
            quality_levels,
            current_quality: initial_quality,
            bandwidth_history: VecDeque::new(),
            buffer_state: BufferState {
                current_level: 0,
                target_level: 30 * NANOS_PER_SECOND,
                max_level: 60 * NANOS_PER_SECOND,
                min_level: 5 * NANOS_PER_SECOND,
            },
            segment_history: VecDeque::new(),
            bandwidth_window: 10 * NANOS_PER_SECOND,
            safety_factor: Factor { numerator: 4, denominator: 5 },
            buffer_panic_threshold: 3 * NANOS_PER_SECOND,
            buffer_seek_threshold: 45 * NANOS_PER_SECOND,
            min_bandwidth_samples: 3,
        }
    }

    /// Sets up a streamer as `new` does, and reports a ladder without
    /// levels instead of asking the caller to rule it out.
    pub fn try_new(quality_levels: Vec<QualityLevel>) -> (outcome: Result<Self, ConfigError>)
        ensures
            quality_levels@.len() == 0 <==> outcome == Err::<Self, ConfigError>(
                ConfigError::EmptyLadder,
            ),
            quality_levels@.len() > 0 <==> outcome is Ok,
            outcome matches Ok(streamer) ==> streamer@ == StreamerView::initial(quality_levels@)
                && streamer@.wf(),
    {
        if quality_levels.len() == 0 {
            Err(ConfigError::EmptyLadder)
        } else {
            Ok(Self::new(quality_levels))
        }
    }

    /// Takes note of a segment that has arrived at `now`.
    pub fn record_segment_download(
        &mut self,
        now: u64,
        segment_size: u32,
        download_duration: u64,
        segment_duration: u64,
    )
        requires
            old(self)@.wf(),
        ensures
            final(self)@ == old(self)@.after_download(
                now,
                segment_size,
                download_duration,
                segment_duration,
            ),
            final(self)@.wf(),
    {
        let bandwidth: u32 = measure_throughput(segment_size, download_duration);
        self.bandwidth_history.push_back(BandwidthSample { timestamp: now, throughput: bandwidth });
        self.cleanup_bandwidth_history(now);
        let segment_info: SegmentInfo = SegmentInfo {
            quality_level: self.current_quality,
            size_bytes: segment_size,
            duration: segment_duration,
            download_time: download_duration,
        };
        self.segment_history.push_back(segment_info);
        if self.segment_history.len() > MAX_SEGMENT_HISTORY {
            self.segment_history.pop_front();
        }
        self.buffer_state.on_segment_arrival(segment_duration);
    }

    /// Takes note of playback that has drained the buffer.
    pub fn update_buffer_consumption(&mut self, consumed_duration: u64)
        requires
            old(self)@.wf(),
        ensures
            final(self)@ == old(self)@.after_consumption(consumed_duration),
            final(self)@.wf(),
    {
        self.buffer_state.on_playback_consumption(consumed_duration);
    }

    /// Decides on the quality of the next segment and makes it the
    /// current one. `weighted_average` is the exponentially
    /// time-weighted average of the throughput samples.
    ///
    /// The result is a level of the ladder, and it lies within one level
    /// of the quality before, unless the buffer is in panic and the
    /// quality drops.
    pub fn get_next_quality(&mut self, weighted_average: u32) -> (next: usize)
        requires
            old(self)@.wf(),
        ensures
            next == old(self)@.next_quality(weighted_average),
            final(self)@ == old(self)@.after_selection(weighted_average),
            final(self)@.wf(),
            next < old(self)@.quality_levels.len(),
            -1 <= next - old(self)@.current_quality <= 1 || (old(self)@.in_panic() && next < old(
                self,
            )@.current_quality),
    {
        let estimated_bandwidth: u32 = self.estimate_bandwidth(weighted_average);
        let buffer_factor: Factor = self.calculate_buffer_factor();
        let effective_bandwidth: u32 = buffer_factor.apply(estimated_bandwidth);
        let target_quality: usize = self.find_suitable_quality(effective_bandwidth);
        let next_quality: usize = self.apply_quality_smoothing(target_quality);
        self.current_quality = next_quality;
        next_quality
    }

    /// The bandwidth estimate, in bytes per second.
    pub fn estimate_bandwidth(&self, weighted_average: u32) -> (estimate: u32)
        requires
            self@.wf(),
        ensures
            estimate == self@.estimate(weighted_average),
            self@.bandwidth_history.len() < self@.min_bandwidth_samples ==> estimate
                == self@.current_level().bitrate / 8,
    {
        if self.bandwidth_history.len() < self.min_bandwidth_samples {
            return self.quality_levels[self.current_quality].bitrate / 8;
        }
        let harmonic_mean: u32 = self.calculate_harmonic_mean_bandwidth();
        let percentile_estimate: u32 = self.calculate_percentile_bandwidth(LOW_PERCENTILE);
        let least: u32 = if harmonic_mean <= weighted_average {
            harmonic_mean
        } else {
            weighted_average
        };
        if least <= percentile_estimate {
            least
        } else {
            percentile_estimate
        }
    }

    /// The harmonic mean of the throughput samples.
    pub fn calculate_harmonic_mean_bandwidth(&self) -> (mean: u32)
        ensures
            mean == harmonic_mean(throughputs(self@.bandwidth_history)),
    {
        let rates: Vec<u32> = collect_throughputs(&self.bandwidth_history);
        harmonic_mean_bandwidth(&rates)
    }

    /// The `percent`-th percentile of the throughput samples.
    pub fn calculate_percentile_bandwidth(&self, percent: u32) -> (value: u32)
        ensures
            value == percentile(throughputs(self@.bandwidth_history), percent),
    {
        let rates: Vec<u32> = collect_throughputs(&self.bandwidth_history);
        percentile_bandwidth(&rates, percent)
    }

    /// The factor that the buffer's health puts on the estimate.
    pub fn calculate_buffer_factor(&self) -> (factor: Factor)
        ensures
            factor == self@.buffer_factor(),
            factor.wf(),
    {
        self.buffer_state.scaling_factor(self.buffer_panic_threshold, self.buffer_seek_threshold)
    }

    /// The highest level that `available_bandwidth` sustains with the
    /// safety margin taken off, and the lowest level where none does.
    pub fn find_suitable_quality(&self, available_bandwidth: u32) -> (index: usize)
        requires
            self@.wf(),
        ensures
            index == self@.suitable_quality(available_bandwidth as int),
            index < self@.quality_levels.len(),
    {
        let safe_bandwidth: u32 = self.safety_factor.apply(available_bandwidth);
        proof {
            lemma_highest_affordable(self@.quality_levels, safe_bandwidth as int);
        }
        find_highest_affordable(&self.quality_levels, safe_bandwidth)
    }

    /// The level to move to from the current one when the ladder calls
    /// for `target_quality`.
    pub fn apply_quality_smoothing(&self, target_quality: usize) -> (next: usize)
        requires
            self@.wf(),
        ensures
            next == self@.smoothed_quality(target_quality as int),
            next < self@.quality_levels.len(),
            -1 <= next - self@.current_quality <= 1 || (self@.in_panic() && next
                < self@.current_quality),
    {
        let panic: bool = self.buffer_state.current_level < self.buffer_panic_threshold;
        smooth(self.current_quality, target_quality, panic, self.quality_levels.len())
    }

    /// Drops the throughput samples that have left the window at `now`.
    fn cleanup_bandwidth_history(&mut self, now: u64)
        ensures
            final(self)@ == (StreamerView {
                bandwidth_history: retained(
                    old(self)@.bandwidth_history,
                    now,
                    old(self)@.bandwidth_window,
                ),
                ..old(self)@
            }),
    {
        evict_stale(&mut self.bandwidth_history, now, self.bandwidth_window);
    }

    /// The level in use.
    pub fn get_current_quality(&self) -> (level: &QualityLevel)
        requires
            self@.wf(),
        ensures
            *level == self@.current_level(),
    {
        &self.quality_levels[self.current_quality]
    }

    /// The state of the buffer.
    pub fn get_buffer_state(&self) -> (state: &BufferState)
        ensures
            *state == self@.buffer_state,
    {
        &self.buffer_state
    }

    /// The bandwidth estimate, in bytes per second, computed afresh.
    pub fn get_estimated_bandwidth(&self, weighted_average: u32) -> (estimate: u32)
        requires
            self@.wf(),
        ensures
            estimate == self@.estimate(weighted_average),
            self@.bandwidth_history.len() < self@.min_bandwidth_samples ==> estimate
                == self@.current_level().bitrate / 8,
    {
        self.estimate_bandwidth(weighted_average)
    }

    /// Index of the level in use.
    pub fn current_quality_index(&self) -> (index: usize)
        ensures
            index == self@.current_quality,
    {
        self.current_quality
    }

    /// How far back throughput samples are kept, in nanoseconds.
    pub fn bandwidth_window(&self) -> (window: u64)
        ensures
            window == self@.bandwidth_window,
    {
        self.bandwidth_window
    }

    /// The throughput samples that are kept, oldest first.
    pub fn bandwidth_samples(&self) -> (samples: Vec<BandwidthSample>)
        ensures
            samples@ == self@.bandwidth_history,
    {
        let mut samples: Vec<BandwidthSample> = Vec::new();
        let count: usize = self.bandwidth_history.len();
        for i in 0..count
            invariant
                count == self.bandwidth_history@.len(),
                samples@ == self.bandwidth_history@.take(i as int),
        {
            samples.push(self.bandwidth_history[i]);
            assert(self.bandwidth_history@.take(i + 1) == self.bandwidth_history@.take(
                i as int,
            ).push(self.bandwidth_history@[i as int]));
        }
        assert(self.bandwidth_history@.take(count as int) == self.bandwidth_history@);
        samples
    }

    /// The segment records that are kept, oldest first.
    pub fn segment_records(&self) -> (records: Vec<SegmentInfo>)
        ensures
            records@ == self@.segment_history,
    {
        let mut records: Vec<SegmentInfo> = Vec::new();
        let count: usize = self.segment_history.len();
        for i in 0..count
            invariant
                count == self.segment_history@.len(),
                records@ == self.segment_history@.take(i as int),
        {
            records.push(self.segment_history[i]);
            assert(self.segment_history@.take(i + 1) == self.segment_history@.take(i as int).push(
                self.segment_history@[i as int],
            ));
        }
        assert(self.segment_history@.take(count as int) == self.segment_history@);
        records
    }

    /// Whether the buffer holds at least its minimum level.
    pub fn is_buffer_healthy(&self) -> (healthy: bool)
        ensures
            healthy == (self@.buffer_state.current_level >= self@.buffer_state.min_level),
    {
        self.buffer_state.current_level >= self.buffer_state.min_level
    }

    /// Whether the buffer is so low that playback should pause.
    pub fn should_pause_playback(&self) -> (pause: bool)
        ensures
            pause == (self@.buffer_state.current_level < PAUSE_FLOOR),
    {
        self.buffer_state.current_level < PAUSE_FLOOR
    }
}

} // verus!
