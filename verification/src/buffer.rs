//! Occupancy of the playback buffer and the scaling it calls for.

use vstd::prelude::*;
use crate::factor::Factor;

verus! {

/// How much playback time is queued, and the levels it is measured
/// against. All four are nanoseconds of playback.
#[derive(Debug, Clone, Copy, PartialEq, Eq)]
pub struct BufferState {
    pub current_level: u64,
    pub target_level: u64,
    pub max_level: u64,
    pub min_level: u64,
}

impl BufferState {
    /// The buffer never holds more than its capacity.
    pub open spec fn wf(self) -> bool {
        self.current_level <= self.max_level
    }

    /// The state after a segment of `segment_duration` has arrived: the
    /// level grows by it, but not beyond `max_level`.
    pub open spec fn after_arrival(self, segment_duration: u64) -> BufferState {
        let sum = self.current_level + segment_duration;
        BufferState {
            current_level: if sum > self.max_level { self.max_level } else { sum as u64 },
            ..self
        }
    }

    /// The state after `consumed_duration` has been played: the level
    /// shrinks by it, but not below zero.
    pub open spec fn after_consumption(self, consumed_duration: u64) -> BufferState {
        BufferState {
            current_level: if self.current_level >= consumed_duration {
                (self.current_level - consumed_duration) as u64
            } else {
                0
            },
            ..self
        }
    }

    /// The factor by which the buffer's health scales the bandwidth
    /// estimate: 0.3 below `panic_threshold`; from there up to the target
    /// level `0.6 + 0.3 * current / target`; 1.5 above `seek_threshold`;
    /// 1 in between.
    pub open spec fn factor(self, panic_threshold: u64, seek_threshold: u64) -> Factor {
        if self.current_level < panic_threshold {
            Factor { numerator: 3, denominator: 10 }
        } else if self.current_level < self.target_level {
            Factor {
                numerator: (6 * self.target_level + 3 * self.current_level) as u128,
                denominator: (10 * self.target_level) as u128,
            }
        } else if self.current_level > seek_threshold {
            Factor { numerator: 15, denominator: 10 }
        } else {
            Factor { numerator: 10, denominator: 10 }
        }
    }

    /// Accounts for a segment that has been downloaded.
    pub fn on_segment_arrival(&mut self, segment_duration: u64)
        ensures
            *final(self) == old(self).after_arrival(segment_duration),
    {
        if self.current_level >= self.max_level {
            self.current_level = self.max_level;
        } else if segment_duration > self.max_level - self.current_level {
            self.current_level = self.max_level;
        } else {
            self.current_level = self.current_level + segment_duration;
        }
    }

    /// Accounts for playback that has drained the buffer.
    pub fn on_playback_consumption(&mut self, consumed_duration: u64)
        ensures
            *final(self) == old(self).after_consumption(consumed_duration),
    {
        if self.current_level >= consumed_duration {
            self.current_level = self.current_level - consumed_duration;
        } else {
            self.current_level = 0;
        }
    }

    /// Computes `self.factor(panic_threshold, seek_threshold)`.
    pub fn scaling_factor(&self, panic_threshold: u64, seek_threshold: u64) -> (factor: Factor)
        ensures
            factor == self.factor(panic_threshold, seek_threshold),
            factor.wf(),
    {
        if self.current_level < panic_threshold {
            Factor { numerator: 3, denominator: 10 }
        } else if self.current_level < self.target_level {
            let target: u128 = self.target_level as u128;
            let current: u128 = self.current_level as u128;
            Factor { numerator: 6 * target + 3 * current, denominator: 10 * target }
        } else if self.current_level > seek_threshold {
            Factor { numerator: 15, denominator: 10 }
        } else {
            Factor { numerator: 10, denominator: 10 }
        }
    }
}

/// Something that happens to the buffer.
pub enum BufferEvent {
    /// A segment holding this much playback has arrived.
    SegmentArrival(u64),
    /// This much playback has been consumed.
    PlaybackConsumption(u64),
}

impl BufferState {
    /// The state after one event.
    pub open spec fn after_event(self, event: BufferEvent) -> BufferState {
        match event {
            BufferEvent::SegmentArrival(duration) => self.after_arrival(duration),
            BufferEvent::PlaybackConsumption(duration) => self.after_consumption(duration),
        }
    }

    /// The state after a run of events, the first of them first.
    pub open spec fn after_events(self, events: Seq<BufferEvent>) -> BufferState
        decreases events.len(),
    {
        if events.len() == 0 {
            self
        } else {
            self.after_events(events.drop_last()).after_event(events.last())
        }
    }
}

/// Whatever arrives and whatever is consumed, in any order, the level
/// stays within `[0, max_level]`, and the levels it is measured against
/// stay as they were.
pub proof fn lemma_buffer_level_bounded_after_events(buffer: BufferState, events: Seq<BufferEvent>)
    requires
        buffer.wf(),
    ensures
        0 <= buffer.after_events(events).current_level <= buffer.max_level,
        buffer.after_events(events).wf(),
        buffer.after_events(events).max_level == buffer.max_level,
        buffer.after_events(events).target_level == buffer.target_level,
        buffer.after_events(events).min_level == buffer.min_level,
    decreases events.len(),
{
    if events.len() > 0 {
        lemma_buffer_level_bounded_after_events(buffer, events.drop_last());
    }
}

/// A fuller buffer never calls for a smaller factor, whatever the
/// thresholds are.
pub proof fn lemma_factor_grows_with_level(
    low: BufferState,
    high: BufferState,
    panic_threshold: u64,
    seek_threshold: u64,
)
    requires
        low.current_level <= high.current_level,
        low.target_level == high.target_level,
    ensures
        low.factor(panic_threshold, seek_threshold).le(high.factor(panic_threshold, seek_threshold)),
{
    let f = low.factor(panic_threshold, seek_threshold);
    let g = high.factor(panic_threshold, seek_threshold);
    let t = low.target_level as int;
    let a = low.current_level as int;
    let b = high.current_level as int;
    let low_ramps = low.current_level >= panic_threshold && low.current_level < low.target_level;
    let high_ramps = high.current_level >= panic_threshold && high.current_level
        < high.target_level;
    if low_ramps {
        assert(f.numerator == 6 * t + 3 * a && f.denominator == 10 * t);
    }
    if high_ramps {
        assert(g.numerator == 6 * t + 3 * b && g.denominator == 10 * t);
    }
    if low_ramps && high_ramps {
        assert((6 * t + 3 * a) * (10 * t) <= (6 * t + 3 * b) * (10 * t)) by (nonlinear_arith)
            requires
                0 <= a <= b,
                0 <= t,
        ;
    } else if low_ramps {
        assert(g.denominator == 10);
        assert(f.numerator * 10 <= 9 * f.denominator);
        assert(g.numerator >= 10);
        assert(g.numerator * f.denominator >= 10 * f.denominator) by (nonlinear_arith)
            requires
                g.numerator >= 10,
                f.denominator >= 0,
        ;
    } else if high_ramps {
        assert(f.numerator == 3 && f.denominator == 10);
        assert(3 * g.denominator <= g.numerator * 10);
    } else {
        assert(f.denominator == 10 && g.denominator == 10);
        assert(f.numerator <= g.numerator);
    }
}

} // verus!
