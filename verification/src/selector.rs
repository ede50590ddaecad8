//! Smoothing of quality changes.

use vstd::prelude::*;

verus! {

/// The change of index that one decision may make when the ladder calls
/// for a change of `difference`. In normal operation it is held within
/// one step either way. With the buffer in panic a step down is taken in
/// full, and a step up is still held at one.
pub open spec fn allowed_step(difference: int, panic: bool) -> int {
    if difference > 1 {
        1
    } else if difference < -1 && !panic {
        -1
    } else {
        difference
    }
}

/// The index that follows `current` when the ladder calls for `target`:
/// `current` moved by the allowed step, and held within the `count`
/// levels of the ladder.
pub open spec fn smoothed(current: int, target: int, panic: bool, count: int) -> int {
    let next = current + allowed_step(target - current, panic);
    if next > count - 1 {
        count - 1
    } else if next < 0 {
        0
    } else {
        next
    }
}

/// A smoothed index is a valid index of the ladder.
pub proof fn lemma_smoothed_in_range(current: int, target: int, panic: bool, count: int)
    requires
        count > 0,
    ensures
        0 <= smoothed(current, target, panic, count) < count,
{
}

/// One decision moves the index by at most one level, except that with
/// the buffer in panic it may move down by more.
pub proof fn lemma_smoothed_change_is_bounded(current: int, target: int, panic: bool, count: int)
    requires
        0 <= current < count,
    ensures
        ({
            let next = smoothed(current, target, panic, count);
            ||| -1 <= next - current <= 1
            ||| (panic && next < current)
        }),
{
}

/// A decision never moves the index away from the target nor past it,
/// and it stays put only at the target.
pub proof fn lemma_smoothed_approaches_target(current: int, target: int, panic: bool, count: int)
    requires
        0 <= current < count,
        0 <= target < count,
    ensures
        ({
            let next = smoothed(current, target, panic, count);
            &&& target <= current ==> target <= next <= current
            &&& target >= current ==> current <= next <= target
            &&& next == current ==> target == current
            &&& panic && target < current ==> next == target
        }),
{
}

/// Computes `smoothed(current, target, panic, count)`.
pub fn smooth(current: usize, target: usize, panic: bool, count: usize) -> (next: usize)
    requires
        count > 0,
    ensures
        next == smoothed(current as int, target as int, panic, count as int),
{
    let last: usize = count - 1;
    let moved: usize = if target > current {
        if current >= last {
            last
        } else {
            current + 1
        }
    } else if target < current {
        if panic || current - target == 1 {
            target
        } else {
            current - 1
        }
    } else {
        current
    };
    if moved > last {
        last
    } else {
        moved
    }
}

} // verus!
