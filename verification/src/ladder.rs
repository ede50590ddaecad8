//! The quality ladder: the encodings a stream is offered in.

use vstd::prelude::*;

verus! {

/// One encoding of the stream. A ladder is a list of these, and the index
/// into the ladder identifies a quality.
#[derive(Debug, Clone)]
pub struct QualityLevel {
    /// Bits per second.
    pub bitrate: u32,
    pub width: u32,
    pub height: u32,
    pub codec: String,
}

/// Bytes per second that sustain a stream of `bitrate` bits per second.
pub open spec fn required_bandwidth(bitrate: u32) -> int {
    bitrate as int / 8
}

/// Whether the level matches the given description.
pub open spec fn level_is(level: QualityLevel, bitrate: u32, width: u32, height: u32, codec: Seq<char>) -> bool {
    &&& level.bitrate == bitrate
    &&& level.width == width
    &&& level.height == height
    &&& level.codec@ == codec
}

/// A four-step H.264 ladder from 360p to 2160p, for demonstrations.
pub fn create_test_quality_levels() -> (levels: Vec<QualityLevel>)
    ensures
        levels@.len() == 4,
        level_is(levels@[0], 500_000, 640, 360, "h264"@),
        level_is(levels@[1], 1_000_000, 1280, 720, "h264"@),
        level_is(levels@[2], 2_500_000, 1920, 1080, "h264"@),
        level_is(levels@[3], 5_000_000, 3840, 2160, "h264"@),
{
    let mut levels: Vec<QualityLevel> = Vec::new();
    levels.push(QualityLevel { bitrate: 500_000, width: 640, height: 360, codec: "h264".to_string() });
    levels.push(QualityLevel { bitrate: 1_000_000, width: 1280, height: 720, codec: "h264".to_string() });
    levels.push(QualityLevel { bitrate: 2_500_000, width: 1920, height: 1080, codec: "h264".to_string() });
    levels.push(QualityLevel { bitrate: 5_000_000, width: 3840, height: 2160, codec: "h264".to_string() });
    levels
}

/// Index of the highest of the first `count` levels whose required
/// bandwidth is within `budget`, and zero where none of them is.
pub open spec fn highest_affordable_among(levels: Seq<QualityLevel>, budget: int, count: nat) -> int
    decreases count,
{
    if count == 0 {
        0
    } else if required_bandwidth(levels[count - 1].bitrate) <= budget {
        count - 1
    } else {
        highest_affordable_among(levels, budget, (count - 1) as nat)
    }
}

/// Index of the highest level that `budget` bytes per second can
/// sustain. The lowest level where none can be sustained: it is always
/// available.
pub open spec fn highest_affordable(levels: Seq<QualityLevel>, budget: int) -> int {
    highest_affordable_among(levels, budget, levels.len())
}

/// What `highest_affordable_among` picks: an index below `count`; no
/// level above it is affordable; and it is itself affordable unless none
/// is, in which case it is zero.
pub proof fn lemma_highest_affordable_among(levels: Seq<QualityLevel>, budget: int, count: nat)
    requires
        count <= levels.len(),
    ensures
        0 <= highest_affordable_among(levels, budget, count),
        count > 0 ==> highest_affordable_among(levels, budget, count) < count,
        forall|j: int|
            highest_affordable_among(levels, budget, count) < j < count ==> required_bandwidth(
                (#[trigger] levels[j]).bitrate,
            ) > budget,
        count > 0 ==> (required_bandwidth(
            levels[highest_affordable_among(levels, budget, count)].bitrate,
        ) <= budget || (highest_affordable_among(levels, budget, count) == 0 && forall|j: int|
            0 <= j < count ==> required_bandwidth((#[trigger] levels[j]).bitrate) > budget)),
    decreases count,
{
    if count > 0 && required_bandwidth(levels[count - 1].bitrate) > budget {
        lemma_highest_affordable_among(levels, budget, (count - 1) as nat);
    }
}

/// `highest_affordable` is a valid index of a ladder that is not empty;
/// every level above it costs more than the budget; and the level itself
/// is within the budget unless the whole ladder is beyond it.
pub proof fn lemma_highest_affordable(levels: Seq<QualityLevel>, budget: int)
    requires
        levels.len() > 0,
    ensures
        0 <= highest_affordable(levels, budget) < levels.len(),
        forall|j: int|
            highest_affordable(levels, budget) < j < levels.len() ==> required_bandwidth(
                (#[trigger] levels[j]).bitrate,
            ) > budget,
        required_bandwidth(levels[highest_affordable(levels, budget)].bitrate) <= budget || (
        highest_affordable(levels, budget) == 0 && forall|j: int|
            0 <= j < levels.len() ==> required_bandwidth((#[trigger] levels[j]).bitrate) > budget),
{
    lemma_highest_affordable_among(levels, budget, levels.len());
}

/// Scans the ladder from the top for the first level within `budget`.
pub fn find_highest_affordable(levels: &Vec<QualityLevel>, budget: u32) -> (index: usize)
    ensures
        index == highest_affordable(levels@, budget as int),
{
    let mut remaining: usize = levels.len();
    while remaining > 0
        invariant
            remaining <= levels@.len(),
            highest_affordable(levels@, budget as int) == highest_affordable_among(
                levels@,
                budget as int,
                remaining as nat,
            ),
        decreases remaining,
    {
        remaining = remaining - 1;
        if levels[remaining].bitrate / 8 <= budget {
            return remaining;
        }
    }
    0
}

} // verus!
