//! Sums and counts over blocks and samples say what they are made of.

use vstd::prelude::*;
use crate::detector::cost::{count_textured, listed_cost, total_cost};
use crate::detector::state::{FramePlan, SceneChangeDetector};
use crate::measure::Measure;
use crate::options::SceneDetectionSpeed;
use crate::parallel::plan::active_count;
use crate::picture::LumaPlane;
use crate::prefilter::{block_distance, block_sample, row_distance, rows_distance};

verus! {

/// A product with one more.
proof fn one_more(count: int, value: int)
    ensures
        (count + 1) * value == count * value + value,
        0 * value == 0,
{
    assert((count + 1) * value == count * value + value) by (nonlinear_arith);
    assert(0 * value == 0) by (nonlinear_arith);
}

/// As many textured blocks are counted as match well and are textured themselves.
pub proof fn textured_blocks_are_counted(
    inter_costs: Seq<Measure>,
    intra_costs: Seq<Measure>,
    blocks: Seq<usize>,
    good_threshold: Measure,
    intra_floor: Measure,
)
    ensures
        ({
            let matching = Set::new(
                |k: int|
                    0 <= k < blocks.len() && inter_costs[blocks[k] as int].le(good_threshold)
                        && intra_floor.le(intra_costs[blocks[k] as int]),
            );
            &&& matching.finite()
            &&& count_textured(inter_costs, intra_costs, blocks, good_threshold, intra_floor)
                == matching.len()
        }),
    decreases blocks.len(),
{
    let matching = Set::new(
        |k: int|
            0 <= k < blocks.len() && inter_costs[blocks[k] as int].le(good_threshold)
                && intra_floor.le(intra_costs[blocks[k] as int]),
    );
    if blocks.len() == 0 {
        assert(matching =~= Set::empty());
    } else {
        let rest = blocks.drop_last();
        let last = blocks.len() - 1;
        textured_blocks_are_counted(inter_costs, intra_costs, rest, good_threshold, intra_floor);
        let before = Set::new(
            |k: int|
                0 <= k < rest.len() && inter_costs[rest[k] as int].le(good_threshold)
                    && intra_floor.le(intra_costs[rest[k] as int]),
        );
        if matching.contains(last) {
            assert(matching =~= before.insert(last));
        } else {
            assert(matching =~= before);
        }
    }
}

/// As many workers are active as still need a frame.
pub proof fn active_workers_are_counted(needed_from: Seq<usize>)
    ensures
        ({
            let active = Set::new(
                |k: int| 0 <= k < needed_from.len() && needed_from[k] != usize::MAX,
            );
            &&& active.finite()
            &&& active_count(needed_from) == active.len()
        }),
    decreases needed_from.len(),
{
    let active = Set::new(|k: int| 0 <= k < needed_from.len() && needed_from[k] != usize::MAX);
    if needed_from.len() == 0 {
        assert(active =~= Set::empty());
    } else {
        let rest = needed_from.drop_last();
        let last = needed_from.len() - 1;
        active_workers_are_counted(rest);
        let before = Set::new(|k: int| 0 <= k < rest.len() && rest[k] != usize::MAX);
        if active.contains(last) {
            assert(active =~= before.insert(last));
        } else {
            assert(active =~= before);
        }
    }
}

/// The cost of all blocks is that of every block once, so it lies between what the lowest and
/// the highest give for all.
pub proof fn total_cost_lies_between(costs: Seq<u32>, low: int, high: int)
    requires
        forall|k: int| 0 <= k < costs.len() ==> low <= #[trigger] costs[k] <= high,
    ensures
        costs.len() * low <= total_cost(costs) <= costs.len() * high,
    decreases costs.len(),
{
    one_more(costs.len() - 1, low);
    one_more(costs.len() - 1, high);
    if costs.len() > 0 {
        let rest = costs.drop_last();
        let last = costs.len() - 1;
        assert(low <= costs[last] <= high);
        assert forall|k: int| 0 <= k < rest.len() implies low <= #[trigger] rest[k] <= high by {
            assert(rest[k] == costs[k]);
        }
        total_cost_lies_between(rest, low, high);
    }
}

/// The cost of some blocks is that of each of them, so it lies between what the lowest and
/// the highest of them give for all of them.
pub proof fn listed_cost_lies_between(costs: Seq<u32>, blocks: Seq<usize>, low: int, high: int)
    requires
        forall|k: int|
            0 <= k < blocks.len() ==> low <= costs[#[trigger] blocks[k] as int] <= high,
    ensures
        blocks.len() * low <= listed_cost(costs, blocks) <= blocks.len() * high,
    decreases blocks.len(),
{
    one_more(blocks.len() - 1, low);
    one_more(blocks.len() - 1, high);
    if blocks.len() > 0 {
        let rest = blocks.drop_last();
        let last = blocks.len() - 1;
        assert(low <= costs[blocks[last] as int] <= high);
        assert forall|k: int| 0 <= k < rest.len() implies low <= costs[#[trigger] rest[k] as int]
            <= high by {
            assert(rest[k] == blocks[k]);
        }
        listed_cost_lies_between(costs, rest, low, high);
    }
}

/// The difference of two rows lies between what their closest and farthest samples give.
proof fn row_distance_lies_between(
    left: LumaPlane,
    right: LumaPlane,
    y: int,
    samples: nat,
    low: int,
    high: int,
)
    requires
        forall|x: int|
            0 <= x < samples ==> {
                let l = #[trigger] left.sample(x, y);
                let r = right.sample(x, y);
                low <= (if l <= r {
                    r - l
                } else {
                    l - r
                }) <= high
            },
    ensures
        samples * low <= row_distance(left, right, y, samples) <= samples * high,
    decreases samples,
{
    one_more(samples - 1, low);
    one_more(samples - 1, high);
    if samples > 0 {
        row_distance_lies_between(left, right, y, (samples - 1) as nat, low, high);
        let l = left.sample(samples - 1, y);
    }
}

/// The difference of two pictures is that of all their samples: it lies between what their
/// closest and their farthest samples give for all of them.
pub proof fn plane_distance_lies_between(
    left: LumaPlane,
    right: LumaPlane,
    width: nat,
    rows: nat,
    low: int,
    high: int,
)
    requires
        forall|x: int, y: int|
            0 <= x < width && 0 <= y < rows ==> {
                let l = #[trigger] left.sample(x, y);
                let r = right.sample(x, y);
                low <= (if l <= r {
                    r - l
                } else {
                    l - r
                }) <= high
            },
    ensures
        rows * (width * low) <= rows_distance(left, right, width, rows) <= rows * (width * high),
    decreases rows,
{
    one_more(rows - 1, width * low);
    one_more(rows - 1, width * high);
    if rows > 0 {
        plane_distance_lies_between(left, right, width, (rows - 1) as nat, low, high);
        row_distance_lies_between(left, right, rows - 1, width, low, high);
    }
}

/// The difference of two blocks is that of the samples that stand for them: it lies between
/// what the closest and the farthest of these give for all of them.
pub proof fn block_distance_lies_between(
    left: LumaPlane,
    right: LumaPlane,
    bx: int,
    by: int,
    samples: nat,
    low: int,
    high: int,
)
    requires
        forall|at: int|
            0 <= at < samples ==> {
                let l = #[trigger] block_sample(left, bx, by, at);
                let r = block_sample(right, bx, by, at);
                low <= (if l <= r {
                    r - l
                } else {
                    l - r
                }) <= high
            },
    ensures
        samples * low <= block_distance(left, right, bx, by, samples) <= samples * high,
    decreases samples,
{
    one_more(samples - 1, low);
    one_more(samples - 1, high);
    if samples > 0 {
        block_distance_lies_between(left, right, bx, by, (samples - 1) as nat, low, high);
        let l = block_sample(left, bx, by, samples - 1);
    }
}

/// Without frames beyond the lookahead there is no verdict. Where detection is off, distance
/// alone makes a cut: at least the smallest, and at least the largest. Else frames are
/// compared, from where the window already reaches.
pub proof fn plan_follows_the_frames_at_hand(
    detector: SceneChangeDetector,
    frames: int,
    distance: int,
)
    ensures
        ({
            let plan = detector.plan_of(frames, distance);
            let off = detector.scene_detection_mode == SceneDetectionSpeed::Off;
            &&& plan is NoVerdict <==> frames <= detector.lookahead_offset
            &&& plan is Decided <==> frames > detector.lookahead_offset && off
            &&& plan matches FramePlan::Decided { cut } ==> (cut <==> distance
                >= detector.min_key_frame_interval && distance >= detector.max_key_frame_interval)
            &&& plan matches FramePlan::Compare { initial, offset } ==> {
                &&& detector.score_deque@.len() > 0 ==> initial == 0 && offset
                    == detector.deque_offset
                &&& detector.score_deque@.len() == 0 && 0 < detector.deque_offset < frames - 1
                    ==> initial == detector.deque_offset && offset == detector.deque_offset
                &&& detector.score_deque@.len() == 0 && detector.deque_offset >= frames - 1
                    && 2 <= frames <= usize::MAX ==> initial == frames - 1 && offset == frames - 2
            }
        }),
{
}

} // verus!
