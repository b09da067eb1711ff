//! Cuts at title cards that stand a few frames off.

use vstd::prelude::*;
use crate::frame_map::FrameMap;
use crate::measure::double;
use crate::options::DetectionOptions;
use crate::postprocess::common::{decide, scene_distance_ok, timeline, well_spaced, Timeline};
use crate::postprocess::peaks::{min_distance, min_distance_of};
use crate::score::{ScenecutDecision, ScenecutResult};
use crate::timeline::{ascending, first_after, last_before, FrameSet};

verus! {

/// 1.0
pub const TEXT_BOUNDARY_SHIFT_MIN_FORWARD_COST_RATIO: u64 = 0x3FF0_0000_0000_0000;
/// 8.0
pub const TEXT_BOUNDARY_SHIFT_MIN_FORWARD_IMP_RATIO: u64 = 0x4020_0000_0000_0000;
/// 8.0
pub const TEXT_BOUNDARY_SHIFT_MIN_FORWARD_GLOBAL_IMP_RATIO: u64 = 0x4020_0000_0000_0000;
/// 40.0
pub const TEXT_BOUNDARY_SHIFT_MAX_FORWARD_LUMA_8BIT: u64 = 0x4044_0000_0000_0000;
/// 0.75
pub const TEXT_BOUNDARY_SHIFT_MIN_FORWARD_BAD_BLOCK_RATIO: u64 = 0x3FE8_0000_0000_0000;
/// 0.02
pub const TEXT_BOUNDARY_SHIFT_MAX_FORWARD_GOOD_BLOCK_RATIO: u64 = 0x3F94_7AE1_47AE_147B;
/// 4.5
pub const TEXT_BOUNDARY_SHIFT_MIN_BACKWARD_IMP_RATIO: u64 = 0x4012_0000_0000_0000;
/// 8.0
pub const TEXT_BOUNDARY_SHIFT_MIN_BACKWARD_GLOBAL_IMP_RATIO: u64 = 0x4020_0000_0000_0000;
/// 35.0
pub const TEXT_BOUNDARY_SHIFT_MAX_BACKWARD_LUMA_8BIT: u64 = 0x4041_8000_0000_0000;
/// 1.0
pub const TEXT_BOUNDARY_SHIFT_MAX_NEXT_COST_RATIO: u64 = 0x3FF0_0000_0000_0000;
/// 45.0
pub const TEXT_BOUNDARY_SHIFT_MIN_NEXT_LUMA_8BIT: u64 = 0x4046_8000_0000_0000;

/// A cut that moves.
#[derive(Clone, Copy, Debug, PartialEq, Eq, Structural)]
pub struct BoundaryShiftCandidate {
    pub from: usize,
    pub to: usize,
}

/// Whether the cut before a frame belongs at the frame.
pub open spec fn is_late_boundary(score: ScenecutResult) -> bool {
    &&& score.decision == ScenecutDecision::SuppressedMinDistance
    &&& double(TEXT_BOUNDARY_SHIFT_MIN_FORWARD_COST_RATIO).le(score.cost_ratio)
    &&& double(TEXT_BOUNDARY_SHIFT_MIN_FORWARD_IMP_RATIO).le(score.imp_block_ratio)
    &&& double(TEXT_BOUNDARY_SHIFT_MIN_FORWARD_GLOBAL_IMP_RATIO).le(score.global_imp_block_ratio)
    &&& score.avg_luma_8bit.le(double(TEXT_BOUNDARY_SHIFT_MAX_FORWARD_LUMA_8BIT))
    &&& double(TEXT_BOUNDARY_SHIFT_MIN_FORWARD_BAD_BLOCK_RATIO).le(score.static_bad_block_ratio)
    &&& score.static_good_block_ratio.le(double(TEXT_BOUNDARY_SHIFT_MAX_FORWARD_GOOD_BLOCK_RATIO))
}

/// Whether the cut after a frame belongs at the frame: the frame is dark, the cut
/// is not, and the frame's importance exceeds the cut's by a margin.
pub open spec fn is_early_boundary(score: ScenecutResult, next_score: ScenecutResult) -> bool {
    &&& {
        ||| score.decision == ScenecutDecision::NoCut
        ||| score.decision == ScenecutDecision::SuppressedImportance
        ||| score.decision == ScenecutDecision::SuppressedMinDistance
    }
    &&& double(TEXT_BOUNDARY_SHIFT_MIN_BACKWARD_IMP_RATIO).le(score.imp_block_ratio)
    &&& double(TEXT_BOUNDARY_SHIFT_MIN_BACKWARD_GLOBAL_IMP_RATIO).le(score.global_imp_block_ratio)
    &&& score.avg_luma_8bit.le(double(TEXT_BOUNDARY_SHIFT_MAX_BACKWARD_LUMA_8BIT))
    &&& next_score.cost_ratio.le(double(TEXT_BOUNDARY_SHIFT_MAX_NEXT_COST_RATIO))
    &&& double(TEXT_BOUNDARY_SHIFT_MIN_NEXT_LUMA_8BIT).le(next_score.avg_luma_8bit)
    &&& next_score.shift_margin_floor.le(score.global_imp_block_ratio)
}

/// The shift of a cut near a frame, if there is one.
pub open spec fn boundary_shift(
    state: Timeline,
    frame: usize,
    min_distance: int,
) -> Option<BoundaryShiftCandidate> {
    match (last_before(state.cuts, frame), first_after(state.cuts, frame)) {
        (Some(previous), Some(next)) => {
            let near_previous = frame - previous < min_distance;
            let near_next = next - frame < min_distance;
            if state.cuts.contains(frame) || !state.scores.contains_key(frame) {
                None
            } else if previous != 0 && near_previous && !near_next && is_late_boundary(
                state.scores[frame],
            ) {
                Some(BoundaryShiftCandidate { from: previous, to: frame })
            } else if !near_previous && near_next && state.scores.contains_key(next)
                && is_early_boundary(state.scores[frame], state.scores[next]) {
                Some(BoundaryShiftCandidate { from: next, to: frame })
            } else {
                None
            }
        },
        _ => None,
    }
}

/// The shifts near the given frames, in order.
pub open spec fn boundary_shifts(
    state: Timeline,
    frames: Seq<usize>,
    min_distance: int,
) -> Seq<BoundaryShiftCandidate>
    decreases frames.len(),
{
    if frames.len() == 0 {
        Seq::empty()
    } else {
        let before = boundary_shifts(state, frames.drop_last(), min_distance);
        match boundary_shift(state, frames.last(), min_distance) {
            Some(shift) => before.push(shift),
            None => before,
        }
    }
}

/// The timeline after one shift. It is not made where the cut has gone, where the
/// target has become a cut, or where the target is too close to another cut.
pub open spec fn after_shift(
    state: Timeline,
    shift: BoundaryShiftCandidate,
    min_distance: int,
) -> Timeline {
    if state.cuts.contains(shift.from) && !state.cuts.contains(shift.to) && well_spaced(
        state.cuts.remove(shift.from),
        shift.to,
        min_distance,
    ) {
        state.without_cut(
            shift.from,
            ScenecutDecision::SuppressedShiftedBoundary,
        ).with_cut(shift.to, ScenecutDecision::CutShiftedBoundary)
    } else {
        state
    }
}

/// The timeline after the shifts, in order.
pub open spec fn after_shifts(
    state: Timeline,
    shifts: Seq<BoundaryShiftCandidate>,
    min_distance: int,
) -> Timeline
    decreases shifts.len(),
{
    if shifts.len() == 0 {
        state
    } else {
        after_shift(after_shifts(state, shifts.drop_last(), min_distance), shifts.last(), min_distance)
    }
}

/// The timeline with the cuts at title cards moved to where they belong.
pub open spec fn with_shifted_boundaries(opts: DetectionOptions, state: Timeline) -> Timeline {
    let distance = min_distance_of(opts);
    if distance == 0 {
        state
    } else {
        after_shifts(
            state,
            boundary_shifts(state, ascending(state.scores.dom()), distance),
            distance,
        )
    }
}

/// Whether the cut before a frame belongs at the frame.
pub fn text_boundary_forward_shift_score(score: &ScenecutResult) -> (late: bool)
    ensures
        late == is_late_boundary(*score),
{
    score.decision == ScenecutDecision::SuppressedMinDistance && score.cost_ratio.at_least(
        double(TEXT_BOUNDARY_SHIFT_MIN_FORWARD_COST_RATIO),
    ) && score.imp_block_ratio.at_least(double(TEXT_BOUNDARY_SHIFT_MIN_FORWARD_IMP_RATIO))
        && score.global_imp_block_ratio.at_least(
        double(TEXT_BOUNDARY_SHIFT_MIN_FORWARD_GLOBAL_IMP_RATIO),
    ) && score.avg_luma_8bit.at_most(double(TEXT_BOUNDARY_SHIFT_MAX_FORWARD_LUMA_8BIT))
        && score.static_bad_block_ratio.at_least(
        double(TEXT_BOUNDARY_SHIFT_MIN_FORWARD_BAD_BLOCK_RATIO),
    ) && score.static_good_block_ratio.at_most(
        double(TEXT_BOUNDARY_SHIFT_MAX_FORWARD_GOOD_BLOCK_RATIO),
    )
}

/// Whether the cut after a frame belongs at the frame.
pub fn text_boundary_backward_shift_score(
    score: &ScenecutResult,
    next_score: &ScenecutResult,
) -> (early: bool)
    ensures
        early == is_early_boundary(*score, *next_score),
{
    (score.decision == ScenecutDecision::NoCut || score.decision
        == ScenecutDecision::SuppressedImportance || score.decision
        == ScenecutDecision::SuppressedMinDistance) && score.imp_block_ratio.at_least(
        double(TEXT_BOUNDARY_SHIFT_MIN_BACKWARD_IMP_RATIO),
    ) && score.global_imp_block_ratio.at_least(
        double(TEXT_BOUNDARY_SHIFT_MIN_BACKWARD_GLOBAL_IMP_RATIO),
    ) && score.avg_luma_8bit.at_most(double(TEXT_BOUNDARY_SHIFT_MAX_BACKWARD_LUMA_8BIT))
        && next_score.cost_ratio.at_most(double(TEXT_BOUNDARY_SHIFT_MAX_NEXT_COST_RATIO))
        && next_score.avg_luma_8bit.at_least(double(TEXT_BOUNDARY_SHIFT_MIN_NEXT_LUMA_8BIT))
        && score.global_imp_block_ratio.at_least(next_score.shift_margin_floor)
}

/// The shift of a cut near a frame, if there is one.
pub fn text_boundary_shift_candidate(
    frame: usize,
    keyframes: &FrameSet,
    scores: &FrameMap<ScenecutResult>,
    min_distance: usize,
) -> (shift: Option<BoundaryShiftCandidate>)
    ensures
        shift == boundary_shift(timeline(*keyframes, *scores), frame, min_distance as int),
{
    if keyframes.contains(frame) {
        return None;
    }
    let score: &ScenecutResult = match scores.get(frame) {
        Some(score) => score,
        None => {
            return None;
        },
    };
    match (keyframes.before(frame), keyframes.after(frame)) {
        (Some(previous), Some(next)) => {
            let near_previous = frame - previous < min_distance;
            let near_next = next - frame < min_distance;
            if previous != 0 && near_previous && !near_next && text_boundary_forward_shift_score(
                score,
            ) {
                return Some(BoundaryShiftCandidate { from: previous, to: frame });
            }
            let early = match scores.get(next) {
                Some(next_score) => text_boundary_backward_shift_score(score, next_score),
                None => false,
            };
            if !near_previous && near_next && early {
                Some(BoundaryShiftCandidate { from: next, to: frame })
            } else {
                None
            }
        },
        _ => None,
    }
}

/// Moves the cuts at title cards to where they belong.
pub fn apply_text_boundary_shift_postprocess(
    opts: &DetectionOptions,
    keyframes: &mut FrameSet,
    scores: &mut FrameMap<ScenecutResult>,
)
    ensures
        timeline(*final(keyframes), *final(scores)) == with_shifted_boundaries(
            *opts,
            timeline(*old(keyframes), *old(scores)),
        ),
{
    let ghost state = timeline(*keyframes, *scores);
    let distance: usize = min_distance(opts);
    if distance == 0 {
        return;
    }
    let frames: Vec<usize> = scores.frames();
    let mut shifts: Vec<BoundaryShiftCandidate> = Vec::new();
    for index in 0..frames.len()
        invariant
            state == timeline(*keyframes, *scores),
            shifts@ == boundary_shifts(state, frames@.take(index as int), distance as int),
    {
        assert(frames@.take(index + 1).drop_last() =~= frames@.take(index as int));
        if let Some(shift) = text_boundary_shift_candidate(
            frames[index],
            keyframes,
            scores,
            distance,
        ) {
            shifts.push(shift);
        }
    }
    assert(frames@.take(frames.len() as int) =~= frames@);
    for index in 0..shifts.len()
        invariant
            timeline(*keyframes, *scores) == after_shifts(
                state,
                shifts@.take(index as int),
                distance as int,
            ),
    {
        let shift = shifts[index];
        assert(shifts@.take(index + 1).drop_last() =~= shifts@.take(index as int));
        let ghost before = timeline(*keyframes, *scores);
        if keyframes.contains(shift.from) && !keyframes.contains(shift.to) {
            keyframes.remove(shift.from);
            if scene_distance_ok(shift.to, keyframes, distance) {
                keyframes.insert(shift.to);
                decide(scores, shift.from, ScenecutDecision::SuppressedShiftedBoundary);
                decide(scores, shift.to, ScenecutDecision::CutShiftedBoundary);
            } else {
                keyframes.insert(shift.from);
                assert(keyframes@ =~= before.cuts);
            }
        }
    }
    assert(shifts@.take(shifts.len() as int) =~= shifts@);
}

} // verus!
