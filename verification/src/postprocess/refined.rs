//! Refinement of the cuts found in sparse stretches.

use vstd::prelude::*;
use crate::frame_map::FrameMap;
use crate::measure::{double, Measure, ZERO};
use crate::options::{larger, DetectionOptions};
use crate::postprocess::common::{decide, frame_distance, frame_signature_delta_for_scores};
use crate::postprocess::common::{mean_steps, promote_spaced, push_gains_one, suppress_frames};
use crate::postprocess::common::{timeline, with_spaced_cuts, Timeline};
use crate::postprocess::peaks::{is_refined_peak, min_distance, min_distance_of};
use crate::postprocess::peaks::{missed_cut_frames, missed_cuts, refined_sparse_peak_score};
use crate::postprocess::peaks::{PeakKind, REFINED_SPARSE_PEAK_MAX_REPEAT_DELTA_8BIT};
use crate::score::{ScenecutDecision, ScenecutResult, FRAME_LUMA_SIGNATURE_CELLS};
use crate::timeline::{ascending, first_after, last_before, FrameSet};

verus! {

/// Shortest distance between a refined peak and another cut.
pub const REFINED_SPARSE_PEAK_MIN_DISTANCE: usize = 40;
/// Farthest that a cut is shifted.
pub const REFINED_SPARSE_PEAK_SHIFT_MAX_DISTANCE: usize = 40;
/// Least mean signature difference between two scenes.
pub const REFINED_SPARSE_PEAK_MIN_DISTINCT_DELTA_8BIT: u32 = 8;
/// Longest scene of a short there-and-back.
pub const REFINED_SPARSE_PEAK_ABA_MAX_SEGMENT_LEN: usize = 130;

/// A cut that moves.
#[derive(Clone, Copy, Debug, PartialEq, Eq, Structural)]
pub struct RefinedSparsePeakShift {
    pub from: usize,
    pub to: usize,
}

/// By what a frame is ranked among the targets of a shift; 0 without a score.
pub open spec fn peak_rank(scores: Map<usize, ScenecutResult>, frame: usize) -> Measure {
    if scores.contains_key(frame) {
        scores[frame].refined_peak_rank
    } else {
        double(ZERO)
    }
}

/// Whether a cut may move to a frame: the frame is a strong peak that shows
/// neither the scene at the cut nor the scene that returns later.
pub open spec fn is_shift_target(
    scores: Map<usize, ScenecutResult>,
    from: usize,
    returning: usize,
    frame: usize,
) -> bool {
    &&& is_refined_peak(scores, frame)
    &&& (frame_distance(scores, frame, returning) matches Some(distance) && distance > mean_steps(
        REFINED_SPARSE_PEAK_MIN_DISTINCT_DELTA_8BIT,
    ))
    &&& (frame_distance(scores, from, frame) matches Some(distance) && distance >= mean_steps(
        REFINED_SPARSE_PEAK_MIN_DISTINCT_DELTA_8BIT,
    ))
}

/// The highest ranked target from `low` to before `high`, the later one of two
/// that rank the same.
pub open spec fn best_target(
    scores: Map<usize, ScenecutResult>,
    from: usize,
    returning: usize,
    low: int,
    high: int,
) -> Option<usize>
    decreases high - low,
{
    if high <= low {
        None
    } else {
        let before = best_target(scores, from, returning, low, high - 1);
        let frame = (high - 1) as usize;
        if !is_shift_target(scores, from, returning, frame) {
            before
        } else {
            match before {
                Some(best) if peak_rank(scores, frame).lt(peak_rank(scores, best)) => Some(best),
                _ => Some(frame),
            }
        }
    }
}

/// Where a cut moves: a cut from the sparse rule whose scene returns after the
/// next cut moves to the best target before that cut.
pub open spec fn shift_target(state: Timeline, frame: usize, min_distance: int) -> Option<usize> {
    let distance = larger(min_distance, 1);
    if state.scores.contains_key(frame) && state.scores[frame].decision
        == ScenecutDecision::CutSparseScenePeak {
        match first_after(state.cuts, frame) {
            Some(next) => match first_after(state.cuts, next) {
                Some(returning) => {
                    if frame_distance(state.scores, frame, returning) matches Some(d) && d
                        <= mean_steps(REFINED_SPARSE_PEAK_MAX_REPEAT_DELTA_8BIT) {
                        let last = if frame + REFINED_SPARSE_PEAK_SHIFT_MAX_DISTANCE <= next
                            - distance {
                            frame + REFINED_SPARSE_PEAK_SHIFT_MAX_DISTANCE
                        } else {
                            next - distance
                        };
                        best_target(state.scores, frame, returning, frame + distance, last + 1)
                    } else {
                        None
                    }
                },
                None => None,
            },
            None => None,
        }
    } else {
        None
    }
}

/// The shifts of the given cuts, in order.
pub open spec fn shifts_of(
    state: Timeline,
    cuts: Seq<usize>,
    min_distance: int,
) -> Seq<RefinedSparsePeakShift>
    decreases cuts.len(),
{
    if cuts.len() == 0 {
        Seq::empty()
    } else {
        let before = shifts_of(state, cuts.drop_last(), min_distance);
        match shift_target(state, cuts.last(), min_distance) {
            Some(to) => before.push(RefinedSparsePeakShift { from: cuts.last(), to }),
            None => before,
        }
    }
}

/// The timeline after the shifts, in order.
pub open spec fn shifted(state: Timeline, shifts: Seq<RefinedSparsePeakShift>) -> Timeline
    decreases shifts.len(),
{
    if shifts.len() == 0 {
        state
    } else {
        shifted(state, shifts.drop_last()).without_cut(
            shifts.last().from,
            ScenecutDecision::SuppressedRefinedSparsePeak,
        ).with_cut(shifts.last().to, ScenecutDecision::CutRefinedSparsePeak)
    }
}

/// The frames that cuts were shifted to.
pub open spec fn shift_targets(shifts: Seq<RefinedSparsePeakShift>) -> Set<usize> {
    Set::new(
        |frame: usize|
            exists|index: int| 0 <= index < shifts.len() && (#[trigger] shifts[index]).to == frame,
    )
}

/// Whether a cut from the sparse rule ends a short there-and-back: the cut before
/// it is a refined one, both its scenes are short, and a strong peak follows that
/// is too close to become a cut.
pub open spec fn ends_short_return(
    state: Timeline,
    refined: Set<usize>,
    frame: usize,
    base_distance: int,
    min_distance: int,
) -> bool {
    let distance = larger(base_distance, 1);
    &&& state.scores.contains_key(frame)
    &&& state.scores[frame].decision == ScenecutDecision::CutSparseScenePeak
    &&& (last_before(state.cuts, frame) matches Some(previous) && {
        &&& refined.contains(previous)
        &&& frame - previous <= REFINED_SPARSE_PEAK_ABA_MAX_SEGMENT_LEN
    })
    &&& (first_after(state.cuts, frame) matches Some(next) && {
        &&& next - frame <= REFINED_SPARSE_PEAK_ABA_MAX_SEGMENT_LEN
        &&& exists|peak: usize|
            frame + distance <= peak <= next - distance && peak - frame < min_distance
                && #[trigger] is_refined_peak(state.scores, peak)
    })
}

/// The cuts that end a short there-and-back.
pub open spec fn short_returns(
    state: Timeline,
    refined: Set<usize>,
    base_distance: int,
    min_distance: int,
) -> Set<usize> {
    state.cuts.filter(
        |frame: usize| ends_short_return(state, refined, frame, base_distance, min_distance),
    )
}

/// The timeline with the cuts of sparse stretches refined: first cuts move to the
/// scene that they belong to, next strong peaks become cuts, last the cuts that
/// the new ones made redundant are taken out.
pub open spec fn with_refined_peaks(opts: DetectionOptions, state: Timeline) -> Timeline {
    let base = min_distance_of(opts);
    let distance = larger(base, REFINED_SPARSE_PEAK_MIN_DISTANCE as int);
    let shifts = shifts_of(state, ascending(state.cuts), base);
    let moved = shifted(state, shifts);
    let peaked = with_spaced_cuts(
        moved,
        ascending(missed_cuts(PeakKind::Refined, moved, distance)),
        distance,
        ScenecutDecision::CutRefinedSparsePeak,
    );
    let refined = shift_targets(shifts).union(peaked.cuts.difference(moved.cuts));
    peaked.without_cuts(
        short_returns(peaked, refined, base, distance),
        ScenecutDecision::SuppressedRefinedSparsePeak,
    )
}

/// Whether a cut may move to a frame.
fn shift_target_fits(
    scores: &FrameMap<ScenecutResult>,
    from: usize,
    returning: usize,
    frame: usize,
) -> (fits: bool)
    ensures
        fits == is_shift_target(scores@, from, returning, frame),
{
    let limit: u32 = REFINED_SPARSE_PEAK_MIN_DISTINCT_DELTA_8BIT
        * FRAME_LUMA_SIGNATURE_CELLS as u32;
    if !refined_sparse_peak_score(frame, scores) {
        return false;
    }
    match (
        frame_signature_delta_for_scores(frame, returning, scores),
        frame_signature_delta_for_scores(from, frame, scores),
    ) {
        (Some(to_returning), Some(to_from)) => to_returning > limit && to_from >= limit,
        _ => false,
    }
}

/// By what a frame is ranked among the targets of a shift; 0 without a score.
pub fn refined_sparse_peak_rank(frame: usize, scores: &FrameMap<ScenecutResult>) -> (rank: Measure)
    ensures
        rank == peak_rank(scores@, frame),
{
    match scores.get(frame) {
        Some(score) => score.refined_peak_rank,
        None => double(ZERO),
    }
}

/// Where a cut moves, if it does.
fn shift_of_cut(
    frame: usize,
    min_distance: usize,
    keyframes: &FrameSet,
    scores: &FrameMap<ScenecutResult>,
) -> (target: Option<usize>)
    ensures
        target == shift_target(timeline(*keyframes, *scores), frame, min_distance as int),
{
    let distance: usize = if min_distance > 1 {
        min_distance
    } else {
        1
    };
    let sparse = match scores.get(frame) {
        Some(score) => score.decision == ScenecutDecision::CutSparseScenePeak,
        None => false,
    };
    if !sparse {
        return None;
    }
    let next: usize = match keyframes.after(frame) {
        Some(next) => next,
        None => {
            return None;
        },
    };
    let returning: usize = match keyframes.after(next) {
        Some(returning) => returning,
        None => {
            return None;
        },
    };
    match frame_signature_delta_for_scores(frame, returning, scores) {
        Some(sum) => {
            if sum > REFINED_SPARSE_PEAK_MAX_REPEAT_DELTA_8BIT * FRAME_LUMA_SIGNATURE_CELLS as u32 {
                return None;
            }
        },
        None => {
            return None;
        },
    }
    if next < distance || usize::MAX - frame < distance || frame + distance > next - distance
        || distance > REFINED_SPARSE_PEAK_SHIFT_MAX_DISTANCE {
        assert(best_target(
            scores@,
            frame,
            returning,
            frame + distance,
            if frame + REFINED_SPARSE_PEAK_SHIFT_MAX_DISTANCE <= next - distance {
                frame + REFINED_SPARSE_PEAK_SHIFT_MAX_DISTANCE
            } else {
                next - distance
            } + 1,
        ) is None);
        return None;
    }
    let low: usize = frame + distance;
    let last: usize = if next - distance - frame >= REFINED_SPARSE_PEAK_SHIFT_MAX_DISTANCE {
        frame + REFINED_SPARSE_PEAK_SHIFT_MAX_DISTANCE
    } else {
        next - distance
    };
    let mut best: Option<usize> = None;
    let mut candidate: usize = low;
    while candidate <= last
        invariant
            low <= candidate <= last + 1,
            last < usize::MAX,
            best == best_target(scores@, frame, returning, low as int, candidate as int),
        decreases last + 1 - candidate,
    {
        if shift_target_fits(scores, frame, returning, candidate) {
            let keep = match best {
                Some(current) => refined_sparse_peak_rank(current, scores).above(
                    refined_sparse_peak_rank(candidate, scores),
                ),
                None => false,
            };
            if !keep {
                best = Some(candidate);
            }
        }
        candidate = candidate + 1;
    }
    best
}

/// The shifts of all cuts, from the first cut to the last.
pub fn refined_sparse_peak_shifts(
    min_distance: usize,
    keyframes: &FrameSet,
    scores: &FrameMap<ScenecutResult>,
) -> (shifts: Vec<RefinedSparsePeakShift>)
    ensures
        shifts@ == shifts_of(
            timeline(*keyframes, *scores),
            ascending(keyframes@),
            min_distance as int,
        ),
{
    let cuts: Vec<usize> = keyframes.to_vec();
    let mut shifts: Vec<RefinedSparsePeakShift> = Vec::new();
    for index in 0..cuts.len()
        invariant
            shifts@ == shifts_of(
                timeline(*keyframes, *scores),
                cuts@.take(index as int),
                min_distance as int,
            ),
    {
        assert(cuts@.take(index + 1).drop_last() =~= cuts@.take(index as int));
        if let Some(to) = shift_of_cut(cuts[index], min_distance, keyframes, scores) {
            shifts.push(RefinedSparsePeakShift { from: cuts[index], to });
        }
    }
    assert(cuts@.take(cuts.len() as int) =~= cuts@);
    shifts
}

/// Whether a strong peak follows a cut closely, yet not too close to both cuts.
fn close_peak_follows(
    frame: usize,
    next: usize,
    distance: usize,
    min_distance: usize,
    scores: &FrameMap<ScenecutResult>,
) -> (follows: bool)
    requires
        frame < next,
        distance >= 1,
    ensures
        follows == exists|peak: usize|
            frame + distance <= peak <= next - distance && peak - frame < min_distance
                && #[trigger] is_refined_peak(scores@, peak),
{
    if next < distance || usize::MAX - frame < distance || frame + distance > next - distance {
        return false;
    }
    let last: usize = next - distance;
    let mut peak: usize = frame + distance;
    while peak <= last
        invariant
            distance >= 1,
            frame + distance <= peak <= last + 1,
            last == next - distance,
            forall|earlier: usize|
                frame + distance <= earlier < peak && earlier - frame < min_distance
                    ==> !#[trigger] is_refined_peak(scores@, earlier),
        decreases last + 1 - peak,
    {
        if peak - frame < min_distance && refined_sparse_peak_score(peak, scores) {
            return true;
        }
        peak = peak + 1;
    }
    false
}

/// The cuts that end a short there-and-back, from the first to the last.
pub fn refined_sparse_peak_aba_suppressions(
    base_min_distance: usize,
    min_distance: usize,
    keyframes: &FrameSet,
    scores: &FrameMap<ScenecutResult>,
    recovered: &FrameSet,
) -> (suppress: Vec<usize>)
    ensures
        suppress@.to_set() == short_returns(
            timeline(*keyframes, *scores),
            recovered@,
            base_min_distance as int,
            min_distance as int,
        ),
{
    let ghost state = timeline(*keyframes, *scores);
    let distance: usize = if base_min_distance > 1 {
        base_min_distance
    } else {
        1
    };
    let cuts: Vec<usize> = keyframes.to_vec();
    let mut suppress: Vec<usize> = Vec::new();
    for index in 0..cuts.len()
        invariant
            state == timeline(*keyframes, *scores),
            distance == larger(base_min_distance as int, 1),
            cuts@.to_set() == state.cuts,
            forall|f: usize| #[trigger]
                suppress@.contains(f) ==> state.cuts.contains(f) && ends_short_return(
                    state,
                    recovered@,
                    f,
                    base_min_distance as int,
                    min_distance as int,
                ),
            forall|k: int|
                0 <= k < index && ends_short_return(
                    state,
                    recovered@,
                    #[trigger] cuts@[k],
                    base_min_distance as int,
                    min_distance as int,
                ) ==> suppress@.contains(cuts@[k]),
    {
        let frame: usize = cuts[index];
        assert(cuts@.contains(frame));
        assert(cuts@.to_set().contains(frame));
        let sparse = match scores.get(frame) {
            Some(score) => score.decision == ScenecutDecision::CutSparseScenePeak,
            None => false,
        };
        let ends = match (keyframes.before(frame), keyframes.after(frame)) {
            (Some(previous), Some(next)) => sparse && recovered.contains(previous) && frame
                - previous <= REFINED_SPARSE_PEAK_ABA_MAX_SEGMENT_LEN && next - frame
                <= REFINED_SPARSE_PEAK_ABA_MAX_SEGMENT_LEN && close_peak_follows(
                frame,
                next,
                distance,
                min_distance,
                scores,
            ),
            _ => false,
        };
        if ends {
            proof {
                push_gains_one(suppress@, frame);
            }
            suppress.push(frame);
        }
    }
    proof {
        let target = short_returns(
            state,
            recovered@,
            base_min_distance as int,
            min_distance as int,
        );
        assert forall|f: usize| target.contains(f) implies suppress@.contains(f) by {
            assert(cuts@.to_set().contains(f));
            let k = cuts@.index_of(f);
            assert(cuts@[k] == f);
        }
        assert(suppress@.to_set() =~= target);
    }
    suppress
}

/// The frames of one set that another lacks, together with a third set.
fn gained(before: &FrameSet, after: &FrameSet, targets: FrameSet) -> (all: FrameSet)
    ensures
        all@ == targets@.union(after@.difference(before@)),
{
    let ghost start = targets@;
    let mut all = targets;
    let frames: Vec<usize> = after.to_vec();
    for index in 0..frames.len()
        invariant
            frames@.to_set() == after@,
            forall|f: usize| #[trigger]
                all@.contains(f) ==> start.contains(f) || (after@.contains(f) && !before@.contains(
                    f,
                )),
            forall|f: usize| #[trigger] start.contains(f) ==> all@.contains(f),
            forall|k: int|
                0 <= k < index && !before@.contains(#[trigger] frames@[k]) ==> all@.contains(
                    frames@[k],
                ),
    {
        let frame: usize = frames[index];
        assert(frames@.contains(frame));
        assert(frames@.to_set().contains(frame));
        if !before.contains(frame) {
            all.insert(frame);
        }
    }
    proof {
        assert forall|f: usize| after@.contains(f) && !before@.contains(f) implies all@.contains(
            f,
        ) by {
            assert(frames@.to_set().contains(f));
            let k = frames@.index_of(f);
            assert(frames@[k] == f);
        }
        assert(all@ =~= start.union(after@.difference(before@)));
    }
    all
}

/// Refines the cuts of sparse stretches: moves cuts to the scene that they belong
/// to, adds strong peaks, and takes out what these made redundant.
pub fn apply_refined_sparse_peak_postprocess(
    opts: &DetectionOptions,
    keyframes: &mut FrameSet,
    scores: &mut FrameMap<ScenecutResult>,
)
    ensures
        timeline(*final(keyframes), *final(scores)) == with_refined_peaks(
            *opts,
            timeline(*old(keyframes), *old(scores)),
        ),
{
    let ghost state = timeline(*keyframes, *scores);
    let base: usize = min_distance(opts);
    let distance: usize = if base > REFINED_SPARSE_PEAK_MIN_DISTANCE {
        base
    } else {
        REFINED_SPARSE_PEAK_MIN_DISTANCE
    };
    let shifts: Vec<RefinedSparsePeakShift> = refined_sparse_peak_shifts(base, keyframes, scores);
    let mut targets = FrameSet::new();
    proof {
        assert(shift_targets(shifts@.take(0)) =~= Set::<usize>::empty());
    }
    for index in 0..shifts.len()
        invariant
            timeline(*keyframes, *scores) == shifted(state, shifts@.take(index as int)),
            targets@ == shift_targets(shifts@.take(index as int)),
    {
        let shift = shifts[index];
        proof {
            let before = shifts@.take(index as int);
            let after = shifts@.take(index + 1);
            assert(after.drop_last() =~= before);
            assert forall|f: usize| #[trigger] shift_targets(after).contains(f) == (shift_targets(
                before,
            ).contains(f) || f == shift.to) by {
                if shift_targets(before).contains(f) {
                    let k = choose|k: int| 0 <= k < before.len() && (#[trigger] before[k]).to == f;
                    assert(after[k].to == f);
                }
                if f == shift.to {
                    assert(after[index as int].to == f);
                }
                if shift_targets(after).contains(f) {
                    let k = choose|k: int| 0 <= k < after.len() && (#[trigger] after[k]).to == f;
                    if k < index {
                        assert(before[k].to == f);
                    }
                }
            }
            assert(shift_targets(after) =~= shift_targets(before).insert(shift.to));
        }
        keyframes.remove(shift.from);
        decide(scores, shift.from, ScenecutDecision::SuppressedRefinedSparsePeak);
        keyframes.insert(shift.to);
        decide(scores, shift.to, ScenecutDecision::CutRefinedSparsePeak);
        targets.insert(shift.to);
    }
    assert(shifts@.take(shifts.len() as int) =~= shifts@);

    let moved = keyframes.clone();
    let missed: Vec<usize> = missed_cut_frames(PeakKind::Refined, keyframes, scores, distance);
    promote_spaced(keyframes, scores, &missed, distance, ScenecutDecision::CutRefinedSparsePeak);
    let refined = gained(&moved, keyframes, targets);
    let suppress: Vec<usize> = refined_sparse_peak_aba_suppressions(
        base,
        distance,
        keyframes,
        scores,
        &refined,
    );
    suppress_frames(keyframes, scores, &suppress, ScenecutDecision::SuppressedRefinedSparsePeak);
}

} // verus!
