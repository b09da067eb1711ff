//! Corrections act on good grounds only.

use vstd::prelude::*;
use vstd::set_lib::lemma_set_subset_finite;
use crate::measure::double;
use crate::options::{larger, DetectionOptions};
use crate::postprocess::aba_return::{is_best_return, with_returns};
use crate::postprocess::common::{frame_distance, promotion_only_adds, with_spaced_cuts, Timeline};
use crate::postprocess::laws::{ascending_members, named_neighbours, shift_target_lies_between};
use crate::postprocess::laws::{best_target_lies_in_range, shifts_come_from_cuts};
use crate::postprocess::peaks::{is_missed_cut, is_refined_peak, min_distance_of, missed_cuts};
use crate::postprocess::peaks::{with_dark_peaks, with_sparse_peaks, PeakKind};
use crate::postprocess::movements::nothing_is_shifted;
use crate::postprocess::peaks::SCENE_PEAK_MAX_ADJACENT_COST_RATIO;
use crate::postprocess::recovery::{heads_recovery, is_recoverable, recoverable_inside};
use crate::postprocess::recovery::{recovery_group, recovery_groups, with_group, with_groups};
use crate::postprocess::recovery::{with_recovered_cuts, FORWARD_SIMILARITY_RECOVERY_MIN_MATCH_DELTA_8BIT};
use crate::postprocess::refined::{best_target, is_shift_target, shift_target, shifted, shifts_of};
use crate::postprocess::refined::{ends_short_return, shift_targets};
use crate::postprocess::refined::{with_refined_peaks, RefinedSparsePeakShift};
use crate::postprocess::text_boundary::{after_shifts, boundary_shift, boundary_shifts};
use crate::postprocess::text_boundary::{with_shifted_boundaries, BoundaryShiftCandidate};
use crate::postprocess::text_boundary::{TEXT_BOUNDARY_SHIFT_MAX_NEXT_COST_RATIO, TEXT_BOUNDARY_SHIFT_MIN_NEXT_LUMA_8BIT};
use crate::postprocess::turns::{ascending_holds, is_run_of_video, left_alone, peak_turns};
use crate::postprocess::turns::{promotion_turns, refined_turns, shifts_are_shifts};
use crate::score::{ScenecutDecision, ScenecutResult, FRAME_LUMA_SIGNATURE_CELLS};
use crate::timeline::{ascending, finite_sets_ascend, first_after, frames_between, last_before};

verus! {

/// A dark peak is put in on good grounds only: it had no verdict of its own, no frame near it
/// costs more, there are few cuts around, and the scene that it divides is long, keeps it far
/// enough from both its cuts and does not stand between extreme ones.
pub proof fn dark_peaks_have_grounds(opts: DetectionOptions, given: Timeline, frame: usize)
    requires
        is_run_of_video(given),
        given.scores.contains_key(frame),
        ({
            let after = with_dark_peaks(opts, given);
            after.cuts.contains(frame) != given.cuts.contains(frame) || after.scores[frame]
                != given.scores[frame]
        }),
    ensures
        ({
            let after = with_dark_peaks(opts, given);
            let score = given.scores[frame];
            let apart = match opts.min_scenecut_distance {
                Some(distance) => distance as int,
                None => 0,
            };
            &&& after.cuts.contains(frame)
            &&& after.scores[frame].decision == ScenecutDecision::CutDarkScenePeak
            &&& score.decision == ScenecutDecision::NoCut
            &&& forall|other: usize| #[trigger]
                given.scores.contains_key(other) && other != frame && frame - 5 <= other <= frame
                    + 5 ==> given.scores[other].cost_ratio.le(score.cost_ratio)
            &&& Set::new(
                |cut: usize|
                    given.cuts.contains(cut) && cut != 0 && frame - 500 <= cut <= frame + 500,
            ).len() <= 10
            &&& Set::new(
                |cut: usize|
                    given.cuts.contains(cut) && cut != 0 && frame - 2000 <= cut <= frame + 2000,
            ).len() <= 35
            &&& exists|previous: usize, next: usize|
                {
                    &&& #[trigger] given.cuts.contains(previous)
                    &&& #[trigger] given.cuts.contains(next)
                    &&& previous < frame < next
                    &&& forall|cut: usize|
                        previous < cut < next && cut != frame ==> !#[trigger] given.cuts.contains(
                            cut,
                        )
                    &&& next - previous >= 120
                    &&& frame - previous >= apart
                    &&& next - frame >= apart
                    &&& given.scores.contains_key(previous)
                        ==> given.scores[previous].cost_ratio.le(
                        double(SCENE_PEAK_MAX_ADJACENT_COST_RATIO),
                    )
                    &&& given.scores.contains_key(next) ==> given.scores[next].cost_ratio.le(
                        double(SCENE_PEAK_MAX_ADJACENT_COST_RATIO),
                    )
                }
        }),
{
    peak_turns(opts, given, frame);
    named_neighbours(given.cuts, frame);
    let previous = last_before(given.cuts, frame).unwrap();
    let next = first_after(given.cuts, frame).unwrap();
    assert(frames_between(given.cuts.remove(0), frame - 500, frame + 500) =~= Set::new(
        |cut: usize| given.cuts.contains(cut) && cut != 0 && frame - 500 <= cut <= frame + 500,
    ));
    assert(frames_between(given.cuts.remove(0), frame - 2000, frame + 2000) =~= Set::new(
        |cut: usize| given.cuts.contains(cut) && cut != 0 && frame - 2000 <= cut <= frame + 2000,
    ));
    assert(is_missed_cut(PeakKind::Dark, given, frame, min_distance_of(opts)));
    assert(given.cuts.contains(previous) && given.cuts.contains(next));
}

/// A sparse peak is put in on good grounds only: it had no verdict of its own, no frame near
/// it costs more, there are few cuts around, and the scene that it divides is long, keeps it
/// far enough from both its cuts and does not stand between extreme ones.
pub proof fn sparse_peaks_have_grounds(opts: DetectionOptions, given: Timeline, frame: usize)
    requires
        is_run_of_video(given),
        given.scores.contains_key(frame),
        ({
            let after = with_sparse_peaks(opts, given);
            after.cuts.contains(frame) != given.cuts.contains(frame) || after.scores[frame]
                != given.scores[frame]
        }),
    ensures
        ({
            let after = with_sparse_peaks(opts, given);
            let score = given.scores[frame];
            let apart = match opts.min_scenecut_distance {
                Some(distance) => distance as int,
                None => 0,
            };
            &&& after.cuts.contains(frame)
            &&& after.scores[frame].decision == ScenecutDecision::CutSparseScenePeak
            &&& score.decision == ScenecutDecision::NoCut
            &&& forall|other: usize| #[trigger]
                given.scores.contains_key(other) && other != frame && frame - 5 <= other <= frame
                    + 5 ==> given.scores[other].cost_ratio.le(score.cost_ratio)
            &&& Set::new(
                |cut: usize|
                    given.cuts.contains(cut) && cut != 0 && frame - 500 <= cut <= frame + 500,
            ).len() <= 10
            &&& Set::new(
                |cut: usize|
                    given.cuts.contains(cut) && cut != 0 && frame - 2000 <= cut <= frame + 2000,
            ).len() <= 35
            &&& exists|previous: usize, next: usize|
                {
                    &&& #[trigger] given.cuts.contains(previous)
                    &&& #[trigger] given.cuts.contains(next)
                    &&& previous < frame < next
                    &&& forall|cut: usize|
                        previous < cut < next && cut != frame ==> !#[trigger] given.cuts.contains(
                            cut,
                        )
                    &&& next - previous >= 120
                    &&& frame - previous >= apart
                    &&& next - frame >= apart
                    &&& given.scores.contains_key(previous)
                        ==> given.scores[previous].cost_ratio.le(
                        double(SCENE_PEAK_MAX_ADJACENT_COST_RATIO),
                    )
                    &&& given.scores.contains_key(next) ==> given.scores[next].cost_ratio.le(
                        double(SCENE_PEAK_MAX_ADJACENT_COST_RATIO),
                    )
                }
        }),
{
    peak_turns(opts, given, frame);
    named_neighbours(given.cuts, frame);
    let previous = last_before(given.cuts, frame).unwrap();
    let next = first_after(given.cuts, frame).unwrap();
    assert(frames_between(given.cuts.remove(0), frame - 500, frame + 500) =~= Set::new(
        |cut: usize| given.cuts.contains(cut) && cut != 0 && frame - 500 <= cut <= frame + 500,
    ));
    assert(frames_between(given.cuts.remove(0), frame - 2000, frame + 2000) =~= Set::new(
        |cut: usize| given.cuts.contains(cut) && cut != 0 && frame - 2000 <= cut <= frame + 2000,
    ));
    assert(is_missed_cut(PeakKind::Sparse, given, frame, min_distance_of(opts)));
    assert(given.cuts.contains(previous) && given.cuts.contains(next));
}

/// A return is put in on good grounds only: its picture is that before the last cut, there is
/// a clear change at it and at that cut, and it lies far enough from the cuts around it.
pub proof fn returning_scenes_have_grounds(opts: DetectionOptions, given: Timeline, frame: usize)
    requires
        is_run_of_video(given),
        given.scores.contains_key(frame),
        ({
            let after = with_returns(opts, given);
            after.cuts.contains(frame) != given.cuts.contains(frame) || after.scores[frame]
                != given.scores[frame]
        }),
    ensures
        ({
            let after = with_returns(opts, given);
            let apart = match opts.min_scenecut_distance {
                Some(distance) => distance as int,
                None => 0,
            };
            &&& after.cuts.contains(frame)
            &&& after.scores[frame].decision == ScenecutDecision::CutAbaReturn
            &&& !given.cuts.contains(frame)
            &&& frame_distance(given.scores, (frame - 1) as usize, frame) is Some
            &&& frame_distance(given.scores, (frame - 1) as usize, frame).unwrap() >= 5
                * FRAME_LUMA_SIGNATURE_CELLS
            &&& exists|previous: usize, next: usize|
                {
                    let back = frame_distance(given.scores, (previous - 1) as usize, frame);
                    let edge = frame_distance(given.scores, (frame - 1) as usize, frame);
                    let entry = frame_distance(given.scores, (previous - 1) as usize, previous);
                    &&& #[trigger] given.cuts.contains(previous)
                    &&& #[trigger] given.cuts.contains(next)
                    &&& 0 < previous < frame < next
                    &&& forall|cut: usize|
                        previous < cut < next ==> !#[trigger] given.cuts.contains(cut)
                    &&& frame - previous >= apart
                    &&& next - frame >= apart
                    &&& back is Some && entry is Some
                    &&& back.unwrap() <= 4 * FRAME_LUMA_SIGNATURE_CELLS
                    &&& entry.unwrap() >= 5 * FRAME_LUMA_SIGNATURE_CELLS
                    &&& edge.unwrap() >= 2 * back.unwrap()
                    &&& entry.unwrap() >= 2 * back.unwrap()
                }
        }),
{
    peak_turns(opts, given, frame);
    assert(is_best_return(given, frame, min_distance_of(opts)));
    named_neighbours(given.cuts, frame);
    let previous = last_before(given.cuts, frame).unwrap();
    let next = first_after(given.cuts, frame).unwrap();
    assert(given.cuts.contains(previous) && given.cuts.contains(next));
}

/// Boundary shifts put in what some shift leads to, and take out what some shift leads from.
proof fn shifts_have_ends(
    state: Timeline,
    shifts: Seq<BoundaryShiftCandidate>,
    distance: int,
    frame: usize,
)
    requires
        state.scores.contains_key(frame),
    ensures
        ({
            let after = after_shifts(state, shifts, distance);
            &&& after.scores.contains_key(frame)
            &&& left_alone(state, after, frame) || (exists|k: int|
                0 <= k < shifts.len() && ((#[trigger] shifts[k]).to == frame || shifts[k].from
                    == frame))
            &&& (forall|k: int| 0 <= k < shifts.len() ==> (#[trigger] shifts[k]).from != frame)
                && state.cuts.contains(frame) ==> after.cuts.contains(frame)
            &&& (forall|k: int| 0 <= k < shifts.len() ==> (#[trigger] shifts[k]).to != frame)
                && !state.cuts.contains(frame) ==> left_alone(state, after, frame)
        }),
    decreases shifts.len(),
{
    if shifts.len() > 0 {
        let rest = shifts.drop_last();
        shifts_have_ends(state, rest, distance, frame);
        let last = shifts.len() - 1;
        let before = after_shifts(state, rest, distance);
        if left_alone(state, before, frame) {
            assert(shifts[last] == shifts.last());
        } else {
            let k = choose|k: int|
                0 <= k < rest.len() && ((#[trigger] rest[k]).to == frame || rest[k].from == frame);
            assert(shifts[k] == rest[k]);
        }
        if forall|k: int| 0 <= k < shifts.len() ==> (#[trigger] shifts[k]).from != frame {
            assert forall|k: int| 0 <= k < rest.len() implies (#[trigger] rest[k]).from != frame by {
                assert(shifts[k] == rest[k]);
            }
            assert(shifts[last].from != frame);
        }
        if forall|k: int| 0 <= k < shifts.len() ==> (#[trigger] shifts[k]).to != frame {
            assert forall|k: int| 0 <= k < rest.len() implies (#[trigger] rest[k]).to != frame by {
                assert(shifts[k] == rest[k]);
            }
            assert(shifts[last].to != frame);
        }
    }
}

/// A frame becomes a boundary by a shift on good grounds only: it lies too near to one of the
/// cuts around it and far enough from the other, and a weak cut to a bright picture follows
/// where it moves forward from there. Where no distance is set nothing is shifted.
pub proof fn shifted_boundaries_have_grounds(
    opts: DetectionOptions,
    given: Timeline,
    frame: usize,
)
    requires
        is_run_of_video(given),
        given.scores.contains_key(frame),
        !given.cuts.contains(frame),
        ({
            let after = with_shifted_boundaries(opts, given);
            after.cuts.contains(frame) || after.scores[frame] != given.scores[frame]
        }),
    ensures
        opts.min_scenecut_distance is Some,
        exists|previous: usize, next: usize|
            {
                let apart = opts.min_scenecut_distance.unwrap();
                &&& #[trigger] given.cuts.contains(previous)
                &&& #[trigger] given.cuts.contains(next)
                &&& previous < frame < next
                &&& forall|cut: usize| previous < cut < next ==> !#[trigger] given.cuts.contains(cut)
                &&& {
                    ||| {
                        &&& 0 < previous
                        &&& frame - previous < apart <= next - frame
                        &&& given.scores[frame].decision == ScenecutDecision::SuppressedMinDistance
                    }
                    ||| {
                        &&& next - frame < apart <= frame - previous
                        &&& given.scores.contains_key(next)
                        &&& given.scores[next].cost_ratio.le(
                            double(TEXT_BOUNDARY_SHIFT_MAX_NEXT_COST_RATIO),
                        )
                        &&& double(TEXT_BOUNDARY_SHIFT_MIN_NEXT_LUMA_8BIT).le(
                            given.scores[next].avg_luma_8bit,
                        )
                        &&& given.scores[next].shift_margin_floor.le(
                            given.scores[frame].global_imp_block_ratio,
                        )
                    }
                }
            },
{
    let distance = min_distance_of(opts);
    let shifts = boundary_shifts(given, ascending(given.scores.dom()), distance);
    shifts_are_shifts(given, ascending(given.scores.dom()), distance);
    shifts_have_ends(given, shifts, distance, frame);
    let k = choose|k: int| 0 <= k < shifts.len() && (#[trigger] shifts[k]).to == frame;
    assert(shifts[k].to == frame);
    assert(boundary_shift(given, frame, distance) == Some(shifts[k]));
    named_neighbours(given.cuts, frame);
    let previous = last_before(given.cuts, frame).unwrap();
    let next = first_after(given.cuts, frame).unwrap();
    assert(given.cuts.contains(previous) && given.cuts.contains(next));
}

/// A cut gives way to a shifted boundary only where a frame without a cut, too near to it,
/// takes its place.
pub proof fn boundaries_give_way_to_near_frames(
    opts: DetectionOptions,
    given: Timeline,
    frame: usize,
)
    requires
        is_run_of_video(given),
        given.scores.contains_key(frame),
        given.cuts.contains(frame),
        !with_shifted_boundaries(opts, given).cuts.contains(frame),
    ensures
        opts.min_scenecut_distance is Some,
        exists|to: usize|
            {
                let apart = opts.min_scenecut_distance.unwrap();
                &&& #[trigger] given.scores.contains_key(to)
                &&& !given.cuts.contains(to)
                &&& 0 < to - frame < apart || 0 < frame - to < apart
                &&& given.scores[to].decision == ScenecutDecision::NoCut || given.scores[to].decision
                    == ScenecutDecision::SuppressedImportance || given.scores[to].decision
                    == ScenecutDecision::SuppressedMinDistance
            },
{
    let distance = min_distance_of(opts);
    let shifts = boundary_shifts(given, ascending(given.scores.dom()), distance);
    shifts_are_shifts(given, ascending(given.scores.dom()), distance);
    shifts_have_ends(given, shifts, distance, frame);
    let k = choose|k: int| 0 <= k < shifts.len() && (#[trigger] shifts[k]).from == frame;
    let to = shifts[k].to;
    assert(shifts[k].from == frame);
    assert(boundary_shift(given, to, distance) == Some(shifts[k]));
    named_neighbours(given.cuts, to);
    assert(given.scores.contains_key(to));
}

/// A group puts in its own frames only.
proof fn group_puts_in_its_own(state: Timeline, group: Seq<usize>, frame: usize)
    requires
        state.scores.contains_key(frame),
        !group.contains(frame),
    ensures
        with_group(state, group).scores.contains_key(frame),
        left_alone(state, with_group(state, group), frame),
    decreases group.len(),
{
    if group.len() > 0 {
        let rest = group.drop_last();
        assert(!rest.contains(frame)) by {
            if rest.contains(frame) {
                let k = rest.index_of(frame);
                assert(group[k] == frame);
            }
        }
        group_puts_in_its_own(state, rest, frame);
        assert(group[group.len() - 1] == group.last());
    }
}

/// A group keeps the frames that are scored.
proof fn group_keeps_scored_frames(state: Timeline, group: Seq<usize>)
    ensures
        with_group(state, group).scores.dom() =~= state.scores.dom(),
    decreases group.len(),
{
    if group.len() > 0 {
        group_keeps_scored_frames(state, group.drop_last());
    }
}

/// Groups leave a frame alone that is in none of them that is short enough.
proof fn groups_put_in_their_own(
    state: Timeline,
    groups: Seq<Seq<usize>>,
    distance: int,
    frame: usize,
)
    requires
        state.scores.contains_key(frame),
    ensures
        ({
            let after = with_groups(state, groups, distance);
            &&& after.scores.contains_key(frame)
            &&& left_alone(state, after, frame) || (exists|k: int|
                0 <= k < groups.len() && (#[trigger] groups[k]).contains(frame) && groups[k].len()
                    <= 3)
        }),
    decreases groups.len(),
{
    if groups.len() > 0 {
        let rest = groups.drop_last();
        groups_put_in_their_own(state, rest, distance, frame);
        let before = with_groups(state, rest, distance);
        let last = groups.len() - 1;
        group_keeps_scored_frames(before, groups[last]);
        if exists|k: int|
            0 <= k < rest.len() && (#[trigger] rest[k]).contains(frame) && rest[k].len() <= 3 {
            let k = choose|k: int|
                0 <= k < rest.len() && (#[trigger] rest[k]).contains(frame) && rest[k].len() <= 3;
            assert(groups[k] == rest[k]);
        } else if !groups[last].contains(frame) {
            group_puts_in_its_own(before, groups[last], frame);
        }
    }
}

/// Every group has a head.
proof fn groups_have_heads(
    scores: Map<usize, ScenecutResult>,
    frames: Seq<usize>,
    distance: int,
    k: int,
) -> (head: usize)
    requires
        0 <= k < recovery_groups(scores, frames, distance).len(),
    ensures
        heads_recovery(scores, head, distance),
        recovery_groups(scores, frames, distance)[k] == recovery_group(scores, head, distance),
    decreases frames.len(),
{
    let rest = frames.drop_last();
    let before = recovery_groups(scores, rest, distance);
    if k < before.len() {
        groups_have_heads(scores, rest, distance, k)
    } else {
        frames.last()
    }
}

/// A cut is recovered on good grounds only: it was taken for a return and is a strong change,
/// and it is, or lies well inside the return of, one that was a poor match; and no more than
/// three are recovered together.
pub proof fn recovered_cuts_have_grounds(opts: DetectionOptions, given: Timeline, frame: usize)
    requires
        is_run_of_video(given),
        given.scores.contains_key(frame),
        ({
            let after = with_recovered_cuts(opts, given);
            after.cuts.contains(frame) != given.cuts.contains(frame) || after.scores[frame]
                != given.scores[frame]
        }),
    ensures
        given.scores[frame].decision == ScenecutDecision::SuppressedForwardSimilarity,
        frame_distance(given.scores, (frame - 1) as usize, frame) is Some,
        frame_distance(given.scores, (frame - 1) as usize, frame).unwrap() >= 20
            * FRAME_LUMA_SIGNATURE_CELLS,
        exists|head: usize|
            {
                let apart = match opts.min_scenecut_distance {
                    Some(distance) if distance > 1 => distance as int,
                    _ => 1,
                };
                let score = given.scores[head];
                &&& #[trigger] given.scores.contains_key(head)
                &&& score.decision == ScenecutDecision::SuppressedForwardSimilarity
                &&& score.forward_similarity_score is Some
                &&& !score.forward_similarity_score.unwrap().lt(
                    double(FORWARD_SIMILARITY_RECOVERY_MIN_MATCH_DELTA_8BIT),
                )
                &&& score.forward_return_frame is Some
                &&& head == frame || (head + apart <= frame && frame + apart
                    <= score.forward_return_frame.unwrap())
                &&& recoverable_inside(
                    given.scores,
                    head,
                    score.forward_return_frame.unwrap(),
                    apart,
                ).len() <= 2
            },
{
    let distance = min_distance_of(opts);
    let frames = ascending(given.scores.dom());
    let groups = recovery_groups(given.scores, frames, distance);
    groups_put_in_their_own(given, groups, distance, frame);
    let k = choose|k: int|
        0 <= k < groups.len() && (#[trigger] groups[k]).contains(frame) && groups[k].len() <= 3;
    assert(groups[k].contains(frame));
    let head = groups_have_heads(given.scores, frames, distance, k);
    let back = given.scores[head].forward_return_frame.unwrap();
    let inside = recoverable_inside(given.scores, head, back, distance);
    lemma_set_subset_finite(given.scores.dom(), inside);
    let members = inside.insert(head);
    ascending_members(members);
    let at = groups[k].index_of(frame);
    assert(members.contains(ascending(members)[at]));
    assert(members.contains(frame));
    assert(is_recoverable(given.scores, head));
    assert(members.len() == inside.len() + 1);
    finite_sets_ascend(members);
    ascending(members).unique_seq_to_set();
    assert(ascending(members).to_set() == members);
    assert(inside =~= recoverable_inside(given.scores, head, back, larger(distance, 1)));
    if frame != head {
        assert(inside.contains(frame));
        assert(is_recoverable(given.scores, frame));
    }
    assert(given.scores.contains_key(head));
}

/// Shifts keep all measurements.
pub(crate) proof fn shifts_keep_measurements(state: Timeline, shifts: Seq<RefinedSparsePeakShift>)
    ensures
        shifted(state, shifts).scores.dom() =~= state.scores.dom(),
        forall|frame: usize| #[trigger]
            state.scores.contains_key(frame) ==> shifted(state, shifts).scores[frame]
                == state.scores[frame].decided(shifted(state, shifts).scores[frame].decision),
    decreases shifts.len(),
{
    if shifts.len() > 0 {
        shifts_keep_measurements(state, shifts.drop_last());
    }
}

/// Shifts put in their targets only, and take out their sources only.
proof fn shifts_put_in_targets(state: Timeline, shifts: Seq<RefinedSparsePeakShift>, frame: usize)
    requires
        state.scores.contains_key(frame),
        forall|k: int| 0 <= k < shifts.len() ==> (#[trigger] shifts[k]).to != frame,
    ensures
        shifted(state, shifts).cuts.contains(frame) ==> state.cuts.contains(frame),
        !state.cuts.contains(frame) && (forall|k: int|
            0 <= k < shifts.len() ==> (#[trigger] shifts[k]).from != frame)
            ==> left_alone(state, shifted(state, shifts), frame),
    decreases shifts.len(),
{
    if shifts.len() > 0 {
        let rest = shifts.drop_last();
        let last = shifts.len() - 1;
        assert forall|k: int| 0 <= k < rest.len() implies (#[trigger] rest[k]).to != frame by {
            assert(shifts[k] == rest[k]);
        }
        shifts_put_in_targets(state, rest, frame);
        assert(shifts[last].to != frame);
        if forall|k: int| 0 <= k < shifts.len() ==> (#[trigger] shifts[k]).from != frame {
            assert forall|k: int| 0 <= k < rest.len() implies (#[trigger] rest[k]).from != frame by {
                assert(shifts[k] == rest[k]);
            }
            assert(shifts[last].from != frame);
        }
    }
}

/// The best target of a shift is a target in range.
proof fn best_target_is_in_range(
    scores: Map<usize, ScenecutResult>,
    from: usize,
    returning: usize,
    low: int,
    high: int,
)
    ensures
        best_target(scores, from, returning, low, high) matches Some(frame) ==> is_shift_target(
            scores,
            from,
            returning,
            frame,
        ),
    decreases high - low,
{
    if high > low {
        best_target_is_in_range(scores, from, returning, low, high - 1);
    }
}

/// A refined peak is put in on good grounds only: it had no cut, it is a change of the
/// picture, and no frame near it costs more.
pub proof fn refined_peaks_have_grounds(opts: DetectionOptions, given: Timeline, frame: usize)
    requires
        is_run_of_video(given),
        given.scores.contains_key(frame),
        !given.cuts.contains(frame),
        with_refined_peaks(opts, given).cuts.contains(frame),
    ensures
        given.scores[frame].decision == ScenecutDecision::NoCut,
        frame_distance(given.scores, (frame - 1) as usize, frame) is Some,
        frame_distance(given.scores, (frame - 1) as usize, frame).unwrap() >= 10
            * FRAME_LUMA_SIGNATURE_CELLS,
        forall|other: usize| #[trigger]
            given.scores.contains_key(other) && other != frame && frame - 5 <= other <= frame + 5
                ==> given.scores[other].cost_ratio.le(given.scores[frame].cost_ratio),
{
    let base = min_distance_of(opts);
    let distance = larger(base, 40);
    ascending_members(given.cuts);
    let cuts = ascending(given.cuts);
    let shifts = shifts_of(given, cuts, base);
    shifts_come_from_cuts(given, cuts, base);
    let moved = shifted(given, shifts);
    shifts_keep_measurements(given, shifts);
    let missed = missed_cuts(PeakKind::Refined, moved, distance);
    lemma_set_subset_finite(moved.scores.dom(), missed);
    ascending_holds(missed, frame);
    promotion_turns(
        moved,
        ascending(missed),
        distance,
        ScenecutDecision::CutRefinedSparsePeak,
        frame,
    );
    if exists|k: int| 0 <= k < shifts.len() && (#[trigger] shifts[k]).to == frame {
        let k = choose|k: int| 0 <= k < shifts.len() && (#[trigger] shifts[k]).to == frame;
        let from = shifts[k].from;
        assert(shift_target(given, from, base) == Some(frame));
        shift_target_lies_between(given, from, base);
        let next = first_after(given.cuts, from).unwrap();
        let returning = first_after(given.cuts, next).unwrap();
        let least = larger(base, 1);
        let last = if from + 40 <= next - least {
            from + 40
        } else {
            next - least
        };
        best_target_is_in_range(given.scores, from, returning, from + least, last + 1);
        assert(is_refined_peak(given.scores, frame));
    } else {
        assert forall|k: int| 0 <= k < shifts.len() implies (#[trigger] shifts[k]).from != frame by {
            assert(given.cuts.contains(shifts[k].from));
        }
        shifts_put_in_targets(given, shifts, frame);
        assert(!moved.cuts.contains(frame));
        assert(is_refined_peak(moved.scores, frame));
        assert(moved.scores[frame] == given.scores[frame]);
        assert(frame_distance(moved.scores, (frame - 1) as usize, frame) == frame_distance(
            given.scores,
            (frame - 1) as usize,
            frame,
        )) by {
            let before = (frame - 1) as usize;
            assert(moved.scores.contains_key(before) == given.scores.contains_key(before));
            if given.scores.contains_key(before) {
                assert(moved.scores[before].frame_luma_signature
                    == given.scores[before].frame_luma_signature);
            }
        }
        assert forall|other: usize| #[trigger]
            given.scores.contains_key(other) && other != frame && frame - 5 <= other <= frame
                + 5 implies given.scores[other].cost_ratio.le(given.scores[frame].cost_ratio) by {
            assert(moved.scores.contains_key(other));
            assert(moved.scores[other].cost_ratio == given.scores[other].cost_ratio);
        }
    }
}

/// Where no sparse peak was cut, a refined peak is put in on good grounds only: there are few
/// cuts around, the scene that it divides is long, keeps it far enough from both its cuts and
/// does not stand between extreme ones, and no two of the three scenes around are alike.
pub proof fn confirmed_peaks_have_grounds(opts: DetectionOptions, given: Timeline, frame: usize)
    requires
        is_run_of_video(given),
        given.scores.contains_key(frame),
        !given.cuts.contains(frame),
        with_refined_peaks(opts, given).cuts.contains(frame),
        forall|cut: usize| #[trigger]
            given.cuts.contains(cut) && given.scores.contains_key(cut)
                ==> given.scores[cut].decision != ScenecutDecision::CutSparseScenePeak,
    ensures
        Set::new(
            |cut: usize| given.cuts.contains(cut) && cut != 0 && frame - 500 <= cut <= frame + 500,
        ).len() <= 12,
        Set::new(
            |cut: usize|
                given.cuts.contains(cut) && cut != 0 && frame - 2000 <= cut <= frame + 2000,
        ).len() <= 40,
        exists|previous: usize, next: usize|
            {
                let apart = match opts.min_scenecut_distance {
                    Some(distance) if distance > 40 => distance as int,
                    _ => 40,
                };
                let across = frame_distance(given.scores, previous, next);
                let since = frame_distance(given.scores, previous, frame);
                let until = frame_distance(given.scores, frame, next);
                &&& #[trigger] given.cuts.contains(previous)
                &&& #[trigger] given.cuts.contains(next)
                &&& previous < frame < next
                &&& forall|cut: usize| previous < cut < next ==> !#[trigger] given.cuts.contains(cut)
                &&& next - previous >= 120
                &&& frame - previous >= apart
                &&& next - frame >= apart
                &&& given.scores.contains_key(previous) ==> given.scores[previous].cost_ratio.le(
                    double(SCENE_PEAK_MAX_ADJACENT_COST_RATIO),
                )
                &&& given.scores.contains_key(next) ==> given.scores[next].cost_ratio.le(
                    double(SCENE_PEAK_MAX_ADJACENT_COST_RATIO),
                )
                &&& across is Some ==> across.unwrap() > 5 * FRAME_LUMA_SIGNATURE_CELLS
                &&& since is Some ==> since.unwrap() > 5 * FRAME_LUMA_SIGNATURE_CELLS
                &&& until is Some ==> until.unwrap() > 5 * FRAME_LUMA_SIGNATURE_CELLS
            },
{
    let base = min_distance_of(opts);
    let distance = larger(base, 40);
    ascending_members(given.cuts);
    let cuts = ascending(given.cuts);
    assert forall|k: int| 0 <= k < cuts.len() implies #[trigger] shift_target(
        given,
        cuts[k],
        base,
    ) is None by {
        assert(given.cuts.contains(cuts[k]));
    }
    nothing_is_shifted(given, cuts, base);
    assert(shifted(given, shifts_of(given, cuts, base)) == given);
    let missed = missed_cuts(PeakKind::Refined, given, distance);
    lemma_set_subset_finite(given.scores.dom(), missed);
    ascending_holds(missed, frame);
    promotion_turns(
        given,
        ascending(missed),
        distance,
        ScenecutDecision::CutRefinedSparsePeak,
        frame,
    );
    assert(is_missed_cut(PeakKind::Refined, given, frame, distance));
    named_neighbours(given.cuts, frame);
    let previous = last_before(given.cuts, frame).unwrap();
    let next = first_after(given.cuts, frame).unwrap();
    assert(frames_between(given.cuts.remove(0), frame - 500, frame + 500) =~= Set::new(
        |cut: usize| given.cuts.contains(cut) && cut != 0 && frame - 500 <= cut <= frame + 500,
    ));
    assert(frames_between(given.cuts.remove(0), frame - 2000, frame + 2000) =~= Set::new(
        |cut: usize| given.cuts.contains(cut) && cut != 0 && frame - 2000 <= cut <= frame + 2000,
    ));
    assert(given.cuts.contains(previous) && given.cuts.contains(next));
}

/// Shifts leave a cut alone that none of them leads from.
proof fn shifts_take_out_sources(state: Timeline, shifts: Seq<RefinedSparsePeakShift>, frame: usize)
    requires
        state.cuts.contains(frame),
        forall|k: int| 0 <= k < shifts.len() ==> (#[trigger] shifts[k]).from != frame,
    ensures
        shifted(state, shifts).cuts.contains(frame),
    decreases shifts.len(),
{
    if shifts.len() > 0 {
        let rest = shifts.drop_last();
        assert forall|k: int| 0 <= k < rest.len() implies (#[trigger] rest[k]).from != frame by {
            assert(shifts[k] == rest[k]);
        }
        shifts_take_out_sources(state, rest, frame);
        assert(shifts[shifts.len() - 1].from != frame);
    }
}

/// A sparse cut goes on good grounds only: soon after it there is a change of the picture
/// that had no verdict of its own.
pub proof fn sparse_cuts_go_on_grounds(opts: DetectionOptions, given: Timeline, frame: usize)
    requires
        is_run_of_video(given),
        given.scores.contains_key(frame),
        given.cuts.contains(frame),
        !with_refined_peaks(opts, given).cuts.contains(frame),
    ensures
        given.scores[frame].decision == ScenecutDecision::CutSparseScenePeak,
        exists|to: usize|
            {
                let most = match opts.min_scenecut_distance {
                    Some(distance) if distance > 40 => distance as int,
                    _ => 40,
                };
                let edge = frame_distance(given.scores, (to - 1) as usize, to);
                &&& #[trigger] given.scores.contains_key(to)
                &&& frame < to <= frame + most
                &&& given.scores[to].decision == ScenecutDecision::NoCut
                &&& edge is Some
                &&& edge.unwrap() >= 10 * FRAME_LUMA_SIGNATURE_CELLS
            },
{
    let base = min_distance_of(opts);
    let distance = larger(base, 40);
    refined_turns(opts, given, frame);
    ascending_members(given.cuts);
    let cuts = ascending(given.cuts);
    let shifts = shifts_of(given, cuts, base);
    shifts_come_from_cuts(given, cuts, base);
    let moved = shifted(given, shifts);
    shifts_keep_measurements(given, shifts);
    if exists|k: int| 0 <= k < shifts.len() && (#[trigger] shifts[k]).from == frame {
        let k = choose|k: int| 0 <= k < shifts.len() && (#[trigger] shifts[k]).from == frame;
        let to = shifts[k].to;
        assert(shift_target(given, frame, base) == Some(to));
        shift_target_lies_between(given, frame, base);
        let next = first_after(given.cuts, frame).unwrap();
        let returning = first_after(given.cuts, next).unwrap();
        let least = larger(base, 1);
        let last = if frame + 40 <= next - least {
            frame + 40
        } else {
            next - least
        };
        best_target_is_in_range(given.scores, frame, returning, frame + least, last + 1);
        named_neighbours(given.cuts, frame);
        best_target_lies_in_range(given.scores, frame, returning, frame + least, last + 1);
        assert(is_refined_peak(given.scores, to));
        assert(given.scores.contains_key(to));
    } else {
        shifts_take_out_sources(given, shifts, frame);
        let missed = missed_cuts(PeakKind::Refined, moved, distance);
        let reason = ScenecutDecision::CutRefinedSparsePeak;
        lemma_set_subset_finite(moved.scores.dom(), missed);
        promotion_turns(moved, ascending(missed), distance, reason, frame);
        let peaked = with_spaced_cuts(moved, ascending(missed), distance, reason);
        let gained = shift_targets(shifts).union(peaked.cuts.difference(moved.cuts));
        assert(peaked.cuts.contains(frame));
        assert(ends_short_return(peaked, gained, frame, base, distance));
        let next = first_after(peaked.cuts, frame).unwrap();
        let least = larger(base, 1);
        let to = choose|to: usize|
            frame + least <= to <= next - least && to - frame < distance
                && #[trigger] is_refined_peak(peaked.scores, to);
        promotion_only_adds(moved, ascending(missed), distance, reason);
        promotion_turns(moved, ascending(missed), distance, reason, to);
        assert(given.scores.contains_key(to));
        refined_decision_stays(given, shifts, to);
        assert(given.scores[to].decision == ScenecutDecision::NoCut);
        let before = (to - 1) as usize;
        if given.scores.contains_key(before) {
            promotion_turns(moved, ascending(missed), distance, reason, before);
            assert(peaked.scores[before].frame_luma_signature
                == given.scores[before].frame_luma_signature);
        } else {
            assert(!peaked.scores.contains_key(before));
        }
        assert(peaked.scores[to].frame_luma_signature == given.scores[to].frame_luma_signature);
        assert(frame_distance(peaked.scores, before, to) == frame_distance(
            given.scores,
            before,
            to,
        ));
    }
}

/// What has no verdict of its own after shifts had none before.
proof fn refined_decision_stays(state: Timeline, shifts: Seq<RefinedSparsePeakShift>, frame: usize)
    requires
        state.scores.contains_key(frame),
    ensures
        shifted(state, shifts).scores.contains_key(frame),
        shifted(state, shifts).scores[frame].decision == ScenecutDecision::NoCut
            ==> state.scores[frame].decision == ScenecutDecision::NoCut,
    decreases shifts.len(),
{
    if shifts.len() > 0 {
        refined_decision_stays(state, shifts.drop_last(), frame);
    }
}

} // verus!
