//! What each correction does to one frame.

use vstd::prelude::*;
use vstd::set_lib::lemma_set_subset_finite;
use crate::options::{larger, DetectionOptions};
use crate::postprocess::aba_chain::{by_length, chains_of, is_redundant};
use crate::postprocess::aba_chain::{boundaries_of, limits_of, redundant_in_turn};
use crate::postprocess::aba_chain::{without_chains, AbaChain};
use crate::postprocess::aba_return::{best_returns, is_best_return};
use crate::postprocess::aba_return::with_returns;
use crate::postprocess::common::{with_spaced_cuts, Timeline};
use crate::postprocess::laws::{ascending_members, is_finite, recovering_corrections_refine};
use crate::postprocess::laws::{shift_target_lies_between, shifts_come_from_cuts};
use crate::postprocess::laws::suppressing_corrections_refine;
use crate::postprocess::peaks::{is_missed_cut, min_distance_of, missed_cuts, with_dark_peaks};
use crate::postprocess::peaks::{with_sparse_peaks, PeakKind};
use crate::postprocess::recovery::{heads_recovery, is_recoverable, recoverable_inside};
use crate::postprocess::recovery::{recovery_groups, with_group, with_groups};
use crate::postprocess::recovery::with_recovered_cuts;
use crate::postprocess::refined::{best_target, is_shift_target};
use crate::postprocess::refined::{shifted, shifts_of, with_refined_peaks, RefinedSparsePeakShift};
use crate::postprocess::refined::REFINED_SPARSE_PEAK_MIN_DISTANCE;
use crate::postprocess::runs::{is_static_credits, is_text_card};
use crate::postprocess::runs::{without_static_credits, without_text_cards};
use crate::postprocess::text_boundary::{after_shifts, boundary_shift, boundary_shifts};
use crate::postprocess::text_boundary::{with_shifted_boundaries, BoundaryShiftCandidate};
use crate::postprocess::weak_cuts::{is_dark_occlusion, is_motion_split};
use crate::postprocess::weak_cuts::{without_dark_occlusions, without_early_splits};
use crate::postprocess::weak_cuts::without_micro_splits;
use crate::score::{ScenecutDecision, ScenecutResult};
use crate::timeline::{ascending, finite_sets_ascend, first_after};

use crate::measure::double;
use crate::postprocess::peaks::{REFINED_SPARSE_PEAK_MAX_COST_RATIO, REFINED_SPARSE_PEAK_MAX_GOOD_BLOCK_RATIO};
use crate::postprocess::peaks::{REFINED_SPARSE_PEAK_MAX_LUMA_8BIT, REFINED_SPARSE_PEAK_MIN_BAD_BLOCK_RATIO};
use crate::postprocess::peaks::{REFINED_SPARSE_PEAK_MIN_COST_RATIO, REFINED_SPARSE_PEAK_MIN_GLOBAL_IMP_RATIO};
use crate::postprocess::peaks::{REFINED_SPARSE_PEAK_MIN_IMP_RATIO, REFINED_SPARSE_PEAK_MIN_LUMA_8BIT};
use crate::postprocess::text_boundary::is_late_boundary;
use crate::postprocess::text_boundary::TEXT_BOUNDARY_SHIFT_MAX_BACKWARD_LUMA_8BIT;
use crate::postprocess::text_boundary::TEXT_BOUNDARY_SHIFT_MIN_BACKWARD_GLOBAL_IMP_RATIO;
use crate::postprocess::text_boundary::TEXT_BOUNDARY_SHIFT_MIN_BACKWARD_IMP_RATIO;

verus! {

/// A timeline as a run leaves it: the first frame has no score.
pub open spec fn is_run_of_video(state: Timeline) -> bool {
    is_finite(state) && !state.scores.contains_key(0)
}

/// Whether a frame is left as it is.
pub open spec fn left_alone(before: Timeline, after: Timeline, frame: usize) -> bool {
    after.cuts.contains(frame) == before.cuts.contains(frame) && after.scores[frame]
        == before.scores[frame]
}

/// Whether a cut is taken out, for the given reason.
pub open spec fn taken_out(
    before: Timeline,
    after: Timeline,
    frame: usize,
    reason: ScenecutDecision,
) -> bool {
    &&& before.cuts.contains(frame)
    &&& !after.cuts.contains(frame)
    &&& after.scores[frame] == before.scores[frame].decided(reason)
}

/// Whether a cut is put in, for the given reason.
pub open spec fn put_in(
    before: Timeline,
    after: Timeline,
    frame: usize,
    reason: ScenecutDecision,
) -> bool {
    &&& after.cuts.contains(frame)
    &&& after.scores[frame] == before.scores[frame].decided(reason)
}

/// The corrections leave timelines of a run.
pub(crate) proof fn corrections_leave_runs(opts: DetectionOptions, state: Timeline)
    requires
        is_run_of_video(state),
    ensures
        is_run_of_video(without_text_cards(state)),
        is_run_of_video(without_micro_splits(state)),
        is_run_of_video(without_dark_occlusions(state)),
        is_run_of_video(with_dark_peaks(opts, state)),
        is_run_of_video(with_sparse_peaks(opts, state)),
        is_run_of_video(with_refined_peaks(opts, state)),
        is_run_of_video(with_returns(opts, state)),
        is_run_of_video(without_chains(opts, state)),
        is_run_of_video(with_recovered_cuts(opts, state)),
        is_run_of_video(with_shifted_boundaries(opts, state)),
        is_run_of_video(without_static_credits(state)),
        is_run_of_video(
            crate::postprocess::forward_similarity::without_returns(
                opts.tuning.forward_similarity,
                state,
            ),
        ),
{
    suppressing_corrections_refine(opts, opts.tuning.forward_similarity, state);
    recovering_corrections_refine(opts, state);
    let all = state.cuts.union(state.scores.dom());
    lemma_set_subset_finite(all, without_text_cards(state).cuts);
    lemma_set_subset_finite(all, without_micro_splits(state).cuts);
    lemma_set_subset_finite(all, without_dark_occlusions(state).cuts);
    lemma_set_subset_finite(all, with_dark_peaks(opts, state).cuts);
    lemma_set_subset_finite(all, with_sparse_peaks(opts, state).cuts);
    lemma_set_subset_finite(all, with_refined_peaks(opts, state).cuts);
    lemma_set_subset_finite(all, with_returns(opts, state).cuts);
    lemma_set_subset_finite(all, without_chains(opts, state).cuts);
    lemma_set_subset_finite(all, with_recovered_cuts(opts, state).cuts);
    lemma_set_subset_finite(all, with_shifted_boundaries(opts, state).cuts);
    lemma_set_subset_finite(all, without_static_credits(state).cuts);
    lemma_set_subset_finite(
        all,
        crate::postprocess::forward_similarity::without_returns(
            opts.tuning.forward_similarity,
            state,
        ).cuts,
    );
}

/// A frame of a set stands in its ascending form, and the other way round.
pub(crate) proof fn ascending_holds(set: Set<usize>, frame: usize)
    requires
        set.finite(),
    ensures
        ascending(set).contains(frame) == set.contains(frame),
{
    finite_sets_ascend(set);
    assert(ascending(set).to_set().contains(frame) == ascending(set).contains(frame));
}

/// Spaced cuts are put in, and nothing else happens.
pub(crate) proof fn promotion_turns(
    state: Timeline,
    frames: Seq<usize>,
    distance: int,
    reason: ScenecutDecision,
    frame: usize,
)
    requires
        state.scores.contains_key(frame),
    ensures
        ({
            let after = with_spaced_cuts(state, frames, distance, reason);
            &&& after.scores.contains_key(frame)
            &&& left_alone(state, after, frame) || (frames.contains(frame) && put_in(
                state,
                after,
                frame,
                reason,
            ))
        }),
    decreases frames.len(),
{
    if frames.len() > 0 {
        let rest = frames.drop_last();
        promotion_turns(state, rest, distance, reason, frame);
        if rest.contains(frame) {
            assert(frames[rest.index_of(frame)] == frame);
        }
        assert(frames[frames.len() - 1] == frames.last());
    }
}

/// Splits are taken out, and nothing else happens.
proof fn split_turns(state: Timeline, cuts: Seq<usize>, starts: nat, frame: usize)
    requires
        state.scores.contains_key(frame),
        starts + 3 <= cuts.len(),
        forall|k: int| 0 <= k < cuts.len() ==> state.cuts.contains(#[trigger] cuts[k]),
    ensures
        ({
            let after = without_early_splits(state, cuts, starts);
            &&& after.scores.contains_key(frame)
            &&& left_alone(state, after, frame) || (taken_out(
                state,
                after,
                frame,
                ScenecutDecision::SuppressedFastMotion,
            ) && state.scores[frame].decision == ScenecutDecision::CutImportance && is_motion_split(
                state.scores[frame],
            ))
        }),
    decreases starts,
{
    if starts > 0 {
        split_turns(state, cuts, (starts - 1) as nat, frame);
        assert(state.cuts.contains(cuts[starts as int]));
        assert(state.cuts.contains(cuts[starts as int + 1]));
    }
}

/// What the corrections that take weak cuts out do to a frame.
pub(crate) proof fn thinning_turns(state: Timeline, frame: usize)
    requires
        is_run_of_video(state),
        state.scores.contains_key(frame),
    ensures
        without_text_cards(state).scores.contains_key(frame),
        left_alone(state, without_text_cards(state), frame) || (taken_out(
            state,
            without_text_cards(state),
            frame,
            ScenecutDecision::SuppressedTextCardCluster,
        ) && state.scores[frame].decision == ScenecutDecision::CutImportance && is_text_card(
            state.scores[frame],
        )),
        without_micro_splits(state).scores.contains_key(frame),
        left_alone(state, without_micro_splits(state), frame) || (taken_out(
            state,
            without_micro_splits(state),
            frame,
            ScenecutDecision::SuppressedFastMotion,
        ) && state.scores[frame].decision == ScenecutDecision::CutImportance && is_motion_split(
            state.scores[frame],
        )),
        without_dark_occlusions(state).scores.contains_key(frame),
        left_alone(state, without_dark_occlusions(state), frame) || (taken_out(
            state,
            without_dark_occlusions(state),
            frame,
            ScenecutDecision::SuppressedDarkOcclusion,
        ) && state.scores[frame].decision == ScenecutDecision::CutImportance && is_dark_occlusion(
            state.scores[frame],
        )),
        without_static_credits(state).scores.contains_key(frame),
        left_alone(state, without_static_credits(state), frame) || (taken_out(
            state,
            without_static_credits(state),
            frame,
            ScenecutDecision::SuppressedStaticCredits,
        ) && state.scores[frame].decision == ScenecutDecision::Cut && is_static_credits(
            state.scores[frame],
        )),
{
    let later = state.cuts.remove(0);
    ascending_members(later);
    let cuts = ascending(later);
    assert forall|k: int| 0 <= k < cuts.len() implies state.cuts.contains(#[trigger] cuts[k]) by {
        assert(later.contains(cuts[k]));
    }
    if cuts.len() >= 4 {
        split_turns(state, cuts, (cuts.len() - 3) as nat, frame);
    }
}

/// What the corrections that put missed peaks in do to a frame.
pub(crate) proof fn peak_turns(opts: DetectionOptions, state: Timeline, frame: usize)
    requires
        is_run_of_video(state),
        state.scores.contains_key(frame),
    ensures
        with_dark_peaks(opts, state).scores.contains_key(frame),
        left_alone(state, with_dark_peaks(opts, state), frame) || (put_in(
            state,
            with_dark_peaks(opts, state),
            frame,
            ScenecutDecision::CutDarkScenePeak,
        ) && state.scores[frame].decision == ScenecutDecision::NoCut && is_missed_cut(
            PeakKind::Dark,
            state,
            frame,
            min_distance_of(opts),
        )),
        with_sparse_peaks(opts, state).scores.contains_key(frame),
        left_alone(state, with_sparse_peaks(opts, state), frame) || (put_in(
            state,
            with_sparse_peaks(opts, state),
            frame,
            ScenecutDecision::CutSparseScenePeak,
        ) && state.scores[frame].decision == ScenecutDecision::NoCut && is_missed_cut(
            PeakKind::Sparse,
            state,
            frame,
            min_distance_of(opts),
        )),
        with_returns(opts, state).scores.contains_key(frame),
        left_alone(state, with_returns(opts, state), frame) || (put_in(
            state,
            with_returns(opts, state),
            frame,
            ScenecutDecision::CutAbaReturn,
        ) && (state.scores[frame].decision == ScenecutDecision::NoCut
            || state.scores[frame].decision == ScenecutDecision::SuppressedTransientSimilarity)
            && is_best_return(state, frame, min_distance_of(opts))),
{
    let distance = min_distance_of(opts);
    let dark = missed_cuts(PeakKind::Dark, state, distance);
    let sparse = missed_cuts(PeakKind::Sparse, state, distance);
    let best = best_returns(state, distance);
    lemma_set_subset_finite(state.scores.dom(), dark);
    lemma_set_subset_finite(state.scores.dom(), sparse);
    lemma_set_subset_finite(state.scores.dom(), best);
    ascending_holds(dark, frame);
    ascending_holds(sparse, frame);
    ascending_holds(best, frame);
    promotion_turns(
        state,
        ascending(dark),
        distance,
        ScenecutDecision::CutDarkScenePeak,
        frame,
    );
    promotion_turns(
        state,
        ascending(sparse),
        distance,
        ScenecutDecision::CutSparseScenePeak,
        frame,
    );
    promotion_turns(state, ascending(best), distance, ScenecutDecision::CutAbaReturn, frame);
}

/// The best target of a shift is a target.
proof fn best_target_is_target(
    scores: Map<usize, ScenecutResult>,
    from: usize,
    returning: usize,
    low: int,
    high: int,
)
    ensures
        best_target(scores, from, returning, low, high) matches Some(frame) ==> is_shift_target(
            scores,
            from,
            returning,
            frame,
        ),
    decreases high - low,
{
    if high > low {
        best_target_is_target(scores, from, returning, low, high - 1);
    }
}

/// Whether a score has the measurements of a strong peak.
pub open spec fn is_strong_peak(score: ScenecutResult) -> bool {
    &&& double(REFINED_SPARSE_PEAK_MIN_COST_RATIO).le(score.cost_ratio)
    &&& score.cost_ratio.le(double(REFINED_SPARSE_PEAK_MAX_COST_RATIO))
    &&& double(REFINED_SPARSE_PEAK_MIN_IMP_RATIO).le(score.imp_block_ratio)
    &&& double(REFINED_SPARSE_PEAK_MIN_GLOBAL_IMP_RATIO).le(score.global_imp_block_ratio)
    &&& double(REFINED_SPARSE_PEAK_MIN_LUMA_8BIT).le(score.avg_luma_8bit)
    &&& score.avg_luma_8bit.le(double(REFINED_SPARSE_PEAK_MAX_LUMA_8BIT))
    &&& double(REFINED_SPARSE_PEAK_MIN_BAD_BLOCK_RATIO).le(score.static_bad_block_ratio)
    &&& score.static_good_block_ratio.le(double(REFINED_SPARSE_PEAK_MAX_GOOD_BLOCK_RATIO))
}

/// Whether a score has the measurements of a change that a boundary may move to.
pub open spec fn is_shiftable(score: ScenecutResult) -> bool {
    ||| is_late_boundary(score)
    ||| {
        &&& score.decision == ScenecutDecision::NoCut || score.decision
            == ScenecutDecision::SuppressedImportance || score.decision
            == ScenecutDecision::SuppressedMinDistance
        &&& double(TEXT_BOUNDARY_SHIFT_MIN_BACKWARD_IMP_RATIO).le(score.imp_block_ratio)
        &&& double(TEXT_BOUNDARY_SHIFT_MIN_BACKWARD_GLOBAL_IMP_RATIO).le(
            score.global_imp_block_ratio,
        )
        &&& score.avg_luma_8bit.le(double(TEXT_BOUNDARY_SHIFT_MAX_BACKWARD_LUMA_8BIT))
    }
}

/// Shifts take one cut out and put one in, and nothing else happens.
proof fn shift_turns(state: Timeline, shifts: Seq<RefinedSparsePeakShift>, frame: usize)
    requires
        state.scores.contains_key(frame),
        forall|i: int|
            0 <= i < shifts.len() ==> {
                &&& state.cuts.contains((#[trigger] shifts[i]).from)
                &&& state.scores[shifts[i].from].decision == ScenecutDecision::CutSparseScenePeak
                &&& state.scores[shifts[i].to].decision == ScenecutDecision::NoCut
                &&& is_strong_peak(state.scores[shifts[i].to])
            },
    ensures
        ({
            let after = shifted(state, shifts);
            &&& after.scores.contains_key(frame)
            &&& {
                ||| left_alone(state, after, frame)
                ||| taken_out(
                    state,
                    after,
                    frame,
                    ScenecutDecision::SuppressedRefinedSparsePeak,
                ) && state.scores[frame].decision == ScenecutDecision::CutSparseScenePeak
                ||| put_in(state, after, frame, ScenecutDecision::CutRefinedSparsePeak)
                    && state.scores[frame].decision == ScenecutDecision::NoCut && is_strong_peak(
                    state.scores[frame],
                )
            }
        }),
    decreases shifts.len(),
{
    if shifts.len() > 0 {
        let rest = shifts.drop_last();
        assert forall|i: int| 0 <= i < rest.len() implies {
            &&& state.cuts.contains((#[trigger] rest[i]).from)
            &&& state.scores[rest[i].from].decision == ScenecutDecision::CutSparseScenePeak
            &&& state.scores[rest[i].to].decision == ScenecutDecision::NoCut
            &&& is_strong_peak(state.scores[rest[i].to])
        } by {
            assert(rest[i] == shifts[i]);
        }
        shift_turns(state, rest, frame);
        let shift = shifts[shifts.len() - 1];
        assert(state.cuts.contains(shift.from));
    }
}

/// What refining sparse peaks does to a frame.
pub(crate) proof fn refined_turns(opts: DetectionOptions, state: Timeline, frame: usize)
    requires
        is_run_of_video(state),
        state.scores.contains_key(frame),
    ensures
        ({
            let after = with_refined_peaks(opts, state);
            &&& after.scores.contains_key(frame)
            &&& {
                ||| left_alone(state, after, frame)
                ||| taken_out(
                    state,
                    after,
                    frame,
                    ScenecutDecision::SuppressedRefinedSparsePeak,
                ) && state.scores[frame].decision == ScenecutDecision::CutSparseScenePeak
                ||| put_in(state, after, frame, ScenecutDecision::CutRefinedSparsePeak)
                    && state.scores[frame].decision == ScenecutDecision::NoCut && is_strong_peak(
                    state.scores[frame],
                )
            }
        }),
{
    let base = min_distance_of(opts);
    let distance = larger(base, REFINED_SPARSE_PEAK_MIN_DISTANCE as int);
    ascending_members(state.cuts);
    let shifts = shifts_of(state, ascending(state.cuts), base);
    shifts_come_from_cuts(state, ascending(state.cuts), base);
    assert forall|i: int| 0 <= i < shifts.len() implies {
        &&& state.cuts.contains((#[trigger] shifts[i]).from)
        &&& state.scores[shifts[i].from].decision == ScenecutDecision::CutSparseScenePeak
        &&& state.scores[shifts[i].to].decision == ScenecutDecision::NoCut
        &&& is_strong_peak(state.scores[shifts[i].to])
    } by {
        let from = shifts[i].from;
        shift_target_lies_between(state, from, base);
        let next = first_after(state.cuts, from).unwrap();
        let returning = first_after(state.cuts, next).unwrap();
        let least = larger(base, 1);
        let last = if from + 40 <= next - least {
            from + 40
        } else {
            next - least
        };
        best_target_is_target(state.scores, from, returning, from + least, last + 1);
    }
    shift_turns(state, shifts, frame);
    let moved = shifted(state, shifts);
    refined_scores_stay(state, shifts);
    let missed = missed_cuts(PeakKind::Refined, moved, distance);
    lemma_set_subset_finite(moved.scores.dom(), missed);
    ascending_holds(missed, frame);
    promotion_turns(
        moved,
        ascending(missed),
        distance,
        ScenecutDecision::CutRefinedSparsePeak,
        frame,
    );
}

/// Shifts keep the frames that are scored.
proof fn refined_scores_stay(state: Timeline, shifts: Seq<RefinedSparsePeakShift>)
    ensures
        shifted(state, shifts).scores.dom() =~= state.scores.dom(),
    decreases shifts.len(),
{
    if shifts.len() > 0 {
        refined_scores_stay(state, shifts.drop_last());
    }
}

/// What chains make redundant are cuts of the kinds that they may.
pub(crate) proof fn redundant_are_redundant(
    state: Timeline,
    boundaries: Seq<usize>,
    chains: Seq<AbaChain>,
    frame: usize,
)
    ensures
        redundant_in_turn(state, boundaries, chains).contains(frame) ==> is_redundant(state, frame),
    decreases chains.len(),
{
    if chains.len() > 0 {
        redundant_are_redundant(state, boundaries, chains.drop_last(), frame);
    }
}

/// What taking out the cuts of chains does to a frame.
pub(crate) proof fn chain_turns(opts: DetectionOptions, state: Timeline, frame: usize)
    requires
        state.scores.contains_key(frame),
    ensures
        without_chains(opts, state).scores.contains_key(frame),
        left_alone(state, without_chains(opts, state), frame) || (taken_out(
            state,
            without_chains(opts, state),
            frame,
            ScenecutDecision::SuppressedAbaChain,
        ) && (state.scores[frame].decision == ScenecutDecision::Cut || state.scores[frame].decision
            == ScenecutDecision::CutImportance || state.scores[frame].decision
            == ScenecutDecision::CutAbaReturn)),
{
    let boundaries = ascending(boundaries_of(state));
    if boundaries.len() >= 3 {
        redundant_are_redundant(
            state,
            boundaries,
            by_length(chains_of(state, boundaries, limits_of(opts), (boundaries.len() - 2) as nat)),
            frame,
        );
    }
}

/// A group is put in, and nothing else happens.
proof fn group_turns(state: Timeline, group: Seq<usize>, frame: usize)
    requires
        state.scores.contains_key(frame),
    ensures
        with_group(state, group).scores.contains_key(frame),
        left_alone(state, with_group(state, group), frame) || (group.contains(frame) && put_in(
            state,
            with_group(state, group),
            frame,
            ScenecutDecision::CutForwardSimilarityRecovery,
        )),
    decreases group.len(),
{
    if group.len() > 0 {
        let rest = group.drop_last();
        group_turns(state, rest, frame);
        if rest.contains(frame) {
            assert(group[rest.index_of(frame)] == frame);
        }
        assert(group[group.len() - 1] == group.last());
    }
}

/// Groups are put in, and nothing else happens.
proof fn groups_turn(state: Timeline, groups: Seq<Seq<usize>>, distance: int, frame: usize)
    requires
        state.scores.contains_key(frame),
    ensures
        ({
            let after = with_groups(state, groups, distance);
            &&& after.scores.contains_key(frame)
            &&& left_alone(state, after, frame) || (put_in(
                state,
                after,
                frame,
                ScenecutDecision::CutForwardSimilarityRecovery,
            ) && exists|i: int|
                0 <= i < groups.len() && (#[trigger] groups[i]).contains(frame))
        }),
    decreases groups.len(),
{
    if groups.len() > 0 {
        let rest = groups.drop_last();
        groups_turn(state, rest, distance, frame);
        let before = with_groups(state, rest, distance);
        group_turns(before, groups.last(), frame);
        if exists|i: int| 0 <= i < rest.len() && (#[trigger] rest[i]).contains(frame) {
            let i = choose|i: int| 0 <= i < rest.len() && (#[trigger] rest[i]).contains(frame);
            assert(groups[i].contains(frame));
        }
        assert(groups[groups.len() - 1] == groups.last());
    }
}

/// The frames of the groups are strong cuts that a return suppressed.
proof fn groups_are_recoverable(
    scores: Map<usize, ScenecutResult>,
    frames: Seq<usize>,
    distance: int,
    frame: usize,
)
    requires
        scores.dom().finite(),
    ensures
        forall|i: int|
            0 <= i < recovery_groups(scores, frames, distance).len() && (
            #[trigger] recovery_groups(scores, frames, distance)[i]).contains(frame)
                ==> is_recoverable(scores, frame),
    decreases frames.len(),
{
    if frames.len() > 0 {
        groups_are_recoverable(scores, frames.drop_last(), distance, frame);
        let head = frames.last();
        if heads_recovery(scores, head, distance) {
            let inside = recoverable_inside(
                scores,
                head,
                scores[head].forward_return_frame.unwrap(),
                distance,
            );
            lemma_set_subset_finite(scores.dom(), inside);
            ascending_holds(inside.insert(head), frame);
        }
        let before = recovery_groups(scores, frames.drop_last(), distance);
        let groups = recovery_groups(scores, frames, distance);
        assert forall|i: int|
            0 <= i < groups.len() && (#[trigger] groups[i]).contains(frame) implies is_recoverable(
            scores,
            frame,
        ) by {
            if i < before.len() {
                assert(before[i].contains(frame));
            }
        }
    }
}

/// What recovering suppressed cuts does to a frame.
pub(crate) proof fn recovery_turns(opts: DetectionOptions, state: Timeline, frame: usize)
    requires
        is_run_of_video(state),
        state.scores.contains_key(frame),
    ensures
        with_recovered_cuts(opts, state).scores.contains_key(frame),
        left_alone(state, with_recovered_cuts(opts, state), frame) || (put_in(
            state,
            with_recovered_cuts(opts, state),
            frame,
            ScenecutDecision::CutForwardSimilarityRecovery,
        ) && is_recoverable(state.scores, frame)),
{
    let distance = min_distance_of(opts);
    let frames = ascending(state.scores.dom());
    groups_are_recoverable(state.scores, frames, distance, frame);
    groups_turn(state, recovery_groups(state.scores, frames, distance), distance, frame);
}

/// Boundary shifts take one cut out and put one in, and nothing else happens.
pub(crate) proof fn boundary_turns(
    state: Timeline,
    shifts: Seq<BoundaryShiftCandidate>,
    distance: int,
    frame: usize,
)
    requires
        state.scores.contains_key(frame),
        forall|i: int|
            0 <= i < shifts.len() ==> {
                &&& state.cuts.contains((#[trigger] shifts[i]).from)
                &&& !state.cuts.contains(shifts[i].to)
                &&& is_shiftable(state.scores[shifts[i].to])
                &&& {
                    let decision = state.scores[shifts[i].to].decision;
                    ||| decision == ScenecutDecision::NoCut
                    ||| decision == ScenecutDecision::SuppressedImportance
                    ||| decision == ScenecutDecision::SuppressedMinDistance
                }
            },
    ensures
        ({
            let after = after_shifts(state, shifts, distance);
            let decision = state.scores[frame].decision;
            &&& after.scores.contains_key(frame)
            &&& {
                ||| left_alone(state, after, frame)
                ||| taken_out(state, after, frame, ScenecutDecision::SuppressedShiftedBoundary)
                ||| put_in(state, after, frame, ScenecutDecision::CutShiftedBoundary)
                    && !state.cuts.contains(frame) && (decision == ScenecutDecision::NoCut
                    || decision == ScenecutDecision::SuppressedImportance || decision
                    == ScenecutDecision::SuppressedMinDistance) && is_shiftable(
                    state.scores[frame],
                )
            }
        }),
    decreases shifts.len(),
{
    if shifts.len() > 0 {
        let rest = shifts.drop_last();
        assert forall|i: int| 0 <= i < rest.len() implies {
            &&& state.cuts.contains((#[trigger] rest[i]).from)
            &&& !state.cuts.contains(rest[i].to)
            &&& is_shiftable(state.scores[rest[i].to])
            &&& {
                let decision = state.scores[rest[i].to].decision;
                ||| decision == ScenecutDecision::NoCut
                ||| decision == ScenecutDecision::SuppressedImportance
                ||| decision == ScenecutDecision::SuppressedMinDistance
            }
        } by {
            assert(rest[i] == shifts[i]);
        }
        boundary_turns(state, rest, distance, frame);
        let shift = shifts[shifts.len() - 1];
        assert(state.cuts.contains(shift.from));
    }
}

/// What the shifts near some frames are.
pub(crate) proof fn shifts_are_shifts(state: Timeline, frames: Seq<usize>, distance: int)
    ensures
        ({
            let shifts = boundary_shifts(state, frames, distance);
            forall|i: int|
                0 <= i < shifts.len() ==> boundary_shift(
                    state,
                    (#[trigger] shifts[i]).to,
                    distance,
                ) == Some(shifts[i])
        }),
    decreases frames.len(),
{
    if frames.len() > 0 {
        shifts_are_shifts(state, frames.drop_last(), distance);
    }
}

/// What shifting boundaries does to a frame.
pub(crate) proof fn shifted_turns(opts: DetectionOptions, state: Timeline, frame: usize)
    requires
        is_run_of_video(state),
        state.scores.contains_key(frame),
    ensures
        ({
            let after = with_shifted_boundaries(opts, state);
            let decision = state.scores[frame].decision;
            &&& after.scores.contains_key(frame)
            &&& {
                ||| left_alone(state, after, frame)
                ||| taken_out(state, after, frame, ScenecutDecision::SuppressedShiftedBoundary)
                ||| put_in(state, after, frame, ScenecutDecision::CutShiftedBoundary)
                    && !state.cuts.contains(frame) && (decision == ScenecutDecision::NoCut
                    || decision == ScenecutDecision::SuppressedImportance || decision
                    == ScenecutDecision::SuppressedMinDistance) && is_shiftable(
                    state.scores[frame],
                )
            }
        }),
{
    let distance = min_distance_of(opts);
    let frames = ascending(state.scores.dom());
    let shifts = boundary_shifts(state, frames, distance);
    shifts_are_shifts(state, frames, distance);
    assert forall|i: int| 0 <= i < shifts.len() implies {
        &&& state.cuts.contains((#[trigger] shifts[i]).from)
        &&& !state.cuts.contains(shifts[i].to)
        &&& is_shiftable(state.scores[shifts[i].to])
        &&& {
            let decision = state.scores[shifts[i].to].decision;
            ||| decision == ScenecutDecision::NoCut
            ||| decision == ScenecutDecision::SuppressedImportance
            ||| decision == ScenecutDecision::SuppressedMinDistance
        }
    } by {
        crate::postprocess::laws::named_neighbours(state.cuts, shifts[i].to);
    }
    boundary_turns(state, shifts, distance, frame);
}

} // verus!
