//! What the corrections keep.

use vstd::prelude::*;
use vstd::set_lib::lemma_set_subset_finite;
use crate::options::{larger, DetectionOptions, ForwardSimilarityOptions, SceneDetectionSpeed};
use crate::postprocess::aba_chain::{boundaries_of, by_length, chain_end, chained_cuts};
use crate::postprocess::aba_chain::{chains_of, goes_first, limits_of, redundant_cuts};
use crate::postprocess::aba_chain::{redundant_in_turn, without_chains, AbaChain, SegmentLimits};
use crate::postprocess::aba_return::{best_returns, return_candidate, with_returns};
use crate::postprocess::common::{signature_distance, with_spaced_cuts, Timeline};
use crate::postprocess::forward_similarity::{after_frame, after_frames, suppressible};
use crate::postprocess::forward_similarity::{with_inside_suppressed, without_returns};
use crate::postprocess::forward_similarity::PostprocessForwardSimilarityMatch;
use crate::postprocess::peaks::{is_missed_cut, min_distance_of, missed_cuts, with_dark_peaks};
use crate::postprocess::peaks::{has_edge, with_sparse_peaks, PeakKind};
use crate::postprocess::recovery::{heads_recovery, is_recoverable, recoverable_inside};
use crate::postprocess::recovery::{recovery_group, recovery_groups, with_group, with_groups};
use crate::postprocess::recovery::with_recovered_cuts;
use crate::postprocess::refined::{best_target, is_shift_target, shift_target, shifted, shifts_of};
use crate::postprocess::refined::{short_returns, with_refined_peaks, RefinedSparsePeakShift};
use crate::postprocess::runs::{later_run_cuts, run_cuts, without_static_credits, without_text_cards};
use crate::postprocess::text_boundary::{after_shifts, boundary_shift, boundary_shifts};
use crate::postprocess::text_boundary::{with_shifted_boundaries, BoundaryShiftCandidate};
use crate::postprocess::weak_cuts::{without_dark_occlusions, without_early_splits};
use crate::postprocess::weak_cuts::without_micro_splits;
use crate::postprocess::corrected;
use crate::score::{ScenecutDecision, ScenecutResult, FRAME_LUMA_SIGNATURE_CELLS};
use crate::timeline::{ascending, finite_sets_ascend, first_after, increasing, is_first_after};
use crate::timeline::{is_last_before, last_before};

verus! {

/// Whether a timeline has finitely many cuts and scores, as every held one has.
pub open spec fn is_finite(state: Timeline) -> bool {
    state.cuts.finite() && state.scores.dom().finite()
}

/// Whether two records agree on everything that was measured.
pub open spec fn same_measurements(before: ScenecutResult, after: ScenecutResult) -> bool {
    after == (ScenecutResult {
        decision: after.decision,
        forward_return_frame: after.forward_return_frame,
        forward_similarity_score: after.forward_similarity_score,
        forward_similarity_candidates: after.forward_similarity_candidates,
        ..before
    })
}

/// Whether a correction only moved cuts among the cuts and scored frames, kept
/// the measurements, and left the first frame of the video alone.
pub open spec fn refines(before: Timeline, after: Timeline) -> bool {
    &&& after.cuts.subset_of(before.cuts.union(before.scores.dom()))
    &&& after.scores.dom() == before.scores.dom()
    &&& forall|frame: usize| #[trigger]
        before.scores.contains_key(frame) ==> same_measurements(
            before.scores[frame],
            after.scores[frame],
        )
    &&& after.cuts.contains(0) == before.cuts.contains(0)
    &&& before.scores.contains_key(0) ==> after.scores[0] == before.scores[0]
}

/// Corrections in turn are a correction.
pub(crate) proof fn refinement_is_transitive(first: Timeline, second: Timeline, third: Timeline)
    requires
        is_finite(first),
        refines(first, second),
        refines(second, third),
    ensures
        is_finite(second),
        is_finite(third),
        refines(first, third),
{
    lemma_set_subset_finite(first.cuts.union(first.scores.dom()), second.cuts);
    lemma_set_subset_finite(second.cuts.union(second.scores.dom()), third.cuts);
    assert forall|frame: usize| #[trigger]
        first.scores.contains_key(frame) implies same_measurements(
        first.scores[frame],
        third.scores[frame],
    ) by {
        assert(second.scores.contains_key(frame));
    }
}

/// A neighbour that is named is one.
pub(crate) proof fn named_neighbours(cuts: Set<usize>, frame: usize)
    ensures
        last_before(cuts, frame) matches Some(previous) ==> is_last_before(cuts, frame, previous),
        first_after(cuts, frame) matches Some(next) ==> is_first_after(cuts, frame, next),
{
}

/// Every frame of an ascending form is a member.
pub(crate) proof fn ascending_members(set: Set<usize>)
    requires
        set.finite(),
    ensures
        increasing(ascending(set)),
        forall|k: int| 0 <= k < ascending(set).len() ==> set.contains(#[trigger] ascending(set)[k]),
{
    finite_sets_ascend(set);
    assert forall|k: int| 0 <= k < ascending(set).len() implies set.contains(
        #[trigger] ascending(set)[k],
    ) by {
        assert(ascending(set).contains(ascending(set)[k]));
        assert(ascending(set).to_set().contains(ascending(set)[k]));
    }
}

/// Frames after the first of the video can be counted by machine numbers.
pub(crate) proof fn later_frames_are_countable(frames: Seq<usize>)
    requires
        increasing(frames),
        forall|k: int| 0 <= k < frames.len() ==> #[trigger] frames[k] != 0,
    ensures
        frames.len() <= usize::MAX,
        frames.len() > 0 ==> frames.len() <= frames.last(),
    decreases frames.len(),
{
    if frames.len() > 1 {
        let rest = frames.drop_last();
        assert forall|k: int| 0 <= k < rest.len() implies #[trigger] rest[k] != 0 by {
            assert(frames[k] != 0);
        }
        later_frames_are_countable(rest);
        assert(rest.last() < frames.last());
    } else if frames.len() == 1 {
        assert(frames[0] != 0);
    }
}

/// Taking a later cut out is a correction.
proof fn without_cut_refines(state: Timeline, frame: usize, decision: ScenecutDecision)
    requires
        frame != 0,
    ensures
        refines(state, state.without_cut(frame, decision)),
{
    assert(state.without_cut(frame, decision).scores.dom() =~= state.scores.dom());
}

/// Putting a cut at a later, scored frame is a correction.
proof fn with_cut_refines(state: Timeline, frame: usize, decision: ScenecutDecision)
    requires
        frame != 0,
        state.scores.contains_key(frame),
    ensures
        refines(state, state.with_cut(frame, decision)),
{
    assert(state.with_cut(frame, decision).scores.dom() =~= state.scores.dom());
}

/// Taking later cuts out is a correction.
proof fn without_cuts_refines(state: Timeline, frames: Set<usize>, decision: ScenecutDecision)
    requires
        !frames.contains(0),
    ensures
        refines(state, state.without_cuts(frames, decision)),
{
    assert(state.without_cuts(frames, decision).scores.dom() =~= state.scores.dom());
}

/// Putting cuts at later, scored frames is a correction.
proof fn with_spaced_cuts_refines(
    state: Timeline,
    frames: Seq<usize>,
    min_distance: int,
    decision: ScenecutDecision,
)
    requires
        is_finite(state),
        forall|k: int|
            0 <= k < frames.len() ==> #[trigger] frames[k] != 0 && state.scores.contains_key(
                frames[k],
            ),
    ensures
        refines(state, with_spaced_cuts(state, frames, min_distance, decision)),
    decreases frames.len(),
{
    if frames.len() > 0 {
        with_spaced_cuts_refines(state, frames.drop_last(), min_distance, decision);
        let before = with_spaced_cuts(state, frames.drop_last(), min_distance, decision);
        assert(frames.last() == frames[frames.len() - 1]);
        with_cut_refines(before, frames.last(), decision);
        refinement_is_transitive(state, before, before.with_cut(frames.last(), decision));
    }
}

/// Missed cuts are later, scored frames.
proof fn missed_cuts_are_scored(kind: PeakKind, state: Timeline, min_distance: int)
    requires
        is_finite(state),
    ensures
        ({
            let frames = ascending(missed_cuts(kind, state, min_distance));
            forall|k: int|
                0 <= k < frames.len() ==> #[trigger] frames[k] != 0 && state.scores.contains_key(
                    frames[k],
                )
        }),
{
    let set = missed_cuts(kind, state, min_distance);
    lemma_set_subset_finite(state.scores.dom(), set);
    ascending_members(set);
    assert forall|k: int| 0 <= k < ascending(set).len() implies #[trigger] ascending(set)[k] != 0
        && state.scores.contains_key(ascending(set)[k]) by {
        let frame = ascending(set)[k];
        assert(set.contains(frame));
        assert(is_missed_cut(kind, state, frame, min_distance));
        named_neighbours(state.cuts, frame);
    }
}

/// Taking micro splits out is a correction.
proof fn early_splits_refine(state: Timeline, cuts: Seq<usize>, starts: nat)
    requires
        is_finite(state),
        starts + 3 <= cuts.len(),
        forall|k: int| 0 <= k < cuts.len() ==> #[trigger] cuts[k] != 0,
    ensures
        refines(state, without_early_splits(state, cuts, starts)),
    decreases starts,
{
    if starts > 0 {
        let at = starts - 1;
        early_splits_refine(state, cuts, at as nat);
        let before = without_early_splits(state, cuts, at as nat);
        let decision = ScenecutDecision::SuppressedFastMotion;
        let between = before.without_cut(cuts[at + 1], decision);
        let after = between.without_cut(cuts[at + 2], decision);
        without_cut_refines(before, cuts[at + 1], decision);
        without_cut_refines(between, cuts[at + 2], decision);
        refinement_is_transitive(state, before, between);
        refinement_is_transitive(state, between, after);
    }
}

/// The best target of a shift is a scored frame of the range.
pub(crate) proof fn best_target_lies_in_range(
    scores: Map<usize, ScenecutResult>,
    from: usize,
    returning: usize,
    low: int,
    high: int,
)
    requires
        0 <= low,
        high <= usize::MAX + 1,
    ensures
        best_target(scores, from, returning, low, high) matches Some(frame) ==> {
            &&& low <= frame < high
            &&& is_shift_target(scores, from, returning, frame)
        },
    decreases high - low,
{
    if high > low {
        best_target_lies_in_range(scores, from, returning, low, high - 1);
    }
}

/// A cut moves to a scored frame before the next cut, away from both.
pub(crate) proof fn shift_target_lies_between(state: Timeline, frame: usize, min_distance: int)
    requires
        min_distance >= 0,
    ensures
        shift_target(state, frame, min_distance) matches Some(to) ==> {
            &&& state.scores.contains_key(to)
            &&& state.scores.contains_key(frame)
            &&& state.scores[frame].decision == ScenecutDecision::CutSparseScenePeak
            &&& first_after(state.cuts, frame) matches Some(next) && {
                &&& frame + larger(min_distance, 1) <= to
                &&& to + larger(min_distance, 1) <= next
            }
        },
{
    if shift_target(state, frame, min_distance) is Some {
        let distance = larger(min_distance, 1);
        let next = first_after(state.cuts, frame).unwrap();
        let returning = first_after(state.cuts, next).unwrap();
        let last = if frame + 40 <= next - distance {
            frame + 40
        } else {
            next - distance
        };
        best_target_lies_in_range(state.scores, frame, returning, frame + distance, last + 1);
    }
}

/// What the shifts of some cuts are.
pub(crate) proof fn shifts_come_from_cuts(state: Timeline, cuts: Seq<usize>, min_distance: int)
    requires
        min_distance >= 0,
        increasing(cuts),
        forall|k: int| 0 <= k < cuts.len() ==> state.cuts.contains(#[trigger] cuts[k]),
    ensures
        ({
            let shifts = shifts_of(state, cuts, min_distance);
            &&& forall|i: int|
                0 <= i < shifts.len() ==> {
                    &&& state.cuts.contains((#[trigger] shifts[i]).from)
                    &&& shift_target(state, shifts[i].from, min_distance) == Some(shifts[i].to)
                }
            &&& forall|i: int, j: int|
                0 <= i < j < shifts.len() ==> shifts[i].from < shifts[j].from
            &&& forall|i: int|
                0 <= i < shifts.len() && cuts.len() > 0 ==> (#[trigger] shifts[i]).from
                    <= cuts.last()
            &&& cuts.len() == 0 ==> shifts.len() == 0
        }),
    decreases cuts.len(),
{
    if cuts.len() > 0 {
        let rest = cuts.drop_last();
        assert forall|k: int| 0 <= k < rest.len() implies state.cuts.contains(
            #[trigger] rest[k],
        ) by {
            assert(rest[k] == cuts[k]);
        }
        shifts_come_from_cuts(state, rest, min_distance);
        let before = shifts_of(state, rest, min_distance);
        let shifts = shifts_of(state, cuts, min_distance);
        assert(state.cuts.contains(cuts[cuts.len() - 1]));
        if rest.len() > 0 {
            assert(rest.last() < cuts.last());
        }
        assert forall|i: int, j: int| 0 <= i < j < shifts.len() implies shifts[i].from
            < shifts[j].from by {
            assert(before[i].from <= rest.last());
        }
    }
}

/// Shifts of cuts are a correction, where the first frame of the video does not
/// move.
proof fn shifts_refine(state: Timeline, shifts: Seq<RefinedSparsePeakShift>)
    requires
        is_finite(state),
        forall|i: int|
            0 <= i < shifts.len() ==> (#[trigger] shifts[i]).from != 0 && shifts[i].to != 0
                && state.scores.contains_key(shifts[i].to),
    ensures
        refines(state, shifted(state, shifts)),
    decreases shifts.len(),
{
    if shifts.len() > 0 {
        let rest = shifts.drop_last();
        shifts_refine(state, rest);
        let before = shifted(state, rest);
        let shift = shifts[shifts.len() - 1];
        let between = before.without_cut(
            shift.from,
            ScenecutDecision::SuppressedRefinedSparsePeak,
        );
        without_cut_refines(
            before,
            shift.from,
            ScenecutDecision::SuppressedRefinedSparsePeak,
        );
        refinement_is_transitive(state, before, between);
        with_cut_refines(between, shift.to, ScenecutDecision::CutRefinedSparsePeak);
        refinement_is_transitive(
            state,
            between,
            between.with_cut(shift.to, ScenecutDecision::CutRefinedSparsePeak),
        );
    }
}

/// A chain ends no later than the boundaries do.
proof fn chain_end_is_bounded(
    scores: Map<usize, ScenecutResult>,
    boundaries: Seq<usize>,
    limits: SegmentLimits,
    start: int,
    at: int,
)
    requires
        at <= boundaries.len(),
    ensures
        at <= chain_end(scores, boundaries, limits, start, at) <= boundaries.len(),
    decreases boundaries.len() - at,
{
    if at < boundaries.len() {
        chain_end_is_bounded(scores, boundaries, limits, start, at + 1);
    }
}

/// Chains lie within the boundaries.
proof fn chains_are_bounded(
    state: Timeline,
    boundaries: Seq<usize>,
    limits: SegmentLimits,
    starts: nat,
)
    requires
        starts + 2 <= boundaries.len() <= usize::MAX,
    ensures
        forall|chain: AbaChain| #[trigger]
            chains_of(state, boundaries, limits, starts).contains(chain) ==> chain.end
                <= boundaries.len(),
    decreases starts,
{
    if starts > 0 {
        let rest = (starts - 1) as nat;
        chains_are_bounded(state, boundaries, limits, rest);
        chain_end_is_bounded(state.scores, boundaries, limits, starts - 1, (starts + 1) as int);
        let before = chains_of(state, boundaries, limits, rest);
        let all = chains_of(state, boundaries, limits, starts);
        assert forall|chain: AbaChain| #[trigger] all.contains(chain) implies chain.end
            <= boundaries.len() by {
            let k = all.index_of(chain);
            if k < before.len() {
                assert(before[k] == chain);
                assert(before.contains(chain));
            }
        }
    }
}

/// Redundant cuts are boundaries.
proof fn redundant_cuts_are_boundaries(
    state: Timeline,
    boundaries: Seq<usize>,
    chains: Seq<AbaChain>,
)
    requires
        forall|k: int| 0 <= k < chains.len() ==> (#[trigger] chains[k]).end <= boundaries.len(),
    ensures
        forall|frame: usize| #[trigger]
            redundant_in_turn(state, boundaries, chains).contains(frame) ==> boundaries.contains(
                frame,
            ) && state.cuts.contains(frame),
    decreases chains.len(),
{
    if chains.len() > 0 {
        let rest = chains.drop_last();
        redundant_cuts_are_boundaries(state, boundaries, rest);
        let chain = chains[chains.len() - 1];
        let own = redundant_cuts(state, boundaries, chain);
        assert forall|frame: usize| #[trigger] own.contains(frame) implies boundaries.contains(
            frame,
        ) && state.cuts.contains(frame) by {
            let at = choose|at: int|
                chain.start < at < chain.end - 1 && #[trigger] boundaries[at] == frame
                    && crate::postprocess::aba_chain::is_redundant(state, frame);
            assert(boundaries[at] == frame);
        }
        let before = redundant_in_turn(state, boundaries, rest);
        let after = redundant_in_turn(state, boundaries, chains);
        assert forall|frame: usize| #[trigger] after.contains(frame) implies boundaries.contains(
            frame,
        ) && state.cuts.contains(frame) by {
            assert(before.contains(frame) || own.contains(frame));
        }
    }
}

/// The first frame of the video is no redundant cut.
proof fn first_frame_is_never_redundant(opts: DetectionOptions, state: Timeline)
    requires
        is_finite(state),
    ensures
        !chained_cuts(opts, state).contains(0),
        chained_cuts(opts, state).subset_of(state.cuts),
{
    let set = boundaries_of(state);
    let hidden = set.difference(state.cuts.remove(0));
    lemma_set_subset_finite(state.cuts.union(state.scores.dom()), set);
    ascending_members(set);
    let boundaries = ascending(set);
    assert forall|k: int| 0 <= k < boundaries.len() implies #[trigger] boundaries[k] != 0 by {
        assert(set.contains(boundaries[k]));
    }
    later_frames_are_countable(boundaries);
    if boundaries.len() >= 3 {
        let starts = (boundaries.len() - 2) as nat;
        let chains = chains_of(state, boundaries, limits_of(opts), starts);
        let order = |left: AbaChain, right: AbaChain| goes_first(left, right);
        chains_are_bounded(state, boundaries, limits_of(opts), starts);
        chains.lemma_sort_by_ensures(order);
        let sorted = by_length(chains);
        assert forall|k: int| 0 <= k < sorted.len() implies (#[trigger] sorted[k]).end
            <= boundaries.len() by {
            assert(sorted.contains(sorted[k]));
            assert(chains.contains(sorted[k]));
        }
        redundant_cuts_are_boundaries(state, boundaries, sorted);
        assert forall|frame: usize| #[trigger]
            chained_cuts(opts, state).contains(frame) implies frame != 0 && state.cuts.contains(
            frame,
        ) by {
            let k = boundaries.index_of(frame);
            assert(set.contains(boundaries[k]));
        }
    }
}

/// A signature does not differ from itself.
proof fn signature_matches_itself(signature: Seq<u8>, cells: nat)
    ensures
        signature_distance(signature, signature, cells) == 0,
    decreases cells,
{
    if cells > 0 {
        signature_matches_itself(signature, (cells - 1) as nat);
    }
}

/// The first frame of the video has no edge.
proof fn first_frame_has_no_edge(scores: Map<usize, ScenecutResult>, min_delta_8bit: u32)
    requires
        min_delta_8bit > 0,
    ensures
        !has_edge(scores, 0, min_delta_8bit),
{
    if scores.contains_key(0) && scores[0].frame_luma_signature is Some {
        signature_matches_itself(
            scores[0].frame_luma_signature.unwrap()@,
            FRAME_LUMA_SIGNATURE_CELLS as nat,
        );
        assert(min_delta_8bit * FRAME_LUMA_SIGNATURE_CELLS > 0) by (nonlinear_arith)
            requires
                min_delta_8bit > 0,
                FRAME_LUMA_SIGNATURE_CELLS > 0,
        ;
    }
}

/// Groups that are recovered are later, scored frames.
proof fn groups_are_scored(
    scores: Map<usize, ScenecutResult>,
    frames: Seq<usize>,
    min_distance: int,
)
    requires
        scores.dom().finite(),
    ensures
        ({
            let groups = recovery_groups(scores, frames, min_distance);
            forall|i: int, k: int|
                0 <= i < groups.len() && 0 <= k < groups[i].len() ==> {
                    &&& #[trigger] groups[i][k] != 0
                    &&& scores.contains_key(groups[i][k])
                }
        }),
    decreases frames.len(),
{
    if frames.len() > 0 {
        let rest = frames.drop_last();
        groups_are_scored(scores, rest, min_distance);
        let frame = frames.last();
        if heads_recovery(scores, frame, min_distance) {
            let inside = recoverable_inside(
                scores,
                frame,
                scores[frame].forward_return_frame.unwrap(),
                min_distance,
            );
            lemma_set_subset_finite(scores.dom(), inside);
            ascending_members(inside.insert(frame));
            first_frame_has_no_edge(scores, 20);
            let group = recovery_group(scores, frame, min_distance);
            assert forall|k: int| 0 <= k < group.len() implies #[trigger] group[k] != 0
                && scores.contains_key(group[k]) by {
                assert(inside.insert(frame).contains(group[k]));
                assert(is_recoverable(scores, group[k]));
            }
            let before = recovery_groups(scores, rest, min_distance);
            let groups = recovery_groups(scores, frames, min_distance);
            assert(groups =~= before.push(group));
            assert forall|i: int, k: int|
                0 <= i < groups.len() && 0 <= k < groups[i].len() implies #[trigger] groups[i][k]
                != 0 && scores.contains_key(groups[i][k]) by {
                if i < before.len() {
                    assert(groups[i] == before[i]);
                    assert(before[i][k] != 0);
                } else {
                    assert(groups[i] == group);
                    assert(group[k] != 0);
                }
            }
        } else {
            assert(recovery_groups(scores, frames, min_distance) == recovery_groups(
                scores,
                rest,
                min_distance,
            ));
        }
    }
}

/// Recovering a group is a correction.
proof fn group_refines(state: Timeline, group: Seq<usize>)
    requires
        is_finite(state),
        forall|k: int|
            0 <= k < group.len() ==> #[trigger] group[k] != 0 && state.scores.contains_key(
                group[k],
            ),
    ensures
        refines(state, with_group(state, group)),
    decreases group.len(),
{
    if group.len() > 0 {
        let rest = group.drop_last();
        group_refines(state, rest);
        let before = with_group(state, rest);
        let last = group[group.len() - 1];
        with_cut_refines(before, last, ScenecutDecision::CutForwardSimilarityRecovery);
        refinement_is_transitive(
            state,
            before,
            before.with_cut(last, ScenecutDecision::CutForwardSimilarityRecovery),
        );
    }
}

/// Recovering groups in turn is a correction.
proof fn groups_refine(state: Timeline, groups: Seq<Seq<usize>>, min_distance: int)
    requires
        is_finite(state),
        forall|i: int, k: int|
            0 <= i < groups.len() && 0 <= k < groups[i].len() ==> #[trigger] groups[i][k] != 0
                && state.scores.contains_key(groups[i][k]),
    ensures
        refines(state, with_groups(state, groups, min_distance)),
    decreases groups.len(),
{
    if groups.len() > 0 {
        let rest = groups.drop_last();
        assert forall|i: int, k: int|
            0 <= i < rest.len() && 0 <= k < rest[i].len() implies #[trigger] rest[i][k] != 0
            && state.scores.contains_key(rest[i][k]) by {
            assert(groups[i][k] != 0);
        }
        groups_refine(state, rest, min_distance);
        let before = with_groups(state, rest, min_distance);
        let group = groups[groups.len() - 1];
        refinement_is_transitive(state, state, before);
        assert forall|k: int| 0 <= k < group.len() implies #[trigger] group[k] != 0
            && before.scores.contains_key(group[k]) by {
            assert(groups[groups.len() - 1][k] != 0);
        }
        group_refines(before, group);
        refinement_is_transitive(state, before, with_group(before, group));
    }
}

/// Where boundaries shift from and to.
proof fn boundary_shifts_are_scored(state: Timeline, frames: Seq<usize>, min_distance: int)
    ensures
        ({
            let shifts = boundary_shifts(state, frames, min_distance);
            forall|i: int|
                0 <= i < shifts.len() ==> (#[trigger] shifts[i]).from != 0 && shifts[i].to != 0
                    && state.scores.contains_key(shifts[i].to)
        }),
    decreases frames.len(),
{
    if frames.len() > 0 {
        let rest = frames.drop_last();
        boundary_shifts_are_scored(state, rest, min_distance);
        named_neighbours(state.cuts, frames.last());
        let before = boundary_shifts(state, rest, min_distance);
        let shifts = boundary_shifts(state, frames, min_distance);
        assert forall|i: int| 0 <= i < shifts.len() implies (#[trigger] shifts[i]).from != 0
            && shifts[i].to != 0 && state.scores.contains_key(shifts[i].to) by {
            if i < before.len() {
                assert(shifts[i] == before[i]);
            } else {
                assert(boundary_shift(state, frames.last(), min_distance) == Some(shifts[i]));
            }
        }
    }
}

/// Shifting boundaries is a correction.
proof fn boundary_shifts_refine(
    state: Timeline,
    shifts: Seq<BoundaryShiftCandidate>,
    min_distance: int,
)
    requires
        is_finite(state),
        forall|i: int|
            0 <= i < shifts.len() ==> (#[trigger] shifts[i]).from != 0 && shifts[i].to != 0
                && state.scores.contains_key(shifts[i].to),
    ensures
        refines(state, after_shifts(state, shifts, min_distance)),
    decreases shifts.len(),
{
    if shifts.len() > 0 {
        let rest = shifts.drop_last();
        boundary_shifts_refine(state, rest, min_distance);
        let before = after_shifts(state, rest, min_distance);
        let shift = shifts[shifts.len() - 1];
        let between = before.without_cut(shift.from, ScenecutDecision::SuppressedShiftedBoundary);
        without_cut_refines(before, shift.from, ScenecutDecision::SuppressedShiftedBoundary);
        refinement_is_transitive(state, before, between);
        with_cut_refines(between, shift.to, ScenecutDecision::CutShiftedBoundary);
        refinement_is_transitive(
            state,
            between,
            between.with_cut(shift.to, ScenecutDecision::CutShiftedBoundary),
        );
    }
}

/// Suppressing later cuts inside a scene that returns is a correction.
proof fn inside_suppressed_refines(
    state: Timeline,
    inside: Seq<usize>,
    found: PostprocessForwardSimilarityMatch,
)
    requires
        is_finite(state),
        forall|k: int| 0 <= k < inside.len() ==> #[trigger] inside[k] != 0,
    ensures
        refines(state, with_inside_suppressed(state, inside, found)),
    decreases inside.len(),
{
    if inside.len() > 0 {
        let rest = inside.drop_last();
        inside_suppressed_refines(state, rest, found);
        let before = with_inside_suppressed(state, rest, found);
        let after = with_inside_suppressed(state, inside, found);
        assert(inside[inside.len() - 1] != 0);
        assert(after.scores.dom() =~= before.scores.dom());
        refinement_is_transitive(state, before, after);
    }
}

/// Holding a later frame against its candidates is a correction.
proof fn after_frame_refines(options: ForwardSimilarityOptions, state: Timeline, frame: usize)
    requires
        is_finite(state),
        frame != 0,
    ensures
        refines(state, after_frame(options, state, frame)),
{
    let found = crate::postprocess::forward_similarity::closest_match(
        options,
        state.scores[frame],
        state.scores,
        frame,
        crate::score::FORWARD_SIMILARITY_DIAGNOSTIC_SLOTS as nat,
    );
    if found is Some {
        let found = found.unwrap();
        let suppressed = Timeline {
            cuts: state.cuts.remove(frame),
            scores: crate::postprocess::forward_similarity::with_suppressed(
                state.scores,
                frame,
                found,
                Some(found.delta),
            ),
        };
        assert(suppressed.scores.dom() =~= state.scores.dom());
        assert(refines(state, suppressed));
        let inside = suppressed.cuts.filter(|cut: usize| frame < cut <= found.return_frame);
        lemma_set_subset_finite(suppressed.cuts, inside);
        ascending_members(inside);
        assert forall|k: int| 0 <= k < ascending(inside).len() implies #[trigger] ascending(
            inside,
        )[k] != 0 by {
            assert(inside.contains(ascending(inside)[k]));
        }
        inside_suppressed_refines(suppressed, ascending(inside), found);
        refinement_is_transitive(
            state,
            suppressed,
            with_inside_suppressed(suppressed, ascending(inside), found),
        );
    }
}

/// Holding later frames against their candidates is a correction.
proof fn after_frames_refines(
    options: ForwardSimilarityOptions,
    state: Timeline,
    frames: Seq<usize>,
)
    requires
        is_finite(state),
        forall|k: int| 0 <= k < frames.len() ==> #[trigger] frames[k] != 0,
    ensures
        refines(state, after_frames(options, state, frames)),
    decreases frames.len(),
{
    if frames.len() > 0 {
        let rest = frames.drop_last();
        after_frames_refines(options, state, rest);
        let before = after_frames(options, state, rest);
        refinement_is_transitive(state, state, before);
        assert(frames[frames.len() - 1] != 0);
        after_frame_refines(options, before, frames.last());
        refinement_is_transitive(state, before, after_frame(options, before, frames.last()));
    }
}

/// The corrections that only take cuts out leave the rest alone.
pub proof fn suppressing_corrections_refine(
    opts: DetectionOptions,
    options: ForwardSimilarityOptions,
    state: Timeline,
)
    requires
        is_finite(state),
    ensures
        refines(state, without_returns(options, state)),
        refines(state, without_text_cards(state)),
        refines(state, without_micro_splits(state)),
        refines(state, without_dark_occlusions(state)),
        refines(state, without_chains(opts, state)),
        refines(state, without_static_credits(state)),
{
    let later = state.cuts.remove(0);
    ascending_members(later);
    let cuts = ascending(later);
    assert forall|k: int| 0 <= k < cuts.len() implies #[trigger] cuts[k] != 0 by {
        assert(later.contains(cuts[k]));
    }
    let all = suppressible(state);
    lemma_set_subset_finite(state.cuts.union(state.scores.dom()), all);
    ascending_members(all);
    assert forall|k: int| 0 <= k < ascending(all).len() implies #[trigger] ascending(all)[k]
        != 0 by {
        assert(all.contains(ascending(all)[k]));
    }
    after_frames_refines(options, state, ascending(all));
    let text = without_text_cards(state);
    let cards = run_cuts(
        cuts,
        |frame: usize|
            state.scores.contains_key(frame) && crate::postprocess::runs::is_text_card(
                state.scores[frame],
            ),
        130,
        3,
    );
    without_cuts_refines(state, cards, ScenecutDecision::SuppressedTextCardCluster);
    let credits = later_run_cuts(
        cuts,
        |frame: usize|
            state.scores.contains_key(frame) && crate::postprocess::runs::is_static_credits(
                state.scores[frame],
            ),
        210,
        5,
    );
    without_cuts_refines(state, credits, ScenecutDecision::SuppressedStaticCredits);
    if cuts.len() >= 4 {
        early_splits_refine(state, cuts, (cuts.len() - 3) as nat);
    }
    without_cuts_refines(
        state,
        crate::postprocess::weak_cuts::dark_occlusions(state),
        ScenecutDecision::SuppressedDarkOcclusion,
    );
    first_frame_is_never_redundant(opts, state);
    without_cuts_refines(state, chained_cuts(opts, state), ScenecutDecision::SuppressedAbaChain);
}

/// Refining the cuts of sparse stretches is a correction, where the first frame of
/// the video is no cut of the sparse rule.
proof fn refined_peaks_refine(opts: DetectionOptions, state: Timeline)
    requires
        is_finite(state),
        state.scores.contains_key(0) ==> state.scores[0].decision
            != ScenecutDecision::CutSparseScenePeak,
    ensures
        refines(state, with_refined_peaks(opts, state)),
{
    let base = min_distance_of(opts);
    let distance = larger(base, 40);
    ascending_members(state.cuts);
    shifts_come_from_cuts(state, ascending(state.cuts), base);
    let shifts = shifts_of(state, ascending(state.cuts), base);
    assert forall|i: int| 0 <= i < shifts.len() implies (#[trigger] shifts[i]).from != 0
        && shifts[i].to != 0 && state.scores.contains_key(shifts[i].to) by {
        shift_target_lies_between(state, shifts[i].from, base);
    }
    shifts_refine(state, shifts);
    let moved = shifted(state, shifts);
    refinement_is_transitive(state, state, moved);
    missed_cuts_are_scored(PeakKind::Refined, moved, distance);
    let frames = ascending(missed_cuts(PeakKind::Refined, moved, distance));
    with_spaced_cuts_refines(moved, frames, distance, ScenecutDecision::CutRefinedSparsePeak);
    let peaked = with_spaced_cuts(moved, frames, distance, ScenecutDecision::CutRefinedSparsePeak);
    refinement_is_transitive(state, moved, peaked);
    let refined = crate::postprocess::refined::shift_targets(shifts).union(
        peaked.cuts.difference(moved.cuts),
    );
    let short = short_returns(peaked, refined, base, distance);
    assert(!short.contains(0)) by {
        named_neighbours(peaked.cuts, 0);
    }
    without_cuts_refines(peaked, short, ScenecutDecision::SuppressedRefinedSparsePeak);
    refinement_is_transitive(state, peaked, with_refined_peaks(opts, state));
}

/// The corrections that put or move cuts leave the rest alone, where the first
/// frame of the video is no cut of the sparse rule.
pub proof fn recovering_corrections_refine(opts: DetectionOptions, state: Timeline)
    requires
        is_finite(state),
        state.scores.contains_key(0) ==> state.scores[0].decision
            != ScenecutDecision::CutSparseScenePeak,
    ensures
        refines(state, with_dark_peaks(opts, state)),
        refines(state, with_sparse_peaks(opts, state)),
        refines(state, with_refined_peaks(opts, state)),
        refines(state, with_returns(opts, state)),
        refines(state, with_recovered_cuts(opts, state)),
        refines(state, with_shifted_boundaries(opts, state)),
{
    let distance = min_distance_of(opts);
    missed_cuts_are_scored(PeakKind::Dark, state, distance);
    with_spaced_cuts_refines(
        state,
        ascending(missed_cuts(PeakKind::Dark, state, distance)),
        distance,
        ScenecutDecision::CutDarkScenePeak,
    );
    missed_cuts_are_scored(PeakKind::Sparse, state, distance);
    with_spaced_cuts_refines(
        state,
        ascending(missed_cuts(PeakKind::Sparse, state, distance)),
        distance,
        ScenecutDecision::CutSparseScenePeak,
    );
    refined_peaks_refine(opts, state);
    let best = best_returns(state, distance);
    lemma_set_subset_finite(state.scores.dom(), best);
    ascending_members(best);
    assert forall|k: int| 0 <= k < ascending(best).len() implies #[trigger] ascending(best)[k] != 0
        && state.scores.contains_key(ascending(best)[k]) by {
        let frame = ascending(best)[k];
        assert(best.contains(frame));
        assert(return_candidate(state, frame, distance) is Some);
        named_neighbours(state.cuts, frame);
    }
    with_spaced_cuts_refines(
        state,
        ascending(best),
        distance,
        ScenecutDecision::CutAbaReturn,
    );
    let frames = ascending(state.scores.dom());
    groups_are_scored(state.scores, frames, distance);
    groups_refine(state, recovery_groups(state.scores, frames, distance), distance);
    boundary_shifts_are_scored(state, frames, distance);
    boundary_shifts_refine(state, boundary_shifts(state, frames, distance), distance);
}

/// All corrections together move cuts only among cuts and scored frames, keep
/// every measurement, and leave the first frame of the video alone: if it is a cut
/// it stays one, with its record unchanged. This holds where that frame is no cut
/// of the sparse rule beforehand, which only a correction could have made it.
pub proof fn corrections_refine(opts: DetectionOptions, state: Timeline)
    requires
        is_finite(state),
        state.scores.contains_key(0) ==> state.scores[0].decision
            != ScenecutDecision::CutSparseScenePeak,
    ensures
        refines(state, corrected(opts, state)),
{
    let options = opts.tuning.forward_similarity;
    suppressing_corrections_refine(opts, options, state);
    let a = without_returns(options, state);
    refinement_is_transitive(state, state, a);
    if opts.analysis_speed == SceneDetectionSpeed::High {
        suppressing_corrections_refine(opts, options, a);
        let b = without_text_cards(a);
        refinement_is_transitive(state, a, b);
        suppressing_corrections_refine(opts, options, b);
        let c = without_micro_splits(b);
        refinement_is_transitive(state, b, c);
        suppressing_corrections_refine(opts, options, c);
        let d = without_dark_occlusions(c);
        refinement_is_transitive(state, c, d);
        recovering_corrections_refine(opts, d);
        let e = with_dark_peaks(opts, d);
        refinement_is_transitive(state, d, e);
        recovering_corrections_refine(opts, e);
        let f = with_sparse_peaks(opts, e);
        refinement_is_transitive(state, e, f);
        recovering_corrections_refine(opts, f);
        let g = with_refined_peaks(opts, f);
        refinement_is_transitive(state, f, g);
        recovering_corrections_refine(opts, g);
        let h = with_returns(opts, g);
        refinement_is_transitive(state, g, h);
        suppressing_corrections_refine(opts, options, h);
        let i = without_chains(opts, h);
        refinement_is_transitive(state, h, i);
        recovering_corrections_refine(opts, i);
        let j = with_recovered_cuts(opts, i);
        refinement_is_transitive(state, i, j);
        recovering_corrections_refine(opts, j);
        let k = with_shifted_boundaries(opts, j);
        refinement_is_transitive(state, j, k);
        suppressing_corrections_refine(opts, options, k);
        refinement_is_transitive(state, k, without_static_credits(k));
    }
}

} // verus!
