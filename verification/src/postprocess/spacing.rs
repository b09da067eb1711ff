//! The corrections keep the configured distance between cuts.

use vstd::prelude::*;
use crate::options::{larger, DetectionOptions, ForwardSimilarityOptions, SceneDetectionSpeed};
use crate::postprocess::aba_return::{best_returns, with_returns};
use crate::postprocess::common::{prefix_gains_one, well_spaced, with_spaced_cuts, Timeline};
use crate::postprocess::corrected;
use crate::postprocess::aba_chain::without_chains;
use crate::postprocess::forward_similarity::{after_frames, closest_match};
use crate::postprocess::forward_similarity::{with_inside_suppressed, with_suppressed};
use crate::postprocess::forward_similarity::{without_returns, PostprocessForwardSimilarityMatch};
use crate::postprocess::laws::{ascending_members, is_finite};
use crate::postprocess::laws::{named_neighbours, recovering_corrections_refine, refinement_is_transitive};
use crate::postprocess::laws::{shift_target_lies_between, shifts_come_from_cuts};
use crate::postprocess::laws::suppressing_corrections_refine;
use crate::postprocess::peaks::{min_distance_of, missed_cuts, with_dark_peaks, with_sparse_peaks};
use crate::postprocess::peaks::PeakKind;
use crate::postprocess::recovery::{group_fits, recovery_groups, with_group, with_groups};
use crate::postprocess::recovery::with_recovered_cuts;
use crate::postprocess::refined::{shift_target, shifted, shifts_of, with_refined_peaks};
use crate::postprocess::refined::RefinedSparsePeakShift;
use crate::postprocess::runs::{without_static_credits, without_text_cards};
use crate::postprocess::text_boundary::{after_shifts, boundary_shifts, with_shifted_boundaries};
use crate::postprocess::text_boundary::BoundaryShiftCandidate;
use crate::postprocess::weak_cuts::{without_dark_occlusions, without_early_splits};
use crate::postprocess::weak_cuts::without_micro_splits;
use crate::score::{ScenecutDecision, FORWARD_SIMILARITY_DIAGNOSTIC_SLOTS};
use crate::timeline::{ascending, first_after};

verus! {

/// Whether any two cuts keep the distance.
pub open spec fn spaced(cuts: Set<usize>, min_distance: int) -> bool {
    forall|earlier: usize, later: usize|
        #![trigger cuts.contains(earlier), cuts.contains(later)]
        cuts.contains(earlier) && cuts.contains(later) && earlier < later ==> later - earlier
            >= min_distance
}

/// A frame that keeps its distance can join.
proof fn joining_keeps_spacing(cuts: Set<usize>, frame: usize, distance: int, min_distance: int)
    requires
        spaced(cuts, min_distance),
        well_spaced(cuts, frame, distance),
        distance >= min_distance,
    ensures
        spaced(cuts.insert(frame), min_distance),
{
    let after = cuts.insert(frame);
    assert forall|earlier: usize, later: usize|
        #![trigger after.contains(earlier), after.contains(later)]
        after.contains(earlier) && after.contains(later) && earlier < later implies later - earlier
        >= min_distance by {
        if earlier == frame {
            assert(cuts.contains(later));
        } else if later == frame {
            assert(cuts.contains(earlier));
        } else {
            assert(cuts.contains(earlier) && cuts.contains(later));
        }
    }
}

/// Fewer cuts stay as far apart.
proof fn fewer_cuts_stay_spaced(cuts: Set<usize>, fewer: Set<usize>, min_distance: int)
    requires
        spaced(cuts, min_distance),
        fewer.subset_of(cuts),
    ensures
        spaced(fewer, min_distance),
{
    assert forall|earlier: usize, later: usize|
        #![trigger fewer.contains(earlier), fewer.contains(later)]
        fewer.contains(earlier) && fewer.contains(later) && earlier < later implies later - earlier
        >= min_distance by {
        assert(cuts.contains(earlier) && cuts.contains(later));
    }
}

/// Adding frames that keep their distance keeps the spacing.
proof fn promotion_keeps_spacing(
    state: Timeline,
    frames: Seq<usize>,
    distance: int,
    decision: ScenecutDecision,
    min_distance: int,
)
    requires
        spaced(state.cuts, min_distance),
        distance >= min_distance,
    ensures
        spaced(with_spaced_cuts(state, frames, distance, decision).cuts, min_distance),
    decreases frames.len(),
{
    if frames.len() > 0 {
        let rest = frames.drop_last();
        promotion_keeps_spacing(state, rest, distance, decision, min_distance);
        let before = with_spaced_cuts(state, rest, distance, decision);
        if well_spaced(before.cuts, frames.last(), distance) {
            joining_keeps_spacing(before.cuts, frames.last(), distance, min_distance);
        }
    }
}

/// Suppressing cuts inside a scene takes cuts out only.
proof fn inside_suppression_only_removes(
    state: Timeline,
    inside: Seq<usize>,
    found: PostprocessForwardSimilarityMatch,
)
    ensures
        with_inside_suppressed(state, inside, found).cuts.subset_of(state.cuts),
    decreases inside.len(),
{
    if inside.len() > 0 {
        inside_suppression_only_removes(state, inside.drop_last(), found);
    }
}

/// Holding frames against their candidates takes cuts out only.
proof fn return_suppression_only_removes(
    options: ForwardSimilarityOptions,
    state: Timeline,
    frames: Seq<usize>,
)
    ensures
        after_frames(options, state, frames).cuts.subset_of(state.cuts),
    decreases frames.len(),
{
    if frames.len() > 0 {
        let rest = frames.drop_last();
        return_suppression_only_removes(options, state, rest);
        let before = after_frames(options, state, rest);
        let frame = frames.last();
        let found = closest_match(
            options,
            before.scores[frame],
            before.scores,
            frame,
            FORWARD_SIMILARITY_DIAGNOSTIC_SLOTS as nat,
        );
        if found is Some {
            let found = found.unwrap();
            let suppressed = Timeline {
                cuts: before.cuts.remove(frame),
                scores: with_suppressed(before.scores, frame, found, Some(found.delta)),
            };
            inside_suppression_only_removes(
                suppressed,
                ascending(
                    suppressed.cuts.filter(|inside: usize| frame < inside <= found.return_frame),
                ),
                found,
            );
        }
    }
}

/// Taking micro splits out takes cuts out only.
proof fn split_suppression_only_removes(state: Timeline, cuts: Seq<usize>, starts: nat)
    ensures
        without_early_splits(state, cuts, starts).cuts.subset_of(state.cuts),
    decreases starts,
{
    if starts > 0 {
        split_suppression_only_removes(state, cuts, (starts - 1) as nat);
    }
}

/// The corrections that only take cuts out keep the spacing.
proof fn suppressing_keeps_spacing(
    opts: DetectionOptions,
    options: ForwardSimilarityOptions,
    state: Timeline,
    min_distance: int,
)
    requires
        spaced(state.cuts, min_distance),
    ensures
        spaced(without_returns(options, state).cuts, min_distance),
        spaced(without_text_cards(state).cuts, min_distance),
        spaced(without_micro_splits(state).cuts, min_distance),
        spaced(without_dark_occlusions(state).cuts, min_distance),
        spaced(without_chains(opts, state).cuts, min_distance),
        spaced(without_static_credits(state).cuts, min_distance),
{
    return_suppression_only_removes(
        options,
        state,
        ascending(crate::postprocess::forward_similarity::suppressible(state)),
    );
    let cuts = ascending(state.cuts.remove(0));
    if cuts.len() >= 4 {
        split_suppression_only_removes(state, cuts, (cuts.len() - 3) as nat);
    }
    fewer_cuts_stay_spaced(state.cuts, without_returns(options, state).cuts, min_distance);
    fewer_cuts_stay_spaced(state.cuts, without_text_cards(state).cuts, min_distance);
    fewer_cuts_stay_spaced(state.cuts, without_micro_splits(state).cuts, min_distance);
    fewer_cuts_stay_spaced(state.cuts, without_dark_occlusions(state).cuts, min_distance);
    fewer_cuts_stay_spaced(state.cuts, without_chains(opts, state).cuts, min_distance);
    fewer_cuts_stay_spaced(state.cuts, without_static_credits(state).cuts, min_distance);
}

/// The cuts of a group are those before and the group's frames.
proof fn group_cuts(state: Timeline, group: Seq<usize>)
    ensures
        with_group(state, group).cuts == state.cuts.union(group.to_set()),
    decreases group.len(),
{
    if group.len() > 0 {
        let rest = group.drop_last();
        group_cuts(state, rest);
        prefix_gains_one(group, group.len() - 1);
        assert(group.take(group.len() - 1) =~= rest);
        assert(group.take(group.len() as int) =~= group);
    }
    assert(with_group(state, group).cuts =~= state.cuts.union(group.to_set()));
}

/// A group that fits keeps the spacing.
proof fn fitting_group_keeps_spacing(state: Timeline, group: Seq<usize>, min_distance: int)
    requires
        spaced(state.cuts, min_distance),
        group_fits(state.cuts, group, min_distance),
    ensures
        spaced(with_group(state, group).cuts, min_distance),
    decreases group.len(),
{
    if group.len() > 0 {
        let rest = group.drop_last();
        assert forall|index: int| 0 <= index < rest.len() implies #[trigger] well_spaced(
            state.cuts.union(rest.take(index).to_set()),
            rest[index],
            min_distance,
        ) by {
            assert(rest.take(index) =~= group.take(index));
            assert(well_spaced(
                state.cuts.union(group.take(index).to_set()),
                group[index],
                min_distance,
            ));
        }
        fitting_group_keeps_spacing(state, rest, min_distance);
        group_cuts(state, rest);
        let before = with_group(state, rest);
        let last = group.len() - 1;
        assert(group.take(last) =~= rest);
        assert(well_spaced(
            state.cuts.union(group.take(last).to_set()),
            group[last],
            min_distance,
        ));
        joining_keeps_spacing(before.cuts, group.last(), min_distance, min_distance);
    }
}

/// Recovering groups keeps the spacing.
proof fn groups_keep_spacing(state: Timeline, groups: Seq<Seq<usize>>, min_distance: int)
    requires
        spaced(state.cuts, min_distance),
    ensures
        spaced(with_groups(state, groups, min_distance).cuts, min_distance),
    decreases groups.len(),
{
    if groups.len() > 0 {
        let rest = groups.drop_last();
        groups_keep_spacing(state, rest, min_distance);
        let before = with_groups(state, rest, min_distance);
        if group_fits(before.cuts, groups.last(), min_distance) {
            fitting_group_keeps_spacing(before, groups.last(), min_distance);
        }
    }
}

/// Shifting boundaries keeps the spacing.
proof fn boundary_shifts_keep_spacing(
    state: Timeline,
    shifts: Seq<BoundaryShiftCandidate>,
    min_distance: int,
)
    requires
        spaced(state.cuts, min_distance),
    ensures
        spaced(after_shifts(state, shifts, min_distance).cuts, min_distance),
    decreases shifts.len(),
{
    if shifts.len() > 0 {
        let rest = shifts.drop_last();
        boundary_shifts_keep_spacing(state, rest, min_distance);
        let before = after_shifts(state, rest, min_distance);
        let shift = shifts.last();
        let without = before.cuts.remove(shift.from);
        fewer_cuts_stay_spaced(before.cuts, without, min_distance);
        if well_spaced(without, shift.to, min_distance) {
            joining_keeps_spacing(without, shift.to, min_distance, min_distance);
        }
    }
}

/// Whether each cut is an original one, or stands for an original one that is
/// gone, between it and the next.
spec fn stands_for(original: Set<usize>, cuts: Set<usize>, frame: usize, distance: int, cut: usize) -> bool {
    &&& original.contains(cut)
    &&& !cuts.contains(cut)
    &&& first_after(original, cut) matches Some(next) && cut + distance <= frame && frame + distance
        <= next
}

/// Cuts that moved keep the spacing: each stays between its place and the next
/// original cut.
proof fn shifts_keep_spacing(
    state: Timeline,
    shifts: Seq<RefinedSparsePeakShift>,
    min_distance: int,
)
    requires
        min_distance >= 0,
        spaced(state.cuts, min_distance),
        forall|i: int|
            0 <= i < shifts.len() ==> {
                &&& state.cuts.contains((#[trigger] shifts[i]).from)
                &&& shift_target(state, shifts[i].from, min_distance) == Some(shifts[i].to)
            },
        forall|i: int, j: int| 0 <= i < j < shifts.len() ==> shifts[i].from < shifts[j].from,
    ensures
        ({
            let after = shifted(state, shifts);
            &&& spaced(after.cuts, min_distance)
            &&& forall|frame: usize| #[trigger]
                after.cuts.contains(frame) ==> state.cuts.contains(frame) || exists|cut: usize|
                    #[trigger]
                    stands_for(state.cuts, after.cuts, frame, larger(min_distance, 1), cut)
            &&& forall|frame: usize|
                #![trigger state.cuts.contains(frame)]
                state.cuts.contains(frame) && (forall|i: int|
                    0 <= i < shifts.len() ==> (#[trigger] shifts[i]).from != frame)
                    ==> after.cuts.contains(frame)
        }),
    decreases shifts.len(),
{
    let distance = larger(min_distance, 1);
    let after = shifted(state, shifts);
    if shifts.len() > 0 {
        let rest = shifts.drop_last();
        assert forall|i: int| 0 <= i < rest.len() implies state.cuts.contains(
            (#[trigger] rest[i]).from,
        ) && shift_target(state, rest[i].from, min_distance) == Some(rest[i].to) by {
            assert(rest[i] == shifts[i]);
        }
        shifts_keep_spacing(state, rest, min_distance);
        let before = shifted(state, rest);
        let shift = shifts[shifts.len() - 1];
        assert forall|i: int| 0 <= i < rest.len() implies (#[trigger] rest[i]).from
            != shift.from by {
            assert(rest[i] == shifts[i]);
        }
        assert(before.cuts.contains(shift.from));
        shift_target_lies_between(state, shift.from, min_distance);
        named_neighbours(state.cuts, shift.from);
        let next = first_after(state.cuts, shift.from).unwrap();
        assert(!state.cuts.contains(shift.to));
        // The moved cut stands for the one that it leaves.
        assert(stands_for(state.cuts, after.cuts, shift.to, distance, shift.from));
        assert forall|frame: usize| #[trigger] after.cuts.contains(frame) implies state.cuts.contains(
            frame,
        ) || exists|cut: usize| #[trigger] stands_for(
            state.cuts,
            after.cuts,
            frame,
            distance,
            cut,
        ) by {
            if frame != shift.to && !state.cuts.contains(frame) {
                assert(before.cuts.contains(frame));
                let cut = choose|cut: usize| #[trigger]
                    stands_for(state.cuts, before.cuts, frame, distance, cut);
                assert(stands_for(state.cuts, before.cuts, frame, distance, cut));
                assert(cut != shift.to);
                assert(stands_for(state.cuts, after.cuts, frame, distance, cut));
            }
        }
        // What remains keeps its distance from the moved cut.
        let without = before.cuts.remove(shift.from);
        fewer_cuts_stay_spaced(before.cuts, without, min_distance);
        assert forall|other: usize| #[trigger]
            without.contains(other) && other != shift.to implies other - shift.to >= min_distance
            || shift.to - other >= min_distance by {
            if state.cuts.contains(other) {
                if other > shift.from {
                    assert(next <= other);
                } else {
                    assert(other < shift.from);
                }
            } else {
                let cut = choose|cut: usize| #[trigger]
                    stands_for(state.cuts, before.cuts, other, distance, cut);
                assert(stands_for(state.cuts, before.cuts, other, distance, cut));
                assert(cut != shift.from);
                named_neighbours(state.cuts, cut);
                let cut_next = first_after(state.cuts, cut).unwrap();
                if cut < shift.from {
                    assert(cut_next <= shift.from);
                } else {
                    assert(next <= cut);
                }
            }
        }
        assert(well_spaced(without, shift.to, min_distance));
        joining_keeps_spacing(without, shift.to, min_distance, min_distance);
        assert(after.cuts == without.insert(shift.to));
        assert forall|frame: usize|
            #![trigger state.cuts.contains(frame)]
            state.cuts.contains(frame) && (forall|i: int|
                0 <= i < shifts.len() ==> (#[trigger] shifts[i]).from
                    != frame) implies after.cuts.contains(frame) by {
            assert(shifts[shifts.len() - 1].from != frame);
            assert forall|i: int| 0 <= i < rest.len() implies (#[trigger] rest[i]).from
                != frame by {
                assert(rest[i] == shifts[i]);
            }
            assert(before.cuts.contains(frame));
        }
    }
}

/// The corrections that put or move cuts keep the spacing.
proof fn recovering_keeps_spacing(opts: DetectionOptions, state: Timeline)
    requires
        is_finite(state),
        spaced(state.cuts, min_distance_of(opts)),
    ensures
        spaced(with_dark_peaks(opts, state).cuts, min_distance_of(opts)),
        spaced(with_sparse_peaks(opts, state).cuts, min_distance_of(opts)),
        spaced(with_refined_peaks(opts, state).cuts, min_distance_of(opts)),
        spaced(with_returns(opts, state).cuts, min_distance_of(opts)),
        spaced(with_recovered_cuts(opts, state).cuts, min_distance_of(opts)),
        spaced(with_shifted_boundaries(opts, state).cuts, min_distance_of(opts)),
{
    let base = min_distance_of(opts);
    promotion_keeps_spacing(
        state,
        ascending(missed_cuts(PeakKind::Dark, state, base)),
        base,
        ScenecutDecision::CutDarkScenePeak,
        base,
    );
    promotion_keeps_spacing(
        state,
        ascending(missed_cuts(PeakKind::Sparse, state, base)),
        base,
        ScenecutDecision::CutSparseScenePeak,
        base,
    );
    promotion_keeps_spacing(
        state,
        ascending(best_returns(state, base)),
        base,
        ScenecutDecision::CutAbaReturn,
        base,
    );
    let frames = ascending(state.scores.dom());
    groups_keep_spacing(state, recovery_groups(state.scores, frames, base), base);
    boundary_shifts_keep_spacing(state, boundary_shifts(state, frames, base), base);

    let distance = larger(base, 40);
    ascending_members(state.cuts);
    shifts_come_from_cuts(state, ascending(state.cuts), base);
    let shifts = shifts_of(state, ascending(state.cuts), base);
    shifts_keep_spacing(state, shifts, base);
    let moved = shifted(state, shifts);
    let missed = ascending(missed_cuts(PeakKind::Refined, moved, distance));
    promotion_keeps_spacing(
        moved,
        missed,
        distance,
        ScenecutDecision::CutRefinedSparsePeak,
        base,
    );
    let peaked = with_spaced_cuts(moved, missed, distance, ScenecutDecision::CutRefinedSparsePeak);
    fewer_cuts_stay_spaced(peaked.cuts, with_refined_peaks(opts, state).cuts, base);
}

/// Cuts that keep the configured distance keep it through all corrections.
pub proof fn corrections_keep_min_distance(opts: DetectionOptions, state: Timeline)
    requires
        is_finite(state),
        state.scores.contains_key(0) ==> state.scores[0].decision
            != ScenecutDecision::CutSparseScenePeak,
        spaced(state.cuts, min_distance_of(opts)),
    ensures
        spaced(corrected(opts, state).cuts, min_distance_of(opts)),
{
    let options = opts.tuning.forward_similarity;
    let distance = min_distance_of(opts);
    suppressing_corrections_refine(opts, options, state);
    suppressing_keeps_spacing(opts, options, state, distance);
    let a = without_returns(options, state);
    refinement_is_transitive(state, state, a);
    if opts.analysis_speed == SceneDetectionSpeed::High {
        suppressing_corrections_refine(opts, options, a);
        suppressing_keeps_spacing(opts, options, a, distance);
        let b = without_text_cards(a);
        refinement_is_transitive(state, a, b);
        suppressing_corrections_refine(opts, options, b);
        suppressing_keeps_spacing(opts, options, b, distance);
        let c = without_micro_splits(b);
        refinement_is_transitive(state, b, c);
        suppressing_corrections_refine(opts, options, c);
        suppressing_keeps_spacing(opts, options, c, distance);
        let d = without_dark_occlusions(c);
        refinement_is_transitive(state, c, d);
        recovering_corrections_refine(opts, d);
        recovering_keeps_spacing(opts, d);
        let e = with_dark_peaks(opts, d);
        refinement_is_transitive(state, d, e);
        recovering_corrections_refine(opts, e);
        recovering_keeps_spacing(opts, e);
        let f = with_sparse_peaks(opts, e);
        refinement_is_transitive(state, e, f);
        recovering_corrections_refine(opts, f);
        recovering_keeps_spacing(opts, f);
        let g = with_refined_peaks(opts, f);
        refinement_is_transitive(state, f, g);
        recovering_corrections_refine(opts, g);
        recovering_keeps_spacing(opts, g);
        let h = with_returns(opts, g);
        refinement_is_transitive(state, g, h);
        suppressing_corrections_refine(opts, options, h);
        suppressing_keeps_spacing(opts, options, h, distance);
        let i = without_chains(opts, h);
        refinement_is_transitive(state, h, i);
        recovering_corrections_refine(opts, i);
        recovering_keeps_spacing(opts, i);
        let j = with_recovered_cuts(opts, i);
        refinement_is_transitive(state, i, j);
        recovering_keeps_spacing(opts, j);
        let k = with_shifted_boundaries(opts, j);
        suppressing_keeps_spacing(opts, options, k, distance);
    }
}

} // verus!
