//! Boundaries that move, and peaks that a change of the picture confirms, leave their mark on
//! the corrected timeline.

use vstd::prelude::*;
use vstd::set_lib::lemma_set_subset_finite;
use crate::measure::double;
use crate::options::{larger, DetectionOptions, SceneDetectionSpeed};
use crate::postprocess::aba_chain::without_chains;
use crate::postprocess::aba_return::with_returns;
use crate::postprocess::common::{frame_distance, Timeline};
use crate::postprocess::corrected;
use crate::postprocess::forward_similarity::without_returns;
use crate::postprocess::laws::{ascending_members, best_target_lies_in_range, named_neighbours};
use crate::postprocess::marks::{mark_stays, recovered_cut_stays, remaining, spaced_frame_is_put_in};
use crate::postprocess::marks::stages;
use crate::postprocess::peaks::{is_missed_cut, is_refined_peak, min_distance_of, missed_cuts};
use crate::postprocess::peaks::{repeats_around, with_dark_peaks, with_sparse_peaks, PeakKind};
use crate::postprocess::peaks::{REFINED_SPARSE_PEAK_MAX_COST_RATIO, REFINED_SPARSE_PEAK_MAX_GOOD_BLOCK_RATIO};
use crate::postprocess::peaks::{REFINED_SPARSE_PEAK_MAX_LUMA_8BIT, REFINED_SPARSE_PEAK_MIN_BAD_BLOCK_RATIO};
use crate::postprocess::peaks::{REFINED_SPARSE_PEAK_MIN_COST_RATIO, REFINED_SPARSE_PEAK_MIN_GLOBAL_IMP_RATIO};
use crate::postprocess::peaks::{REFINED_SPARSE_PEAK_MIN_IMP_RATIO, REFINED_SPARSE_PEAK_MIN_LUMA_8BIT};
use crate::postprocess::peaks::SCENE_PEAK_MAX_ADJACENT_COST_RATIO;
use crate::postprocess::recovery::with_recovered_cuts;
use crate::postprocess::refined::{best_target, is_shift_target, shift_target, shifted, shifts_of};
use crate::postprocess::refined::with_refined_peaks;
use crate::postprocess::refined::RefinedSparsePeakShift;
use crate::postprocess::runs::{without_static_credits, without_text_cards};
use crate::postprocess::text_boundary::{after_shift, after_shifts, boundary_shift, boundary_shifts};
use crate::postprocess::text_boundary::{with_shifted_boundaries, BoundaryShiftCandidate};
use crate::postprocess::text_boundary::TEXT_BOUNDARY_SHIFT_MAX_BACKWARD_LUMA_8BIT;
use crate::postprocess::text_boundary::TEXT_BOUNDARY_SHIFT_MAX_FORWARD_GOOD_BLOCK_RATIO;
use crate::postprocess::text_boundary::TEXT_BOUNDARY_SHIFT_MAX_FORWARD_LUMA_8BIT;
use crate::postprocess::text_boundary::TEXT_BOUNDARY_SHIFT_MAX_NEXT_COST_RATIO;
use crate::postprocess::text_boundary::TEXT_BOUNDARY_SHIFT_MIN_BACKWARD_GLOBAL_IMP_RATIO;
use crate::postprocess::text_boundary::TEXT_BOUNDARY_SHIFT_MIN_BACKWARD_IMP_RATIO;
use crate::postprocess::text_boundary::TEXT_BOUNDARY_SHIFT_MIN_FORWARD_BAD_BLOCK_RATIO;
use crate::postprocess::text_boundary::TEXT_BOUNDARY_SHIFT_MIN_FORWARD_COST_RATIO;
use crate::postprocess::text_boundary::TEXT_BOUNDARY_SHIFT_MIN_FORWARD_GLOBAL_IMP_RATIO;
use crate::postprocess::text_boundary::TEXT_BOUNDARY_SHIFT_MIN_FORWARD_IMP_RATIO;
use crate::postprocess::text_boundary::TEXT_BOUNDARY_SHIFT_MIN_NEXT_LUMA_8BIT;
use crate::postprocess::turns::{ascending_holds, corrections_leave_runs, is_run_of_video};
use crate::postprocess::turns::promotion_turns;
use crate::postprocess::weak_cuts::{without_dark_occlusions, without_micro_splits};
use crate::score::{ScenecutDecision, ScenecutResult, FRAME_LUMA_SIGNATURE_CELLS};
use crate::timeline::{ascending, first_after, frames_between, increasing, is_first_after};
use crate::timeline::{is_last_before, last_before};

verus! {

/// Where one frame alone is a boundary to shift to, that shift is the only one.
proof fn one_shift_at_most(
    state: Timeline,
    frames: Seq<usize>,
    distance: int,
    frame: usize,
    shift: BoundaryShiftCandidate,
)
    requires
        increasing(frames),
        boundary_shift(state, frame, distance) == Some(shift),
        forall|other: usize|
            other != frame ==> #[trigger] boundary_shift(state, other, distance) is None,
    ensures
        boundary_shifts(state, frames, distance) == if frames.contains(frame) {
            seq![shift]
        } else {
            Seq::empty()
        },
    decreases frames.len(),
{
    if frames.len() > 0 {
        let rest = frames.drop_last();
        one_shift_at_most(state, rest, distance, frame, shift);
        if rest.contains(frame) {
            let i = rest.index_of(frame);
            assert(frames[i] == frame);
            assert(frames[i] < frames[frames.len() - 1]);
        } else if frames.last() == frame {
            assert(frames[frames.len() - 1] == frame);
            assert(boundary_shifts(state, frames, distance) =~= seq![shift]);
        } else {
            assert(!frames.contains(frame)) by {
                if frames.contains(frame) {
                    let i = frames.index_of(frame);
                    assert(rest[i] == frame);
                }
            }
        }
    }
}

/// A change that came too late for a boundary takes its place.
proof fn late_boundary_is_shifted(
    opts: DetectionOptions,
    given: Timeline,
    previous: usize,
    frame: usize,
    next: usize,
    apart: int,
)
    requires
        is_run_of_video(given),
        opts.min_scenecut_distance is Some,
        apart == opts.min_scenecut_distance.unwrap(),
        0 < previous < frame < next,
        given.cuts.contains(previous) && given.cuts.contains(next),
        frame - previous < apart,
        forall|cut: usize| #[trigger]
            given.cuts.contains(cut) && cut != previous ==> cut - frame >= apart || frame - cut
                >= apart,
        forall|cut: usize| #[trigger]
            given.cuts.contains(cut) && previous <= cut <= next ==> cut == previous || cut
                == next,
        given.scores.contains_key(frame),
        given.scores[frame].decision == ScenecutDecision::SuppressedMinDistance,
        double(TEXT_BOUNDARY_SHIFT_MIN_FORWARD_COST_RATIO).le(given.scores[frame].cost_ratio),
        double(TEXT_BOUNDARY_SHIFT_MIN_FORWARD_IMP_RATIO).le(
            given.scores[frame].imp_block_ratio,
        ),
        double(TEXT_BOUNDARY_SHIFT_MIN_FORWARD_GLOBAL_IMP_RATIO).le(
            given.scores[frame].global_imp_block_ratio,
        ),
        given.scores[frame].avg_luma_8bit.le(
            double(TEXT_BOUNDARY_SHIFT_MAX_FORWARD_LUMA_8BIT),
        ),
        double(TEXT_BOUNDARY_SHIFT_MIN_FORWARD_BAD_BLOCK_RATIO).le(
            given.scores[frame].static_bad_block_ratio,
        ),
        given.scores[frame].static_good_block_ratio.le(
            double(TEXT_BOUNDARY_SHIFT_MAX_FORWARD_GOOD_BLOCK_RATIO),
        ),
        forall|other: usize| #[trigger]
            given.scores.contains_key(other) && other != frame && !given.cuts.contains(other)
                && (given.scores[other].decision == ScenecutDecision::NoCut
                || given.scores[other].decision == ScenecutDecision::SuppressedMinDistance
                || given.scores[other].decision == ScenecutDecision::SuppressedImportance)
                ==> forall|cut: usize| #[trigger]
                given.cuts.contains(cut) ==> cut - other >= apart || other - cut >= apart,
    ensures
        with_shifted_boundaries(opts, given).cuts.contains(frame),
        with_shifted_boundaries(opts, given).scores.contains_key(frame),
        with_shifted_boundaries(opts, given).scores[frame].decision
            == ScenecutDecision::CutShiftedBoundary,
        !with_shifted_boundaries(opts, given).cuts.contains(previous),
        given.scores.contains_key(previous) ==> with_shifted_boundaries(
            opts,
            given,
        ).scores.contains_key(previous) && with_shifted_boundaries(opts, given).scores[previous].decision
            == ScenecutDecision::SuppressedShiftedBoundary,
{
    let shift = BoundaryShiftCandidate { from: previous, to: frame };
    named_neighbours(given.cuts, frame);
    assert(is_last_before(given.cuts, frame, previous));
    assert(is_first_after(given.cuts, frame, next));
    assert(boundary_shift(given, frame, apart) == Some(shift));
    assert forall|other: usize| other != frame implies #[trigger] boundary_shift(
        given,
        other,
        apart,
    ) is None by {
        if boundary_shift(given, other, apart) is Some {
            named_neighbours(given.cuts, other);
            let before = last_before(given.cuts, other).unwrap();
            let after = first_after(given.cuts, other).unwrap();
            assert(given.scores.contains_key(other));
            assert(given.cuts.contains(before));
            assert(given.cuts.contains(after));
        }
    }
    let frames = ascending(given.scores.dom());
    ascending_members(given.scores.dom());
    ascending_holds(given.scores.dom(), frame);
    one_shift_at_most(given, frames, apart, frame, shift);
    let shifts = seq![shift];
    assert(shifts.drop_last() =~= Seq::empty());
    assert(shifts.last() == shift);
    reveal_with_fuel(after_shifts, 2);
    assert(with_shifted_boundaries(opts, given) == after_shift(given, shift, apart));
}

/// A strong change in a dark picture that was dropped for coming too soon after a cut, and
/// that keeps its distance from all other cuts, takes the place of that cut: it is a cut in
/// the end, and the cut before it is none. It is so where no other frame could move a
/// boundary.
pub proof fn late_boundary_takes_the_cut(
    opts: DetectionOptions,
    state: Timeline,
    previous: usize,
    frame: usize,
    next: usize,
)
    requires
        opts.analysis_speed == SceneDetectionSpeed::High,
        is_run_of_video(state),
        opts.min_scenecut_distance is Some,
        0 < previous < frame < next,
        ({
            let d = without_dark_occlusions(
                without_micro_splits(
                    without_text_cards(without_returns(opts.tuning.forward_similarity, state)),
                ),
            );
            let g = with_refined_peaks(opts, with_sparse_peaks(opts, with_dark_peaks(opts, d)));
            let given = with_recovered_cuts(opts, without_chains(opts, with_returns(opts, g)));
            let apart = opts.min_scenecut_distance.unwrap() as int;
            &&& given.cuts.contains(previous) && given.cuts.contains(next)
            &&& frame - previous < apart
            &&& forall|cut: usize| #[trigger]
                given.cuts.contains(cut) && cut != previous ==> cut - frame >= apart || frame - cut
                    >= apart
            &&& forall|cut: usize| #[trigger]
                given.cuts.contains(cut) && previous <= cut <= next ==> cut == previous || cut
                    == next
            &&& given.scores.contains_key(frame)
            &&& given.scores[frame].decision == ScenecutDecision::SuppressedMinDistance
            &&& double(TEXT_BOUNDARY_SHIFT_MIN_FORWARD_COST_RATIO).le(given.scores[frame].cost_ratio)
            &&& double(TEXT_BOUNDARY_SHIFT_MIN_FORWARD_IMP_RATIO).le(
                given.scores[frame].imp_block_ratio,
            )
            &&& double(TEXT_BOUNDARY_SHIFT_MIN_FORWARD_GLOBAL_IMP_RATIO).le(
                given.scores[frame].global_imp_block_ratio,
            )
            &&& given.scores[frame].avg_luma_8bit.le(
                double(TEXT_BOUNDARY_SHIFT_MAX_FORWARD_LUMA_8BIT),
            )
            &&& double(TEXT_BOUNDARY_SHIFT_MIN_FORWARD_BAD_BLOCK_RATIO).le(
                given.scores[frame].static_bad_block_ratio,
            )
            &&& given.scores[frame].static_good_block_ratio.le(
                double(TEXT_BOUNDARY_SHIFT_MAX_FORWARD_GOOD_BLOCK_RATIO),
            )
            &&& forall|other: usize| #[trigger]
                given.scores.contains_key(other) && other != frame && !given.cuts.contains(other)
                    && (given.scores[other].decision == ScenecutDecision::NoCut
                    || given.scores[other].decision == ScenecutDecision::SuppressedMinDistance
                    || given.scores[other].decision == ScenecutDecision::SuppressedImportance)
                    ==> forall|cut: usize| #[trigger]
                    given.cuts.contains(cut) ==> cut - other >= apart || other - cut >= apart
        }),
    ensures
        ({
            let d = without_dark_occlusions(
                without_micro_splits(
                    without_text_cards(without_returns(opts.tuning.forward_similarity, state)),
                ),
            );
            let g = with_refined_peaks(opts, with_sparse_peaks(opts, with_dark_peaks(opts, d)));
            let given = with_recovered_cuts(opts, without_chains(opts, with_returns(opts, g)));
            let after = corrected(opts, state);
            &&& after.cuts.contains(frame)
            &&& after.scores[frame].decision == ScenecutDecision::CutShiftedBoundary
            &&& !after.cuts.contains(previous)
            &&& given.scores.contains_key(previous) ==> after.scores[previous].decision
                == ScenecutDecision::SuppressedShiftedBoundary
        }),
{
    stages(opts, state);
    let a = without_returns(opts.tuning.forward_similarity, state);
    let d = without_dark_occlusions(without_micro_splits(without_text_cards(a)));
    let g = with_refined_peaks(opts, with_sparse_peaks(opts, with_dark_peaks(opts, d)));
    let given = with_recovered_cuts(opts, without_chains(opts, with_returns(opts, g)));
    corrections_leave_runs(opts, given);
    let after = with_shifted_boundaries(opts, given);
    assert(remaining(opts, given, 11) == remaining(opts, after, 12));
    let apart = opts.min_scenecut_distance.unwrap() as int;
    late_boundary_is_shifted(opts, given, previous, frame, next, apart);
    recovered_cut_stays(opts, after, frame, 12);
    assert(remaining(opts, after, 12) == without_static_credits(after)) by {
        reveal_with_fuel(remaining, 2);
    }
    if given.scores.contains_key(previous) {
        mark_stays(opts, after, previous, 12);
    }
}

/// A change that came too early for a boundary takes its place.
proof fn early_boundary_is_shifted(
    opts: DetectionOptions,
    given: Timeline,
    previous: usize,
    frame: usize,
    next: usize,
    apart: int,
)
    requires
        is_run_of_video(given),
        opts.min_scenecut_distance is Some,
        apart == opts.min_scenecut_distance.unwrap(),
        previous < frame < next,
        given.cuts.contains(previous) && given.cuts.contains(next),
        next - frame < apart,
        forall|cut: usize| #[trigger]
            given.cuts.contains(cut) && cut != next ==> cut - frame >= apart || frame - cut
                >= apart,
        forall|cut: usize| #[trigger]
            given.cuts.contains(cut) && previous <= cut <= next ==> cut == previous || cut
                == next,
        given.scores.contains_key(frame),
        given.scores.contains_key(next),
        given.scores[frame].decision == ScenecutDecision::NoCut
            || given.scores[frame].decision == ScenecutDecision::SuppressedImportance
            || given.scores[frame].decision == ScenecutDecision::SuppressedMinDistance,
        double(TEXT_BOUNDARY_SHIFT_MIN_BACKWARD_IMP_RATIO).le(
            given.scores[frame].imp_block_ratio,
        ),
        double(TEXT_BOUNDARY_SHIFT_MIN_BACKWARD_GLOBAL_IMP_RATIO).le(
            given.scores[frame].global_imp_block_ratio,
        ),
        given.scores[frame].avg_luma_8bit.le(
            double(TEXT_BOUNDARY_SHIFT_MAX_BACKWARD_LUMA_8BIT),
        ),
        given.scores[next].cost_ratio.le(double(TEXT_BOUNDARY_SHIFT_MAX_NEXT_COST_RATIO)),
        double(TEXT_BOUNDARY_SHIFT_MIN_NEXT_LUMA_8BIT).le(given.scores[next].avg_luma_8bit),
        given.scores[next].shift_margin_floor.le(
            given.scores[frame].global_imp_block_ratio,
        ),
        forall|other: usize| #[trigger]
            given.scores.contains_key(other) && other != frame && !given.cuts.contains(other)
                && (given.scores[other].decision == ScenecutDecision::NoCut
                || given.scores[other].decision == ScenecutDecision::SuppressedMinDistance
                || given.scores[other].decision == ScenecutDecision::SuppressedImportance)
                ==> forall|cut: usize| #[trigger]
                given.cuts.contains(cut) ==> cut - other >= apart || other - cut >= apart,
    ensures
        with_shifted_boundaries(opts, given).cuts.contains(frame),
        with_shifted_boundaries(opts, given).scores.contains_key(frame),
        with_shifted_boundaries(opts, given).scores[frame].decision
            == ScenecutDecision::CutShiftedBoundary,
        !with_shifted_boundaries(opts, given).cuts.contains(next),
        given.scores.contains_key(next) ==> with_shifted_boundaries(
            opts,
            given,
        ).scores.contains_key(next) && with_shifted_boundaries(opts, given).scores[next].decision
            == ScenecutDecision::SuppressedShiftedBoundary,
{
    let shift = BoundaryShiftCandidate { from: next, to: frame };
    named_neighbours(given.cuts, frame);
    assert(is_last_before(given.cuts, frame, previous));
    assert(is_first_after(given.cuts, frame, next));
    assert(boundary_shift(given, frame, apart) == Some(shift));
    assert forall|other: usize| other != frame implies #[trigger] boundary_shift(
        given,
        other,
        apart,
    ) is None by {
        if boundary_shift(given, other, apart) is Some {
            named_neighbours(given.cuts, other);
            let before = last_before(given.cuts, other).unwrap();
            let after = first_after(given.cuts, other).unwrap();
            assert(given.scores.contains_key(other));
            assert(given.cuts.contains(before));
            assert(given.cuts.contains(after));
        }
    }
    let frames = ascending(given.scores.dom());
    ascending_members(given.scores.dom());
    ascending_holds(given.scores.dom(), frame);
    one_shift_at_most(given, frames, apart, frame, shift);
    let shifts = seq![shift];
    assert(shifts.drop_last() =~= Seq::empty());
    assert(shifts.last() == shift);
    reveal_with_fuel(after_shifts, 2);
    assert(with_shifted_boundaries(opts, given) == after_shift(given, shift, apart));
}

/// A change in a dark picture soon before a weak cut to a bright one, that keeps its distance
/// from all other cuts, takes the place of that cut: it is a cut in the end, and the cut after
/// it is none. It is so where no other frame could move a boundary.
pub proof fn early_boundary_takes_the_cut(
    opts: DetectionOptions,
    state: Timeline,
    previous: usize,
    frame: usize,
    next: usize,
)
    requires
        opts.analysis_speed == SceneDetectionSpeed::High,
        is_run_of_video(state),
        opts.min_scenecut_distance is Some,
        previous < frame < next,
        ({
            let d = without_dark_occlusions(
                without_micro_splits(
                    without_text_cards(without_returns(opts.tuning.forward_similarity, state)),
                ),
            );
            let g = with_refined_peaks(opts, with_sparse_peaks(opts, with_dark_peaks(opts, d)));
            let given = with_recovered_cuts(opts, without_chains(opts, with_returns(opts, g)));
            let apart = opts.min_scenecut_distance.unwrap() as int;
            &&& given.cuts.contains(previous) && given.cuts.contains(next)
            &&& next - frame < apart
            &&& forall|cut: usize| #[trigger]
                given.cuts.contains(cut) && cut != next ==> cut - frame >= apart || frame - cut
                    >= apart
            &&& forall|cut: usize| #[trigger]
                given.cuts.contains(cut) && previous <= cut <= next ==> cut == previous || cut
                    == next
            &&& given.scores.contains_key(frame)
            &&& given.scores.contains_key(next)
            &&& given.scores[frame].decision == ScenecutDecision::NoCut
                || given.scores[frame].decision == ScenecutDecision::SuppressedImportance
                || given.scores[frame].decision == ScenecutDecision::SuppressedMinDistance
            &&& double(TEXT_BOUNDARY_SHIFT_MIN_BACKWARD_IMP_RATIO).le(
                given.scores[frame].imp_block_ratio,
            )
            &&& double(TEXT_BOUNDARY_SHIFT_MIN_BACKWARD_GLOBAL_IMP_RATIO).le(
                given.scores[frame].global_imp_block_ratio,
            )
            &&& given.scores[frame].avg_luma_8bit.le(
                double(TEXT_BOUNDARY_SHIFT_MAX_BACKWARD_LUMA_8BIT),
            )
            &&& given.scores[next].cost_ratio.le(double(TEXT_BOUNDARY_SHIFT_MAX_NEXT_COST_RATIO))
            &&& double(TEXT_BOUNDARY_SHIFT_MIN_NEXT_LUMA_8BIT).le(given.scores[next].avg_luma_8bit)
            &&& given.scores[next].shift_margin_floor.le(
                given.scores[frame].global_imp_block_ratio,
            )
            &&& forall|other: usize| #[trigger]
                given.scores.contains_key(other) && other != frame && !given.cuts.contains(other)
                    && (given.scores[other].decision == ScenecutDecision::NoCut
                    || given.scores[other].decision == ScenecutDecision::SuppressedMinDistance
                    || given.scores[other].decision == ScenecutDecision::SuppressedImportance)
                    ==> forall|cut: usize| #[trigger]
                    given.cuts.contains(cut) ==> cut - other >= apart || other - cut >= apart
        }),
    ensures
        ({
            let d = without_dark_occlusions(
                without_micro_splits(
                    without_text_cards(without_returns(opts.tuning.forward_similarity, state)),
                ),
            );
            let g = with_refined_peaks(opts, with_sparse_peaks(opts, with_dark_peaks(opts, d)));
            let given = with_recovered_cuts(opts, without_chains(opts, with_returns(opts, g)));
            let after = corrected(opts, state);
            &&& after.cuts.contains(frame)
            &&& after.scores[frame].decision == ScenecutDecision::CutShiftedBoundary
            &&& !after.cuts.contains(next)
            &&& given.scores.contains_key(next) ==> after.scores[next].decision
                == ScenecutDecision::SuppressedShiftedBoundary
        }),
{
    stages(opts, state);
    let a = without_returns(opts.tuning.forward_similarity, state);
    let d = without_dark_occlusions(without_micro_splits(without_text_cards(a)));
    let g = with_refined_peaks(opts, with_sparse_peaks(opts, with_dark_peaks(opts, d)));
    let given = with_recovered_cuts(opts, without_chains(opts, with_returns(opts, g)));
    corrections_leave_runs(opts, given);
    let after = with_shifted_boundaries(opts, given);
    assert(remaining(opts, given, 11) == remaining(opts, after, 12));
    let apart = opts.min_scenecut_distance.unwrap() as int;
    early_boundary_is_shifted(opts, given, previous, frame, next, apart);
    recovered_cut_stays(opts, after, frame, 12);
    assert(remaining(opts, after, 12) == without_static_credits(after)) by {
        reveal_with_fuel(remaining, 2);
    }
    if given.scores.contains_key(next) {
        mark_stays(opts, after, next, 12);
    }
}

/// Where no cut moves, the timeline stays as it is.
pub(crate) proof fn nothing_is_shifted(state: Timeline, cuts: Seq<usize>, distance: int)
    requires
        forall|k: int|
            0 <= k < cuts.len() ==> #[trigger] shift_target(state, cuts[k], distance) is None,
    ensures
        shifts_of(state, cuts, distance) == Seq::<RefinedSparsePeakShift>::empty(),
    decreases cuts.len(),
{
    if cuts.len() > 0 {
        let rest = cuts.drop_last();
        assert forall|k: int| 0 <= k < rest.len() implies #[trigger] shift_target(
            state,
            rest[k],
            distance,
        ) is None by {
            assert(shift_target(state, cuts[k], distance) is None);
        }
        nothing_is_shifted(state, rest, distance);
        assert(shift_target(state, cuts[cuts.len() - 1], distance) is None);
    }
}

/// A strong peak that a change of the picture confirms becomes a cut.
proof fn confirmed_peak_is_put_in(
    opts: DetectionOptions,
    given: Timeline,
    previous: usize,
    frame: usize,
    next: usize,
    apart: int,
)
    requires
        is_run_of_video(given),
        apart == larger(min_distance_of(opts), 40),
        previous < frame < next,
        next - previous >= 120,
        given.cuts.contains(previous) && given.cuts.contains(next),
        forall|cut: usize| #[trigger]
            given.cuts.contains(cut) && previous <= cut <= next ==> cut == previous || cut
                == next,
        forall|cut: usize| #[trigger]
            given.cuts.contains(cut) && given.scores.contains_key(cut)
                ==> given.scores[cut].decision != ScenecutDecision::CutSparseScenePeak,
        frame - previous >= apart && next - frame >= apart,
        given.scores.contains_key(previous) ==> given.scores[previous].cost_ratio.le(
            double(SCENE_PEAK_MAX_ADJACENT_COST_RATIO),
        ),
        given.scores.contains_key(next) ==> given.scores[next].cost_ratio.le(
            double(SCENE_PEAK_MAX_ADJACENT_COST_RATIO),
        ),
        Set::new(
            |cut: usize|
                given.cuts.contains(cut) && cut != 0 && frame - 500 <= cut <= frame + 500,
        ).len() <= 12,
        Set::new(
            |cut: usize|
                given.cuts.contains(cut) && cut != 0 && frame - 2000 <= cut <= frame + 2000,
        ).len() <= 40,
        given.scores.contains_key(frame),
        given.scores[frame].decision == ScenecutDecision::NoCut,
        double(REFINED_SPARSE_PEAK_MIN_COST_RATIO).le(given.scores[frame].cost_ratio),
        given.scores[frame].cost_ratio.le(double(REFINED_SPARSE_PEAK_MAX_COST_RATIO)),
        double(REFINED_SPARSE_PEAK_MIN_IMP_RATIO).le(given.scores[frame].imp_block_ratio),
        double(REFINED_SPARSE_PEAK_MIN_GLOBAL_IMP_RATIO).le(
            given.scores[frame].global_imp_block_ratio,
        ),
        double(REFINED_SPARSE_PEAK_MIN_LUMA_8BIT).le(given.scores[frame].avg_luma_8bit),
        given.scores[frame].avg_luma_8bit.le(double(REFINED_SPARSE_PEAK_MAX_LUMA_8BIT)),
        double(REFINED_SPARSE_PEAK_MIN_BAD_BLOCK_RATIO).le(
            given.scores[frame].static_bad_block_ratio,
        ),
        given.scores[frame].static_good_block_ratio.le(
            double(REFINED_SPARSE_PEAK_MAX_GOOD_BLOCK_RATIO),
        ),
        frame_distance(given.scores, (frame - 1) as usize, frame) is Some,
        frame_distance(given.scores, (frame - 1) as usize, frame).unwrap() >= 10
            * FRAME_LUMA_SIGNATURE_CELLS,
        frame_distance(given.scores, previous, next) is Some ==> frame_distance(
            given.scores,
            previous,
            next,
        ).unwrap() > 5 * FRAME_LUMA_SIGNATURE_CELLS,
        frame_distance(given.scores, previous, frame) is Some ==> frame_distance(
            given.scores,
            previous,
            frame,
        ).unwrap() > 5 * FRAME_LUMA_SIGNATURE_CELLS,
        frame_distance(given.scores, frame, next) is Some ==> frame_distance(
            given.scores,
            frame,
            next,
        ).unwrap() > 5 * FRAME_LUMA_SIGNATURE_CELLS,
        forall|other: usize| #[trigger]
            given.scores.contains_key(other) && other != frame && frame - 5 <= other <= frame
                + 5 ==> given.scores[other].cost_ratio.le(given.scores[frame].cost_ratio),
        forall|other: usize| #[trigger]
            given.scores.contains_key(other) && other != frame && frame - apart < other < frame
                + apart ==> given.scores[other].decision != ScenecutDecision::NoCut
                || given.scores[other].cost_ratio.lt(double(REFINED_SPARSE_PEAK_MIN_COST_RATIO)),
    ensures
        with_refined_peaks(opts, given).cuts.contains(frame),
        with_refined_peaks(opts, given).scores.contains_key(frame),
        with_refined_peaks(opts, given).scores[frame].decision
            == ScenecutDecision::CutRefinedSparsePeak,
{
    let base = min_distance_of(opts);
    ascending_members(given.cuts);
    let cuts = ascending(given.cuts);
    assert forall|k: int| 0 <= k < cuts.len() implies #[trigger] shift_target(
        given,
        cuts[k],
        base,
    ) is None by {
        assert(given.cuts.contains(cuts[k]));
    }
    nothing_is_shifted(given, cuts, base);
    let shifts = shifts_of(given, cuts, base);
    assert(shifted(given, shifts) == given);
    named_neighbours(given.cuts, frame);
    assert(is_last_before(given.cuts, frame, previous));
    assert(is_first_after(given.cuts, frame, next));
    assert(frames_between(given.cuts.remove(0), frame - 500, frame + 500) =~= Set::new(
        |cut: usize| given.cuts.contains(cut) && cut != 0 && frame - 500 <= cut <= frame + 500,
    ));
    assert(frames_between(given.cuts.remove(0), frame - 2000, frame + 2000) =~= Set::new(
        |cut: usize| given.cuts.contains(cut) && cut != 0 && frame - 2000 <= cut <= frame + 2000,
    ));
    assert(is_refined_peak(given.scores, frame));
    assert(!repeats_around(given, frame));
    assert(is_missed_cut(PeakKind::Refined, given, frame, apart));
    let missed = missed_cuts(PeakKind::Refined, given, apart);
    lemma_set_subset_finite(given.scores.dom(), missed);
    ascending_members(missed);
    ascending_holds(missed, frame);
    let frames = ascending(missed);
    assert forall|k: int| 0 <= k < frames.len() && #[trigger] frames[k] != frame implies frames[k]
        - frame >= apart || frame - frames[k] >= apart by {
        assert(missed.contains(frames[k]));
        assert(given.scores.contains_key(frames[k]));
    }
    spaced_frame_is_put_in(given, frames, apart, ScenecutDecision::CutRefinedSparsePeak, frame);
}

/// Where no sparse peak was cut, a frame without a verdict of its own that is a strong peak
/// of cost with a clear change of the picture, in a long scene with few cuts around, between
/// scenes of which no two are alike, and with no other such frame too near, is a cut in the
/// end; or it was one, and a boundary was shifted from it.
pub proof fn confirmed_peak_becomes_cut(
    opts: DetectionOptions,
    state: Timeline,
    previous: usize,
    frame: usize,
    next: usize,
)
    requires
        opts.analysis_speed == SceneDetectionSpeed::High,
        is_run_of_video(state),
        previous < frame < next,
        next - previous >= 120,
        ({
            let d = without_dark_occlusions(
                without_micro_splits(
                    without_text_cards(without_returns(opts.tuning.forward_similarity, state)),
                ),
            );
            let given = with_sparse_peaks(opts, with_dark_peaks(opts, d));
            let apart = match opts.min_scenecut_distance {
                Some(distance) if distance > 40 => distance as int,
                _ => 40,
            };
            &&& given.cuts.contains(previous) && given.cuts.contains(next)
            &&& forall|cut: usize| #[trigger]
                given.cuts.contains(cut) && previous <= cut <= next ==> cut == previous || cut
                    == next
            &&& forall|cut: usize| #[trigger]
                given.cuts.contains(cut) && given.scores.contains_key(cut)
                    ==> given.scores[cut].decision != ScenecutDecision::CutSparseScenePeak
            &&& frame - previous >= apart && next - frame >= apart
            &&& given.scores.contains_key(previous) ==> given.scores[previous].cost_ratio.le(
                double(SCENE_PEAK_MAX_ADJACENT_COST_RATIO),
            )
            &&& given.scores.contains_key(next) ==> given.scores[next].cost_ratio.le(
                double(SCENE_PEAK_MAX_ADJACENT_COST_RATIO),
            )
            &&& Set::new(
                |cut: usize|
                    given.cuts.contains(cut) && cut != 0 && frame - 500 <= cut <= frame + 500,
            ).len() <= 12
            &&& Set::new(
                |cut: usize|
                    given.cuts.contains(cut) && cut != 0 && frame - 2000 <= cut <= frame + 2000,
            ).len() <= 40
            &&& given.scores.contains_key(frame)
            &&& given.scores[frame].decision == ScenecutDecision::NoCut
            &&& double(REFINED_SPARSE_PEAK_MIN_COST_RATIO).le(given.scores[frame].cost_ratio)
            &&& given.scores[frame].cost_ratio.le(double(REFINED_SPARSE_PEAK_MAX_COST_RATIO))
            &&& double(REFINED_SPARSE_PEAK_MIN_IMP_RATIO).le(given.scores[frame].imp_block_ratio)
            &&& double(REFINED_SPARSE_PEAK_MIN_GLOBAL_IMP_RATIO).le(
                given.scores[frame].global_imp_block_ratio,
            )
            &&& double(REFINED_SPARSE_PEAK_MIN_LUMA_8BIT).le(given.scores[frame].avg_luma_8bit)
            &&& given.scores[frame].avg_luma_8bit.le(double(REFINED_SPARSE_PEAK_MAX_LUMA_8BIT))
            &&& double(REFINED_SPARSE_PEAK_MIN_BAD_BLOCK_RATIO).le(
                given.scores[frame].static_bad_block_ratio,
            )
            &&& given.scores[frame].static_good_block_ratio.le(
                double(REFINED_SPARSE_PEAK_MAX_GOOD_BLOCK_RATIO),
            )
            &&& frame_distance(given.scores, (frame - 1) as usize, frame) is Some
            &&& frame_distance(given.scores, (frame - 1) as usize, frame).unwrap() >= 10
                * FRAME_LUMA_SIGNATURE_CELLS
            &&& frame_distance(given.scores, previous, next) is Some ==> frame_distance(
                given.scores,
                previous,
                next,
            ).unwrap() > 5 * FRAME_LUMA_SIGNATURE_CELLS
            &&& frame_distance(given.scores, previous, frame) is Some ==> frame_distance(
                given.scores,
                previous,
                frame,
            ).unwrap() > 5 * FRAME_LUMA_SIGNATURE_CELLS
            &&& frame_distance(given.scores, frame, next) is Some ==> frame_distance(
                given.scores,
                frame,
                next,
            ).unwrap() > 5 * FRAME_LUMA_SIGNATURE_CELLS
            &&& forall|other: usize| #[trigger]
                given.scores.contains_key(other) && other != frame && frame - 5 <= other <= frame
                    + 5 ==> given.scores[other].cost_ratio.le(given.scores[frame].cost_ratio)
            &&& forall|other: usize| #[trigger]
                given.scores.contains_key(other) && other != frame && frame - apart < other < frame
                    + apart ==> given.scores[other].decision != ScenecutDecision::NoCut
                    || given.scores[other].cost_ratio.lt(double(REFINED_SPARSE_PEAK_MIN_COST_RATIO))
        }),
    ensures
        ({
            let after = corrected(opts, state);
            ||| after.cuts.contains(frame) && after.scores[frame].decision
                == ScenecutDecision::CutRefinedSparsePeak
            ||| !after.cuts.contains(frame) && after.scores[frame].decision
                == ScenecutDecision::SuppressedShiftedBoundary
        }),
{
    stages(opts, state);
    let a = without_returns(opts.tuning.forward_similarity, state);
    let d = without_dark_occlusions(without_micro_splits(without_text_cards(a)));
    let given = with_sparse_peaks(opts, with_dark_peaks(opts, d));
    corrections_leave_runs(opts, given);
    let after = with_refined_peaks(opts, given);
    assert(remaining(opts, given, 7) == remaining(opts, after, 8));
    let apart = larger(min_distance_of(opts), 40);
    confirmed_peak_is_put_in(opts, given, previous, frame, next, apart);
    recovered_cut_stays(opts, after, frame, 8);
}

/// The only target of a shift is the best one.
pub(crate) proof fn only_target_is_best(
    scores: Map<usize, ScenecutResult>,
    from: usize,
    returning: usize,
    target: usize,
    low: int,
    high: int,
)
    requires
        0 <= low <= target,
        high <= usize::MAX,
        is_shift_target(scores, from, returning, target),
        forall|other: usize|
            low <= other < high && other != target ==> !#[trigger] is_shift_target(
                scores,
                from,
                returning,
                other,
            ),
    ensures
        best_target(scores, from, returning, low, high) == if target < high {
            Some(target)
        } else {
            None
        },
    decreases high - low,
{
    if low < high {
        only_target_is_best(scores, from, returning, target, low, high - 1);
    }
}

/// Where one cut alone moves, that move is the only one.
pub(crate) proof fn one_cut_moves(
    state: Timeline,
    cuts: Seq<usize>,
    distance: int,
    from: usize,
    to: usize,
)
    requires
        increasing(cuts),
        shift_target(state, from, distance) == Some(to),
        forall|k: int|
            0 <= k < cuts.len() && cuts[k] != from ==> #[trigger] shift_target(
                state,
                cuts[k],
                distance,
            ) is None,
    ensures
        shifts_of(state, cuts, distance) == if cuts.contains(from) {
            seq![RefinedSparsePeakShift { from, to }]
        } else {
            Seq::empty()
        },
    decreases cuts.len(),
{
    if cuts.len() > 0 {
        let rest = cuts.drop_last();
        assert forall|k: int| 0 <= k < rest.len() && rest[k] != from implies #[trigger] shift_target(
            state,
            rest[k],
            distance,
        ) is None by {
            assert(shift_target(state, cuts[k], distance) is None);
        }
        one_cut_moves(state, rest, distance, from, to);
        let last = cuts.len() - 1;
        if rest.contains(from) {
            let i = rest.index_of(from);
            assert(cuts[i] == from);
            assert(cuts[i] < cuts[last]);
            assert(shift_target(state, cuts[last], distance) is None);
        } else if cuts[last] == from {
            assert(cuts.contains(from));
            assert(shifts_of(state, cuts, distance) =~= seq![RefinedSparsePeakShift { from, to }]);
        } else {
            assert(shift_target(state, cuts[last], distance) is None);
            assert(!cuts.contains(from)) by {
                if cuts.contains(from) {
                    let i = cuts.index_of(from);
                    assert(rest[i] == from);
                }
            }
        }
    }
}

/// A sparse cut before a scene that returns moves to the change that follows it.
proof fn sparse_cut_is_moved(
    opts: DetectionOptions,
    given: Timeline,
    from: usize,
    frame: usize,
    next: usize,
    returning: usize,
    apart: int,
)
    requires
        is_run_of_video(given),
        apart == larger(min_distance_of(opts), 1),
        from < next < returning,
        given.cuts.contains(from) && given.cuts.contains(next),
        given.cuts.contains(returning),
        forall|cut: usize| #[trigger]
            given.cuts.contains(cut) && from <= cut <= returning ==> cut == from || cut == next
                || cut == returning,
        given.scores.contains_key(from),
        given.scores[from].decision == ScenecutDecision::CutSparseScenePeak,
        forall|cut: usize| #[trigger]
            given.cuts.contains(cut) && cut != from && given.scores.contains_key(cut)
                ==> given.scores[cut].decision != ScenecutDecision::CutSparseScenePeak,
        frame_distance(given.scores, from, returning) is Some,
        frame_distance(given.scores, from, returning).unwrap() <= 5
            * FRAME_LUMA_SIGNATURE_CELLS,
        from + apart <= frame <= from + 40,
        frame + apart <= next,
        given.scores.contains_key(frame),
        given.scores[frame].decision == ScenecutDecision::NoCut,
        double(REFINED_SPARSE_PEAK_MIN_COST_RATIO).le(given.scores[frame].cost_ratio),
        given.scores[frame].cost_ratio.le(double(REFINED_SPARSE_PEAK_MAX_COST_RATIO)),
        double(REFINED_SPARSE_PEAK_MIN_IMP_RATIO).le(given.scores[frame].imp_block_ratio),
        double(REFINED_SPARSE_PEAK_MIN_GLOBAL_IMP_RATIO).le(
            given.scores[frame].global_imp_block_ratio,
        ),
        double(REFINED_SPARSE_PEAK_MIN_LUMA_8BIT).le(given.scores[frame].avg_luma_8bit),
        given.scores[frame].avg_luma_8bit.le(double(REFINED_SPARSE_PEAK_MAX_LUMA_8BIT)),
        double(REFINED_SPARSE_PEAK_MIN_BAD_BLOCK_RATIO).le(
            given.scores[frame].static_bad_block_ratio,
        ),
        given.scores[frame].static_good_block_ratio.le(
            double(REFINED_SPARSE_PEAK_MAX_GOOD_BLOCK_RATIO),
        ),
        frame_distance(given.scores, (frame - 1) as usize, frame) is Some,
        frame_distance(given.scores, (frame - 1) as usize, frame).unwrap() >= 10
            * FRAME_LUMA_SIGNATURE_CELLS,
        frame_distance(given.scores, frame, returning) is Some,
        frame_distance(given.scores, frame, returning).unwrap() > 8
            * FRAME_LUMA_SIGNATURE_CELLS,
        frame_distance(given.scores, from, frame) is Some,
        frame_distance(given.scores, from, frame).unwrap() >= 8 * FRAME_LUMA_SIGNATURE_CELLS,
        forall|other: usize| #[trigger]
            given.scores.contains_key(other) && other != frame && frame - 5 <= other <= frame
                + 5 ==> given.scores[other].cost_ratio.le(given.scores[frame].cost_ratio),
        forall|other: usize| #[trigger]
            given.scores.contains_key(other) && other != frame && from < other < next
                ==> given.scores[other].decision != ScenecutDecision::NoCut
                || given.scores[other].cost_ratio.lt(double(REFINED_SPARSE_PEAK_MIN_COST_RATIO)),
    ensures
        with_refined_peaks(opts, given).cuts.contains(frame),
        with_refined_peaks(opts, given).scores.contains_key(frame),
        with_refined_peaks(opts, given).scores[frame].decision
            == ScenecutDecision::CutRefinedSparsePeak,
        !with_refined_peaks(opts, given).cuts.contains(from),
        with_refined_peaks(opts, given).scores.contains_key(from),
        with_refined_peaks(opts, given).scores[from].decision
            == ScenecutDecision::SuppressedRefinedSparsePeak,
{
    let base = min_distance_of(opts);
    named_neighbours(given.cuts, from);
    named_neighbours(given.cuts, next);
    assert(is_first_after(given.cuts, from, next));
    assert(is_first_after(given.cuts, next, returning));
    assert(is_refined_peak(given.scores, frame));
    assert(is_shift_target(given.scores, from, returning, frame));
    let last = if from + 40 <= next - apart {
        from + 40
    } else {
        next - apart
    };
    assert forall|other: usize| from + apart <= other < last + 1 && other
        != frame implies !#[trigger] is_shift_target(given.scores, from, returning, other) by {
        if given.scores.contains_key(other) {
            assert(from < other < next);
        }
    }
    only_target_is_best(given.scores, from, returning, frame, from + apart, last + 1);
    assert(shift_target(given, from, base) == Some(frame));
    ascending_members(given.cuts);
    ascending_holds(given.cuts, from);
    let cuts = ascending(given.cuts);
    assert forall|k: int| 0 <= k < cuts.len() && cuts[k] != from implies #[trigger] shift_target(
        given,
        cuts[k],
        base,
    ) is None by {
        assert(given.cuts.contains(cuts[k]));
    }
    one_cut_moves(given, cuts, base, from, frame);
    let shift = RefinedSparsePeakShift { from, to: frame };
    let shifts = seq![shift];
    assert(shifts.drop_last() =~= Seq::empty());
    assert(shifts.last() == shift);
    reveal_with_fuel(shifted, 2);
    let reason = ScenecutDecision::CutRefinedSparsePeak;
    let moved = shifted(given, shifts);
    assert(moved == given.without_cut(
        from,
        ScenecutDecision::SuppressedRefinedSparsePeak,
    ).with_cut(frame, reason));
    let distance = larger(base, 40);
    let missed = missed_cuts(PeakKind::Refined, moved, distance);
    assert(moved.scores.dom() =~= given.scores.dom());
    lemma_set_subset_finite(moved.scores.dom(), missed);
    ascending_holds(missed, frame);
    ascending_holds(missed, from);
    promotion_turns(moved, ascending(missed), distance, reason, frame);
    promotion_turns(moved, ascending(missed), distance, reason, from);
}

/// Where a sparse peak was cut, the picture at it returns after the next cut, and one strong
/// change of the picture follows soon that is unlike both, the cut moves there: the change is
/// a cut in the end, or was and a boundary was shifted from it, and the sparse peak is none.
pub proof fn sparse_cut_moves_to_the_change(
    opts: DetectionOptions,
    state: Timeline,
    from: usize,
    frame: usize,
    next: usize,
    returning: usize,
)
    requires
        opts.analysis_speed == SceneDetectionSpeed::High,
        is_run_of_video(state),
        from < next < returning,
        ({
            let d = without_dark_occlusions(
                without_micro_splits(
                    without_text_cards(without_returns(opts.tuning.forward_similarity, state)),
                ),
            );
            let given = with_sparse_peaks(opts, with_dark_peaks(opts, d));
            let apart = match opts.min_scenecut_distance {
                Some(distance) if distance > 1 => distance as int,
                _ => 1,
            };
            &&& given.cuts.contains(from) && given.cuts.contains(next)
            &&& given.cuts.contains(returning)
            &&& forall|cut: usize| #[trigger]
                given.cuts.contains(cut) && from <= cut <= returning ==> cut == from || cut == next
                    || cut == returning
            &&& given.scores.contains_key(from)
            &&& given.scores[from].decision == ScenecutDecision::CutSparseScenePeak
            &&& forall|cut: usize| #[trigger]
                given.cuts.contains(cut) && cut != from && given.scores.contains_key(cut)
                    ==> given.scores[cut].decision != ScenecutDecision::CutSparseScenePeak
            &&& frame_distance(given.scores, from, returning) is Some
            &&& frame_distance(given.scores, from, returning).unwrap() <= 5
                * FRAME_LUMA_SIGNATURE_CELLS
            &&& from + apart <= frame <= from + 40
            &&& frame + apart <= next
            &&& given.scores.contains_key(frame)
            &&& given.scores[frame].decision == ScenecutDecision::NoCut
            &&& double(REFINED_SPARSE_PEAK_MIN_COST_RATIO).le(given.scores[frame].cost_ratio)
            &&& given.scores[frame].cost_ratio.le(double(REFINED_SPARSE_PEAK_MAX_COST_RATIO))
            &&& double(REFINED_SPARSE_PEAK_MIN_IMP_RATIO).le(given.scores[frame].imp_block_ratio)
            &&& double(REFINED_SPARSE_PEAK_MIN_GLOBAL_IMP_RATIO).le(
                given.scores[frame].global_imp_block_ratio,
            )
            &&& double(REFINED_SPARSE_PEAK_MIN_LUMA_8BIT).le(given.scores[frame].avg_luma_8bit)
            &&& given.scores[frame].avg_luma_8bit.le(double(REFINED_SPARSE_PEAK_MAX_LUMA_8BIT))
            &&& double(REFINED_SPARSE_PEAK_MIN_BAD_BLOCK_RATIO).le(
                given.scores[frame].static_bad_block_ratio,
            )
            &&& given.scores[frame].static_good_block_ratio.le(
                double(REFINED_SPARSE_PEAK_MAX_GOOD_BLOCK_RATIO),
            )
            &&& frame_distance(given.scores, (frame - 1) as usize, frame) is Some
            &&& frame_distance(given.scores, (frame - 1) as usize, frame).unwrap() >= 10
                * FRAME_LUMA_SIGNATURE_CELLS
            &&& frame_distance(given.scores, frame, returning) is Some
            &&& frame_distance(given.scores, frame, returning).unwrap() > 8
                * FRAME_LUMA_SIGNATURE_CELLS
            &&& frame_distance(given.scores, from, frame) is Some
            &&& frame_distance(given.scores, from, frame).unwrap() >= 8 * FRAME_LUMA_SIGNATURE_CELLS
            &&& forall|other: usize| #[trigger]
                given.scores.contains_key(other) && other != frame && frame - 5 <= other <= frame
                    + 5 ==> given.scores[other].cost_ratio.le(given.scores[frame].cost_ratio)
            &&& forall|other: usize| #[trigger]
                given.scores.contains_key(other) && other != frame && from < other < next
                    ==> given.scores[other].decision != ScenecutDecision::NoCut
                    || given.scores[other].cost_ratio.lt(double(REFINED_SPARSE_PEAK_MIN_COST_RATIO))
        }),
    ensures
        ({
            let after = corrected(opts, state);
            &&& !after.cuts.contains(from)
            &&& after.scores[from].decision == ScenecutDecision::SuppressedRefinedSparsePeak
            &&& after.cuts.contains(frame) && after.scores[frame].decision
                == ScenecutDecision::CutRefinedSparsePeak || !after.cuts.contains(frame)
                && after.scores[frame].decision == ScenecutDecision::SuppressedShiftedBoundary
        }),
{
    stages(opts, state);
    let a = without_returns(opts.tuning.forward_similarity, state);
    let d = without_dark_occlusions(without_micro_splits(without_text_cards(a)));
    let given = with_sparse_peaks(opts, with_dark_peaks(opts, d));
    corrections_leave_runs(opts, given);
    let after = with_refined_peaks(opts, given);
    assert(remaining(opts, given, 7) == remaining(opts, after, 8));
    let apart = larger(min_distance_of(opts), 1);
    sparse_cut_is_moved(opts, given, from, frame, next, returning, apart);
    recovered_cut_stays(opts, after, frame, 8);
    mark_stays(opts, after, from, 8);
}

/// Of several changes that a sparse cut could move to, it moves to the one that ranks highest,
/// and to the latest of several that rank the same.
pub proof fn highest_change_is_the_target(
    scores: Map<usize, ScenecutResult>,
    from: usize,
    returning: usize,
    low: int,
    high: int,
    other: usize,
)
    requires
        0 <= low <= other < high,
        high <= usize::MAX,
        is_shift_target(scores, from, returning, other),
        forall|frame: usize| #[trigger]
            scores.contains_key(frame) ==> !scores[frame].refined_peak_rank.is_nan(),
    ensures
        best_target(scores, from, returning, low, high) matches Some(best) && {
            &&& low <= best < high
            &&& is_shift_target(scores, from, returning, best)
            &&& scores[other].refined_peak_rank.le(scores[best].refined_peak_rank)
            &&& scores[other].refined_peak_rank.same(scores[best].refined_peak_rank) ==> other
                <= best
        },
    decreases high - low,
{
    best_target_lies_in_range(scores, from, returning, low, high);
    let last = (high - 1) as usize;
    if other < last {
        highest_change_is_the_target(scores, from, returning, low, high - 1, other);
        let before = best_target(scores, from, returning, low, high - 1).unwrap();
        assert(scores.contains_key(before));
        assert(scores.contains_key(other));
        if is_shift_target(scores, from, returning, last) {
            assert(scores.contains_key(last));
        }
    } else {
        assert(scores.contains_key(other));
        best_target_lies_in_range(scores, from, returning, low, high - 1);
        if best_target(scores, from, returning, low, high - 1) is Some {
            let before = best_target(scores, from, returning, low, high - 1).unwrap();
            assert(scores.contains_key(before));
        }
    }
}

} // verus!
