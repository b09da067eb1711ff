//! A short there-and-back after a moved cut leaves its mark on the corrected timeline.

use vstd::prelude::*;
use vstd::set_lib::lemma_set_subset_finite;
use crate::measure::double;
use crate::options::{larger, DetectionOptions, SceneDetectionSpeed};
use crate::postprocess::common::{frame_distance, is_cost_peak, promotion_only_adds};
use crate::postprocess::common::{with_spaced_cuts, Timeline};
use crate::postprocess::corrected;
use crate::postprocess::forward_similarity::without_returns;
use crate::postprocess::grounds::shifts_keep_measurements;
use crate::postprocess::laws::{ascending_members, named_neighbours};
use crate::postprocess::marks::{mark_stays, remaining, stages};
use crate::postprocess::movements::{one_cut_moves, only_target_is_best};
use crate::postprocess::peaks::{is_refined_peak, min_distance_of, missed_cuts, with_dark_peaks};
use crate::postprocess::peaks::{with_sparse_peaks, PeakKind};
use crate::postprocess::peaks::{REFINED_SPARSE_PEAK_MAX_COST_RATIO, REFINED_SPARSE_PEAK_MAX_GOOD_BLOCK_RATIO};
use crate::postprocess::peaks::{REFINED_SPARSE_PEAK_MAX_LUMA_8BIT, REFINED_SPARSE_PEAK_MIN_BAD_BLOCK_RATIO};
use crate::postprocess::peaks::{REFINED_SPARSE_PEAK_MIN_COST_RATIO, REFINED_SPARSE_PEAK_MIN_GLOBAL_IMP_RATIO};
use crate::postprocess::peaks::{REFINED_SPARSE_PEAK_MIN_IMP_RATIO, REFINED_SPARSE_PEAK_MIN_LUMA_8BIT};
use crate::postprocess::refined::{ends_short_return, is_shift_target, shift_target, shift_targets};
use crate::postprocess::refined::{shifted, shifts_of, with_refined_peaks, RefinedSparsePeakShift};
use crate::postprocess::runs::without_text_cards;
use crate::postprocess::turns::{ascending_holds, corrections_leave_runs, is_run_of_video};
use crate::postprocess::turns::promotion_turns;
use crate::postprocess::weak_cuts::{without_dark_occlusions, without_micro_splits};
use crate::score::{ScenecutDecision, FRAME_LUMA_SIGNATURE_CELLS};
use crate::timeline::{ascending, first_after, is_first_after, is_last_before, last_before};

verus! {

/// The one cut that moves is the first of the two sparse ones.
proof fn first_sparse_cut_moves(
    opts: DetectionOptions,
    given: Timeline,
    from: usize,
    frame: usize,
    next: usize,
    peak: usize,
    last: usize,
    apart: int,
    wide: int,
)
    requires
        is_run_of_video(given),
        apart == larger(min_distance_of(opts), 1),
        wide == larger(min_distance_of(opts), 40),
        from < next < last,
        given.cuts.contains(from) && given.cuts.contains(next) && given.cuts.contains(last),
        forall|cut: usize| #[trigger]
            given.cuts.contains(cut) && from <= cut ==> cut == from || cut == next || cut
                == last,
        given.scores.contains_key(from),
        given.scores[from].decision == ScenecutDecision::CutSparseScenePeak,
        given.scores.contains_key(next),
        given.scores[next].decision == ScenecutDecision::CutSparseScenePeak,
        forall|cut: usize| #[trigger]
            given.cuts.contains(cut) && cut != from && cut != next && given.scores.contains_key(
                cut,
            ) ==> given.scores[cut].decision != ScenecutDecision::CutSparseScenePeak,
        frame_distance(given.scores, from, last) is Some,
        frame_distance(given.scores, from, last).unwrap() <= 5 * FRAME_LUMA_SIGNATURE_CELLS,
        from + apart <= frame <= from + 40,
        frame + apart <= next <= frame + 130,
        next + apart <= peak,
        peak + apart <= last <= next + 130,
        peak - next < wide,
        given.scores.contains_key(frame),
        given.scores[frame].decision == ScenecutDecision::NoCut,
        double(REFINED_SPARSE_PEAK_MIN_COST_RATIO).le(given.scores[frame].cost_ratio),
        given.scores[frame].cost_ratio.le(double(REFINED_SPARSE_PEAK_MAX_COST_RATIO)),
        double(REFINED_SPARSE_PEAK_MIN_IMP_RATIO).le(given.scores[frame].imp_block_ratio),
        double(REFINED_SPARSE_PEAK_MIN_GLOBAL_IMP_RATIO).le(
            given.scores[frame].global_imp_block_ratio,
        ),
        double(REFINED_SPARSE_PEAK_MIN_LUMA_8BIT).le(given.scores[frame].avg_luma_8bit),
        given.scores[frame].avg_luma_8bit.le(double(REFINED_SPARSE_PEAK_MAX_LUMA_8BIT)),
        double(REFINED_SPARSE_PEAK_MIN_BAD_BLOCK_RATIO).le(
            given.scores[frame].static_bad_block_ratio,
        ),
        given.scores[frame].static_good_block_ratio.le(
            double(REFINED_SPARSE_PEAK_MAX_GOOD_BLOCK_RATIO),
        ),
        frame_distance(given.scores, (frame - 1) as usize, frame) is Some,
        frame_distance(given.scores, (frame - 1) as usize, frame).unwrap() >= 10
            * FRAME_LUMA_SIGNATURE_CELLS,
        forall|other: usize| #[trigger]
            given.scores.contains_key(other) && other != frame && frame - 5 <= other <= frame + 5
                ==> given.scores[other].cost_ratio.le(given.scores[frame].cost_ratio),
        frame_distance(given.scores, frame, last) is Some,
        frame_distance(given.scores, frame, last).unwrap() > 8 * FRAME_LUMA_SIGNATURE_CELLS,
        frame_distance(given.scores, from, frame) is Some,
        frame_distance(given.scores, from, frame).unwrap() >= 8 * FRAME_LUMA_SIGNATURE_CELLS,
        given.scores.contains_key(peak),
        given.scores[peak].decision == ScenecutDecision::NoCut,
        double(REFINED_SPARSE_PEAK_MIN_COST_RATIO).le(given.scores[peak].cost_ratio),
        given.scores[peak].cost_ratio.le(double(REFINED_SPARSE_PEAK_MAX_COST_RATIO)),
        double(REFINED_SPARSE_PEAK_MIN_IMP_RATIO).le(given.scores[peak].imp_block_ratio),
        double(REFINED_SPARSE_PEAK_MIN_GLOBAL_IMP_RATIO).le(
            given.scores[peak].global_imp_block_ratio,
        ),
        double(REFINED_SPARSE_PEAK_MIN_LUMA_8BIT).le(given.scores[peak].avg_luma_8bit),
        given.scores[peak].avg_luma_8bit.le(double(REFINED_SPARSE_PEAK_MAX_LUMA_8BIT)),
        double(REFINED_SPARSE_PEAK_MIN_BAD_BLOCK_RATIO).le(
            given.scores[peak].static_bad_block_ratio,
        ),
        given.scores[peak].static_good_block_ratio.le(
            double(REFINED_SPARSE_PEAK_MAX_GOOD_BLOCK_RATIO),
        ),
        frame_distance(given.scores, (peak - 1) as usize, peak) is Some,
        frame_distance(given.scores, (peak - 1) as usize, peak).unwrap() >= 10
            * FRAME_LUMA_SIGNATURE_CELLS,
        forall|other: usize| #[trigger]
            given.scores.contains_key(other) && other != peak && peak - 5 <= other <= peak + 5
                ==> given.scores[other].cost_ratio.le(given.scores[peak].cost_ratio),
        forall|other: usize| #[trigger]
            given.scores.contains_key(other) && other != frame && other != peak && from < other
                < last ==> given.scores[other].decision != ScenecutDecision::NoCut
                || given.scores[other].cost_ratio.lt(double(REFINED_SPARSE_PEAK_MIN_COST_RATIO)),
    ensures
        shifts_of(given, ascending(given.cuts), min_distance_of(opts)) == seq![
            RefinedSparsePeakShift { from, to: frame },
        ],
{
    let base = min_distance_of(opts);
    named_neighbours(given.cuts, from);
    named_neighbours(given.cuts, next);
    named_neighbours(given.cuts, last);
    assert(is_first_after(given.cuts, from, next));
    assert(is_first_after(given.cuts, next, last));
    assert(first_after(given.cuts, last) is None);
    assert(is_refined_peak(given.scores, frame));
    assert(is_shift_target(given.scores, from, last, frame));
    let end = if from + 40 <= next - apart {
        from + 40
    } else {
        next - apart
    };
    assert forall|other: usize| from + apart <= other < end + 1 && other
        != frame implies !#[trigger] is_shift_target(given.scores, from, last, other) by {
        if given.scores.contains_key(other) {
            assert(from < other < last);
        }
    }
    only_target_is_best(given.scores, from, last, frame, from + apart, end + 1);
    assert(shift_target(given, from, base) == Some(frame));
    ascending_members(given.cuts);
    ascending_holds(given.cuts, from);
    let cuts = ascending(given.cuts);
    assert forall|k: int| 0 <= k < cuts.len() && cuts[k] != from implies #[trigger] shift_target(
        given,
        cuts[k],
        base,
    ) is None by {
        assert(given.cuts.contains(cuts[k]));
    }
    one_cut_moves(given, cuts, base, from, frame);
}

/// The second of the two sparse cuts ends a short there-and-back.
proof fn second_sparse_cut_goes(
    opts: DetectionOptions,
    given: Timeline,
    from: usize,
    frame: usize,
    next: usize,
    peak: usize,
    last: usize,
    apart: int,
    wide: int,
)
    requires
        is_run_of_video(given),
        apart == larger(min_distance_of(opts), 1),
        wide == larger(min_distance_of(opts), 40),
        from < next < last,
        given.cuts.contains(from) && given.cuts.contains(next) && given.cuts.contains(last),
        forall|cut: usize| #[trigger]
            given.cuts.contains(cut) && from <= cut ==> cut == from || cut == next || cut
                == last,
        given.scores.contains_key(from),
        given.scores[from].decision == ScenecutDecision::CutSparseScenePeak,
        given.scores.contains_key(next),
        given.scores[next].decision == ScenecutDecision::CutSparseScenePeak,
        forall|cut: usize| #[trigger]
            given.cuts.contains(cut) && cut != from && cut != next && given.scores.contains_key(
                cut,
            ) ==> given.scores[cut].decision != ScenecutDecision::CutSparseScenePeak,
        frame_distance(given.scores, from, last) is Some,
        frame_distance(given.scores, from, last).unwrap() <= 5 * FRAME_LUMA_SIGNATURE_CELLS,
        from + apart <= frame <= from + 40,
        frame + apart <= next <= frame + 130,
        next + apart <= peak,
        peak + apart <= last <= next + 130,
        peak - next < wide,
        given.scores.contains_key(frame),
        given.scores[frame].decision == ScenecutDecision::NoCut,
        double(REFINED_SPARSE_PEAK_MIN_COST_RATIO).le(given.scores[frame].cost_ratio),
        given.scores[frame].cost_ratio.le(double(REFINED_SPARSE_PEAK_MAX_COST_RATIO)),
        double(REFINED_SPARSE_PEAK_MIN_IMP_RATIO).le(given.scores[frame].imp_block_ratio),
        double(REFINED_SPARSE_PEAK_MIN_GLOBAL_IMP_RATIO).le(
            given.scores[frame].global_imp_block_ratio,
        ),
        double(REFINED_SPARSE_PEAK_MIN_LUMA_8BIT).le(given.scores[frame].avg_luma_8bit),
        given.scores[frame].avg_luma_8bit.le(double(REFINED_SPARSE_PEAK_MAX_LUMA_8BIT)),
        double(REFINED_SPARSE_PEAK_MIN_BAD_BLOCK_RATIO).le(
            given.scores[frame].static_bad_block_ratio,
        ),
        given.scores[frame].static_good_block_ratio.le(
            double(REFINED_SPARSE_PEAK_MAX_GOOD_BLOCK_RATIO),
        ),
        frame_distance(given.scores, (frame - 1) as usize, frame) is Some,
        frame_distance(given.scores, (frame - 1) as usize, frame).unwrap() >= 10
            * FRAME_LUMA_SIGNATURE_CELLS,
        forall|other: usize| #[trigger]
            given.scores.contains_key(other) && other != frame && frame - 5 <= other <= frame + 5
                ==> given.scores[other].cost_ratio.le(given.scores[frame].cost_ratio),
        frame_distance(given.scores, frame, last) is Some,
        frame_distance(given.scores, frame, last).unwrap() > 8 * FRAME_LUMA_SIGNATURE_CELLS,
        frame_distance(given.scores, from, frame) is Some,
        frame_distance(given.scores, from, frame).unwrap() >= 8 * FRAME_LUMA_SIGNATURE_CELLS,
        given.scores.contains_key(peak),
        given.scores[peak].decision == ScenecutDecision::NoCut,
        double(REFINED_SPARSE_PEAK_MIN_COST_RATIO).le(given.scores[peak].cost_ratio),
        given.scores[peak].cost_ratio.le(double(REFINED_SPARSE_PEAK_MAX_COST_RATIO)),
        double(REFINED_SPARSE_PEAK_MIN_IMP_RATIO).le(given.scores[peak].imp_block_ratio),
        double(REFINED_SPARSE_PEAK_MIN_GLOBAL_IMP_RATIO).le(
            given.scores[peak].global_imp_block_ratio,
        ),
        double(REFINED_SPARSE_PEAK_MIN_LUMA_8BIT).le(given.scores[peak].avg_luma_8bit),
        given.scores[peak].avg_luma_8bit.le(double(REFINED_SPARSE_PEAK_MAX_LUMA_8BIT)),
        double(REFINED_SPARSE_PEAK_MIN_BAD_BLOCK_RATIO).le(
            given.scores[peak].static_bad_block_ratio,
        ),
        given.scores[peak].static_good_block_ratio.le(
            double(REFINED_SPARSE_PEAK_MAX_GOOD_BLOCK_RATIO),
        ),
        frame_distance(given.scores, (peak - 1) as usize, peak) is Some,
        frame_distance(given.scores, (peak - 1) as usize, peak).unwrap() >= 10
            * FRAME_LUMA_SIGNATURE_CELLS,
        forall|other: usize| #[trigger]
            given.scores.contains_key(other) && other != peak && peak - 5 <= other <= peak + 5
                ==> given.scores[other].cost_ratio.le(given.scores[peak].cost_ratio),
        forall|other: usize| #[trigger]
            given.scores.contains_key(other) && other != frame && other != peak && from < other
                < last ==> given.scores[other].decision != ScenecutDecision::NoCut
                || given.scores[other].cost_ratio.lt(double(REFINED_SPARSE_PEAK_MIN_COST_RATIO)),
    ensures
        !with_refined_peaks(opts, given).cuts.contains(next),
        with_refined_peaks(opts, given).scores.contains_key(next),
        with_refined_peaks(opts, given).scores[next].decision
            == ScenecutDecision::SuppressedRefinedSparsePeak,
{
    first_sparse_cut_moves(opts, given, from, frame, next, peak, last, apart, wide);
    let base = min_distance_of(opts);
    let reason = ScenecutDecision::CutRefinedSparsePeak;
    let shift = RefinedSparsePeakShift { from, to: frame };
    let shifts = seq![shift];
    assert(shifts.drop_last() =~= Seq::empty());
    assert(shifts.last() == shift);
    reveal_with_fuel(shifted, 2);
    let moved = shifted(given, shifts);
    shifts_keep_measurements(given, shifts);
    let missed = missed_cuts(PeakKind::Refined, moved, wide);
    lemma_set_subset_finite(moved.scores.dom(), missed);
    ascending_members(missed);
    let frames = ascending(missed);
    named_neighbours(moved.cuts, peak);
    assert(is_last_before(moved.cuts, peak, next));
    assert(last_before(moved.cuts, peak) == Some(next));
    assert forall|other: usize| from < other < last implies !#[trigger] missed.contains(other) by {
        if missed.contains(other) {
            assert(given.scores.contains_key(other));
            assert(is_refined_peak(moved.scores, other));
            assert(moved.scores[other].cost_ratio == given.scores[other].cost_ratio);
        }
    }
    let peaked = with_spaced_cuts(moved, frames, wide, reason);
    promotion_only_adds(moved, frames, wide, reason);
    assert forall|cut: usize| #[trigger] peaked.cuts.contains(cut) && from < cut < last implies cut
        == frame || cut == next by {
        if !moved.cuts.contains(cut) {
            assert(frames.to_set().contains(cut));
            let k = frames.index_of(cut);
            assert(missed.contains(frames[k]));
        }
    }
    assert(moved.cuts.contains(frame) && moved.cuts.contains(next) && moved.cuts.contains(last));
    assert(peaked.cuts.contains(frame) && peaked.cuts.contains(next) && peaked.cuts.contains(last));
    named_neighbours(peaked.cuts, next);
    assert(is_last_before(peaked.cuts, next, frame));
    assert(is_first_after(peaked.cuts, next, last));
    let gained = shift_targets(shifts).union(peaked.cuts.difference(moved.cuts));
    assert(shifts[0].to == frame);
    assert(gained.contains(frame));
    promotion_turns(moved, frames, wide, reason, next);
    promotion_turns(moved, frames, wide, reason, peak);
    ascending_holds(missed, next);
    ascending_holds(missed, peak);
    assert(!missed.contains(next) && !missed.contains(peak));
    assert(peaked.scores[peak] == given.scores[peak]);
    assert(peaked.scores[next] == given.scores[next]);
    measurements_stay(given, shifts, frames, wide, peak);
    assert(is_refined_peak(peaked.scores, peak));
    assert(ends_short_return(peaked, gained, next, base, wide));
}

/// A peak that no correction names stays one while others move.
proof fn measurements_stay(
    given: Timeline,
    shifts: Seq<RefinedSparsePeakShift>,
    frames: Seq<usize>,
    wide: int,
    peak: usize,
)
    requires
        peak > 0,
        given.scores.contains_key(peak),
        is_refined_peak(given.scores, peak),
        with_spaced_cuts(
            shifted(given, shifts),
            frames,
            wide,
            ScenecutDecision::CutRefinedSparsePeak,
        ).scores[peak] == given.scores[peak],
    ensures
        is_refined_peak(
            with_spaced_cuts(
                shifted(given, shifts),
                frames,
                wide,
                ScenecutDecision::CutRefinedSparsePeak,
            ).scores,
            peak,
        ),
{
    let reason = ScenecutDecision::CutRefinedSparsePeak;
    let moved = shifted(given, shifts);
    let peaked = with_spaced_cuts(moved, frames, wide, reason);
    shifts_keep_measurements(given, shifts);
    promotion_only_adds(moved, frames, wide, reason);
    let before = (peak - 1) as usize;
    if given.scores.contains_key(before) {
        promotion_turns(moved, frames, wide, reason, before);
        assert(peaked.scores[before].frame_luma_signature
            == given.scores[before].frame_luma_signature);
    }
    assert(frame_distance(peaked.scores, before, peak) == frame_distance(
        given.scores,
        before,
        peak,
    ));
    assert(is_cost_peak(peaked.scores, peak, 5)) by {
        assert forall|other: usize| #[trigger]
            peaked.scores.contains_key(other) && other != peak && peak - 5 <= other <= peak
                + 5 implies peaked.scores[other].cost_ratio.le(peaked.scores[peak].cost_ratio) by {
            assert(given.scores.contains_key(other));
            promotion_turns(moved, frames, wide, reason, other);
            assert(peaked.scores[other].cost_ratio == given.scores[other].cost_ratio);
        }
    }
}

/// Where a sparse cut moved to a change soon after it, the next cut is a sparse one soon after
/// that, the last follows soon, and a strong change lies close after the second: the second
/// only ends a short there-and-back. It is no cut in the end, and says why.
pub proof fn short_return_goes(
    opts: DetectionOptions,
    state: Timeline,
    from: usize,
    frame: usize,
    next: usize,
    peak: usize,
    last: usize,
)
    requires
        opts.analysis_speed == SceneDetectionSpeed::High,
        is_run_of_video(state),
        from < next < last,
        ({
            let d = without_dark_occlusions(
                without_micro_splits(
                    without_text_cards(without_returns(opts.tuning.forward_similarity, state)),
                ),
            );
            let given = with_sparse_peaks(opts, with_dark_peaks(opts, d));
            let apart = match opts.min_scenecut_distance {
                Some(distance) if distance > 1 => distance as int,
                _ => 1,
            };
            let wide = match opts.min_scenecut_distance {
                Some(distance) if distance > 40 => distance as int,
                _ => 40,
            };
            &&& given.cuts.contains(from) && given.cuts.contains(next) && given.cuts.contains(last)
            &&& forall|cut: usize| #[trigger]
                given.cuts.contains(cut) && from <= cut ==> cut == from || cut == next || cut
                    == last
            &&& given.scores.contains_key(from)
            &&& given.scores[from].decision == ScenecutDecision::CutSparseScenePeak
            &&& given.scores.contains_key(next)
            &&& given.scores[next].decision == ScenecutDecision::CutSparseScenePeak
            &&& forall|cut: usize| #[trigger]
                given.cuts.contains(cut) && cut != from && cut != next && given.scores.contains_key(
                    cut,
                ) ==> given.scores[cut].decision != ScenecutDecision::CutSparseScenePeak
            &&& frame_distance(given.scores, from, last) is Some
            &&& frame_distance(given.scores, from, last).unwrap() <= 5 * FRAME_LUMA_SIGNATURE_CELLS
            &&& from + apart <= frame <= from + 40
            &&& frame + apart <= next <= frame + 130
            &&& next + apart <= peak
            &&& peak + apart <= last <= next + 130
            &&& peak - next < wide
            &&& given.scores.contains_key(frame)
            &&& given.scores[frame].decision == ScenecutDecision::NoCut
            &&& double(REFINED_SPARSE_PEAK_MIN_COST_RATIO).le(given.scores[frame].cost_ratio)
            &&& given.scores[frame].cost_ratio.le(double(REFINED_SPARSE_PEAK_MAX_COST_RATIO))
            &&& double(REFINED_SPARSE_PEAK_MIN_IMP_RATIO).le(given.scores[frame].imp_block_ratio)
            &&& double(REFINED_SPARSE_PEAK_MIN_GLOBAL_IMP_RATIO).le(
                given.scores[frame].global_imp_block_ratio,
            )
            &&& double(REFINED_SPARSE_PEAK_MIN_LUMA_8BIT).le(given.scores[frame].avg_luma_8bit)
            &&& given.scores[frame].avg_luma_8bit.le(double(REFINED_SPARSE_PEAK_MAX_LUMA_8BIT))
            &&& double(REFINED_SPARSE_PEAK_MIN_BAD_BLOCK_RATIO).le(
                given.scores[frame].static_bad_block_ratio,
            )
            &&& given.scores[frame].static_good_block_ratio.le(
                double(REFINED_SPARSE_PEAK_MAX_GOOD_BLOCK_RATIO),
            )
            &&& frame_distance(given.scores, (frame - 1) as usize, frame) is Some
            &&& frame_distance(given.scores, (frame - 1) as usize, frame).unwrap() >= 10
                * FRAME_LUMA_SIGNATURE_CELLS
            &&& forall|other: usize| #[trigger]
                given.scores.contains_key(other) && other != frame && frame - 5 <= other <= frame + 5
                    ==> given.scores[other].cost_ratio.le(given.scores[frame].cost_ratio)
            &&& frame_distance(given.scores, frame, last) is Some
            &&& frame_distance(given.scores, frame, last).unwrap() > 8 * FRAME_LUMA_SIGNATURE_CELLS
            &&& frame_distance(given.scores, from, frame) is Some
            &&& frame_distance(given.scores, from, frame).unwrap() >= 8 * FRAME_LUMA_SIGNATURE_CELLS
            &&& given.scores.contains_key(peak)
            &&& given.scores[peak].decision == ScenecutDecision::NoCut
            &&& double(REFINED_SPARSE_PEAK_MIN_COST_RATIO).le(given.scores[peak].cost_ratio)
            &&& given.scores[peak].cost_ratio.le(double(REFINED_SPARSE_PEAK_MAX_COST_RATIO))
            &&& double(REFINED_SPARSE_PEAK_MIN_IMP_RATIO).le(given.scores[peak].imp_block_ratio)
            &&& double(REFINED_SPARSE_PEAK_MIN_GLOBAL_IMP_RATIO).le(
                given.scores[peak].global_imp_block_ratio,
            )
            &&& double(REFINED_SPARSE_PEAK_MIN_LUMA_8BIT).le(given.scores[peak].avg_luma_8bit)
            &&& given.scores[peak].avg_luma_8bit.le(double(REFINED_SPARSE_PEAK_MAX_LUMA_8BIT))
            &&& double(REFINED_SPARSE_PEAK_MIN_BAD_BLOCK_RATIO).le(
                given.scores[peak].static_bad_block_ratio,
            )
            &&& given.scores[peak].static_good_block_ratio.le(
                double(REFINED_SPARSE_PEAK_MAX_GOOD_BLOCK_RATIO),
            )
            &&& frame_distance(given.scores, (peak - 1) as usize, peak) is Some
            &&& frame_distance(given.scores, (peak - 1) as usize, peak).unwrap() >= 10
                * FRAME_LUMA_SIGNATURE_CELLS
            &&& forall|other: usize| #[trigger]
                given.scores.contains_key(other) && other != peak && peak - 5 <= other <= peak + 5
                    ==> given.scores[other].cost_ratio.le(given.scores[peak].cost_ratio)
            &&& forall|other: usize| #[trigger]
                given.scores.contains_key(other) && other != frame && other != peak && from < other
                    < last ==> given.scores[other].decision != ScenecutDecision::NoCut
                    || given.scores[other].cost_ratio.lt(double(REFINED_SPARSE_PEAK_MIN_COST_RATIO))
        }),
    ensures
        !corrected(opts, state).cuts.contains(next),
        corrected(opts, state).scores[next].decision
            == ScenecutDecision::SuppressedRefinedSparsePeak,
{
    stages(opts, state);
    let a = without_returns(opts.tuning.forward_similarity, state);
    let d = without_dark_occlusions(without_micro_splits(without_text_cards(a)));
    let given = with_sparse_peaks(opts, with_dark_peaks(opts, d));
    corrections_leave_runs(opts, given);
    let after = with_refined_peaks(opts, given);
    assert(remaining(opts, given, 7) == remaining(opts, after, 8));
    let apart = larger(min_distance_of(opts), 1);
    let wide = larger(min_distance_of(opts), 40);
    second_sparse_cut_goes(opts, given, from, frame, next, peak, last, apart, wide);
    mark_stays(opts, after, next, 8);
}

} // verus!
