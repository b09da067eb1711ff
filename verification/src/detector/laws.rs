//! What holds of verdicts, over the costs and importance of the window.

use vstd::prelude::*;
use crate::detector::analysis::ScenecutAnalysis;
use crate::detector::frame::after_search;
use crate::detector::search::{is_return_candidate, last_return_candidate, ForwardSearch};
use crate::detector::state::{interval_verdict, SceneChangeDetector};
use crate::detector::verdict::{after_interval, after_suppression, after_transient, count_over};
use crate::detector::verdict::{is_importance_cut, RelaxedRatios, Verdict};
use crate::measure::{double, Measure};
use crate::options::{DetectionTuning, SceneDetectionSpeed};
use crate::score::{ForwardSimilarityCandidateDecision, ScenecutDecision, ScenecutResult};
use crate::similarity::return_threshold;

verus! {

/// A count over a stretch is 0 exactly where no frame of it reaches its threshold.
proof fn counts_tell_none(deque: Seq<ScenecutAnalysis>, from: int, to: int, backward: bool)
    requires
        0 <= from,
        to <= deque.len(),
    ensures
        0 <= count_over(deque, from, to, backward),
        backward ==> (count_over(deque, from, to, backward) == 0 <==> (forall|k: int|
            from <= k < to ==> !(#[trigger] deque[k]).result.threshold.le(
                deque[k].result.backward_adjusted_cost,
            ))),
        !backward ==> (count_over(deque, from, to, backward) == 0 <==> (forall|k: int|
            from <= k < to ==> !(#[trigger] deque[k]).result.threshold.le(
                deque[k].result.forward_adjusted_cost,
            ))),
    decreases to - from,
{
    if from < to {
        counts_tell_none(deque, from, to - 1, backward);
        assert(deque[to - 1] == deque[to - 1]);
        if count_over(deque, from, to, backward) == 0 {
            assert forall|k: int| from <= k < to implies if backward {
                !(#[trigger] deque[k]).result.threshold.le(deque[k].result.backward_adjusted_cost)
            } else {
                !deque[k].result.threshold.le(deque[k].result.forward_adjusted_cost)
            } by {
                if k < to - 1 {
                    assert(deque[k] == deque[k]);
                }
            }
        }
    }
}

/// Two frames of a stretch that reach their thresholds count as two.
proof fn counts_tell_two(
    deque: Seq<ScenecutAnalysis>,
    from: int,
    to: int,
    backward: bool,
    first: int,
    second: int,
)
    requires
        0 <= from <= first < second < to,
        to <= deque.len(),
        backward ==> deque[first].result.threshold.le(deque[first].result.backward_adjusted_cost)
            && deque[second].result.threshold.le(deque[second].result.backward_adjusted_cost),
        !backward ==> deque[first].result.threshold.le(deque[first].result.forward_adjusted_cost)
            && deque[second].result.threshold.le(deque[second].result.forward_adjusted_cost),
    ensures
        count_over(deque, from, to, backward) >= 2,
    decreases to - from,
{
    counts_tell_none(deque, from, to - 1, backward);
    if second < to - 1 {
        counts_tell_two(deque, from, to - 1, backward, first, second);
    } else {
        assert(deque[first] == deque[first]);
    }
}

/// Where only one frame of a stretch reaches its threshold, one counts.
proof fn counts_tell_one(
    deque: Seq<ScenecutAnalysis>,
    from: int,
    to: int,
    backward: bool,
    only: int,
)
    requires
        0 <= from <= only < to,
        to <= deque.len(),
        backward ==> deque[only].result.threshold.le(deque[only].result.backward_adjusted_cost) && (
        forall|k: int|
            from <= k < to && k != only ==> !(#[trigger] deque[k]).result.threshold.le(
                deque[k].result.backward_adjusted_cost,
            )),
        !backward ==> deque[only].result.threshold.le(deque[only].result.forward_adjusted_cost) && (
        forall|k: int|
            from <= k < to && k != only ==> !(#[trigger] deque[k]).result.threshold.le(
                deque[k].result.forward_adjusted_cost,
            )),
    ensures
        count_over(deque, from, to, backward) == 1,
    decreases to - from,
{
    if only == to - 1 {
        counts_tell_none(deque, from, to - 1, backward);
        assert(count_over(deque, from, to - 1, backward) == 0);
    } else {
        assert(deque[to - 1] == deque[to - 1]);
        counts_tell_one(deque, from, to - 1, backward, only);
    }
}

/// In every mode, a frame whose adjusted cost reaches its threshold is a cut where it stands
/// alone: some frame from it backwards is important, and no frame after it, by the cost
/// adjusted forwards, nor before it, by the cost adjusted backwards, reaches its own
/// threshold. A frame below its threshold is none by cost.
pub proof fn lone_peak_is_cut(detector: SceneChangeDetector, relaxed: RelaxedRatios)
    requires
        detector.deque_offset < detector.score_deque@.len(),
    ensures
        ({
            let deque = detector.score_deque@;
            let at = detector.deque_offset as int;
            let current = deque[at].result;
            let verdict = detector.verdict_by_cost(relaxed);
            let decision = verdict.score.decision;
            let important = exists|k: int|
                at <= k < deque.len() && ((#[trigger] deque[k]).result.imp_block_threshold.le(
                    deque[k].result.imp_block_cost,
                ) || deque[k].result.imp_block_threshold.le(
                    deque[k].result.global_imp_block_cost,
                ));
            let strong = detector.tuning.strong_cut_ratio is Some
                && detector.tuning.strong_cut_ratio.unwrap().le(current.cost_ratio);
            let over = current.threshold.le(current.forward_adjusted_cost);
            let none_after = forall|k: int|
                0 <= k < at ==> !(#[trigger] deque[k]).result.threshold.le(
                    deque[k].result.forward_adjusted_cost,
                );
            let none_before = forall|k: int|
                at < k < deque.len() ==> !(#[trigger] deque[k]).result.threshold.le(
                    deque[k].result.backward_adjusted_cost,
                );
            &&& !important && !strong ==> decision == ScenecutDecision::SuppressedImportance
                && !verdict.cut
            &&& important || strong ==> decision != ScenecutDecision::SuppressedImportance
            &&& (important || strong) && over && none_after && none_before ==> decision
                == ScenecutDecision::Cut && verdict.cut
            &&& decision == ScenecutDecision::NoCut ==> !over && !verdict.cut
            &&& decision == ScenecutDecision::Cut ==> over && verdict.cut
            &&& decision == ScenecutDecision::SuppressedFlash ==> over && !verdict.cut
            &&& (important || strong) && !over && detector.scene_detection_mode
                != SceneDetectionSpeed::High ==> decision == ScenecutDecision::NoCut
            &&& (important || strong) && !over ==> decision == ScenecutDecision::NoCut || decision
                == ScenecutDecision::CutImportance
            &&& verdict.score == (ScenecutResult { decision, ..current })
        }),
{
    let deque = detector.score_deque@;
    let at = detector.deque_offset as int;
    counts_tell_none(deque, 0, at, false);
    counts_tell_none(deque, at + 1, deque.len() as int, true);
}

/// A frame over its threshold between others that are over theirs is a flash, not a cut by
/// cost. After a flash, with frames over their thresholds only before it, it is a cut: one
/// such frame is enough, two in the fast mode. Before a flash, with one frame over its
/// threshold and only the latest of the window, it is a cut as well.
pub proof fn peaks_around_make_a_flash(
    detector: SceneChangeDetector,
    relaxed: RelaxedRatios,
    i: int,
    j: int,
)
    requires
        detector.deque_offset < detector.score_deque@.len(),
        ({
            let deque = detector.score_deque@;
            let at = detector.deque_offset as int;
            &&& deque[at].result.threshold.le(deque[at].result.forward_adjusted_cost)
            &&& deque[at].result.imp_block_threshold.le(deque[at].result.imp_block_cost)
        }),
    ensures
        ({
            let deque = detector.score_deque@;
            let at = detector.deque_offset as int;
            let mode = detector.scene_detection_mode;
            let decision = detector.verdict_by_cost(relaxed).score.decision;
            let flash = decision == ScenecutDecision::SuppressedFlash || (mode
                == SceneDetectionSpeed::High && decision == ScenecutDecision::CutImportance);
            let after_i = 0 <= i < at && deque[i].result.threshold.le(
                deque[i].result.forward_adjusted_cost,
            );
            let after_j = 0 <= j < at && deque[j].result.threshold.le(
                deque[j].result.forward_adjusted_cost,
            );
            let before_i = at < i < deque.len() && deque[i].result.threshold.le(
                deque[i].result.backward_adjusted_cost,
            );
            let before_j = at < j < deque.len() && deque[j].result.threshold.le(
                deque[j].result.backward_adjusted_cost,
            );
            let none_after = forall|k: int|
                0 <= k < at ==> !(#[trigger] deque[k]).result.threshold.le(
                    deque[k].result.forward_adjusted_cost,
                );
            let none_before = forall|k: int|
                at < k < deque.len() ==> !(#[trigger] deque[k]).result.threshold.le(
                    deque[k].result.backward_adjusted_cost,
                );
            &&& after_i && before_j ==> flash
            &&& after_i && after_j && i < j ==> flash
            &&& after_i && i > 0 && !deque[0].result.threshold.le(
                deque[0].result.forward_adjusted_cost,
            ) ==> flash
            &&& none_after && before_i && mode != SceneDetectionSpeed::Fast ==> decision
                == ScenecutDecision::Cut
            &&& none_after && before_i && before_j && i < j ==> decision == ScenecutDecision::Cut
            &&& none_after && before_i && mode == SceneDetectionSpeed::Fast && (forall|k: int|
                at < k < deque.len() && k != i ==> !(#[trigger] deque[k]).result.threshold.le(
                    deque[k].result.backward_adjusted_cost,
                )) ==> decision == ScenecutDecision::SuppressedFlash
            &&& none_before && after_i && i == 0 && (forall|k: int|
                0 < k < at ==> !(#[trigger] deque[k]).result.threshold.le(
                    deque[k].result.forward_adjusted_cost,
                )) ==> decision == ScenecutDecision::Cut
        }),
{
    let deque = detector.score_deque@;
    let at = detector.deque_offset as int;
    let len = deque.len() as int;
    counts_tell_none(deque, 0, at, false);
    counts_tell_none(deque, at + 1, len, true);
    assert(deque[at].result.imp_block_threshold.le(deque[at].result.imp_block_cost));
    if 0 <= i < at && deque[i].result.threshold.le(deque[i].result.forward_adjusted_cost) {
        if i < j && j < at && deque[j].result.threshold.le(deque[j].result.forward_adjusted_cost) {
            counts_tell_two(deque, 0, at, false, i, j);
        }
        if i == 0 && (forall|k: int|
            0 < k < at ==> !(#[trigger] deque[k]).result.threshold.le(
                deque[k].result.forward_adjusted_cost,
            )) {
            counts_tell_one(deque, 0, at, false, 0);
        }
    }
    if at < i < len && deque[i].result.threshold.le(deque[i].result.backward_adjusted_cost) {
        if i < j && j < len && deque[j].result.threshold.le(
            deque[j].result.backward_adjusted_cost,
        ) {
            counts_tell_two(deque, at + 1, len, true, i, j);
        }
        if forall|k: int|
            at < k < len && k != i ==> !(#[trigger] deque[k]).result.threshold.le(
                deque[k].result.backward_adjusted_cost,
            ) {
            counts_tell_one(deque, at + 1, len, true, i);
        }
    }
}

/// Importance makes a cut only at the highest quality, where the frame is important, not too
/// bright, does not match in too many blocks, and stands out over the two frames on either
/// side; and then only with the strict ratios, or with the relaxed ones after a quiet frame
/// in a picture that changes in many places.
pub proof fn importance_cuts_stand_out(
    detector: SceneChangeDetector,
    relaxed: RelaxedRatios,
    near: int,
)
    requires
        detector.deque_offset < detector.score_deque@.len(),
    ensures
        ({
            let deque = detector.score_deque@;
            let at = detector.deque_offset as int;
            let current = deque[at].result;
            let tuning = detector.tuning;
            let zero = double(0);
            let decision = detector.verdict_by_cost(relaxed).score.decision;
            decision == ScenecutDecision::CutImportance ==> {
                &&& detector.verdict_by_cost(relaxed).cut
                &&& detector.scene_detection_mode == SceneDetectionSpeed::High
                &&& tuning.importance_cut_ratio is Some
                &&& !(current.imp_block_cost.lt(current.imp_block_threshold)
                    && current.global_imp_block_cost.lt(current.imp_block_threshold))
                &&& tuning.importance_cut_max_luma_8bit is Some
                    ==> !tuning.importance_cut_max_luma_8bit.unwrap().lt(current.avg_luma_8bit)
                &&& zero.lt(tuning.importance_cut_max_me_good_ratio)
                    ==> !tuning.importance_cut_max_me_good_ratio.lt(current.static_good_block_ratio)
                &&& zero.lt(tuning.importance_cut_bright_max_cost_ratio)
                    && tuning.importance_cut_dark_luma_high_8bit.lt(current.avg_luma_8bit)
                    ==> !tuning.importance_cut_bright_max_cost_ratio.lt(current.cost_ratio)
                &&& 0 <= near < deque.len() && at - 2 <= near <= at + 2 && near != at
                    ==> deque[near].result.imp_block_cost.le(current.imp_block_cost)
                &&& {
                    ||| tuning.importance_cut_ratio.unwrap().le(current.imp_block_ratio)
                        && tuning.importance_cut_min_cost_ratio.le(current.cost_ratio)
                    ||| {
                        &&& tuning.importance_cut_relaxed_ratio is Some
                        &&& relaxed.ratio.le(current.imp_block_ratio) || (relaxed.raised.le(
                            current.global_imp_block_ratio,
                        ) && relaxed.lowered.le(current.imp_block_ratio))
                        &&& tuning.importance_cut_relaxed_min_cost_ratio.le(current.cost_ratio)
                        &&& at + 1 < deque.len() ==> deque[at + 1].result.imp_block_ratio.le(
                            tuning.importance_cut_relaxed_max_previous_ratio,
                        )
                        &&& tuning.importance_cut_min_me_bad_ratio.le(
                            current.static_bad_block_ratio,
                        )
                    }
                }
            }
        }),
{
}

/// At the highest quality, an important frame that stands out over every other of the window
/// and reaches the strict ratios is a cut, where no limit on its luma, on blocks that match
/// and on bright frames speaks against it. Relaxed ratios do as well after a quiet frame.
pub proof fn outstanding_importance_is_cut(detector: SceneChangeDetector, relaxed: RelaxedRatios)
    requires
        detector.deque_offset < detector.score_deque@.len(),
        detector.scene_detection_mode == SceneDetectionSpeed::High,
        detector.tuning.importance_cut_ratio is Some,
        ({
            let deque = detector.score_deque@;
            let at = detector.deque_offset as int;
            let current = deque[at].result;
            let tuning = detector.tuning;
            let zero = double(0);
            &&& current.imp_block_threshold.le(current.imp_block_cost)
            &&& tuning.importance_cut_max_luma_8bit is Some ==> current.avg_luma_8bit.le(
                tuning.importance_cut_max_luma_8bit.unwrap(),
            )
            &&& tuning.importance_cut_max_me_good_ratio.le(zero)
                || current.static_good_block_ratio.le(tuning.importance_cut_max_me_good_ratio)
            &&& tuning.importance_cut_bright_max_cost_ratio.le(zero) || current.avg_luma_8bit.le(
                tuning.importance_cut_dark_luma_high_8bit,
            ) || current.cost_ratio.le(tuning.importance_cut_bright_max_cost_ratio)
            &&& forall|k: int|
                0 <= k < deque.len() && k != at ==> (#[trigger] deque[k]).result.imp_block_cost.le(
                    current.imp_block_cost,
                )
            &&& {
                ||| tuning.importance_cut_ratio.unwrap().le(current.imp_block_ratio)
                    && tuning.importance_cut_min_cost_ratio.le(current.cost_ratio)
                ||| {
                    &&& tuning.importance_cut_relaxed_ratio is Some
                    &&& relaxed.ratio.le(current.imp_block_ratio)
                    &&& tuning.importance_cut_relaxed_min_cost_ratio.le(current.cost_ratio)
                    &&& at + 1 < deque.len() && deque[at + 1].result.imp_block_ratio.le(
                        tuning.importance_cut_relaxed_max_previous_ratio,
                    )
                    &&& tuning.importance_cut_min_me_bad_ratio.le(current.static_bad_block_ratio)
                }
            }
        }),
    ensures
        detector.verdict_by_cost(relaxed).cut,
        detector.verdict_by_cost(relaxed).score.decision == ScenecutDecision::Cut
            || detector.verdict_by_cost(relaxed).score.decision == ScenecutDecision::CutImportance,
{
    let deque = detector.score_deque@;
    let at = detector.deque_offset as int;
    assert(deque[at].result.imp_block_threshold.le(deque[at].result.imp_block_cost));
}

/// Whether a frame counts as important enough by itself depends on its two neighbours on
/// either side only, and on the frame before it.
pub proof fn importance_cut_meets_every_condition(
    deque: Seq<ScenecutAnalysis>,
    index: int,
    tuning: DetectionTuning,
    relaxed: RelaxedRatios,
)
    requires
        0 <= index < deque.len(),
    ensures
        is_importance_cut(deque, index, tuning, relaxed) ==> {
            let current = deque[index].result;
            &&& tuning.importance_cut_ratio is Some
            &&& !(current.imp_block_cost.lt(current.imp_block_threshold)
                && current.global_imp_block_cost.lt(current.imp_block_threshold))
            &&& tuning.importance_cut_ratio.unwrap().le(current.imp_block_ratio)
                || tuning.importance_cut_relaxed_ratio is Some
            &&& tuning.importance_cut_min_cost_ratio.le(current.cost_ratio)
                || tuning.importance_cut_relaxed_min_cost_ratio.le(current.cost_ratio)
            &&& index > 0 ==> deque[index - 1].result.imp_block_cost.le(current.imp_block_cost)
            &&& index > 1 ==> deque[index - 2].result.imp_block_cost.le(current.imp_block_cost)
            &&& index + 1 < deque.len() ==> deque[index + 1].result.imp_block_cost.le(
                current.imp_block_cost,
            )
            &&& index + 2 < deque.len() ==> deque[index + 2].result.imp_block_cost.le(
                current.imp_block_cost,
            )
        },
{
}

/// Likeness of the frames on both sides is noted for, and takes back, nothing but cuts by
/// importance; and it takes back every one at or below the threshold.
pub proof fn likeness_takes_importance_cuts_only(
    verdict: Verdict,
    delta: Measure,
    threshold: Measure,
)
    ensures
        ({
            let judged = after_transient(verdict, Some(delta), threshold);
            let by_importance = verdict.cut && verdict.score.decision
                == ScenecutDecision::CutImportance;
            &&& !by_importance ==> judged == verdict
            &&& by_importance ==> judged.score.transient_similarity_score == Some(delta)
            &&& by_importance && delta.le(threshold) ==> !judged.cut && judged.score.decision
                == ScenecutDecision::SuppressedTransientSimilarity
            &&& by_importance && !delta.le(threshold) ==> judged.cut && judged.score.decision
                == ScenecutDecision::CutImportance
            &&& judged.score.cost_ratio == verdict.score.cost_ratio
            &&& judged.score.imp_block_ratio == verdict.score.imp_block_ratio
        }),
        after_transient(verdict, None, threshold) == verdict,
{
}

/// Inside a returning scene no frame is a cut; after it, and where none is known, verdicts
/// stay.
pub proof fn no_cut_inside_a_return(verdict: Verdict, until: Option<usize>, frame: int)
    ensures
        ({
            let judged = after_suppression(verdict, until, frame);
            &&& until is Some && frame <= until.unwrap() ==> !judged.cut
            &&& until is Some && frame <= until.unwrap() && verdict.cut ==> judged.score.decision
                == ScenecutDecision::SuppressedForwardSimilarity
            &&& until is None || frame > until.unwrap() || !verdict.cut ==> judged == verdict
        }),
{
}

/// A cut is taken back exactly where the search has found a return, which is then noted; and
/// the distances that are configured have the last word.
pub proof fn found_return_takes_the_cut_back(
    verdict: Verdict,
    search: ForwardSearch,
    distance: int,
    min: int,
    max: int,
)
    ensures
        ({
            let searched = after_search(verdict, search);
            let judged = after_interval(searched, interval_verdict(distance, min, max));
            &&& search.accepted is None ==> searched.cut == verdict.cut && searched.score.decision
                == verdict.score.decision && searched.score.forward_return_frame
                == verdict.score.forward_return_frame
            &&& search.accepted is Some ==> {
                &&& !searched.cut
                &&& searched.score.decision == ScenecutDecision::SuppressedForwardSimilarity
                &&& searched.score.forward_return_frame == Some(search.accepted.unwrap().frame)
                &&& searched.score.forward_similarity_score == Some(search.accepted.unwrap().delta)
            }
            &&& searched.score.forward_similarity_rejected_candidates == search.rejected_candidates
            &&& distance < min ==> !judged.cut && judged.score.decision
                == ScenecutDecision::SuppressedMinDistance
            &&& min <= distance && max <= distance ==> judged.cut && judged.score.decision
                == ScenecutDecision::ForcedMaxDistance
            &&& min <= distance < max ==> judged == searched
        }),
{
}

/// The last cut candidate of a stretch is one, and no later one of the stretch is.
proof fn last_candidate_is_last(
    detector: SceneChangeDetector,
    relaxed: Seq<RelaxedRatios>,
    low: int,
    high: int,
)
    ensures
        match last_return_candidate(detector, relaxed, low, high) {
            Some(at) => {
                &&& low <= at <= high
                &&& is_return_candidate(detector, relaxed, at)
                &&& forall|later: int|
                    at < later <= high ==> !#[trigger] is_return_candidate(detector, relaxed, later)
            },
            None => forall|offset: int|
                low <= offset <= high ==> !#[trigger] is_return_candidate(detector, relaxed, offset),
        },
    decreases high - low + 1,
{
    if low <= high && !is_return_candidate(detector, relaxed, high) {
        last_candidate_is_last(detector, relaxed, low, high - 1);
    }
}

/// A frame is a cut candidate exactly where it lies in the window after the current one, and
/// its adjusted cost reaches its threshold or its importance makes it a cut.
pub proof fn return_candidates_are_cut_candidates(
    detector: SceneChangeDetector,
    relaxed: Seq<RelaxedRatios>,
    offset: int,
)
    ensures
        is_return_candidate(detector, relaxed, offset) <==> {
            &&& 2 <= offset <= detector.deque_offset + 1
            &&& detector.deque_offset + 1 - offset < detector.score_deque@.len()
            &&& {
                let index = detector.deque_offset + 1 - offset;
                let result = detector.score_deque@[index].result;
                result.threshold.le(result.forward_adjusted_cost) || is_importance_cut(
                    detector.score_deque@,
                    index,
                    detector.tuning,
                    relaxed[index],
                )
            }
        },
{
}

/// An accepted return is justified. Its delta is no more than the strict threshold, or than
/// the relaxed one where the cut is confident enough for it. Where a cut candidate is
/// required, one lies between the smallest offset and its own, or it is a short flash after
/// a hard cut, within the strict threshold. And where one lies there, it does not dominate.
pub proof fn accepted_return_is_justified(
    search: ForwardSearch,
    detector: SceneChangeDetector,
    relaxed: Seq<RelaxedRatios>,
    delta: Measure,
)
    requires
        search.judged_candidate(detector, relaxed, delta).decision
            == ForwardSimilarityCandidateDecision::Accepted,
        !delta.is_nan(),
        !search.options.threshold_8bit.is_nan(),
        !search.options.relaxed_threshold_8bit.is_nan(),
    ensures
        ({
            let options = search.options;
            let score = search.score;
            let zero = double(0);
            let confident = {
                &&& zero.lt(options.relaxed_max_cost_ratio) ==> !options.relaxed_max_cost_ratio.lt(
                    score.cost_ratio,
                )
                &&& {
                    ||| zero.lt(options.relaxed_min_cost_ratio)
                        && options.relaxed_min_cost_ratio.le(score.cost_ratio)
                    ||| zero.lt(options.relaxed_importance_min_cost_ratio) && zero.lt(
                        options.relaxed_min_imp_block_ratio,
                    ) && options.relaxed_importance_min_cost_ratio.le(score.cost_ratio)
                        && options.relaxed_min_imp_block_ratio.le(score.imp_block_ratio)
                }
            };
            let judged = search.judged_candidate(detector, relaxed, delta);
            let candidate = exists|offset: int|
                search.min_offset <= offset <= search.offset && #[trigger] is_return_candidate(
                    detector,
                    relaxed,
                    offset,
                );
            &&& delta.le(options.threshold_8bit) || (delta.le(options.relaxed_threshold_8bit)
                && confident)
            &&& options.require_return_candidate && !candidate ==> {
                &&& options.flash_return_without_candidate
                &&& options.flash_return_frames > 0
                &&& search.offset <= options.flash_return_frames
                &&& options.flash_return_min_cost_ratio.le(score.cost_ratio)
                &&& delta.le(options.threshold_8bit)
            }
            &&& candidate == judged.candidate_offset is Some
            &&& judged.frame == (search.frame + search.offset - 1) as usize
            &&& judged.delta == delta
            &&& candidate ==> (exists|offset: int|
                {
                    &&& search.min_offset <= offset <= search.offset
                    &&& #[trigger] is_return_candidate(detector, relaxed, offset)
                    &&& judged.candidate_offset == Some(offset as usize)
                    &&& {
                        let other = detector.score_deque@[detector.deque_offset + 1 - offset].result;
                        ||| delta.le(options.threshold_8bit)
                        ||| options.relaxed_max_return_cost_ratio.le(zero)
                        ||| options.relaxed_max_return_cost_ratio_multiplier.le(zero)
                        ||| other.cost_ratio.le(options.relaxed_max_return_cost_ratio)
                        ||| other.cost_ratio.le(score.return_cost_ceiling)
                    }
                })
        }),
{
    last_candidate_is_last(
        detector,
        relaxed,
        search.min_offset as int,
        search.offset as int,
    );
    if let Some(at) = search.candidate_at(detector, relaxed) {
        assert(is_return_candidate(detector, relaxed, at));
    }
}

/// A delta within the strict threshold is accepted as a return wherever a cut candidate lies
/// between the smallest offset and its own, or none is required; and where a short flash
/// needs none.
pub proof fn close_return_is_accepted(
    search: ForwardSearch,
    detector: SceneChangeDetector,
    relaxed: Seq<RelaxedRatios>,
    delta: Measure,
    offset: int,
)
    requires
        delta.le(search.options.threshold_8bit),
        !search.options.require_return_candidate || (search.min_offset <= offset <= search.offset
            && is_return_candidate(detector, relaxed, offset)) || (
        search.options.flash_return_without_candidate && 0 < search.options.flash_return_frames
            && search.offset <= search.options.flash_return_frames
            && search.options.flash_return_min_cost_ratio.le(search.score.cost_ratio)),
        search.options.threshold_8bit.le(search.options.relaxed_threshold_8bit)
            || search.options.relaxed_threshold_8bit.le(search.options.threshold_8bit),
    ensures
        search.judged_candidate(detector, relaxed, delta).decision
            == ForwardSimilarityCandidateDecision::Accepted,
{
    last_candidate_is_last(
        detector,
        relaxed,
        search.min_offset as int,
        search.offset as int,
    );
}

/// The relaxed threshold counts exactly for confident cuts: those of a high cost, or of some
/// cost and high importance, up to the highest cost that may use it.
pub proof fn relaxed_threshold_is_for_confident_cuts(
    options: crate::options::ForwardSimilarityOptions,
    score: ScenecutResult,
)
    requires
        options.threshold_8bit.lt(options.relaxed_threshold_8bit),
        double(0).lt(options.relaxed_threshold_8bit),
    ensures
        ({
            let zero = double(0);
            let hard = zero.lt(options.relaxed_min_cost_ratio) && options.relaxed_min_cost_ratio.le(
                score.cost_ratio,
            );
            let important = zero.lt(options.relaxed_importance_min_cost_ratio) && zero.lt(
                options.relaxed_min_imp_block_ratio,
            ) && options.relaxed_importance_min_cost_ratio.le(score.cost_ratio)
                && options.relaxed_min_imp_block_ratio.le(score.imp_block_ratio);
            let extreme = zero.lt(options.relaxed_max_cost_ratio)
                && options.relaxed_max_cost_ratio.lt(score.cost_ratio);
            return_threshold(options, score) == if (hard || important) && !extreme {
                options.relaxed_threshold_8bit
            } else {
                options.threshold_8bit
            }
        }),
{
}

} // verus!
