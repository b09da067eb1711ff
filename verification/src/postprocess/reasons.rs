//! Verdicts that corrections give have their reasons in the measurements of a frame.

use vstd::prelude::*;
use crate::measure::double;
use crate::options::{DetectionOptions, ForwardSimilarityOptions, SceneDetectionSpeed};
use crate::postprocess::aba_return::{may_return, with_returns, ABA_RETURN_MAX_COST_RATIO};
use crate::postprocess::aba_return::{ABA_RETURN_MAX_GOOD_BLOCK_RATIO, ABA_RETURN_MAX_LUMA_8BIT};
use crate::postprocess::aba_return::{ABA_RETURN_MIN_COST_RATIO, ABA_RETURN_MIN_GLOBAL_IMP_RATIO};
use crate::postprocess::aba_return::ABA_RETURN_MIN_IMP_RATIO;
use crate::postprocess::aba_chain::without_chains;
use crate::postprocess::common::Timeline;
use crate::postprocess::corrected;
use crate::postprocess::forward_similarity::{after_frames, closest_match, with_inside_suppressed};
use crate::postprocess::forward_similarity::{suppressible, with_suppressed, without_returns};
use crate::postprocess::forward_similarity::PostprocessForwardSimilarityMatch;
use crate::postprocess::laws::same_measurements;
use crate::postprocess::marks::stages;
use crate::postprocess::peaks::{is_dark_peak, is_sparse_peak, with_dark_peaks, with_sparse_peaks};
use crate::postprocess::peaks::{DARK_SCENE_PEAK_MAX_COST_RATIO, DARK_SCENE_PEAK_MAX_GOOD_BLOCK_RATIO};
use crate::postprocess::peaks::{DARK_SCENE_PEAK_MAX_LUMA_8BIT, DARK_SCENE_PEAK_MIN_BAD_BLOCK_RATIO};
use crate::postprocess::peaks::{DARK_SCENE_PEAK_MIN_COST_RATIO, DARK_SCENE_PEAK_MIN_GLOBAL_IMP_RATIO};
use crate::postprocess::peaks::{DARK_SCENE_PEAK_MIN_IMP_RATIO, REFINED_SPARSE_PEAK_MAX_COST_RATIO};
use crate::postprocess::peaks::{REFINED_SPARSE_PEAK_MAX_GOOD_BLOCK_RATIO, REFINED_SPARSE_PEAK_MAX_LUMA_8BIT};
use crate::postprocess::peaks::{REFINED_SPARSE_PEAK_MIN_BAD_BLOCK_RATIO, REFINED_SPARSE_PEAK_MIN_COST_RATIO};
use crate::postprocess::peaks::{REFINED_SPARSE_PEAK_MIN_GLOBAL_IMP_RATIO, REFINED_SPARSE_PEAK_MIN_IMP_RATIO};
use crate::postprocess::peaks::{REFINED_SPARSE_PEAK_MIN_LUMA_8BIT, SPARSE_SCENE_PEAK_MAX_COST_RATIO};
use crate::postprocess::peaks::{SPARSE_SCENE_PEAK_MAX_GOOD_BLOCK_RATIO, SPARSE_SCENE_PEAK_MAX_LUMA_8BIT};
use crate::postprocess::peaks::{SPARSE_SCENE_PEAK_MIN_BAD_BLOCK_RATIO, SPARSE_SCENE_PEAK_MIN_COST_RATIO};
use crate::postprocess::peaks::{SPARSE_SCENE_PEAK_MIN_GLOBAL_IMP_RATIO, SPARSE_SCENE_PEAK_MIN_IMP_RATIO};
use crate::postprocess::recovery::with_recovered_cuts;
use crate::postprocess::recovery::FORWARD_SIMILARITY_RECOVERY_MIN_COST_RATIO;
use crate::postprocess::recovery::FORWARD_SIMILARITY_RECOVERY_MIN_GLOBAL_IMP_RATIO;
use crate::postprocess::recovery::FORWARD_SIMILARITY_RECOVERY_MIN_IMP_RATIO;
use crate::postprocess::refined::with_refined_peaks;
use crate::postprocess::runs::{is_static_credits, is_text_card, without_static_credits};
use crate::postprocess::runs::{without_text_cards, STATIC_CREDITS_MAX_BAD_BLOCK_RATIO};
use crate::postprocess::runs::{STATIC_CREDITS_MAX_LUMA_8BIT, STATIC_CREDITS_MIN_GLOBAL_IMP_RATIO};
use crate::postprocess::runs::{STATIC_CREDITS_MIN_GOOD_BLOCK_RATIO, STATIC_CREDITS_MIN_IMP_RATIO};
use crate::postprocess::runs::{TEXT_CARD_MAX_COST_RATIO, TEXT_CARD_MAX_IMP_RATIO};
use crate::postprocess::runs::{some_candidate_within, TEXT_CARD_MAX_LUMA_8BIT};
use crate::postprocess::runs::{TEXT_CARD_MAX_SIMILARITY_DELTA_8BIT, TEXT_CARD_MAX_TRANSIENT_DELTA_8BIT};
use crate::postprocess::runs::TEXT_CARD_MIN_GLOBAL_IMP_RATIO;
use crate::postprocess::weak_cuts::DARK_OCCLUSION_MAX_FORWARD_DELTA_8BIT;
use crate::postprocess::text_boundary::with_shifted_boundaries;
use crate::postprocess::text_boundary::TEXT_BOUNDARY_SHIFT_MAX_BACKWARD_LUMA_8BIT;
use crate::postprocess::text_boundary::TEXT_BOUNDARY_SHIFT_MAX_FORWARD_GOOD_BLOCK_RATIO;
use crate::postprocess::text_boundary::TEXT_BOUNDARY_SHIFT_MAX_FORWARD_LUMA_8BIT;
use crate::postprocess::text_boundary::TEXT_BOUNDARY_SHIFT_MIN_BACKWARD_GLOBAL_IMP_RATIO;
use crate::postprocess::text_boundary::TEXT_BOUNDARY_SHIFT_MIN_BACKWARD_IMP_RATIO;
use crate::postprocess::text_boundary::TEXT_BOUNDARY_SHIFT_MIN_FORWARD_BAD_BLOCK_RATIO;
use crate::postprocess::text_boundary::TEXT_BOUNDARY_SHIFT_MIN_FORWARD_COST_RATIO;
use crate::postprocess::text_boundary::TEXT_BOUNDARY_SHIFT_MIN_FORWARD_GLOBAL_IMP_RATIO;
use crate::postprocess::text_boundary::TEXT_BOUNDARY_SHIFT_MIN_FORWARD_IMP_RATIO;
use crate::postprocess::turns::{chain_turns, is_run_of_video, is_shiftable, is_strong_peak};
use crate::postprocess::turns::{left_alone, peak_turns, recovery_turns, refined_turns};
use crate::postprocess::turns::{shifted_turns, thinning_turns};
use crate::postprocess::weak_cuts::{is_dark_occlusion, is_motion_split, without_dark_occlusions};
use crate::postprocess::weak_cuts::{without_micro_splits, DARK_OCCLUSION_MAX_COST_RATIO};
use crate::postprocess::weak_cuts::{DARK_OCCLUSION_MAX_GOOD_BLOCK_RATIO, DARK_OCCLUSION_MAX_LUMA_8BIT};
use crate::postprocess::weak_cuts::{DARK_OCCLUSION_MIN_BAD_BLOCK_RATIO, DARK_OCCLUSION_MIN_GLOBAL_IMP_RATIO};
use crate::postprocess::weak_cuts::{DARK_OCCLUSION_MIN_IMP_RATIO, FAST_MOTION_MAX_COST_RATIO};
use crate::postprocess::weak_cuts::{FAST_MOTION_MIN_GLOBAL_IMP_RATIO, FAST_MOTION_MIN_IMP_RATIO};
use crate::postprocess::weak_cuts::{FAST_MOTION_MIN_LUMA_8BIT, FAST_MOTION_MIN_TRANSIENT_DELTA_8BIT};
use crate::postprocess::weak_cuts::DARK_OCCLUSION_MAX_TRANSIENT_DELTA_8BIT;
use crate::score::{ScenecutDecision, ScenecutResult, FORWARD_SIMILARITY_DIAGNOSTIC_SLOTS};
use crate::timeline::ascending;

verus! {

/// Cuts inside a return are taken out for it, and nothing else happens.
proof fn inside_turns(
    state: Timeline,
    inside: Seq<usize>,
    found: PostprocessForwardSimilarityMatch,
    frame: usize,
)
    requires
        state.scores.contains_key(frame),
    ensures
        ({
            let after = with_inside_suppressed(state, inside, found);
            &&& after.scores.contains_key(frame)
            &&& left_alone(state, after, frame) || (!after.cuts.contains(frame)
                && after.scores[frame].decision == ScenecutDecision::SuppressedForwardSimilarity
                && same_measurements(state.scores[frame], after.scores[frame]))
        }),
    decreases inside.len(),
{
    if inside.len() > 0 {
        inside_turns(state, inside.drop_last(), found, frame);
    }
}

/// Cuts are taken out for a return, and nothing else happens.
proof fn returns_turn(
    options: ForwardSimilarityOptions,
    state: Timeline,
    frames: Seq<usize>,
    frame: usize,
)
    requires
        state.scores.contains_key(frame),
    ensures
        ({
            let after = after_frames(options, state, frames);
            &&& after.scores.contains_key(frame)
            &&& left_alone(state, after, frame) || (!after.cuts.contains(frame)
                && after.scores[frame].decision == ScenecutDecision::SuppressedForwardSimilarity
                && same_measurements(state.scores[frame], after.scores[frame]))
        }),
    decreases frames.len(),
{
    if frames.len() > 0 {
        let rest = frames.drop_last();
        returns_turn(options, state, rest, frame);
        let before = after_frames(options, state, rest);
        let at = frames.last();
        let found = closest_match(
            options,
            before.scores[at],
            before.scores,
            at,
            FORWARD_SIMILARITY_DIAGNOSTIC_SLOTS as nat,
        );
        if found is Some {
            let found = found.unwrap();
            let suppressed = Timeline {
                cuts: before.cuts.remove(at),
                scores: with_suppressed(before.scores, at, found, Some(found.delta)),
            };
            inside_turns(
                suppressed,
                ascending(
                    suppressed.cuts.filter(|inside: usize| at < inside <= found.return_frame),
                ),
                found,
                frame,
            );
        }
    }
}

/// Whether the verdict of a score has its reason in what it was before the corrections.
pub(crate) open spec fn accounted_for(before: ScenecutResult, after: ScenecutResult) -> bool {
    &&& same_measurements(before, after)
    &&& after == before || match after.decision {
        ScenecutDecision::SuppressedForwardSimilarity => true,
        ScenecutDecision::SuppressedTextCardCluster => is_text_card(before),
        ScenecutDecision::SuppressedFastMotion => is_motion_split(before),
        ScenecutDecision::SuppressedDarkOcclusion => is_dark_occlusion(before),
        ScenecutDecision::CutDarkScenePeak => before.decision == ScenecutDecision::NoCut
            && is_dark_peak(before),
        ScenecutDecision::CutSparseScenePeak => before.decision == ScenecutDecision::NoCut
            && is_sparse_peak(before),
        ScenecutDecision::SuppressedRefinedSparsePeak => before.decision
            == ScenecutDecision::CutSparseScenePeak || (before.decision == ScenecutDecision::NoCut
            && is_sparse_peak(before)),
        ScenecutDecision::CutRefinedSparsePeak => before.decision == ScenecutDecision::NoCut
            && is_strong_peak(before),
        ScenecutDecision::CutAbaReturn => may_return(before),
        ScenecutDecision::SuppressedAbaChain => may_return(before) || before.decision
            == ScenecutDecision::Cut || before.decision == ScenecutDecision::CutImportance
            || before.decision == ScenecutDecision::CutAbaReturn,
        ScenecutDecision::CutForwardSimilarityRecovery => double(
            FORWARD_SIMILARITY_RECOVERY_MIN_COST_RATIO,
        ).le(before.cost_ratio) && double(FORWARD_SIMILARITY_RECOVERY_MIN_IMP_RATIO).le(
            before.imp_block_ratio,
        ) && double(FORWARD_SIMILARITY_RECOVERY_MIN_GLOBAL_IMP_RATIO).le(
            before.global_imp_block_ratio,
        ),
        ScenecutDecision::CutShiftedBoundary => is_shiftable(before),
        ScenecutDecision::SuppressedShiftedBoundary => true,
        ScenecutDecision::SuppressedStaticCredits => is_static_credits(before),
        _ => false,
    }
}

/// A correction keeps verdicts accounted for.
proof fn corrections_account(
    opts: DetectionOptions,
    before: ScenecutResult,
    state: Timeline,
    frame: usize,
)
    requires
        is_run_of_video(state),
        state.scores.contains_key(frame),
        accounted_for(before, state.scores[frame]),
    ensures
        accounted_for(before, without_text_cards(state).scores[frame]),
        accounted_for(before, without_micro_splits(state).scores[frame]),
        accounted_for(before, without_dark_occlusions(state).scores[frame]),
        accounted_for(before, with_dark_peaks(opts, state).scores[frame]),
        accounted_for(before, with_sparse_peaks(opts, state).scores[frame]),
        accounted_for(before, with_refined_peaks(opts, state).scores[frame]),
        accounted_for(before, with_returns(opts, state).scores[frame]),
        accounted_for(before, without_chains(opts, state).scores[frame]),
        accounted_for(before, with_recovered_cuts(opts, state).scores[frame]),
        accounted_for(before, with_shifted_boundaries(opts, state).scores[frame]),
        accounted_for(before, without_static_credits(state).scores[frame]),
        without_text_cards(state).scores.contains_key(frame),
        without_micro_splits(state).scores.contains_key(frame),
        without_dark_occlusions(state).scores.contains_key(frame),
        with_dark_peaks(opts, state).scores.contains_key(frame),
        with_sparse_peaks(opts, state).scores.contains_key(frame),
        with_refined_peaks(opts, state).scores.contains_key(frame),
        with_returns(opts, state).scores.contains_key(frame),
        without_chains(opts, state).scores.contains_key(frame),
        with_recovered_cuts(opts, state).scores.contains_key(frame),
        with_shifted_boundaries(opts, state).scores.contains_key(frame),
        without_static_credits(state).scores.contains_key(frame),
{
    thinning_turns(state, frame);
    peak_turns(opts, state, frame);
    refined_turns(opts, state, frame);
    chain_turns(opts, state, frame);
    recovery_turns(opts, state, frame);
    shifted_turns(opts, state, frame);
}

/// All corrections together keep verdicts accounted for.
proof fn all_corrections_account(opts: DetectionOptions, state: Timeline, frame: usize)
    requires
        opts.analysis_speed == SceneDetectionSpeed::High,
        is_run_of_video(state),
        state.scores.contains_key(frame),
    ensures
        accounted_for(state.scores[frame], corrected(opts, state).scores[frame]),
{
    let options = opts.tuning.forward_similarity;
    let before = state.scores[frame];
    returns_turn(
        options,
        state,
        ascending(suppressible(state)),
        frame,
    );
    stages(opts, state);
    let a = without_returns(options, state);
    corrections_account(opts, before, a, frame);
    let b = without_text_cards(a);
    corrections_account(opts, before, b, frame);
    let c = without_micro_splits(b);
    corrections_account(opts, before, c, frame);
    let d = without_dark_occlusions(c);
    corrections_account(opts, before, d, frame);
    let e = with_dark_peaks(opts, d);
    corrections_account(opts, before, e, frame);
    let f = with_sparse_peaks(opts, e);
    corrections_account(opts, before, f, frame);
    let g = with_refined_peaks(opts, f);
    corrections_account(opts, before, g, frame);
    let h = with_returns(opts, g);
    corrections_account(opts, before, h, frame);
    let i = without_chains(opts, h);
    corrections_account(opts, before, i, frame);
    let j = with_recovered_cuts(opts, i);
    corrections_account(opts, before, j, frame);
    let k = with_shifted_boundaries(opts, j);
    corrections_account(opts, before, k, frame);
    assert(corrected(opts, state) == without_static_credits(k));
}

/// Below the highest quality a verdict changes for a return alone.
pub proof fn lower_quality_looks_for_returns_only(
    opts: DetectionOptions,
    state: Timeline,
    frame: usize,
)
    requires
        opts.analysis_speed != SceneDetectionSpeed::High,
        state.scores.contains_key(frame),
    ensures
        ({
            let after = corrected(opts, state);
            &&& after.scores.contains_key(frame)
            &&& after.scores[frame].decision != state.scores[frame].decision
                || after.cuts.contains(frame) != state.cuts.contains(frame) ==> {
                &&& !after.cuts.contains(frame)
                &&& after.scores[frame].decision == ScenecutDecision::SuppressedForwardSimilarity
                &&& opts.tuning.forward_similarity.enabled
                &&& opts.tuning.forward_similarity.require_return_candidate
                &&& opts.tuning.forward_similarity.frames > 0
            }
        }),
{
    returns_turn(
        opts.tuning.forward_similarity,
        state,
        ascending(suppressible(state)),
        frame,
    );
}

/// A verdict that takes a cut out has its reason in the measurements of the frame: a title
/// card is dark and weak, fast motion is weak in cost and bright, an occlusion is dark and
/// covers most of the picture, and credits are dark and mostly still.
pub proof fn cuts_go_for_a_reason(opts: DetectionOptions, state: Timeline, frame: usize)
    requires
        opts.analysis_speed == SceneDetectionSpeed::High,
        is_run_of_video(state),
        state.scores.contains_key(frame),
    ensures
        ({
            let before = state.scores[frame];
            let reason = corrected(opts, state).scores[frame].decision;
            reason != before.decision ==> {
                &&& reason == ScenecutDecision::SuppressedTextCardCluster ==> {
                    &&& before.decision == ScenecutDecision::CutImportance
                    &&& !double(TEXT_CARD_MAX_COST_RATIO).lt(before.cost_ratio)
                    &&& !double(TEXT_CARD_MAX_LUMA_8BIT).lt(before.avg_luma_8bit)
                    &&& !double(TEXT_CARD_MAX_IMP_RATIO).lt(before.imp_block_ratio)
                    &&& !before.global_imp_block_ratio.lt(double(TEXT_CARD_MIN_GLOBAL_IMP_RATIO))
                    &&& {
                        ||| before.transient_similarity_score is Some
                            && before.transient_similarity_score.unwrap().le(
                            double(TEXT_CARD_MAX_TRANSIENT_DELTA_8BIT),
                        )
                        ||| exists|slot: int|
                            0 <= slot < 8 && #[trigger] before.forward_similarity_candidates@[slot] is Some
                                && before.forward_similarity_candidates@[slot].unwrap().delta.le(
                                double(TEXT_CARD_MAX_SIMILARITY_DELTA_8BIT),
                            )
                    }
                }
                &&& reason == ScenecutDecision::SuppressedFastMotion ==> {
                    &&& before.decision == ScenecutDecision::CutImportance
                    &&& before.cost_ratio.le(double(FAST_MOTION_MAX_COST_RATIO))
                    &&& double(FAST_MOTION_MIN_IMP_RATIO).le(before.imp_block_ratio)
                    &&& double(FAST_MOTION_MIN_GLOBAL_IMP_RATIO).le(before.global_imp_block_ratio)
                    &&& double(FAST_MOTION_MIN_LUMA_8BIT).le(before.avg_luma_8bit)
                    &&& before.transient_similarity_score is Some
                    &&& double(FAST_MOTION_MIN_TRANSIENT_DELTA_8BIT).le(
                        before.transient_similarity_score.unwrap(),
                    )
                }
                &&& reason == ScenecutDecision::SuppressedDarkOcclusion ==> {
                    &&& before.decision == ScenecutDecision::CutImportance
                    &&& before.cost_ratio.le(double(DARK_OCCLUSION_MAX_COST_RATIO))
                    &&& before.avg_luma_8bit.le(double(DARK_OCCLUSION_MAX_LUMA_8BIT))
                    &&& double(DARK_OCCLUSION_MIN_IMP_RATIO).le(before.imp_block_ratio)
                    &&& double(DARK_OCCLUSION_MIN_GLOBAL_IMP_RATIO).le(
                        before.global_imp_block_ratio,
                    )
                    &&& double(DARK_OCCLUSION_MIN_BAD_BLOCK_RATIO).le(before.static_bad_block_ratio)
                    &&& before.static_good_block_ratio.le(
                        double(DARK_OCCLUSION_MAX_GOOD_BLOCK_RATIO),
                    )
                    &&& before.transient_similarity_score is Some
                    &&& before.transient_similarity_score.unwrap().le(
                        double(DARK_OCCLUSION_MAX_TRANSIENT_DELTA_8BIT),
                    )
                    &&& exists|slot: int|
                        0 <= slot < 8 && #[trigger] before.forward_similarity_candidates@[slot] is Some
                            && before.forward_similarity_candidates@[slot].unwrap().delta.le(
                            double(DARK_OCCLUSION_MAX_FORWARD_DELTA_8BIT),
                        )
                }
                &&& reason == ScenecutDecision::SuppressedStaticCredits ==> {
                    &&& before.decision == ScenecutDecision::Cut
                    &&& before.avg_luma_8bit.le(double(STATIC_CREDITS_MAX_LUMA_8BIT))
                    &&& double(STATIC_CREDITS_MIN_IMP_RATIO).le(before.imp_block_ratio)
                    &&& double(STATIC_CREDITS_MIN_GLOBAL_IMP_RATIO).le(
                        before.global_imp_block_ratio,
                    )
                    &&& double(STATIC_CREDITS_MIN_GOOD_BLOCK_RATIO).le(
                        before.static_good_block_ratio,
                    )
                    &&& before.static_bad_block_ratio.le(double(STATIC_CREDITS_MAX_BAD_BLOCK_RATIO))
                }
                &&& reason == ScenecutDecision::SuppressedRefinedSparsePeak ==> before.decision
                    == ScenecutDecision::NoCut || before.decision
                    == ScenecutDecision::CutSparseScenePeak
                &&& reason == ScenecutDecision::SuppressedAbaChain ==> before.decision
                    == ScenecutDecision::Cut || before.decision == ScenecutDecision::CutImportance
                    || before.decision == ScenecutDecision::CutAbaReturn || before.decision
                    == ScenecutDecision::NoCut || before.decision
                    == ScenecutDecision::SuppressedTransientSimilarity
                &&& reason != ScenecutDecision::NoCut
                &&& reason != ScenecutDecision::SuppressedTransientSimilarity
                &&& reason != ScenecutDecision::SuppressedMinDistance
                &&& reason != ScenecutDecision::SuppressedImportance
            }
        }),
{
    all_corrections_account(opts, state, frame);
    let before = state.scores[frame];
    if some_candidate_within(
        before.forward_similarity_candidates@,
        TEXT_CARD_MAX_SIMILARITY_DELTA_8BIT,
    ) {
        let slot = choose|slot: int|
            0 <= slot < 8 && (#[trigger] before.forward_similarity_candidates@[slot] matches Some(
                candidate,
            ) && candidate.delta.le(double(TEXT_CARD_MAX_SIMILARITY_DELTA_8BIT)));
        assert(before.forward_similarity_candidates@[slot] is Some);
    }
    if some_candidate_within(
        before.forward_similarity_candidates@,
        DARK_OCCLUSION_MAX_FORWARD_DELTA_8BIT,
    ) {
        let slot = choose|slot: int|
            0 <= slot < 8 && (#[trigger] before.forward_similarity_candidates@[slot] matches Some(
                candidate,
            ) && candidate.delta.le(double(DARK_OCCLUSION_MAX_FORWARD_DELTA_8BIT)));
        assert(before.forward_similarity_candidates@[slot] is Some);
    }
}

/// A verdict that puts a cut in has its reason in the measurements of the frame, and was no
/// cut of its own before.
pub proof fn cuts_come_for_a_reason(opts: DetectionOptions, state: Timeline, frame: usize)
    requires
        opts.analysis_speed == SceneDetectionSpeed::High,
        is_run_of_video(state),
        state.scores.contains_key(frame),
    ensures
        ({
            let before = state.scores[frame];
            let reason = corrected(opts, state).scores[frame].decision;
            reason != before.decision ==> {
                &&& reason != ScenecutDecision::Cut
                &&& reason != ScenecutDecision::CutImportance
                &&& reason == ScenecutDecision::CutDarkScenePeak ==> {
                    &&& before.decision == ScenecutDecision::NoCut
                    &&& double(DARK_SCENE_PEAK_MIN_COST_RATIO).le(before.cost_ratio)
                    &&& before.cost_ratio.le(double(DARK_SCENE_PEAK_MAX_COST_RATIO))
                    &&& before.avg_luma_8bit.le(double(DARK_SCENE_PEAK_MAX_LUMA_8BIT))
                    &&& double(DARK_SCENE_PEAK_MIN_IMP_RATIO).le(before.imp_block_ratio)
                    &&& double(DARK_SCENE_PEAK_MIN_GLOBAL_IMP_RATIO).le(
                        before.global_imp_block_ratio,
                    )
                    &&& double(DARK_SCENE_PEAK_MIN_BAD_BLOCK_RATIO).le(
                        before.static_bad_block_ratio,
                    )
                    &&& before.static_good_block_ratio.le(
                        double(DARK_SCENE_PEAK_MAX_GOOD_BLOCK_RATIO),
                    )
                }
                &&& reason == ScenecutDecision::CutSparseScenePeak ==> {
                    &&& before.decision == ScenecutDecision::NoCut
                    &&& double(SPARSE_SCENE_PEAK_MIN_COST_RATIO).le(before.cost_ratio)
                    &&& before.cost_ratio.le(double(SPARSE_SCENE_PEAK_MAX_COST_RATIO))
                    &&& before.avg_luma_8bit.le(double(SPARSE_SCENE_PEAK_MAX_LUMA_8BIT))
                    &&& double(SPARSE_SCENE_PEAK_MIN_IMP_RATIO).le(before.imp_block_ratio)
                    &&& double(SPARSE_SCENE_PEAK_MIN_GLOBAL_IMP_RATIO).le(
                        before.global_imp_block_ratio,
                    )
                    &&& double(SPARSE_SCENE_PEAK_MIN_BAD_BLOCK_RATIO).le(
                        before.static_bad_block_ratio,
                    )
                    &&& before.static_good_block_ratio.le(
                        double(SPARSE_SCENE_PEAK_MAX_GOOD_BLOCK_RATIO),
                    )
                }
                &&& reason == ScenecutDecision::CutRefinedSparsePeak ==> {
                    &&& before.decision == ScenecutDecision::NoCut
                    &&& double(REFINED_SPARSE_PEAK_MIN_COST_RATIO).le(before.cost_ratio)
                    &&& before.cost_ratio.le(double(REFINED_SPARSE_PEAK_MAX_COST_RATIO))
                    &&& double(REFINED_SPARSE_PEAK_MIN_IMP_RATIO).le(before.imp_block_ratio)
                    &&& double(REFINED_SPARSE_PEAK_MIN_GLOBAL_IMP_RATIO).le(
                        before.global_imp_block_ratio,
                    )
                    &&& double(REFINED_SPARSE_PEAK_MIN_LUMA_8BIT).le(before.avg_luma_8bit)
                    &&& before.avg_luma_8bit.le(double(REFINED_SPARSE_PEAK_MAX_LUMA_8BIT))
                    &&& double(REFINED_SPARSE_PEAK_MIN_BAD_BLOCK_RATIO).le(
                        before.static_bad_block_ratio,
                    )
                    &&& before.static_good_block_ratio.le(
                        double(REFINED_SPARSE_PEAK_MAX_GOOD_BLOCK_RATIO),
                    )
                }
                &&& reason == ScenecutDecision::CutAbaReturn ==> {
                    &&& before.decision == ScenecutDecision::NoCut || before.decision
                        == ScenecutDecision::SuppressedTransientSimilarity
                    &&& double(ABA_RETURN_MIN_COST_RATIO).le(before.cost_ratio)
                    &&& before.cost_ratio.le(double(ABA_RETURN_MAX_COST_RATIO))
                    &&& double(ABA_RETURN_MIN_IMP_RATIO).le(before.imp_block_ratio)
                    &&& double(ABA_RETURN_MIN_GLOBAL_IMP_RATIO).le(before.global_imp_block_ratio)
                    &&& before.avg_luma_8bit.le(double(ABA_RETURN_MAX_LUMA_8BIT))
                    &&& before.static_good_block_ratio.le(double(ABA_RETURN_MAX_GOOD_BLOCK_RATIO))
                }
                &&& reason == ScenecutDecision::CutForwardSimilarityRecovery ==> {
                    &&& double(FORWARD_SIMILARITY_RECOVERY_MIN_COST_RATIO).le(before.cost_ratio)
                    &&& double(FORWARD_SIMILARITY_RECOVERY_MIN_IMP_RATIO).le(before.imp_block_ratio)
                    &&& double(FORWARD_SIMILARITY_RECOVERY_MIN_GLOBAL_IMP_RATIO).le(
                        before.global_imp_block_ratio,
                    )
                }
                &&& reason == ScenecutDecision::CutShiftedBoundary ==> {
                    ||| {
                        &&& before.decision == ScenecutDecision::SuppressedMinDistance
                        &&& double(TEXT_BOUNDARY_SHIFT_MIN_FORWARD_COST_RATIO).le(before.cost_ratio)
                        &&& double(TEXT_BOUNDARY_SHIFT_MIN_FORWARD_IMP_RATIO).le(
                            before.imp_block_ratio,
                        )
                        &&& double(TEXT_BOUNDARY_SHIFT_MIN_FORWARD_GLOBAL_IMP_RATIO).le(
                            before.global_imp_block_ratio,
                        )
                        &&& before.avg_luma_8bit.le(
                            double(TEXT_BOUNDARY_SHIFT_MAX_FORWARD_LUMA_8BIT),
                        )
                        &&& double(TEXT_BOUNDARY_SHIFT_MIN_FORWARD_BAD_BLOCK_RATIO).le(
                            before.static_bad_block_ratio,
                        )
                        &&& before.static_good_block_ratio.le(
                            double(TEXT_BOUNDARY_SHIFT_MAX_FORWARD_GOOD_BLOCK_RATIO),
                        )
                    }
                    ||| {
                        &&& before.decision == ScenecutDecision::NoCut || before.decision
                            == ScenecutDecision::SuppressedImportance || before.decision
                            == ScenecutDecision::SuppressedMinDistance
                        &&& double(TEXT_BOUNDARY_SHIFT_MIN_BACKWARD_IMP_RATIO).le(
                            before.imp_block_ratio,
                        )
                        &&& double(TEXT_BOUNDARY_SHIFT_MIN_BACKWARD_GLOBAL_IMP_RATIO).le(
                            before.global_imp_block_ratio,
                        )
                        &&& before.avg_luma_8bit.le(
                            double(TEXT_BOUNDARY_SHIFT_MAX_BACKWARD_LUMA_8BIT),
                        )
                    }
                }
            }
        }),
{
    all_corrections_account(opts, state, frame);
}

} // verus!
