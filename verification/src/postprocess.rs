//! Corrections to the cuts that frame-by-frame analysis found, made once the
//! scores of all frames are known.

use vstd::prelude::*;
use crate::frame_map::FrameMap;
use crate::options::{DetectionOptions, SceneDetectionSpeed};
use crate::postprocess::aba_chain::{apply_aba_chain_compaction_postprocess, without_chains};
use crate::postprocess::aba_return::{apply_aba_return_recovery_postprocess, with_returns};
use crate::postprocess::common::{timeline, Timeline};
use crate::postprocess::forward_similarity::{apply_forward_similarity_postprocess, without_returns};
use crate::postprocess::peaks::{apply_dark_scene_peak_recovery_postprocess, with_dark_peaks};
use crate::postprocess::peaks::{apply_sparse_scene_peak_recovery_postprocess, with_sparse_peaks};
use crate::postprocess::recovery::apply_forward_similarity_recovery_postprocess;
use crate::postprocess::recovery::with_recovered_cuts;
use crate::postprocess::refined::{apply_refined_sparse_peak_postprocess, with_refined_peaks};
use crate::postprocess::runs::{apply_static_credits_postprocess, without_static_credits};
use crate::postprocess::runs::{apply_text_card_cluster_postprocess, without_text_cards};
use crate::postprocess::text_boundary::apply_text_boundary_shift_postprocess;
use crate::postprocess::text_boundary::with_shifted_boundaries;
use crate::postprocess::weak_cuts::{apply_dark_occlusion_postprocess, without_dark_occlusions};
use crate::postprocess::weak_cuts::apply_fast_motion_micro_split_postprocess;
use crate::postprocess::weak_cuts::without_micro_splits;
use crate::score::ScenecutResult;
use crate::timeline::FrameSet;

pub mod aba_chain;
pub mod aba_return;
pub mod chain_marks;
pub mod common;
pub mod forward_similarity;
pub mod grounds;
pub mod laws;
pub mod marks;
pub mod movements;
pub mod peaks;
pub mod reasons;
pub mod recoveries;
pub mod recovery;
pub mod refined;
pub mod run_grounds;
pub mod runs;
pub mod short_returns;
pub mod spacing;
pub mod suppressed_returns;
pub mod text_boundary;
pub mod turns;
pub mod verdicts;
pub mod weak_cuts;

verus! {

/// The timeline after the corrections that take weak cuts out.
pub open spec fn thinned(state: Timeline) -> Timeline {
    without_dark_occlusions(without_micro_splits(without_text_cards(state)))
}

/// The timeline after the corrections that put missed cuts in.
pub open spec fn filled(opts: DetectionOptions, state: Timeline) -> Timeline {
    with_returns(
        opts,
        with_refined_peaks(opts, with_sparse_peaks(opts, with_dark_peaks(opts, state))),
    )
}

/// The timeline after the corrections that settle chains, returns and title cards.
pub open spec fn settled(opts: DetectionOptions, state: Timeline) -> Timeline {
    without_static_credits(
        with_shifted_boundaries(opts, with_recovered_cuts(opts, without_chains(opts, state))),
    )
}

/// The timeline after all corrections: at every speed cuts go after which the
/// earlier scene returns, at the highest quality all the others follow.
pub open spec fn corrected(opts: DetectionOptions, state: Timeline) -> Timeline {
    let returned = without_returns(opts.tuning.forward_similarity, state);
    if opts.analysis_speed == SceneDetectionSpeed::High {
        settled(opts, filled(opts, thinned(returned)))
    } else {
        returned
    }
}

/// Makes all corrections.
pub fn apply_scenechange_postprocess(
    opts: &DetectionOptions,
    keyframes: &mut FrameSet,
    scores: &mut FrameMap<ScenecutResult>,
)
    ensures
        timeline(*final(keyframes), *final(scores)) == corrected(
            *opts,
            timeline(*old(keyframes), *old(scores)),
        ),
{
    apply_forward_similarity_postprocess(&opts.tuning.forward_similarity, keyframes, scores);
    if opts.analysis_speed == SceneDetectionSpeed::High {
        apply_text_card_cluster_postprocess(keyframes, scores);
        apply_fast_motion_micro_split_postprocess(keyframes, scores);
        apply_dark_occlusion_postprocess(keyframes, scores);
        apply_dark_scene_peak_recovery_postprocess(opts, keyframes, scores);
        apply_sparse_scene_peak_recovery_postprocess(opts, keyframes, scores);
        apply_refined_sparse_peak_postprocess(opts, keyframes, scores);
        apply_aba_return_recovery_postprocess(opts, keyframes, scores);
        apply_aba_chain_compaction_postprocess(opts, keyframes, scores);
        apply_forward_similarity_recovery_postprocess(opts, keyframes, scores);
        apply_text_boundary_shift_postprocess(opts, keyframes, scores);
        apply_static_credits_postprocess(keyframes, scores);
    }
}

} // verus!
