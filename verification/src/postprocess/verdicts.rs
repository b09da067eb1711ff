//! The corrections keep cuts and verdicts in step.

use vstd::prelude::*;
use crate::options::{DetectionOptions, ForwardSimilarityOptions, SceneDetectionSpeed};
use crate::postprocess::aba_chain::without_chains;
use crate::postprocess::aba_return::with_returns;
use crate::postprocess::common::{with_spaced_cuts, Timeline};
use crate::postprocess::corrected;
use crate::postprocess::forward_similarity::{after_frames, closest_match, suppressible};
use crate::postprocess::forward_similarity::{with_inside_suppressed, with_suppressed};
use crate::postprocess::forward_similarity::{without_returns, PostprocessForwardSimilarityMatch};
use crate::postprocess::peaks::{with_dark_peaks, with_sparse_peaks};
use crate::postprocess::recovery::{with_group, with_groups, with_recovered_cuts};
use crate::postprocess::refined::{shifted, with_refined_peaks, RefinedSparsePeakShift};
use crate::postprocess::runs::{without_static_credits, without_text_cards};
use crate::postprocess::text_boundary::{after_shifts, with_shifted_boundaries};
use crate::postprocess::text_boundary::BoundaryShiftCandidate;
use crate::postprocess::weak_cuts::{without_dark_occlusions, without_early_splits};
use crate::postprocess::weak_cuts::without_micro_splits;
use crate::score::{ScenecutDecision, FORWARD_SIMILARITY_DIAGNOSTIC_SLOTS};
use crate::timeline::ascending;

verus! {

/// Whether a verdict makes a frame a cut.
pub open spec fn makes_cut(decision: ScenecutDecision) -> bool {
    match decision {
        ScenecutDecision::Cut => true,
        ScenecutDecision::CutImportance => true,
        ScenecutDecision::ForcedMaxDistance => true,
        ScenecutDecision::CutDarkScenePeak => true,
        ScenecutDecision::CutSparseScenePeak => true,
        ScenecutDecision::CutRefinedSparsePeak => true,
        ScenecutDecision::CutShiftedBoundary => true,
        ScenecutDecision::CutAbaReturn => true,
        ScenecutDecision::CutForwardSimilarityRecovery => true,
        _ => false,
    }
}

/// Whether every scored frame is a cut exactly where its verdict says so. The
/// first frame of the video begins a scene whatever its verdict is.
pub open spec fn verdicts_match(state: Timeline) -> bool {
    forall|frame: usize| #[trigger]
        state.scores.contains_key(frame) && frame != 0 ==> state.cuts.contains(frame) == makes_cut(
            state.scores[frame].decision,
        )
}

proof fn promotion_keeps_verdicts(
    state: Timeline,
    frames: Seq<usize>,
    distance: int,
    decision: ScenecutDecision,
)
    requires
        verdicts_match(state),
        makes_cut(decision),
    ensures
        verdicts_match(with_spaced_cuts(state, frames, distance, decision)),
    decreases frames.len(),
{
    if frames.len() > 0 {
        promotion_keeps_verdicts(state, frames.drop_last(), distance, decision);
    }
}

proof fn split_suppression_keeps_verdicts(state: Timeline, cuts: Seq<usize>, starts: nat)
    requires
        verdicts_match(state),
    ensures
        verdicts_match(without_early_splits(state, cuts, starts)),
    decreases starts,
{
    if starts > 0 {
        split_suppression_keeps_verdicts(state, cuts, (starts - 1) as nat);
    }
}

proof fn inside_suppression_keeps_verdicts(
    state: Timeline,
    inside: Seq<usize>,
    found: PostprocessForwardSimilarityMatch,
)
    requires
        verdicts_match(state),
    ensures
        verdicts_match(with_inside_suppressed(state, inside, found)),
    decreases inside.len(),
{
    if inside.len() > 0 {
        inside_suppression_keeps_verdicts(state, inside.drop_last(), found);
    }
}

proof fn return_suppression_keeps_verdicts(
    options: ForwardSimilarityOptions,
    state: Timeline,
    frames: Seq<usize>,
)
    requires
        verdicts_match(state),
    ensures
        verdicts_match(after_frames(options, state, frames)),
    decreases frames.len(),
{
    if frames.len() > 0 {
        let rest = frames.drop_last();
        return_suppression_keeps_verdicts(options, state, rest);
        let before = after_frames(options, state, rest);
        let frame = frames.last();
        let found = closest_match(
            options,
            before.scores[frame],
            before.scores,
            frame,
            FORWARD_SIMILARITY_DIAGNOSTIC_SLOTS as nat,
        );
        if found is Some {
            let found = found.unwrap();
            let suppressed = Timeline {
                cuts: before.cuts.remove(frame),
                scores: with_suppressed(before.scores, frame, found, Some(found.delta)),
            };
            assert(verdicts_match(suppressed));
            inside_suppression_keeps_verdicts(
                suppressed,
                ascending(
                    suppressed.cuts.filter(|inside: usize| frame < inside <= found.return_frame),
                ),
                found,
            );
        }
    }
}

proof fn shifts_keep_verdicts(state: Timeline, shifts: Seq<RefinedSparsePeakShift>)
    requires
        verdicts_match(state),
    ensures
        verdicts_match(shifted(state, shifts)),
    decreases shifts.len(),
{
    if shifts.len() > 0 {
        shifts_keep_verdicts(state, shifts.drop_last());
    }
}

proof fn boundary_shifts_keep_verdicts(
    state: Timeline,
    shifts: Seq<BoundaryShiftCandidate>,
    min_distance: int,
)
    requires
        verdicts_match(state),
    ensures
        verdicts_match(after_shifts(state, shifts, min_distance)),
    decreases shifts.len(),
{
    if shifts.len() > 0 {
        boundary_shifts_keep_verdicts(state, shifts.drop_last(), min_distance);
    }
}

proof fn group_keeps_verdicts(state: Timeline, group: Seq<usize>)
    requires
        verdicts_match(state),
    ensures
        verdicts_match(with_group(state, group)),
    decreases group.len(),
{
    if group.len() > 0 {
        group_keeps_verdicts(state, group.drop_last());
    }
}

proof fn groups_keep_verdicts(state: Timeline, groups: Seq<Seq<usize>>, min_distance: int)
    requires
        verdicts_match(state),
    ensures
        verdicts_match(with_groups(state, groups, min_distance)),
    decreases groups.len(),
{
    if groups.len() > 0 {
        groups_keep_verdicts(state, groups.drop_last(), min_distance);
        group_keeps_verdicts(
            with_groups(state, groups.drop_last(), min_distance),
            groups.last(),
        );
    }
}

proof fn suppressing_keeps_verdicts(
    opts: DetectionOptions,
    options: ForwardSimilarityOptions,
    state: Timeline,
)
    requires
        verdicts_match(state),
    ensures
        verdicts_match(without_returns(options, state)),
        verdicts_match(without_text_cards(state)),
        verdicts_match(without_micro_splits(state)),
        verdicts_match(without_dark_occlusions(state)),
        verdicts_match(without_chains(opts, state)),
        verdicts_match(without_static_credits(state)),
{
    return_suppression_keeps_verdicts(options, state, ascending(suppressible(state)));
    let cuts = ascending(state.cuts.remove(0));
    if cuts.len() >= 4 {
        split_suppression_keeps_verdicts(state, cuts, (cuts.len() - 3) as nat);
    }
}

proof fn recovering_keeps_verdicts(opts: DetectionOptions, state: Timeline)
    requires
        verdicts_match(state),
    ensures
        verdicts_match(with_dark_peaks(opts, state)),
        verdicts_match(with_sparse_peaks(opts, state)),
        verdicts_match(with_refined_peaks(opts, state)),
        verdicts_match(with_returns(opts, state)),
        verdicts_match(with_recovered_cuts(opts, state)),
        verdicts_match(with_shifted_boundaries(opts, state)),
{
    let base = crate::postprocess::peaks::min_distance_of(opts);
    let dark = crate::postprocess::peaks::PeakKind::Dark;
    let sparse = crate::postprocess::peaks::PeakKind::Sparse;
    let refined = crate::postprocess::peaks::PeakKind::Refined;
    promotion_keeps_verdicts(
        state,
        ascending(crate::postprocess::peaks::missed_cuts(dark, state, base)),
        base,
        ScenecutDecision::CutDarkScenePeak,
    );
    promotion_keeps_verdicts(
        state,
        ascending(crate::postprocess::peaks::missed_cuts(sparse, state, base)),
        base,
        ScenecutDecision::CutSparseScenePeak,
    );
    promotion_keeps_verdicts(
        state,
        ascending(crate::postprocess::aba_return::best_returns(state, base)),
        base,
        ScenecutDecision::CutAbaReturn,
    );
    let frames = ascending(state.scores.dom());
    groups_keep_verdicts(
        state,
        crate::postprocess::recovery::recovery_groups(state.scores, frames, base),
        base,
    );
    boundary_shifts_keep_verdicts(
        state,
        crate::postprocess::text_boundary::boundary_shifts(state, frames, base),
        base,
    );
    let shifts = crate::postprocess::refined::shifts_of(state, ascending(state.cuts), base);
    shifts_keep_verdicts(state, shifts);
    let moved = shifted(state, shifts);
    let distance = crate::options::larger(base, 40);
    promotion_keeps_verdicts(
        moved,
        ascending(crate::postprocess::peaks::missed_cuts(refined, moved, distance)),
        distance,
        ScenecutDecision::CutRefinedSparsePeak,
    );
}

/// Where cuts and verdicts agree before the corrections, they agree after them: a
/// frame that is no longer a cut says why, and so does one that has become a cut.
pub proof fn corrections_keep_verdicts(opts: DetectionOptions, state: Timeline)
    requires
        verdicts_match(state),
    ensures
        verdicts_match(corrected(opts, state)),
{
    let options = opts.tuning.forward_similarity;
    suppressing_keeps_verdicts(opts, options, state);
    let a = without_returns(options, state);
    if opts.analysis_speed == SceneDetectionSpeed::High {
        suppressing_keeps_verdicts(opts, options, a);
        let b = without_text_cards(a);
        suppressing_keeps_verdicts(opts, options, b);
        let c = without_micro_splits(b);
        suppressing_keeps_verdicts(opts, options, c);
        let d = without_dark_occlusions(c);
        recovering_keeps_verdicts(opts, d);
        let e = with_dark_peaks(opts, d);
        recovering_keeps_verdicts(opts, e);
        let f = with_sparse_peaks(opts, e);
        recovering_keeps_verdicts(opts, f);
        let g = with_refined_peaks(opts, f);
        recovering_keeps_verdicts(opts, g);
        let h = with_returns(opts, g);
        suppressing_keeps_verdicts(opts, options, h);
        let i = without_chains(opts, h);
        recovering_keeps_verdicts(opts, i);
        let j = with_recovered_cuts(opts, i);
        recovering_keeps_verdicts(opts, j);
        let k = with_shifted_boundaries(opts, j);
        suppressing_keeps_verdicts(opts, options, k);
    }
}

} // verus!
