//! Each correction leaves its mark on the corrected timeline.

use vstd::prelude::*;
use crate::measure::double;
use crate::options::{DetectionOptions, SceneDetectionSpeed};
use crate::postprocess::aba_chain::without_chains;
use crate::postprocess::aba_return::with_returns;
use crate::postprocess::common::{with_spaced_cuts, Timeline};
use crate::postprocess::corrected;
use crate::postprocess::forward_similarity::without_returns;
use crate::postprocess::laws::{ascending_members, named_neighbours};
use crate::postprocess::peaks::{is_missed_cut, min_distance_of, missed_cuts, with_dark_peaks};
use crate::postprocess::peaks::{with_sparse_peaks, PeakKind};
use crate::postprocess::peaks::{DARK_SCENE_PEAK_MAX_COST_RATIO, DARK_SCENE_PEAK_MAX_GOOD_BLOCK_RATIO};
use crate::postprocess::peaks::{DARK_SCENE_PEAK_MAX_LUMA_8BIT, DARK_SCENE_PEAK_MIN_BAD_BLOCK_RATIO};
use crate::postprocess::peaks::{DARK_SCENE_PEAK_MIN_COST_RATIO, DARK_SCENE_PEAK_MIN_GLOBAL_IMP_RATIO};
use crate::postprocess::peaks::{DARK_SCENE_PEAK_MIN_IMP_RATIO, SCENE_PEAK_MAX_ADJACENT_COST_RATIO};
use crate::postprocess::peaks::{SPARSE_SCENE_PEAK_MAX_COST_RATIO, SPARSE_SCENE_PEAK_MAX_GOOD_BLOCK_RATIO};
use crate::postprocess::peaks::{SPARSE_SCENE_PEAK_MAX_LUMA_8BIT, SPARSE_SCENE_PEAK_MIN_BAD_BLOCK_RATIO};
use crate::postprocess::peaks::{SPARSE_SCENE_PEAK_MIN_COST_RATIO, SPARSE_SCENE_PEAK_MIN_GLOBAL_IMP_RATIO};
use crate::postprocess::peaks::SPARSE_SCENE_PEAK_MIN_IMP_RATIO;
use crate::postprocess::recovery::with_recovered_cuts;
use crate::postprocess::refined::with_refined_peaks;
use crate::postprocess::runs::{in_run, is_run, is_static_credits, is_text_card};
use crate::postprocess::runs::{without_static_credits, without_text_cards};
use crate::postprocess::runs::{STATIC_CREDITS_MAX_BAD_BLOCK_RATIO, STATIC_CREDITS_MAX_LUMA_8BIT};
use crate::postprocess::runs::{STATIC_CREDITS_MIN_GLOBAL_IMP_RATIO, STATIC_CREDITS_MIN_GOOD_BLOCK_RATIO};
use crate::postprocess::runs::{STATIC_CREDITS_MIN_IMP_RATIO, TEXT_CARD_MAX_COST_RATIO};
use crate::postprocess::runs::{TEXT_CARD_MAX_IMP_RATIO, TEXT_CARD_MAX_LUMA_8BIT};
use crate::postprocess::runs::{TEXT_CARD_MAX_SIMILARITY_DELTA_8BIT, TEXT_CARD_MAX_TRANSIENT_DELTA_8BIT};
use crate::postprocess::runs::TEXT_CARD_MIN_GLOBAL_IMP_RATIO;
use crate::postprocess::text_boundary::with_shifted_boundaries;
use crate::postprocess::turns::{ascending_holds, chain_turns, corrections_leave_runs};
use crate::postprocess::turns::{is_run_of_video, left_alone, peak_turns, promotion_turns};
use crate::postprocess::turns::{recovery_turns, refined_turns, shifted_turns, thinning_turns};
use crate::postprocess::weak_cuts::{is_micro_split, without_dark_occlusions, without_early_splits};
use crate::postprocess::weak_cuts::without_micro_splits;
use crate::postprocess::weak_cuts::{DARK_OCCLUSION_MAX_COST_RATIO, DARK_OCCLUSION_MAX_FORWARD_DELTA_8BIT};
use crate::postprocess::weak_cuts::{DARK_OCCLUSION_MAX_GOOD_BLOCK_RATIO, DARK_OCCLUSION_MAX_LUMA_8BIT};
use crate::postprocess::weak_cuts::{DARK_OCCLUSION_MAX_TRANSIENT_DELTA_8BIT, DARK_OCCLUSION_MIN_BAD_BLOCK_RATIO};
use crate::postprocess::weak_cuts::{DARK_OCCLUSION_MIN_GLOBAL_IMP_RATIO, DARK_OCCLUSION_MIN_IMP_RATIO};
use crate::postprocess::weak_cuts::{FAST_MOTION_EXIT_MIN_COST_RATIO, FAST_MOTION_MAX_COST_RATIO};
use crate::postprocess::weak_cuts::{FAST_MOTION_MIN_GLOBAL_IMP_RATIO, FAST_MOTION_MIN_IMP_RATIO};
use crate::postprocess::weak_cuts::{FAST_MOTION_MIN_LUMA_8BIT, FAST_MOTION_MIN_TRANSIENT_DELTA_8BIT};
use crate::score::ScenecutDecision;
use crate::timeline::{ascending, increasing, is_first_after, is_last_before};

verus! {

/// The timeline after one correction, by its place in turn.
pub(crate) open spec fn after_correction(
    opts: DetectionOptions,
    state: Timeline,
    place: int,
) -> Timeline {
    if place == 2 {
        without_text_cards(state)
    } else if place == 3 {
        without_micro_splits(state)
    } else if place == 4 {
        without_dark_occlusions(state)
    } else if place == 5 {
        with_dark_peaks(opts, state)
    } else if place == 6 {
        with_sparse_peaks(opts, state)
    } else if place == 7 {
        with_refined_peaks(opts, state)
    } else if place == 8 {
        with_returns(opts, state)
    } else if place == 9 {
        without_chains(opts, state)
    } else if place == 10 {
        with_recovered_cuts(opts, state)
    } else if place == 11 {
        with_shifted_boundaries(opts, state)
    } else {
        without_static_credits(state)
    }
}

/// The timeline after the corrections from one on, by their places in turn.
pub(crate) open spec fn remaining(opts: DetectionOptions, state: Timeline, from: int) -> Timeline
    decreases 13 - from,
{
    if from >= 13 || from < 2 {
        state
    } else {
        remaining(opts, after_correction(opts, state, from), from + 1)
    }
}

/// At the highest quality, what remains after the first correction are all the others.
pub(crate) proof fn all_remain(opts: DetectionOptions, state: Timeline)
    requires
        opts.analysis_speed == SceneDetectionSpeed::High,
    ensures
        corrected(opts, state) == remaining(
            opts,
            without_returns(opts.tuning.forward_similarity, state),
            2,
        ),
{
    reveal_with_fuel(remaining, 12);
}

/// The timelines between the corrections, and what remains to be done after each.
pub(crate) proof fn stages(opts: DetectionOptions, state: Timeline)
    requires
        opts.analysis_speed == SceneDetectionSpeed::High,
        is_run_of_video(state),
    ensures
        ({
            let a = without_returns(opts.tuning.forward_similarity, state);
            let b = without_text_cards(a);
            let c = without_micro_splits(b);
            let d = without_dark_occlusions(c);
            let e = with_dark_peaks(opts, d);
            let f = with_sparse_peaks(opts, e);
            let g = with_refined_peaks(opts, f);
            let h = with_returns(opts, g);
            let i = without_chains(opts, h);
            let j = with_recovered_cuts(opts, i);
            let k = with_shifted_boundaries(opts, j);
            &&& is_run_of_video(a) && corrected(opts, state) == remaining(opts, a, 2)
            &&& is_run_of_video(b) && corrected(opts, state) == remaining(opts, b, 3)
            &&& is_run_of_video(c) && corrected(opts, state) == remaining(opts, c, 4)
            &&& is_run_of_video(d) && corrected(opts, state) == remaining(opts, d, 5)
            &&& is_run_of_video(e) && corrected(opts, state) == remaining(opts, e, 6)
            &&& is_run_of_video(f) && corrected(opts, state) == remaining(opts, f, 7)
            &&& is_run_of_video(g) && corrected(opts, state) == remaining(opts, g, 8)
            &&& is_run_of_video(h) && corrected(opts, state) == remaining(opts, h, 9)
            &&& is_run_of_video(i) && corrected(opts, state) == remaining(opts, i, 10)
            &&& is_run_of_video(j) && corrected(opts, state) == remaining(opts, j, 11)
            &&& is_run_of_video(k) && corrected(opts, state) == remaining(opts, k, 12)
        }),
{
    all_remain(opts, state);
    corrections_leave_runs(opts, state);
    let a = without_returns(opts.tuning.forward_similarity, state);
    corrections_leave_runs(opts, a);
    let b = without_text_cards(a);
    corrections_leave_runs(opts, b);
    assert(remaining(opts, a, 2) == remaining(opts, b, 3));
    let c = without_micro_splits(b);
    corrections_leave_runs(opts, c);
    assert(remaining(opts, b, 3) == remaining(opts, c, 4));
    let d = without_dark_occlusions(c);
    corrections_leave_runs(opts, d);
    assert(remaining(opts, c, 4) == remaining(opts, d, 5));
    let e = with_dark_peaks(opts, d);
    corrections_leave_runs(opts, e);
    assert(remaining(opts, d, 5) == remaining(opts, e, 6));
    let f = with_sparse_peaks(opts, e);
    corrections_leave_runs(opts, f);
    assert(remaining(opts, e, 6) == remaining(opts, f, 7));
    let g = with_refined_peaks(opts, f);
    corrections_leave_runs(opts, g);
    assert(remaining(opts, f, 7) == remaining(opts, g, 8));
    let h = with_returns(opts, g);
    corrections_leave_runs(opts, h);
    assert(remaining(opts, g, 8) == remaining(opts, h, 9));
    let i = without_chains(opts, h);
    corrections_leave_runs(opts, i);
    assert(remaining(opts, h, 9) == remaining(opts, i, 10));
    let j = with_recovered_cuts(opts, i);
    corrections_leave_runs(opts, j);
    assert(remaining(opts, i, 10) == remaining(opts, j, 11));
    let k = with_shifted_boundaries(opts, j);
    assert(remaining(opts, j, 11) == remaining(opts, k, 12));
}

/// Whether a verdict is the mark of a correction that took a cut out.
pub(crate) open spec fn is_mark(decision: ScenecutDecision) -> bool {
    ||| decision == ScenecutDecision::SuppressedTextCardCluster
    ||| decision == ScenecutDecision::SuppressedFastMotion
    ||| decision == ScenecutDecision::SuppressedDarkOcclusion
    ||| decision == ScenecutDecision::SuppressedRefinedSparsePeak
    ||| decision == ScenecutDecision::SuppressedAbaChain
    ||| decision == ScenecutDecision::SuppressedShiftedBoundary
    ||| decision == ScenecutDecision::SuppressedStaticCredits
}

/// What corrections took out stays out, with its mark.
pub(crate) proof fn mark_stays(opts: DetectionOptions, state: Timeline, frame: usize, from: int)
    requires
        is_run_of_video(state),
        state.scores.contains_key(frame),
        !state.cuts.contains(frame),
        is_mark(state.scores[frame].decision),
        2 <= from <= 13,
    ensures
        remaining(opts, state, from).scores.contains_key(frame),
        !remaining(opts, state, from).cuts.contains(frame),
        remaining(opts, state, from).scores[frame] == state.scores[frame],
    decreases 13 - from,
{
    if from < 13 {
        corrections_leave_runs(opts, state);
        thinning_turns(state, frame);
        peak_turns(opts, state, frame);
        refined_turns(opts, state, frame);
        chain_turns(opts, state, frame);
        recovery_turns(opts, state, frame);
        shifted_turns(opts, state, frame);
        let next = after_correction(opts, state, from);
        mark_stays(opts, next, frame, from + 1);
    }
}

/// What corrections put in stays in, unless a later one takes it out for its own reason: a
/// sparse peak may be refined away, a return may be part of a chain, and any may be shifted.
pub(crate) proof fn recovered_cut_stays(
    opts: DetectionOptions,
    state: Timeline,
    frame: usize,
    from: int,
)
    requires
        is_run_of_video(state),
        state.scores.contains_key(frame),
        state.cuts.contains(frame),
        ({
            let decision = state.scores[frame].decision;
            ||| decision == ScenecutDecision::CutDarkScenePeak
            ||| decision == ScenecutDecision::CutSparseScenePeak
            ||| decision == ScenecutDecision::CutRefinedSparsePeak
            ||| decision == ScenecutDecision::CutAbaReturn
            ||| decision == ScenecutDecision::CutForwardSimilarityRecovery
            ||| decision == ScenecutDecision::CutShiftedBoundary
        }),
        2 <= from <= 13,
    ensures
        ({
            let after = remaining(opts, state, from);
            let before = state.scores[frame].decision;
            let decision = after.scores[frame].decision;
            &&& after.scores.contains_key(frame)
            &&& after.cuts.contains(frame) && decision == before || !after.cuts.contains(frame) && (
            decision == ScenecutDecision::SuppressedShiftedBoundary || (decision
                == ScenecutDecision::SuppressedRefinedSparsePeak && before
                == ScenecutDecision::CutSparseScenePeak) || (decision
                == ScenecutDecision::SuppressedAbaChain && before
                == ScenecutDecision::CutAbaReturn))
            &&& from >= 12 ==> after.cuts.contains(frame)
        }),
    decreases 13 - from,
{
    if from < 13 {
        corrections_leave_runs(opts, state);
        thinning_turns(state, frame);
        peak_turns(opts, state, frame);
        refined_turns(opts, state, frame);
        chain_turns(opts, state, frame);
        recovery_turns(opts, state, frame);
        shifted_turns(opts, state, frame);
        let next = after_correction(opts, state, from);
        if next.cuts.contains(frame) {
            recovered_cut_stays(opts, next, frame, from + 1);
        } else {
            mark_stays(opts, next, frame, from + 1);
        }
    }
}

/// Where one frame of a set follows another, it does so in its ascending form.
pub(crate) proof fn next_in_order(set: Set<usize>, frame: usize, next: usize) -> (index: int)
    requires
        set.finite(),
        is_first_after(set, frame, next),
        set.contains(frame),
    ensures
        0 <= index < ascending(set).len() - 1,
        ascending(set)[index] == frame,
        ascending(set)[index + 1] == next,
{
    ascending_members(set);
    ascending_holds(set, frame);
    ascending_holds(set, next);
    let all = ascending(set);
    let index = all.index_of(frame);
    let after = all.index_of(next);
    assert(all[index] == frame && all[after] == next);
    assert(index < after);
    assert(set.contains(all[index + 1]));
    assert(all[index] < all[index + 1]);
    index
}

/// A frame has one place in an ascending form.
pub(crate) proof fn one_place_in_order(set: Set<usize>, i: int, j: int)
    requires
        set.finite(),
        0 <= i < ascending(set).len(),
        0 <= j < ascending(set).len(),
        ascending(set)[i] == ascending(set)[j],
    ensures
        i == j,
{
    ascending_members(set);
}

/// Three dark and weak importance cuts in a row, each close to the one before, with frames
/// like those before them, are title cards: none of them is a cut in the end, and each says
/// why.
pub proof fn title_cards_in_a_row_go(
    opts: DetectionOptions,
    state: Timeline,
    x: usize,
    y: usize,
    z: usize,
    frame: usize,
)
    requires
        opts.analysis_speed == SceneDetectionSpeed::High,
        is_run_of_video(state),
        frame == x || frame == y || frame == z,
        0 < x < y < z,
        y - x <= 130,
        z - y <= 130,
        ({
            let given = without_returns(opts.tuning.forward_similarity, state);
            &&& given.cuts.contains(x) && given.cuts.contains(y) && given.cuts.contains(z)
            &&& forall|cut: usize| #[trigger]
                given.cuts.contains(cut) && x <= cut <= z ==> cut == x || cut == y || cut == z
            &&& forall|cut: usize|
                (cut == x || cut == y || cut == z) ==> {
                    let score = #[trigger] given.scores[cut];
                    &&& given.scores.contains_key(cut)
                    &&& score.decision == ScenecutDecision::CutImportance
                    &&& score.cost_ratio.le(double(TEXT_CARD_MAX_COST_RATIO))
                    &&& score.avg_luma_8bit.le(double(TEXT_CARD_MAX_LUMA_8BIT))
                    &&& score.imp_block_ratio.le(double(TEXT_CARD_MAX_IMP_RATIO))
                    &&& double(TEXT_CARD_MIN_GLOBAL_IMP_RATIO).le(score.global_imp_block_ratio)
                    &&& {
                        ||| score.transient_similarity_score is Some
                            && score.transient_similarity_score.unwrap().le(
                            double(TEXT_CARD_MAX_TRANSIENT_DELTA_8BIT),
                        )
                        ||| exists|slot: int|
                            0 <= slot < 8 && #[trigger] score.forward_similarity_candidates@[slot] is Some
                                && score.forward_similarity_candidates@[slot].unwrap().delta.le(
                                double(TEXT_CARD_MAX_SIMILARITY_DELTA_8BIT),
                            )
                    }
                }
        }),
    ensures
        !corrected(opts, state).cuts.contains(frame),
        corrected(opts, state).scores[frame].decision
            == ScenecutDecision::SuppressedTextCardCluster,
{
    stages(opts, state);
    let given = without_returns(opts.tuning.forward_similarity, state);
    let later = given.cuts.remove(0);
    assert(is_first_after(later, x, y));
    assert(is_first_after(later, y, z));
    let first = next_in_order(later, x, y);
    let second = next_in_order(later, y, z);
    one_place_in_order(later, first + 1, second);
    let cuts = ascending(later);
    let belongs = |f: usize| given.scores.contains_key(f) && is_text_card(given.scores[f]);
    assert forall|cut: usize| cut == x || cut == y || cut == z implies #[trigger] belongs(cut) by {
        let score = given.scores[cut];
        if !(score.transient_similarity_score is Some
            && score.transient_similarity_score.unwrap().le(
            double(TEXT_CARD_MAX_TRANSIENT_DELTA_8BIT),
        )) {
            let slot = choose|slot: int|
                0 <= slot < 8 && #[trigger] score.forward_similarity_candidates@[slot] is Some
                    && score.forward_similarity_candidates@[slot].unwrap().delta.le(
                    double(TEXT_CARD_MAX_SIMILARITY_DELTA_8BIT),
                );
            assert(score.forward_similarity_candidates@[slot] is Some);
        }
    }
    assert(is_run(cuts, belongs, 130, first, first + 2));
    let at = if frame == x {
        first
    } else if frame == y {
        first + 1
    } else {
        first + 2
    };
    assert(cuts[at] == frame);
    assert(in_run(cuts, belongs, 130, 3, at));
    let after = without_text_cards(given);
    assert(given.scores[frame].decision == ScenecutDecision::CutImportance);
    assert(!after.cuts.contains(frame));
    assert(after.scores[frame].decision == ScenecutDecision::SuppressedTextCardCluster);
    corrections_leave_runs(opts, given);
    assert(remaining(opts, given, 2) == remaining(opts, after, 3));
    mark_stays(opts, after, frame, 3);
}

/// Splits before a pair leave a later pair alone, where a long scene lies before it.
proof fn split_is_reached(
    state: Timeline,
    cuts: Seq<usize>,
    starts: nat,
    at: int,
)
    requires
        0 <= at,
        at + 3 < cuts.len(),
        starts + 3 <= cuts.len(),
        increasing(cuts),
        is_micro_split(state.scores, cuts[at], cuts[at + 1], cuts[at + 2], cuts[at + 3]),
        state.cuts.contains(cuts[at + 1]),
        state.cuts.contains(cuts[at + 2]),
    ensures
        ({
            let after = without_early_splits(state, cuts, starts);
            &&& after.scores.contains_key(cuts[at + 1])
            &&& after.scores.contains_key(cuts[at + 2])
            &&& starts <= at ==> left_alone(state, after, cuts[at + 1]) && left_alone(
                state,
                after,
                cuts[at + 2],
            ) && after.scores.contains_key(cuts[at + 3]) && left_alone(state, after, cuts[at + 3])
            &&& starts > at ==> !after.cuts.contains(cuts[at + 1]) && !after.cuts.contains(
                cuts[at + 2],
            ) && after.scores[cuts[at + 1]].decision == ScenecutDecision::SuppressedFastMotion
                && after.scores[cuts[at + 2]].decision == ScenecutDecision::SuppressedFastMotion
        }),
    decreases starts,
{
    if starts > 0 {
        split_is_reached(state, cuts, (starts - 1) as nat, at);
        let now = starts - 1;
        assert(cuts[now] < cuts[now + 1] < cuts[now + 2] < cuts[now + 3]);
        assert(forall|i: int, j: int|
            0 <= i < j < cuts.len() ==> cuts[i] < cuts[j]);
    }
}

/// Two weak importance cuts close together, after a long scene and soon before a strong cut,
/// split fast motion: neither is a cut in the end, and each says why.
pub proof fn splits_of_fast_motion_go(
    opts: DetectionOptions,
    state: Timeline,
    previous: usize,
    first: usize,
    second: usize,
    exit: usize,
    frame: usize,
)
    requires
        opts.analysis_speed == SceneDetectionSpeed::High,
        is_run_of_video(state),
        frame == first || frame == second,
        0 < previous < first < second < exit,
        first - previous >= 80,
        second - first <= 24,
        exit - second <= 80,
        ({
            let given = without_text_cards(
                without_returns(opts.tuning.forward_similarity, state),
            );
            &&& given.cuts.contains(previous) && given.cuts.contains(first)
            &&& given.cuts.contains(second) && given.cuts.contains(exit)
            &&& forall|cut: usize| #[trigger]
                given.cuts.contains(cut) && previous <= cut <= exit ==> cut == previous || cut
                    == first || cut == second || cut == exit
            &&& forall|cut: usize|
                (cut == first || cut == second) ==> {
                    let score = #[trigger] given.scores[cut];
                    &&& given.scores.contains_key(cut)
                    &&& score.decision == ScenecutDecision::CutImportance
                    &&& score.cost_ratio.le(double(FAST_MOTION_MAX_COST_RATIO))
                    &&& double(FAST_MOTION_MIN_IMP_RATIO).le(score.imp_block_ratio)
                    &&& double(FAST_MOTION_MIN_GLOBAL_IMP_RATIO).le(score.global_imp_block_ratio)
                    &&& double(FAST_MOTION_MIN_LUMA_8BIT).le(score.avg_luma_8bit)
                    &&& score.transient_similarity_score is Some
                    &&& double(FAST_MOTION_MIN_TRANSIENT_DELTA_8BIT).le(
                        score.transient_similarity_score.unwrap(),
                    )
                }
            &&& given.scores.contains_key(exit)
            &&& given.scores[exit].decision == ScenecutDecision::Cut
            &&& double(FAST_MOTION_EXIT_MIN_COST_RATIO).le(given.scores[exit].cost_ratio)
        }),
    ensures
        !corrected(opts, state).cuts.contains(frame),
        corrected(opts, state).scores[frame].decision == ScenecutDecision::SuppressedFastMotion,
{
    stages(opts, state);
    let found = without_returns(opts.tuning.forward_similarity, state);
    let given = without_text_cards(found);
    corrections_leave_runs(opts, given);
    let later = given.cuts.remove(0);
    assert(is_first_after(later, previous, first));
    assert(is_first_after(later, first, second));
    assert(is_first_after(later, second, exit));
    let a = next_in_order(later, previous, first);
    let b = next_in_order(later, first, second);
    let c = next_in_order(later, second, exit);
    one_place_in_order(later, a + 1, b);
    one_place_in_order(later, b + 1, c);
    let cuts = ascending(later);
    ascending_members(later);
    assert(given.scores[first].decision == ScenecutDecision::CutImportance);
    assert(given.scores[second].decision == ScenecutDecision::CutImportance);
    split_is_reached(given, cuts, (cuts.len() - 3) as nat, a);
    let after = without_micro_splits(given);
    assert(remaining(opts, given, 3) == remaining(opts, after, 4));
    mark_stays(opts, after, frame, 4);
}

/// A weak importance cut in a dark scene that changes in most places, with frames like those
/// before it on both sides and later on, is something dark that passes before the camera: it
/// is no cut in the end, and says why.
pub proof fn dark_occlusion_goes(opts: DetectionOptions, state: Timeline, frame: usize, slot: int)
    requires
        opts.analysis_speed == SceneDetectionSpeed::High,
        is_run_of_video(state),
        ({
            let given = without_micro_splits(
                without_text_cards(without_returns(opts.tuning.forward_similarity, state)),
            );
            let score = given.scores[frame];
            &&& given.cuts.contains(frame)
            &&& given.scores.contains_key(frame)
            &&& score.decision == ScenecutDecision::CutImportance
            &&& score.cost_ratio.le(double(DARK_OCCLUSION_MAX_COST_RATIO))
            &&& score.avg_luma_8bit.le(double(DARK_OCCLUSION_MAX_LUMA_8BIT))
            &&& double(DARK_OCCLUSION_MIN_IMP_RATIO).le(score.imp_block_ratio)
            &&& double(DARK_OCCLUSION_MIN_GLOBAL_IMP_RATIO).le(score.global_imp_block_ratio)
            &&& double(DARK_OCCLUSION_MIN_BAD_BLOCK_RATIO).le(score.static_bad_block_ratio)
            &&& score.static_good_block_ratio.le(double(DARK_OCCLUSION_MAX_GOOD_BLOCK_RATIO))
            &&& score.transient_similarity_score is Some
            &&& score.transient_similarity_score.unwrap().le(
                double(DARK_OCCLUSION_MAX_TRANSIENT_DELTA_8BIT),
            )
            &&& 0 <= slot < 8 && score.forward_similarity_candidates@[slot] is Some
                && score.forward_similarity_candidates@[slot].unwrap().delta.le(
                double(DARK_OCCLUSION_MAX_FORWARD_DELTA_8BIT),
            )
        }),
    ensures
        !corrected(opts, state).cuts.contains(frame),
        corrected(opts, state).scores[frame].decision == ScenecutDecision::SuppressedDarkOcclusion,
{
    stages(opts, state);
    let a = without_returns(opts.tuning.forward_similarity, state);
    let b = without_text_cards(a);
    let given = without_micro_splits(b);
    corrections_leave_runs(opts, given);
    assert(given.scores[frame].forward_similarity_candidates@[slot] is Some);
    let after = without_dark_occlusions(given);
    assert(remaining(opts, given, 4) == remaining(opts, after, 5));
    mark_stays(opts, after, frame, 5);
}

/// A frame that keeps its distance from the cuts, and from every other frame that is to
/// become one, becomes a cut.
pub(crate) proof fn spaced_frame_is_put_in(
    state: Timeline,
    frames: Seq<usize>,
    distance: int,
    reason: ScenecutDecision,
    frame: usize,
)
    requires
        frames.contains(frame),
        state.scores.contains_key(frame),
        forall|cut: usize| #[trigger]
            state.cuts.contains(cut) && cut != frame ==> cut - frame >= distance || frame - cut
                >= distance,
        forall|k: int|
            0 <= k < frames.len() && #[trigger] frames[k] != frame ==> frames[k] - frame >= distance
                || frame - frames[k] >= distance,
    ensures
        with_spaced_cuts(state, frames, distance, reason).cuts.contains(frame),
        with_spaced_cuts(state, frames, distance, reason).scores[frame].decision == reason,
        with_spaced_cuts(state, frames, distance, reason).scores.contains_key(frame),
    decreases frames.len(),
{
    let rest = frames.drop_last();
    let before = with_spaced_cuts(state, rest, distance, reason);
    promotion_turns(state, rest, distance, reason, frame);
    crate::postprocess::common::promotion_only_adds(state, rest, distance, reason);
    if rest.contains(frame) {
        assert forall|k: int| 0 <= k < rest.len() && #[trigger] rest[k] != frame implies rest[k]
            - frame >= distance || frame - rest[k] >= distance by {
            assert(frames[k] == rest[k]);
        }
        spaced_frame_is_put_in(state, rest, distance, reason, frame);
    } else {
        let k = frames.index_of(frame);
        if k < rest.len() {
            assert(rest[k] == frame);
        }
        assert(frames.last() == frame);
        assert forall|cut: usize| #[trigger] before.cuts.contains(cut) && cut != frame implies cut
            - frame >= distance || frame - cut >= distance by {
            if !state.cuts.contains(cut) {
                assert(rest.to_set().contains(cut));
                let i = rest.index_of(cut);
                assert(frames[i] == cut);
            }
        }
    }
}

/// A frame without a verdict of its own that is a weak peak of cost between dark scenes, in a
/// long scene with few cuts around, and with no other such frame too near, is a cut in the
/// end; or it was one, and a boundary was shifted from it.
pub proof fn dark_peak_becomes_cut(
    opts: DetectionOptions,
    state: Timeline,
    previous: usize,
    frame: usize,
    next: usize,
)
    requires
        opts.analysis_speed == SceneDetectionSpeed::High,
        is_run_of_video(state),
        previous < frame < next,
        next - previous >= 120,
        ({
            let given = without_dark_occlusions(
                without_micro_splits(
                    without_text_cards(without_returns(opts.tuning.forward_similarity, state)),
                ),
            );
            let score = given.scores[frame];
            let apart = match opts.min_scenecut_distance {
                Some(distance) => distance as int,
                None => 0,
            };
            &&& given.cuts.contains(previous) && given.cuts.contains(next)
            &&& forall|cut: usize| #[trigger]
                given.cuts.contains(cut) && previous <= cut <= next ==> cut == previous || cut
                    == next
            &&& frame - previous >= apart && next - frame >= apart
            &&& given.scores.contains_key(previous) ==> given.scores[previous].cost_ratio.le(
                double(SCENE_PEAK_MAX_ADJACENT_COST_RATIO),
            )
            &&& given.scores.contains_key(next) ==> given.scores[next].cost_ratio.le(
                double(SCENE_PEAK_MAX_ADJACENT_COST_RATIO),
            )
            &&& Set::new(
                |cut: usize|
                    given.cuts.contains(cut) && cut != 0 && frame - 500 <= cut <= frame + 500,
            ).len() <= 10
            &&& Set::new(
                |cut: usize|
                    given.cuts.contains(cut) && cut != 0 && frame - 2000 <= cut <= frame + 2000,
            ).len() <= 35
            &&& given.scores.contains_key(frame)
            &&& score.decision == ScenecutDecision::NoCut
            &&& double(DARK_SCENE_PEAK_MIN_COST_RATIO).le(score.cost_ratio)
            &&& score.cost_ratio.le(double(DARK_SCENE_PEAK_MAX_COST_RATIO))
            &&& score.avg_luma_8bit.le(double(DARK_SCENE_PEAK_MAX_LUMA_8BIT))
            &&& double(DARK_SCENE_PEAK_MIN_IMP_RATIO).le(score.imp_block_ratio)
            &&& double(DARK_SCENE_PEAK_MIN_GLOBAL_IMP_RATIO).le(score.global_imp_block_ratio)
            &&& double(DARK_SCENE_PEAK_MIN_BAD_BLOCK_RATIO).le(score.static_bad_block_ratio)
            &&& score.static_good_block_ratio.le(double(DARK_SCENE_PEAK_MAX_GOOD_BLOCK_RATIO))
            &&& forall|other: usize| #[trigger]
                given.scores.contains_key(other) && other != frame && frame - 5 <= other <= frame
                    + 5 ==> given.scores[other].cost_ratio.le(score.cost_ratio)
            &&& forall|other: usize| #[trigger]
                given.scores.contains_key(other) && other != frame && frame - apart < other < frame
                    + apart ==> given.scores[other].decision != ScenecutDecision::NoCut
                    || given.scores[other].cost_ratio.lt(double(DARK_SCENE_PEAK_MIN_COST_RATIO))
        }),
    ensures
        ({
            let after = corrected(opts, state);
            ||| after.cuts.contains(frame) && after.scores[frame].decision
                == ScenecutDecision::CutDarkScenePeak
            ||| !after.cuts.contains(frame) && after.scores[frame].decision
                == ScenecutDecision::SuppressedShiftedBoundary
        }),
{
    stages(opts, state);
    let a = without_returns(opts.tuning.forward_similarity, state);
    let b = without_text_cards(a);
    let c = without_micro_splits(b);
    let given = without_dark_occlusions(c);
    corrections_leave_runs(opts, given);
    missed_peak_is_put_in(opts, given, previous, frame, next, PeakKind::Dark);
    let after = with_dark_peaks(opts, given);
    assert(remaining(opts, given, 5) == remaining(opts, after, 6));
    recovered_cut_stays(opts, after, frame, 6);
}

/// A peak that qualifies becomes a cut.
proof fn missed_peak_is_put_in(
    opts: DetectionOptions,
    given: Timeline,
    previous: usize,
    frame: usize,
    next: usize,
    kind: PeakKind,
)
    requires
        is_run_of_video(given),
        kind == PeakKind::Dark || kind == PeakKind::Sparse,
        previous < frame < next,
        next - previous >= 120,
        given.cuts.contains(previous),
        given.cuts.contains(next),
        forall|cut: usize| #[trigger]
            given.cuts.contains(cut) && previous <= cut <= next ==> cut == previous || cut == next,
        frame - previous >= min_distance_of(opts),
        next - frame >= min_distance_of(opts),
        given.scores.contains_key(previous) ==> given.scores[previous].cost_ratio.le(
            double(SCENE_PEAK_MAX_ADJACENT_COST_RATIO),
        ),
        given.scores.contains_key(next) ==> given.scores[next].cost_ratio.le(
            double(SCENE_PEAK_MAX_ADJACENT_COST_RATIO),
        ),
        Set::new(
            |cut: usize| given.cuts.contains(cut) && cut != 0 && frame - 500 <= cut <= frame + 500,
        ).len() <= 10,
        Set::new(
            |cut: usize|
                given.cuts.contains(cut) && cut != 0 && frame - 2000 <= cut <= frame + 2000,
        ).len() <= 35,
        given.scores.contains_key(frame),
        given.scores[frame].decision == ScenecutDecision::NoCut,
        kind == PeakKind::Dark ==> crate::postprocess::peaks::is_dark_peak(given.scores[frame]),
        kind == PeakKind::Sparse ==> crate::postprocess::peaks::is_sparse_peak(given.scores[frame]),
        forall|other: usize| #[trigger]
            given.scores.contains_key(other) && other != frame && frame - 5 <= other <= frame + 5
                ==> given.scores[other].cost_ratio.le(given.scores[frame].cost_ratio),
        forall|other: usize| #[trigger]
            given.scores.contains_key(other) && other != frame && frame - min_distance_of(opts)
                < other < frame + min_distance_of(opts) ==> !is_missed_cut(
                kind,
                given,
                other,
                min_distance_of(opts),
            ),
    ensures
        kind == PeakKind::Dark ==> with_dark_peaks(opts, given).cuts.contains(frame)
            && with_dark_peaks(opts, given).scores[frame].decision
            == ScenecutDecision::CutDarkScenePeak && with_dark_peaks(
            opts,
            given,
        ).scores.contains_key(frame),
        kind == PeakKind::Sparse ==> with_sparse_peaks(opts, given).cuts.contains(frame)
            && with_sparse_peaks(opts, given).scores[frame].decision
            == ScenecutDecision::CutSparseScenePeak && with_sparse_peaks(
            opts,
            given,
        ).scores.contains_key(frame),
{
    let apart = min_distance_of(opts);
    assert(is_last_before(given.cuts, frame, previous));
    assert(is_first_after(given.cuts, frame, next));
    named_neighbours(given.cuts, frame);
    assert(crate::timeline::frames_between(given.cuts.remove(0), frame - 500, frame + 500)
        =~= Set::new(
        |cut: usize| given.cuts.contains(cut) && cut != 0 && frame - 500 <= cut <= frame + 500,
    ));
    assert(crate::timeline::frames_between(given.cuts.remove(0), frame - 2000, frame + 2000)
        =~= Set::new(
        |cut: usize| given.cuts.contains(cut) && cut != 0 && frame - 2000 <= cut <= frame + 2000,
    ));
    assert(is_missed_cut(kind, given, frame, apart));
    let missed = missed_cuts(kind, given, apart);
    vstd::set_lib::lemma_set_subset_finite(given.scores.dom(), missed);
    ascending_members(missed);
    ascending_holds(missed, frame);
    let frames = ascending(missed);
    assert forall|k: int| 0 <= k < frames.len() && #[trigger] frames[k] != frame implies frames[k]
        - frame >= apart || frame - frames[k] >= apart by {
        assert(missed.contains(frames[k]));
        assert(given.scores.contains_key(frames[k]));
    }
    assert forall|cut: usize| #[trigger] given.cuts.contains(cut) && cut != frame implies cut - frame
        >= apart || frame - cut >= apart by {
        if previous <= cut <= next {
        }
    }
    spaced_frame_is_put_in(given, frames, apart, ScenecutDecision::CutDarkScenePeak, frame);
    spaced_frame_is_put_in(given, frames, apart, ScenecutDecision::CutSparseScenePeak, frame);
}

/// A frame without a verdict of its own that is a peak of cost, in a long scene with few cuts
/// around, and with no other such frame too near, is a cut in the end; or it was one, and it
/// was refined away or a boundary was shifted from it.
pub proof fn sparse_peak_becomes_cut(
    opts: DetectionOptions,
    state: Timeline,
    previous: usize,
    frame: usize,
    next: usize,
)
    requires
        opts.analysis_speed == SceneDetectionSpeed::High,
        is_run_of_video(state),
        previous < frame < next,
        next - previous >= 120,
        ({
            let given = with_dark_peaks(
                opts,
                without_dark_occlusions(
                    without_micro_splits(
                        without_text_cards(without_returns(opts.tuning.forward_similarity, state)),
                    ),
                ),
            );
            let score = given.scores[frame];
            let apart = match opts.min_scenecut_distance {
                Some(distance) => distance as int,
                None => 0,
            };
            &&& given.cuts.contains(previous) && given.cuts.contains(next)
            &&& forall|cut: usize| #[trigger]
                given.cuts.contains(cut) && previous <= cut <= next ==> cut == previous || cut
                    == next
            &&& frame - previous >= apart && next - frame >= apart
            &&& given.scores.contains_key(previous) ==> given.scores[previous].cost_ratio.le(
                double(SCENE_PEAK_MAX_ADJACENT_COST_RATIO),
            )
            &&& given.scores.contains_key(next) ==> given.scores[next].cost_ratio.le(
                double(SCENE_PEAK_MAX_ADJACENT_COST_RATIO),
            )
            &&& Set::new(
                |cut: usize|
                    given.cuts.contains(cut) && cut != 0 && frame - 500 <= cut <= frame + 500,
            ).len() <= 10
            &&& Set::new(
                |cut: usize|
                    given.cuts.contains(cut) && cut != 0 && frame - 2000 <= cut <= frame + 2000,
            ).len() <= 35
            &&& given.scores.contains_key(frame)
            &&& score.decision == ScenecutDecision::NoCut
            &&& double(SPARSE_SCENE_PEAK_MIN_COST_RATIO).le(score.cost_ratio)
            &&& score.cost_ratio.le(double(SPARSE_SCENE_PEAK_MAX_COST_RATIO))
            &&& score.avg_luma_8bit.le(double(SPARSE_SCENE_PEAK_MAX_LUMA_8BIT))
            &&& double(SPARSE_SCENE_PEAK_MIN_IMP_RATIO).le(score.imp_block_ratio)
            &&& double(SPARSE_SCENE_PEAK_MIN_GLOBAL_IMP_RATIO).le(score.global_imp_block_ratio)
            &&& double(SPARSE_SCENE_PEAK_MIN_BAD_BLOCK_RATIO).le(score.static_bad_block_ratio)
            &&& score.static_good_block_ratio.le(double(SPARSE_SCENE_PEAK_MAX_GOOD_BLOCK_RATIO))
            &&& forall|other: usize| #[trigger]
                given.scores.contains_key(other) && other != frame && frame - 5 <= other <= frame
                    + 5 ==> given.scores[other].cost_ratio.le(score.cost_ratio)
            &&& forall|other: usize| #[trigger]
                given.scores.contains_key(other) && other != frame && frame - apart < other < frame
                    + apart ==> given.scores[other].decision != ScenecutDecision::NoCut
                    || given.scores[other].cost_ratio.lt(double(SPARSE_SCENE_PEAK_MIN_COST_RATIO))
        }),
    ensures
        ({
            let after = corrected(opts, state);
            let decision = after.scores[frame].decision;
            ||| after.cuts.contains(frame) && decision == ScenecutDecision::CutSparseScenePeak
            ||| !after.cuts.contains(frame) && (decision
                == ScenecutDecision::SuppressedShiftedBoundary || decision
                == ScenecutDecision::SuppressedRefinedSparsePeak)
        }),
{
    stages(opts, state);
    let a = without_returns(opts.tuning.forward_similarity, state);
    let b = without_text_cards(a);
    let c = without_micro_splits(b);
    let d = without_dark_occlusions(c);
    let given = with_dark_peaks(opts, d);
    corrections_leave_runs(opts, given);
    missed_peak_is_put_in(opts, given, previous, frame, next, PeakKind::Sparse);
    let after = with_sparse_peaks(opts, given);
    assert(remaining(opts, given, 6) == remaining(opts, after, 7));
    recovered_cut_stays(opts, after, frame, 7);
}

/// Of five cuts in a row inside credits, only the first is kept.
proof fn later_credits_go(given: Timeline, cuts: Seq<usize>, at: int)
    requires
        is_run_of_video(given),
        cuts.len() == 5,
        0 <= at < 5,
        forall|k: int|
            0 <= k < 4 ==> cuts[k] < #[trigger] cuts[k + 1] && cuts[k + 1] - cuts[k] <= 210,
        0 < cuts[0],
        forall|k: int| 0 <= k < 5 ==> given.cuts.contains(#[trigger] cuts[k]),
        forall|cut: usize| #[trigger]
            given.cuts.contains(cut) && cuts[0] <= cut <= cuts[4] ==> cuts.contains(cut),
        forall|k: int|
            0 <= k < 5 ==> given.scores.contains_key(#[trigger] cuts[k]) && is_static_credits(
                given.scores[cuts[k]],
            ),
        forall|cut: usize| #[trigger]
            given.cuts.contains(cut) && cut < cuts[0] ==> cuts[0] - cut > 210,
    ensures
        at == 0 ==> left_alone(given, without_static_credits(given), cuts[0]),
        at > 0 ==> !without_static_credits(given).cuts.contains(cuts[at])
            && without_static_credits(given).scores[cuts[at]].decision
            == ScenecutDecision::SuppressedStaticCredits,
{
    let later = given.cuts.remove(0);
    let all = ascending(later);
    let rises = |k: int| cuts[k] < cuts[k + 1];
    assert(rises(0) && rises(1) && rises(2) && rises(3));
    assert forall|k: int| 0 <= k < 4 implies is_first_after(later, cuts[k], #[trigger] cuts[k + 1]) by {
        assert(given.cuts.contains(cuts[k]));
        assert(given.cuts.contains(cuts[k + 1]));
        assert forall|other: usize| #[trigger]
            later.contains(other) && cuts[k] < other implies cuts[k + 1] <= other by {
            if other < cuts[k + 1] {
                assert(k == 0 || k == 1 || k == 2 || k == 3);
                assert(cuts[0] <= other <= cuts[4]);
                assert(given.cuts.contains(other));
                assert(cuts.contains(other));
                let m = choose|m: int| 0 <= m < 5 && cuts[m] == other;
                assert(m == 0 || m == 1 || m == 2 || m == 3 || m == 4);
            }
        }
    }
    let steps = |k: int| is_first_after(later, cuts[k], cuts[k + 1]);
    assert(steps(0) && steps(1) && steps(2) && steps(3));
    let p = next_in_order(later, cuts[0], cuts[1]);
    let q = next_in_order(later, cuts[1], cuts[2]);
    let r = next_in_order(later, cuts[2], cuts[3]);
    let s = next_in_order(later, cuts[3], cuts[4]);
    one_place_in_order(later, p + 1, q);
    one_place_in_order(later, q + 1, r);
    one_place_in_order(later, r + 1, s);
    let belongs = |x: usize| given.scores.contains_key(x) && is_static_credits(given.scores[x]);
    assert(all[p] == cuts[0] && all[p + 1] == cuts[1] && all[p + 2] == cuts[2] && all[p + 3]
        == cuts[3] && all[p + 4] == cuts[4]);
    assert(belongs(cuts[0]) && belongs(cuts[1]) && belongs(cuts[2]) && belongs(cuts[3]) && belongs(
        cuts[4],
    ));
    assert(is_run(all, belongs, 210, p, p + 4));
    assert(in_run(all, belongs, 210, 5, p + at));
    assert(all[p + at] == cuts[at]);
    if at > 0 {
        assert(is_run(all, belongs, 210, p + at - 1, p + at));
    } else {
        ascending_members(later);
        if is_run(all, belongs, 210, p - 1, p) {
            assert(later.contains(all[p - 1]));
            assert(given.cuts.contains(all[p - 1]));
            assert(all[p] - all[p - 1] <= 210);
            assert(all[p - 1] < all[p]);
        }
        assert forall|index: int| 0 <= index < all.len() && #[trigger] all[index] == cuts[0] implies index
            == p by {
            one_place_in_order(later, index, p);
        }
    }
}

/// Of five cuts in a row in dark and mostly still pictures, each close to the one before,
/// only the first can be a cut in the end: the others are credits, and say so.
pub proof fn credits_keep_their_first_cut(
    opts: DetectionOptions,
    state: Timeline,
    cuts: Seq<usize>,
    at: int,
)
    requires
        opts.analysis_speed == SceneDetectionSpeed::High,
        is_run_of_video(state),
        cuts.len() == 5,
        0 <= at < 5,
        forall|k: int|
            0 <= k < 4 ==> cuts[k] < #[trigger] cuts[k + 1] && cuts[k + 1] - cuts[k] <= 210,
        0 < cuts[0],
        ({
            let a = without_returns(opts.tuning.forward_similarity, state);
            let d = without_dark_occlusions(without_micro_splits(without_text_cards(a)));
            let g = with_refined_peaks(opts, with_sparse_peaks(opts, with_dark_peaks(opts, d)));
            let given = with_shifted_boundaries(
                opts,
                with_recovered_cuts(opts, without_chains(opts, with_returns(opts, g))),
            );
            &&& forall|k: int| 0 <= k < 5 ==> given.cuts.contains(#[trigger] cuts[k])
            &&& forall|cut: usize| #[trigger]
                given.cuts.contains(cut) && cuts[0] <= cut <= cuts[4] ==> cuts.contains(cut)
            &&& forall|k: int|
                0 <= k < 5 ==> {
                    let score = given.scores[#[trigger] cuts[k]];
                    &&& given.scores.contains_key(cuts[k])
                    &&& score.decision == ScenecutDecision::Cut
                    &&& score.avg_luma_8bit.le(double(STATIC_CREDITS_MAX_LUMA_8BIT))
                    &&& double(STATIC_CREDITS_MIN_IMP_RATIO).le(score.imp_block_ratio)
                    &&& double(STATIC_CREDITS_MIN_GLOBAL_IMP_RATIO).le(score.global_imp_block_ratio)
                    &&& double(STATIC_CREDITS_MIN_GOOD_BLOCK_RATIO).le(
                        score.static_good_block_ratio,
                    )
                    &&& score.static_bad_block_ratio.le(double(STATIC_CREDITS_MAX_BAD_BLOCK_RATIO))
                }
            &&& forall|cut: usize| #[trigger]
                given.cuts.contains(cut) && cut < cuts[0] ==> cuts[0] - cut > 210
        }),
    ensures
        at == 0 ==> corrected(opts, state).cuts.contains(cuts[0]) && corrected(
            opts,
            state,
        ).scores[cuts[0]].decision == ScenecutDecision::Cut,
        at > 0 ==> !corrected(opts, state).cuts.contains(cuts[at]) && corrected(
            opts,
            state,
        ).scores[cuts[at]].decision == ScenecutDecision::SuppressedStaticCredits,
{
    stages(opts, state);
    let a = without_returns(opts.tuning.forward_similarity, state);
    let b = without_text_cards(a);
    let c = without_micro_splits(b);
    let d = without_dark_occlusions(c);
    let e = with_dark_peaks(opts, d);
    let f = with_sparse_peaks(opts, e);
    let g = with_refined_peaks(opts, f);
    let h = with_returns(opts, g);
    let i = without_chains(opts, h);
    let j = with_recovered_cuts(opts, i);
    let given = with_shifted_boundaries(opts, j);
    corrections_leave_runs(opts, given);
    assert(corrected(opts, state) == without_static_credits(given));
    later_credits_go(given, cuts, at);
}

} // verus!
