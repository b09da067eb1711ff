//! Cuts that the later corrections find leave their mark on the corrected timeline.

use vstd::prelude::*;
use vstd::set_lib::lemma_set_subset_finite;
use crate::measure::double;
use crate::options::{DetectionOptions, SceneDetectionSpeed};
use crate::postprocess::aba_chain::without_chains;
use crate::postprocess::aba_return::{best_returns, is_best_return, return_candidate};
use crate::postprocess::aba_return::{with_returns, ABA_RETURN_MAX_COST_RATIO};
use crate::postprocess::aba_return::{ABA_RETURN_MAX_GOOD_BLOCK_RATIO, ABA_RETURN_MAX_LUMA_8BIT};
use crate::postprocess::aba_return::{ABA_RETURN_MAX_SIGNATURE_DELTA_8BIT, ABA_RETURN_MIN_COST_RATIO};
use crate::postprocess::aba_return::{ABA_RETURN_MIN_EDGE_DELTA_8BIT, ABA_RETURN_MIN_GLOBAL_IMP_RATIO};
use crate::postprocess::aba_return::ABA_RETURN_MIN_IMP_RATIO;
use crate::postprocess::common::{frame_distance, signature_distance, well_spaced, Timeline};
use crate::postprocess::corrected;
use crate::postprocess::forward_similarity::without_returns;
use crate::postprocess::laws::{ascending_members, named_neighbours};
use crate::postprocess::marks::{recovered_cut_stays, remaining};
use crate::postprocess::marks::{spaced_frame_is_put_in, stages};
use crate::postprocess::peaks::{min_distance_of, with_dark_peaks, with_sparse_peaks};
use crate::postprocess::recovery::{heads_recovery, is_recoverable, recoverable_inside};
use crate::postprocess::recovery::{recovery_group, recovery_groups, with_group, with_groups};
use crate::postprocess::recovery::{group_fits, with_recovered_cuts};
use crate::postprocess::recovery::FORWARD_SIMILARITY_RECOVERY_MIN_COST_RATIO;
use crate::postprocess::recovery::FORWARD_SIMILARITY_RECOVERY_MIN_EDGE_DELTA_8BIT;
use crate::postprocess::recovery::FORWARD_SIMILARITY_RECOVERY_MIN_GLOBAL_IMP_RATIO;
use crate::postprocess::recovery::FORWARD_SIMILARITY_RECOVERY_MIN_IMP_RATIO;
use crate::postprocess::recovery::FORWARD_SIMILARITY_RECOVERY_MIN_MATCH_DELTA_8BIT;
use crate::postprocess::refined::with_refined_peaks;
use crate::postprocess::runs::without_text_cards;
use crate::postprocess::turns::{ascending_holds, corrections_leave_runs, is_run_of_video};
use crate::postprocess::weak_cuts::{without_dark_occlusions, without_micro_splits};
use crate::score::{ScenecutDecision, FRAME_LUMA_SIGNATURE_CELLS};
use crate::timeline::{ascending, ascending_form_is_unique, increasing, is_first_after, is_last_before};

verus! {

/// Each cell adds at most the range of a byte to the difference of two signatures.
pub(crate) proof fn signatures_differ_within_range(left: Seq<u8>, right: Seq<u8>, cells: nat)
    ensures
        0 <= signature_distance(left, right, cells) <= 255 * cells,
    decreases cells,
{
    if cells > 0 {
        signatures_differ_within_range(left, right, (cells - 1) as nat);
    }
}

/// Signatures that agree before a cell differ by the same there.
proof fn same_start_same_distance(
    left: Seq<u8>,
    right: Seq<u8>,
    other_left: Seq<u8>,
    other_right: Seq<u8>,
    cells: nat,
)
    requires
        forall|k: int| 0 <= k < cells ==> left[k] == #[trigger] other_left[k],
        forall|k: int| 0 <= k < cells ==> right[k] == #[trigger] other_right[k],
    ensures
        signature_distance(left, right, cells) == signature_distance(
            other_left,
            other_right,
            cells,
        ),
    decreases cells,
{
    if cells > 0 {
        same_start_same_distance(left, right, other_left, other_right, (cells - 1) as nat);
        let k = cells - 1;
        assert(left[k] == other_left[k]);
        assert(right[k] == other_right[k]);
    }
}

/// The difference of two signatures is the sum of what their cells differ by: to give one
/// cell of the first the value that it has in the second takes off as much as that cell
/// differed by; where no cell differs it is zero, and it is the same both ways.
pub proof fn signature_distance_is_made_of_cells(
    left: Seq<u8>,
    right: Seq<u8>,
    cells: nat,
    cell: int,
)
    requires
        cells <= left.len(),
        cells <= right.len(),
        0 <= cell < cells,
    ensures
        signature_distance(left, right, cells) - signature_distance(
            left.update(cell, right[cell]),
            right,
            cells,
        ) == if left[cell] <= right[cell] {
            right[cell] - left[cell]
        } else {
            left[cell] - right[cell]
        },
        signature_distance(left, left, cells) == 0,
        signature_distance(left, right, cells) == signature_distance(right, left, cells),
    decreases cells,
{
    let changed = left.update(cell, right[cell]);
    let rest = (cells - 1) as nat;
    if cell < rest {
        signature_distance_is_made_of_cells(left, right, rest, cell);
    } else {
        same_start_same_distance(left, right, changed, right, rest);
        if rest > 0 {
            signature_distance_is_made_of_cells(left, right, rest, 0);
        }
    }
}

/// Where a scene returns before the next cut, there is a best such return.
proof fn some_return_is_best(state: Timeline, frame: usize, distance: int) -> (best: usize)
    requires
        return_candidate(state, frame, distance) is Some,
    ensures
        is_best_return(state, best, distance),
        ({
            let start = return_candidate(state, frame, distance).unwrap();
            let found = return_candidate(state, best, distance).unwrap();
            &&& found.previous_cut == start.previous_cut
            &&& found.return_delta <= start.return_delta
        }),
    decreases
            return_candidate(state, frame, distance).unwrap().return_delta,
            u32::MAX - return_candidate(state, frame, distance).unwrap().edge_delta,
            u32::MAX - return_candidate(state, frame, distance).unwrap().previous_edge_delta,
            frame,
{
    let start = return_candidate(state, frame, distance).unwrap();
    if is_best_return(state, frame, distance) {
        frame
    } else {
        let other = choose|other: usize|
            #[trigger] return_candidate(state, other, distance) is Some && return_candidate(
                state,
                other,
                distance,
            ).unwrap().previous_cut == start.previous_cut && return_candidate(
                state,
                other,
                distance,
            ).unwrap().beats(start);
        some_return_is_best(state, other, distance)
    }
}

/// The best return between two cuts becomes a cut.
proof fn best_return_is_put_in(
    opts: DetectionOptions,
    given: Timeline,
    previous: usize,
    best: usize,
    next: usize,
)
    requires
        is_run_of_video(given),
        is_first_after(given.cuts, best, next),
        is_last_before(given.cuts, best, previous),
        is_best_return(given, best, min_distance_of(opts)),
    ensures
        with_returns(opts, given).cuts.contains(best),
        with_returns(opts, given).scores.contains_key(best),
        with_returns(opts, given).scores[best].decision == ScenecutDecision::CutAbaReturn,
{
    let apart = min_distance_of(opts);
    let all = best_returns(given, apart);
    lemma_set_subset_finite(given.scores.dom(), all);
    ascending_members(all);
    ascending_holds(all, best);
    named_neighbours(given.cuts, best);
    let frames = ascending(all);
    assert forall|k: int| 0 <= k < frames.len() && #[trigger] frames[k] != best implies frames[k]
        - best >= apart || best - frames[k] >= apart by {
        let other = frames[k];
        assert(all.contains(other));
        named_neighbours(given.cuts, other);
        let mine = return_candidate(given, best, apart).unwrap();
        let theirs = return_candidate(given, other, apart).unwrap();
        assert(return_candidate(given, other, apart) is Some);
        assert(is_last_before(given.cuts, other, theirs.previous_cut));
        assert(is_first_after(given.cuts, other, theirs.next_cut));
        if theirs.previous_cut == mine.previous_cut {
            assert(!theirs.beats(mine));
            assert(!mine.beats(theirs));
        }
    }
    assert forall|cut: usize| #[trigger] given.cuts.contains(cut) && cut != best implies cut - best
        >= apart || best - cut >= apart by {
    }
    spaced_frame_is_put_in(given, frames, apart, ScenecutDecision::CutAbaReturn, best);
}

/// A frame without a cut whose picture is that before the last cut, with a clear change at it
/// and at that cut, shows that a scene returned: between the two cuts around it a frame that
/// returns at least as closely becomes a cut for it. That one is a cut in the end; or it was
/// one, and it was part of a chain or a boundary was shifted from it.
pub proof fn returning_scene_is_cut(
    opts: DetectionOptions,
    state: Timeline,
    previous: usize,
    frame: usize,
    next: usize,
    back: int,
    edge: int,
    entry: int,
)
    requires
        opts.analysis_speed == SceneDetectionSpeed::High,
        is_run_of_video(state),
        0 < previous < frame < next,
        back <= ABA_RETURN_MAX_SIGNATURE_DELTA_8BIT * FRAME_LUMA_SIGNATURE_CELLS,
        edge >= ABA_RETURN_MIN_EDGE_DELTA_8BIT * FRAME_LUMA_SIGNATURE_CELLS,
        entry >= ABA_RETURN_MIN_EDGE_DELTA_8BIT * FRAME_LUMA_SIGNATURE_CELLS,
        edge >= 2 * back,
        entry >= 2 * back,
        ({
            let d = without_dark_occlusions(
                without_micro_splits(
                    without_text_cards(without_returns(opts.tuning.forward_similarity, state)),
                ),
            );
            let given = with_refined_peaks(opts, with_sparse_peaks(opts, with_dark_peaks(opts, d)));
            let score = given.scores[frame];
            let apart = match opts.min_scenecut_distance {
                Some(distance) => distance as int,
                None => 0,
            };
            &&& given.cuts.contains(previous) && given.cuts.contains(next)
            &&& forall|cut: usize| #[trigger]
                given.cuts.contains(cut) && previous <= cut <= next ==> cut == previous || cut
                    == next
            &&& frame - previous >= apart && next - frame >= apart
            &&& given.scores.contains_key(frame)
            &&& score.decision == ScenecutDecision::NoCut || score.decision
                == ScenecutDecision::SuppressedTransientSimilarity
            &&& double(ABA_RETURN_MIN_COST_RATIO).le(score.cost_ratio)
            &&& score.cost_ratio.le(double(ABA_RETURN_MAX_COST_RATIO))
            &&& double(ABA_RETURN_MIN_IMP_RATIO).le(score.imp_block_ratio)
            &&& double(ABA_RETURN_MIN_GLOBAL_IMP_RATIO).le(score.global_imp_block_ratio)
            &&& score.avg_luma_8bit.le(double(ABA_RETURN_MAX_LUMA_8BIT))
            &&& score.static_good_block_ratio.le(double(ABA_RETURN_MAX_GOOD_BLOCK_RATIO))
            &&& frame_distance(given.scores, (previous - 1) as usize, frame) == Some(back)
            &&& frame_distance(given.scores, (frame - 1) as usize, frame) == Some(edge)
            &&& frame_distance(given.scores, (previous - 1) as usize, previous) == Some(entry)
        }),
    ensures
        ({
            let d = without_dark_occlusions(
                without_micro_splits(
                    without_text_cards(without_returns(opts.tuning.forward_similarity, state)),
                ),
            );
            let given = with_refined_peaks(opts, with_sparse_peaks(opts, with_dark_peaks(opts, d)));
            let after = corrected(opts, state);
            exists|best: usize|
                {
                    &&& previous < best < next
                    &&& #[trigger] given.scores.contains_key(best)
                    &&& given.scores[best].decision == ScenecutDecision::NoCut
                        || given.scores[best].decision
                        == ScenecutDecision::SuppressedTransientSimilarity
                    &&& frame_distance(given.scores, (previous - 1) as usize, best) is Some
                    &&& frame_distance(given.scores, (previous - 1) as usize, best).unwrap() <= back
                    &&& {
                        ||| after.cuts.contains(best) && after.scores[best].decision
                            == ScenecutDecision::CutAbaReturn
                        ||| !after.cuts.contains(best) && (after.scores[best].decision
                            == ScenecutDecision::SuppressedAbaChain || after.scores[best].decision
                            == ScenecutDecision::SuppressedShiftedBoundary)
                    }
                }
        }),
{
    stages(opts, state);
    let a = without_returns(opts.tuning.forward_similarity, state);
    let b = without_text_cards(a);
    let c = without_micro_splits(b);
    let d = without_dark_occlusions(c);
    let e = with_dark_peaks(opts, d);
    let f = with_sparse_peaks(opts, e);
    let given = with_refined_peaks(opts, f);
    corrections_leave_runs(opts, given);
    let after = with_returns(opts, given);
    assert(remaining(opts, given, 8) == remaining(opts, after, 9));
    let apart = min_distance_of(opts);
    named_neighbours(given.cuts, frame);
    assert(is_last_before(given.cuts, frame, previous));
    assert(is_first_after(given.cuts, frame, next));
    distances_fit(given, frame, previous);
    assert(return_candidate(given, frame, apart) is Some);
    let best = some_return_is_best(given, frame, apart);
    named_neighbours(given.cuts, best);
    distances_fit(given, best, previous);
    let found = return_candidate(given, best, apart).unwrap();
    assert(found.previous_cut == previous);
    assert(is_last_before(given.cuts, best, previous));
    assert(is_first_after(given.cuts, best, found.next_cut));
    assert(best < next);
    assert(found.next_cut == next);
    best_return_is_put_in(opts, given, previous, best, next);
    recovered_cut_stays(opts, after, best, 9);
    assert(given.scores.contains_key(best));
}

/// Differences of signatures fit a word.
proof fn distances_fit(state: Timeline, frame: usize, previous: usize)
    ensures
        forall|left: usize, right: usize|
            (#[trigger] frame_distance(state.scores, left, right) matches Some(distance) ==> 0
                <= distance <= 255 * 32),
{
    assert forall|left: usize, right: usize|
        (#[trigger] frame_distance(state.scores, left, right) matches Some(distance) ==> 0
            <= distance <= 255 * 32) by {
        if frame_distance(state.scores, left, right) is Some {
            signatures_differ_within_range(
                state.scores[left].frame_luma_signature.unwrap()@,
                state.scores[right].frame_luma_signature.unwrap()@,
                32,
            );
        }
    }
}

/// Where one frame alone heads a group, that group is the only one.
proof fn one_head_one_group(
    state: Timeline,
    frames: Seq<usize>,
    distance: int,
    head: usize,
)
    requires
        increasing(frames),
        forall|other: usize|
            other != head ==> !#[trigger] heads_recovery(state.scores, other, distance),
        heads_recovery(state.scores, head, distance),
    ensures
        recovery_groups(state.scores, frames, distance) == if frames.contains(head) {
            seq![recovery_group(state.scores, head, distance)]
        } else {
            Seq::empty()
        },
    decreases frames.len(),
{
    if frames.len() > 0 {
        let rest = frames.drop_last();
        one_head_one_group(state, rest, distance, head);
        assert(frames =~= rest.push(frames.last()));
        if rest.contains(head) {
            let i = rest.index_of(head);
            assert(frames[i] == head);
            assert(frames[i] < frames[frames.len() - 1]);
        } else if frames.last() == head {
            assert(frames[frames.len() - 1] == head);
            assert(recovery_groups(state.scores, frames, distance) =~= seq![
                recovery_group(state.scores, head, distance),
            ]);
        } else {
            assert(!frames.contains(head)) by {
                if frames.contains(head) {
                    let i = frames.index_of(head);
                    assert(rest[i] == head);
                }
            }
        }
    }
}

/// Two strong changes that were taken for a scene that returns, the second well inside the
/// return of the first, the first a poor match, and with no other such change about, become
/// cuts again: both are cuts in the end, or were and a boundary was shifted from them.
pub proof fn poor_return_is_recovered(
    opts: DetectionOptions,
    state: Timeline,
    head: usize,
    inside: usize,
    frame: usize,
)
    requires
        opts.analysis_speed == SceneDetectionSpeed::High,
        is_run_of_video(state),
        frame == head || frame == inside,
        0 < head < inside,
        ({
            let d = without_dark_occlusions(
                without_micro_splits(
                    without_text_cards(without_returns(opts.tuning.forward_similarity, state)),
                ),
            );
            let g = with_refined_peaks(opts, with_sparse_peaks(opts, with_dark_peaks(opts, d)));
            let given = without_chains(opts, with_returns(opts, g));
            let apart = match opts.min_scenecut_distance {
                Some(distance) if distance > 0 => distance as int,
                _ => 1,
            };
            &&& forall|other: usize| #[trigger]
                given.scores.contains_key(other) && given.scores[other].decision
                    == ScenecutDecision::SuppressedForwardSimilarity ==> other == head || other
                    == inside
            &&& forall|one: usize|
                (one == head || one == inside) ==> {
                    let score = #[trigger] given.scores[one];
                    &&& given.scores.contains_key(one)
                    &&& score.decision == ScenecutDecision::SuppressedForwardSimilarity
                    &&& double(FORWARD_SIMILARITY_RECOVERY_MIN_COST_RATIO).le(score.cost_ratio)
                    &&& double(FORWARD_SIMILARITY_RECOVERY_MIN_IMP_RATIO).le(score.imp_block_ratio)
                    &&& double(FORWARD_SIMILARITY_RECOVERY_MIN_GLOBAL_IMP_RATIO).le(
                        score.global_imp_block_ratio,
                    )
                    &&& frame_distance(given.scores, (one - 1) as usize, one) is Some
                    &&& frame_distance(given.scores, (one - 1) as usize, one).unwrap()
                        >= FORWARD_SIMILARITY_RECOVERY_MIN_EDGE_DELTA_8BIT
                        * FRAME_LUMA_SIGNATURE_CELLS
                }
            &&& forall|cut: usize| #[trigger]
                given.cuts.contains(cut) ==> cut == head || cut - head >= apart || head - cut
                    >= apart
            &&& forall|cut: usize| #[trigger]
                given.cuts.contains(cut) ==> cut == inside || cut - inside >= apart || inside - cut
                    >= apart
            &&& given.scores[head].forward_similarity_score is Some
            &&& double(FORWARD_SIMILARITY_RECOVERY_MIN_MATCH_DELTA_8BIT).le(
                given.scores[head].forward_similarity_score.unwrap(),
            )
            &&& given.scores[head].forward_return_frame is Some
            &&& head + apart <= inside
            &&& inside + apart <= given.scores[head].forward_return_frame.unwrap()
        }),
    ensures
        ({
            let after = corrected(opts, state);
            ||| after.cuts.contains(frame) && after.scores[frame].decision
                == ScenecutDecision::CutForwardSimilarityRecovery
            ||| !after.cuts.contains(frame) && after.scores[frame].decision
                == ScenecutDecision::SuppressedShiftedBoundary
        }),
{
    stages(opts, state);
    let a = without_returns(opts.tuning.forward_similarity, state);
    let b = without_text_cards(a);
    let c = without_micro_splits(b);
    let d = without_dark_occlusions(c);
    let e = with_dark_peaks(opts, d);
    let f = with_sparse_peaks(opts, e);
    let g = with_refined_peaks(opts, f);
    let h = with_returns(opts, g);
    let given = without_chains(opts, h);
    corrections_leave_runs(opts, given);
    let after = with_recovered_cuts(opts, given);
    assert(remaining(opts, given, 10) == remaining(opts, after, 11));
    let apart = match opts.min_scenecut_distance {
        Some(distance) if distance > 0 => distance as int,
        _ => 1,
    };
    poor_return_gives_way(opts, given, head, inside, apart);
    assert(after.cuts.contains(frame));
    recovered_cut_stays(opts, after, frame, 11);
}

/// Two strong changes well inside a poor return become cuts.
proof fn poor_return_gives_way(
    opts: DetectionOptions,
    given: Timeline,
    head: usize,
    inside: usize,
    apart: int,
)
    requires
        is_run_of_video(given),
        0 < head < inside,
        apart == match opts.min_scenecut_distance {
            Some(distance) if distance > 0 => distance as int,
            _ => 1,
        },
        forall|other: usize| #[trigger]
            given.scores.contains_key(other) && given.scores[other].decision
                == ScenecutDecision::SuppressedForwardSimilarity ==> other == head || other
                == inside,
        forall|one: usize|
            (one == head || one == inside) ==> {
                let score = #[trigger] given.scores[one];
                &&& given.scores.contains_key(one)
                &&& score.decision == ScenecutDecision::SuppressedForwardSimilarity
                &&& double(FORWARD_SIMILARITY_RECOVERY_MIN_COST_RATIO).le(score.cost_ratio)
                &&& double(FORWARD_SIMILARITY_RECOVERY_MIN_IMP_RATIO).le(score.imp_block_ratio)
                &&& double(FORWARD_SIMILARITY_RECOVERY_MIN_GLOBAL_IMP_RATIO).le(
                    score.global_imp_block_ratio,
                )
                &&& frame_distance(given.scores, (one - 1) as usize, one) is Some
                &&& frame_distance(given.scores, (one - 1) as usize, one).unwrap()
                    >= FORWARD_SIMILARITY_RECOVERY_MIN_EDGE_DELTA_8BIT
                    * FRAME_LUMA_SIGNATURE_CELLS
            },
        forall|cut: usize| #[trigger]
            given.cuts.contains(cut) ==> cut == head || cut - head >= apart || head - cut >= apart,
        forall|cut: usize| #[trigger]
            given.cuts.contains(cut) ==> cut == inside || cut - inside >= apart || inside - cut
                >= apart,
        given.scores[head].forward_similarity_score is Some,
        double(FORWARD_SIMILARITY_RECOVERY_MIN_MATCH_DELTA_8BIT).le(
            given.scores[head].forward_similarity_score.unwrap(),
        ),
        given.scores[head].forward_return_frame is Some,
        head + apart <= inside,
        inside + apart <= given.scores[head].forward_return_frame.unwrap(),
    ensures
        with_recovered_cuts(opts, given).cuts.contains(head),
        with_recovered_cuts(opts, given).scores.contains_key(head),
        with_recovered_cuts(opts, given).scores[head].decision
            == ScenecutDecision::CutForwardSimilarityRecovery,
        with_recovered_cuts(opts, given).cuts.contains(inside),
        with_recovered_cuts(opts, given).scores.contains_key(inside),
        with_recovered_cuts(opts, given).scores[inside].decision
            == ScenecutDecision::CutForwardSimilarityRecovery,
{
    assert(given.scores[head].decision == ScenecutDecision::SuppressedForwardSimilarity);
    assert(given.scores[inside].decision == ScenecutDecision::SuppressedForwardSimilarity);
    pair_is_recovered(opts, given, head, inside);
}

/// Two changes that are recovered together become cuts.
proof fn pair_is_recovered(opts: DetectionOptions, given: Timeline, head: usize, inside: usize)
    requires
        is_run_of_video(given),
        head < inside,
        is_recoverable(given.scores, head),
        is_recoverable(given.scores, inside),
        forall|other: usize| #[trigger]
            given.scores.contains_key(other) && given.scores[other].decision
                == ScenecutDecision::SuppressedForwardSimilarity ==> other == head || other
                == inside,
        forall|cut: usize| #[trigger]
            given.cuts.contains(cut) && cut != head ==> cut - head >= min_distance_of(opts) || head
                - cut >= min_distance_of(opts),
        forall|cut: usize| #[trigger]
            given.cuts.contains(cut) && cut != inside ==> cut - inside >= min_distance_of(opts)
                || inside - cut >= min_distance_of(opts),
        given.scores[head].forward_similarity_score is Some,
        !given.scores[head].forward_similarity_score.unwrap().lt(
            double(FORWARD_SIMILARITY_RECOVERY_MIN_MATCH_DELTA_8BIT),
        ),
        given.scores[head].forward_return_frame is Some,
        head + min_distance_of(opts) <= inside,
        inside + min_distance_of(opts) <= given.scores[head].forward_return_frame.unwrap(),
        inside + 1 <= given.scores[head].forward_return_frame.unwrap(),
    ensures
        with_recovered_cuts(opts, given).cuts.contains(head),
        with_recovered_cuts(opts, given).scores.contains_key(head),
        with_recovered_cuts(opts, given).scores[head].decision
            == ScenecutDecision::CutForwardSimilarityRecovery,
        with_recovered_cuts(opts, given).cuts.contains(inside),
        with_recovered_cuts(opts, given).scores.contains_key(inside),
        with_recovered_cuts(opts, given).scores[inside].decision
            == ScenecutDecision::CutForwardSimilarityRecovery,
{
    let distance = min_distance_of(opts);
    let back = given.scores[head].forward_return_frame.unwrap();
    let found = recoverable_inside(given.scores, head, back, distance);
    assert(found.contains(inside));
    assert(heads_recovery(given.scores, head, distance));
    assert forall|other: usize| other != head implies !#[trigger] heads_recovery(
        given.scores,
        other,
        distance,
    ) by {
        if heads_recovery(given.scores, other, distance) {
            let until = given.scores[other].forward_return_frame.unwrap();
            let more = choose|more: usize| #[trigger]
                recoverable_inside(given.scores, other, until, distance).contains(more);
            assert(given.scores.contains_key(other));
            assert(given.scores.contains_key(more));
        }
    }
    let frames = ascending(given.scores.dom());
    ascending_members(given.scores.dom());
    ascending_holds(given.scores.dom(), head);
    one_head_one_group(given, frames, distance, head);
    let group = recovery_group(given.scores, head, distance);
    let pair = seq![head, inside];
    assert(found.insert(head) =~= pair.to_set()) by {
        assert(pair[0] == head && pair[1] == inside);
        assert forall|one: usize| found.insert(head).contains(one) implies pair.to_set().contains(
            one,
        ) by {
            if one != head {
                assert(given.scores.contains_key(one));
            }
        }
    }
    assert(increasing(pair));
    ascending_form_is_unique(pair);
    assert(group == pair);
    assert(group_fits(given.cuts, pair, distance)) by {
        assert forall|index: int| 0 <= index < pair.len() implies #[trigger] well_spaced(
            given.cuts.union(pair.take(index).to_set()),
            pair[index],
            distance,
        ) by {
            assert forall|other: usize| #[trigger]
                given.cuts.union(pair.take(index).to_set()).contains(other) && other
                    != pair[index] implies other - pair[index] >= distance || pair[index] - other
                >= distance by {
                if !given.cuts.contains(other) {
                    let k = pair.take(index).index_of(other);
                    assert(pair.take(index)[k] == other);
                    assert(k == 0);
                }
            }
        }
    }
    let groups = seq![pair];
    assert(groups.last() == pair);
    assert(groups.drop_last() =~= Seq::empty());
    reveal_with_fuel(with_groups, 2);
    reveal_with_fuel(with_group, 3);
    assert(pair.drop_last() =~= seq![head]);
    assert(seq![head].drop_last() =~= Seq::<usize>::empty());
}

} // verus!
