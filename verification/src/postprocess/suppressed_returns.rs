//! Cuts to a scene that soon gives way to the one before it leave their mark on the corrected
//! timeline.

use vstd::prelude::*;
use crate::options::{larger, DetectionOptions, ForwardSimilarityOptions, SceneDetectionSpeed};
use crate::postprocess::common::Timeline;
use crate::postprocess::corrected;
use crate::postprocess::forward_similarity::{after_frame, after_frames, candidate_match};
use crate::postprocess::forward_similarity::{closest_match, is_last_return, last_return};
use crate::postprocess::forward_similarity::{may_be_suppressed, suppressible};
use crate::postprocess::forward_similarity::{with_inside_suppressed, with_suppressed};
use crate::postprocess::forward_similarity::{without_returns, PostprocessForwardSimilarityMatch};
use crate::postprocess::laws::{ascending_members, named_neighbours};
use crate::postprocess::marks::{after_correction, recovered_cut_stays, remaining, stages};
use crate::postprocess::turns::{ascending_holds, chain_turns, corrections_leave_runs};
use crate::postprocess::turns::{is_run_of_video, peak_turns, recovery_turns, refined_turns};
use crate::postprocess::turns::{shifted_turns, thinning_turns};
use crate::score::{ForwardSimilarityCandidate, ScenecutDecision, ScenecutResult};
use crate::score::FORWARD_SIMILARITY_DIAGNOSTIC_SLOTS;
use crate::timeline::{ascending, is_last_before, last_before};

verus! {

/// Of several matches the closest counts.
pub proof fn closest_match_counts(
    options: ForwardSimilarityOptions,
    score: ScenecutResult,
    scores: Map<usize, ScenecutResult>,
    frame: usize,
    slot: int,
    slots: nat,
)
    requires
        0 <= slot < slots <= FORWARD_SIMILARITY_DIAGNOSTIC_SLOTS,
        score.forward_similarity_candidates@[slot] is Some,
        candidate_match(
            options,
            score,
            scores,
            frame,
            score.forward_similarity_candidates@[slot].unwrap(),
        ) is Some,
    ensures
        closest_match(options, score, scores, frame, slots) is Some,
        closest_match(options, score, scores, frame, slots).unwrap().delta.le(
            score.forward_similarity_candidates@[slot].unwrap().delta,
        ),
    decreases slots,
{
    let last = slots - 1;
    let rest = (slots - 1) as nat;
    if slot < last {
        closest_match_counts(options, score, scores, frame, slot, rest);
    } else {
        match_is_a_number(options, score, scores, frame, rest);
    }
}

/// The difference of a match is a number.
proof fn match_is_a_number(
    options: ForwardSimilarityOptions,
    score: ScenecutResult,
    scores: Map<usize, ScenecutResult>,
    frame: usize,
    slots: nat,
)
    requires
        slots <= FORWARD_SIMILARITY_DIAGNOSTIC_SLOTS,
    ensures
        closest_match(options, score, scores, frame, slots) matches Some(found)
            ==> !found.delta.is_nan(),
    decreases slots,
{
    if slots > 0 {
        match_is_a_number(options, score, scores, frame, (slots - 1) as nat);
    }
}

/// A match lies after its frame.
proof fn match_lies_ahead(
    options: ForwardSimilarityOptions,
    score: ScenecutResult,
    scores: Map<usize, ScenecutResult>,
    frame: usize,
    slots: nat,
)
    requires
        slots <= FORWARD_SIMILARITY_DIAGNOSTIC_SLOTS,
    ensures
        closest_match(options, score, scores, frame, slots) matches Some(found)
            ==> found.return_frame > frame,
    decreases slots,
{
    if slots > 0 {
        match_lies_ahead(options, score, scores, frame, (slots - 1) as nat);
    }
}

/// What is done inside a return stays inside it.
proof fn inside_stays_inside(
    state: Timeline,
    inside: Seq<usize>,
    found: PostprocessForwardSimilarityMatch,
    frame: usize,
)
    requires
        forall|k: int| 0 <= k < inside.len() ==> #[trigger] inside[k] > frame,
    ensures
        ({
            let after = with_inside_suppressed(state, inside, found);
            &&& after.cuts.subset_of(state.cuts)
            &&& after.cuts.contains(frame) == state.cuts.contains(frame)
            &&& after.scores.dom() =~= state.scores.dom()
            &&& after.scores[frame] == state.scores[frame]
            &&& forall|k: int|
                0 <= k < inside.len() ==> !after.cuts.contains(#[trigger] inside[k])
        }),
    decreases inside.len(),
{
    if inside.len() > 0 {
        let rest = inside.drop_last();
        assert forall|k: int| 0 <= k < rest.len() implies #[trigger] rest[k] > frame by {
            assert(inside[k] > frame);
        }
        inside_stays_inside(state, rest, found, frame);
        let last = inside.len() - 1;
        assert(inside[last] > frame);
        assert forall|k: int| 0 <= k < inside.len() implies !with_inside_suppressed(
            state,
            inside,
            found,
        ).cuts.contains(#[trigger] inside[k]) by {
            if k < last {
                assert(rest[k] == inside[k]);
            }
        }
    }
}

/// What is done at a frame leaves earlier frames alone.
proof fn later_turns_leave_earlier_frames(
    options: ForwardSimilarityOptions,
    state: Timeline,
    at: usize,
    frame: usize,
)
    requires
        state.cuts.finite(),
        frame < at,
    ensures
        after_frame(options, state, at).cuts.subset_of(state.cuts),
        after_frame(options, state, at).cuts.contains(frame) == state.cuts.contains(frame),
        after_frame(options, state, at).scores.dom() =~= state.scores.dom(),
        after_frame(options, state, at).scores[frame] == state.scores[frame],
{
    let found = closest_match(
        options,
        state.scores[at],
        state.scores,
        at,
        FORWARD_SIMILARITY_DIAGNOSTIC_SLOTS as nat,
    );
    if found is Some {
        let found = found.unwrap();
        let suppressed = Timeline {
            cuts: state.cuts.remove(at),
            scores: with_suppressed(state.scores, at, found, Some(found.delta)),
        };
        let set = suppressed.cuts.filter(|inside: usize| at < inside <= found.return_frame);
        vstd::set_lib::lemma_set_subset_finite(state.cuts, set);
        ascending_members(set);
        let inside = ascending(set);
        assert forall|k: int| 0 <= k < inside.len() implies #[trigger] inside[k] > frame by {
            assert(set.contains(inside[k]));
        }
        inside_stays_inside(suppressed, inside, found, frame);
    }
}

/// The first frame in turn keeps what was done at it.
proof fn first_turn_lasts(
    options: ForwardSimilarityOptions,
    state: Timeline,
    frames: Seq<usize>,
    turns: int,
)
    requires
        state.cuts.finite(),
        1 <= turns <= frames.len(),
        forall|k: int| 0 < k < frames.len() ==> frames[0] < #[trigger] frames[k],
    ensures
        ({
            let first = after_frame(options, state, frames[0]);
            let after = after_frames(options, state, frames.take(turns));
            &&& after.cuts.subset_of(first.cuts)
            &&& after.cuts.contains(frames[0]) == first.cuts.contains(frames[0])
            &&& after.scores.dom() =~= first.scores.dom()
            &&& after.scores[frames[0]] == first.scores[frames[0]]
        }),
    decreases turns,
{
    let now = frames.take(turns);
    assert(now.drop_last() =~= frames.take(turns - 1));
    assert(now.last() == frames[turns - 1]);
    if turns == 1 {
        assert(frames.take(0) =~= Seq::empty());
        reveal_with_fuel(after_frames, 2);
    } else {
        first_turn_lasts(options, state, frames, turns - 1);
        let before = after_frames(options, state, frames.take(turns - 1));
        first_cuts_are_finite(options, state, frames[0]);
        vstd::set_lib::lemma_set_subset_finite(
            after_frame(options, state, frames[0]).cuts,
            before.cuts,
        );
        later_turns_leave_earlier_frames(options, before, frames[turns - 1], frames[0]);
    }
}

/// What is done at a frame leaves finitely many cuts, and at the frame itself it is what the
/// closest match asks for.
proof fn first_cuts_are_finite(options: ForwardSimilarityOptions, state: Timeline, frame: usize)
    requires
        state.cuts.finite(),
    ensures
        after_frame(options, state, frame).cuts.finite(),
        after_frame(options, state, frame).cuts.subset_of(state.cuts),
        ({
            let found = closest_match(
                options,
                state.scores[frame],
                state.scores,
                frame,
                FORWARD_SIMILARITY_DIAGNOSTIC_SLOTS as nat,
            );
            let after = after_frame(options, state, frame);
            state.scores.contains_key(frame) && state.cuts.contains(frame) && found is Some
                && after.scores[frame].decision != state.scores[frame].decision ==> {
                &&& after.scores[frame].forward_return_frame == Some(found.unwrap().return_frame)
                &&& after.scores[frame].forward_similarity_score == Some(found.unwrap().delta)
                &&& options.suppress_inside ==> forall|inside: usize|
                    frame < inside <= found.unwrap().return_frame ==> !#[trigger] after.cuts.contains(
                        inside,
                    )
            }
        }),
        may_be_suppressed(options, state, frame)
            && closest_match(
            options,
            state.scores[frame],
            state.scores,
            frame,
            FORWARD_SIMILARITY_DIAGNOSTIC_SLOTS as nat,
        ) is Some ==> !after_frame(options, state, frame).cuts.contains(frame) && after_frame(
            options,
            state,
            frame,
        ).scores.contains_key(frame) && after_frame(options, state, frame).scores[frame].decision
            == ScenecutDecision::SuppressedForwardSimilarity,
{
    let found = closest_match(
        options,
        state.scores[frame],
        state.scores,
        frame,
        FORWARD_SIMILARITY_DIAGNOSTIC_SLOTS as nat,
    );
    if found is Some {
        let found = found.unwrap();
        let suppressed = Timeline {
            cuts: state.cuts.remove(frame),
            scores: with_suppressed(state.scores, frame, found, Some(found.delta)),
        };
        let set = suppressed.cuts.filter(|inside: usize| frame < inside <= found.return_frame);
        vstd::set_lib::lemma_set_subset_finite(state.cuts, set);
        ascending_members(set);
        let inside = ascending(set);
        assert forall|k: int| 0 <= k < inside.len() implies #[trigger] inside[k] > frame by {
            assert(set.contains(inside[k]));
        }
        inside_stays_inside(suppressed, inside, found, frame);
        let all = with_inside_suppressed(suppressed, inside, found);
        vstd::set_lib::lemma_set_subset_finite(state.cuts, all.cuts);
        assert forall|one: usize| frame < one <= found.return_frame implies !#[trigger] all.cuts.contains(
            one,
        ) by {
            if all.cuts.contains(one) {
                assert(suppressed.cuts.contains(one));
                assert(set.contains(one));
                ascending_holds(set, one);
                let k = inside.index_of(one);
                assert(inside[k] == one);
            }
        }
    }
}

/// What was taken out for a return stays out, or is recovered.
proof fn suppressed_return_stays(
    opts: DetectionOptions,
    state: Timeline,
    frame: usize,
    from: int,
)
    requires
        is_run_of_video(state),
        state.scores.contains_key(frame),
        !state.cuts.contains(frame),
        state.scores[frame].decision == ScenecutDecision::SuppressedForwardSimilarity,
        2 <= from <= 13,
    ensures
        ({
            let after = remaining(opts, state, from);
            let decision = after.scores[frame].decision;
            ||| !after.cuts.contains(frame) && decision
                == ScenecutDecision::SuppressedForwardSimilarity
            ||| after.cuts.contains(frame) && decision
                == ScenecutDecision::CutForwardSimilarityRecovery
            ||| !after.cuts.contains(frame) && decision
                == ScenecutDecision::SuppressedShiftedBoundary
        }),
    decreases 13 - from,
{
    if from < 13 {
        corrections_leave_runs(opts, state);
        thinning_turns(state, frame);
        peak_turns(opts, state, frame);
        refined_turns(opts, state, frame);
        chain_turns(opts, state, frame);
        recovery_turns(opts, state, frame);
        shifted_turns(opts, state, frame);
        let next = after_correction(opts, state, from);
        if next.cuts.contains(frame) {
            recovered_cut_stays(opts, next, frame, from + 1);
        } else {
            suppressed_return_stays(opts, next, frame, from + 1);
        }
    }
}

/// Where the first cut of a video starts after a long enough scene, costs enough, and has a
/// later frame that looks like the one before it, with a change at which the scene may have
/// returned, it is no cut of its own: it is taken out for the return, together with every cut
/// up to the return where those are to go, and only a recovery can put it in again.
pub proof fn cut_to_a_passing_scene_goes(
    opts: DetectionOptions,
    state: Timeline,
    frame: usize,
    slot: int,
    back: usize,
)
    requires
        is_run_of_video(state),
        opts.tuning.forward_similarity.enabled,
        opts.tuning.forward_similarity.require_return_candidate,
        opts.tuning.forward_similarity.frames > 0,
        0 < frame,
        state.cuts.contains(frame),
        state.scores.contains_key(frame),
        forall|cut: usize| #[trigger] state.cuts.contains(cut) ==> cut == 0 || cut >= frame,
        forall|other: usize| #[trigger]
            state.scores.contains_key(other) && other < frame ==> state.scores[other].decision
                != ScenecutDecision::SuppressedForwardSimilarity,
        ({
            let options = opts.tuning.forward_similarity;
            let score = state.scores[frame];
            let candidate = score.forward_similarity_candidates@[slot].unwrap();
            let least = if options.min_offset > 2 {
                options.min_offset as int
            } else {
                2
            };
            let window = if options.window_frames > 1 {
                options.window_frames as int
            } else {
                1
            };
            &&& score.decision == ScenecutDecision::Cut || score.decision
                == ScenecutDecision::CutImportance
            &&& frame >= options.min_previous_scene_len
            &&& options.min_cut_cost_ratio.le(score.cost_ratio)
            &&& options.threshold_8bit.le(options.relaxed_threshold_8bit)
                || options.relaxed_threshold_8bit.le(options.threshold_8bit)
            &&& 0 <= slot < 8
            &&& score.forward_similarity_candidates@[slot] is Some
            &&& candidate.delta.le(options.threshold_8bit)
            &&& least <= candidate.offset <= options.frames + window
            &&& candidate.frame > frame
            &&& frame + least - 1 <= back <= candidate.frame + 1 - window
            &&& state.scores.contains_key(back)
            &&& state.scores[back].decision == ScenecutDecision::Cut || state.scores[back].decision
                == ScenecutDecision::CutImportance || state.scores[back].decision
                == ScenecutDecision::SuppressedForwardSimilarity || state.scores[back].decision
                == ScenecutDecision::SuppressedTransientSimilarity
                || state.scores[back].threshold.le(state.scores[back].forward_adjusted_cost)
            &&& forall|later: usize| #[trigger]
                state.scores.contains_key(later) && back < later <= candidate.frame ==> {
                    &&& state.scores[later].decision == ScenecutDecision::NoCut
                    &&& !state.scores[later].threshold.le(state.scores[later].forward_adjusted_cost)
                }
        }),
    ensures
        ({
            let found = without_returns(opts.tuning.forward_similarity, state);
            let after = corrected(opts, state);
            let decision = after.scores[frame].decision;
            &&& !found.cuts.contains(frame)
            &&& found.scores[frame].decision == ScenecutDecision::SuppressedForwardSimilarity
            &&& found.scores[frame].forward_return_frame is Some
            &&& found.scores[frame].forward_return_frame.unwrap() > frame
            &&& found.scores[frame].forward_similarity_score is Some
            &&& found.scores[frame].forward_similarity_score.unwrap().le(
                state.scores[frame].forward_similarity_candidates@[slot].unwrap().delta,
            )
            &&& opts.tuning.forward_similarity.suppress_inside ==> forall|inside: usize|
                frame < inside <= found.scores[frame].forward_return_frame.unwrap()
                    ==> !#[trigger] found.cuts.contains(inside)
            &&& opts.analysis_speed != SceneDetectionSpeed::High ==> !after.cuts.contains(frame)
                && decision == ScenecutDecision::SuppressedForwardSimilarity
            &&& !after.cuts.contains(frame) && (decision
                == ScenecutDecision::SuppressedForwardSimilarity || decision
                == ScenecutDecision::SuppressedShiftedBoundary) || (after.cuts.contains(frame)
                && decision == ScenecutDecision::CutForwardSimilarityRecovery)
        }),
{
    let options = opts.tuning.forward_similarity;
    let score = state.scores[frame];
    let candidate = score.forward_similarity_candidates@[slot].unwrap();
    assert(is_last_return(
        state.scores,
        frame + larger(options.min_offset as int, 2) - 1,
        candidate.frame as int,
        back,
    ));
    assert(candidate_match(options, score, state.scores, frame, candidate) is Some);
    closest_match_counts(options, score, state.scores, frame, slot, 8);
    match_lies_ahead(options, score, state.scores, frame, 8);
    named_neighbours(state.cuts, frame);
    assert(last_before(state.cuts, frame) is Some ==> last_before(state.cuts, frame).unwrap() == 0);
    first_cuts_are_finite(options, state, frame);
    let set = suppressible(state);
    vstd::set_lib::lemma_set_subset_finite(state.cuts.union(state.scores.dom()), set);
    ascending_members(set);
    ascending_holds(set, frame);
    let frames = ascending(set);
    let at = frames.index_of(frame);
    assert(set.contains(frames[0]));
    if 0 < at {
        assert(frames[0] < frames[at]);
        if state.cuts.contains(frames[0]) {
            assert(frames[0] >= frame);
        } else {
            assert(state.scores.contains_key(frames[0]));
        }
    }
    assert(frames[0] == frame);
    first_turn_lasts(options, state, frames, frames.len() as int);
    assert(frames.take(frames.len() as int) =~= frames);
    let found = without_returns(options, state);
    assert(found == after_frames(options, state, frames));
    if opts.analysis_speed == SceneDetectionSpeed::High {
        stages(opts, state);
        suppressed_return_stays(opts, found, frame, 2);
    }
}

/// Without a candidate that matches there is no match.
proof fn no_candidate_no_match(
    options: ForwardSimilarityOptions,
    score: ScenecutResult,
    scores: Map<usize, ScenecutResult>,
    frame: usize,
    slots: nat,
)
    requires
        slots <= FORWARD_SIMILARITY_DIAGNOSTIC_SLOTS,
        forall|slot: int|
            0 <= slot < slots && score.forward_similarity_candidates@[slot] is Some
                ==> candidate_match(
                options,
                score,
                scores,
                frame,
                (#[trigger] score.forward_similarity_candidates@[slot]).unwrap(),
            ) is None,
    ensures
        closest_match(options, score, scores, frame, slots) is None,
    decreases slots,
{
    if slots > 0 {
        no_candidate_no_match(options, score, scores, frame, (slots - 1) as nat);
        let last = slots - 1;
        if score.forward_similarity_candidates@[last] is Some {
            assert(candidate_match(
                options,
                score,
                scores,
                frame,
                score.forward_similarity_candidates@[last].unwrap(),
            ) is None);
        }
    }
}

/// A candidate with a change too near before it is no match.
proof fn late_change_is_no_match(
    options: ForwardSimilarityOptions,
    score: ScenecutResult,
    scores: Map<usize, ScenecutResult>,
    frame: usize,
    candidate: ForwardSimilarityCandidate,
    late: usize,
)
    requires
        scores.contains_key(late),
        late <= candidate.frame,
        late > candidate.frame + 1 - larger(options.window_frames as int, 1),
        scores[late].decision == ScenecutDecision::Cut || scores[late].decision
            == ScenecutDecision::CutImportance || scores[late].decision
            == ScenecutDecision::SuppressedForwardSimilarity || scores[late].decision
            == ScenecutDecision::SuppressedTransientSimilarity || scores[late].threshold.le(
            scores[late].forward_adjusted_cost,
        ),
    ensures
        candidate_match(options, score, scores, frame, candidate) is None,
{
    let low = frame + larger(options.min_offset as int, 2) - 1;
    let high = candidate.frame as int;
    if last_return(scores, low, high) is Some {
        let found = last_return(scores, low, high).unwrap();
        assert(is_last_return(scores, low, high, found));
        assert(found >= late);
    }
}

/// Where no frame changes anything, all of them in turn change nothing.
proof fn idle_turns_change_nothing(
    options: ForwardSimilarityOptions,
    state: Timeline,
    frames: Seq<usize>,
)
    requires
        forall|k: int|
            0 <= k < frames.len() ==> after_frame(options, state, #[trigger] frames[k]) == state,
    ensures
        after_frames(options, state, frames) == state,
    decreases frames.len(),
{
    if frames.len() > 0 {
        let rest = frames.drop_last();
        assert forall|k: int| 0 <= k < rest.len() implies after_frame(
            options,
            state,
            #[trigger] rest[k],
        ) == state by {
            assert(rest[k] == frames[k]);
        }
        idle_turns_change_nothing(options, state, rest);
        assert(frames[frames.len() - 1] == frames.last());
    }
}

/// No cut goes for a return where none may: each candidate of every frame is too far off, or
/// follows a change too near before it; or the frame costs too little, or ends too short a
/// scene, or is no cut by cost or importance that could go and was not taken out for a return
/// before.
pub proof fn cuts_stay_without_a_return(options: ForwardSimilarityOptions, state: Timeline)
    requires
        is_run_of_video(state),
        forall|frame: usize| #[trigger]
            state.scores.contains_key(frame) ==> {
                let score = state.scores[frame];
                ||| forall|slot: int|
                    0 <= slot < 8 && score.forward_similarity_candidates@[slot] is Some ==> {
                        let candidate = (
                        #[trigger] score.forward_similarity_candidates@[slot]).unwrap();
                        ||| !candidate.delta.le(options.threshold_8bit) && !candidate.delta.le(
                            options.relaxed_threshold_8bit,
                        )
                        ||| candidate.offset < 2 || candidate.offset < options.min_offset
                        ||| exists|late: usize| #[trigger]
                            state.scores.contains_key(late) && late <= candidate.frame && late
                                + options.window_frames > candidate.frame + 1 && (state.scores[late].decision
                                == ScenecutDecision::Cut || state.scores[late].decision
                                == ScenecutDecision::CutImportance
                                || state.scores[late].threshold.le(
                                state.scores[late].forward_adjusted_cost,
                            ))
                    }
                ||| state.cuts.contains(frame) && !options.min_cut_cost_ratio.le(score.cost_ratio)
                ||| state.cuts.contains(frame) && exists|cut: usize| #[trigger]
                    state.cuts.contains(cut) && cut < frame && frame - cut
                        < options.min_previous_scene_len && forall|other: usize|
                        cut < other < frame ==> !#[trigger] state.cuts.contains(other)
                ||| state.cuts.contains(frame) && score.decision != ScenecutDecision::Cut
                    && score.decision != ScenecutDecision::CutImportance
                ||| !state.cuts.contains(frame) && score.decision
                    != ScenecutDecision::SuppressedForwardSimilarity
            },
    ensures
        without_returns(options, state) == state,
{
    let set = suppressible(state);
    vstd::set_lib::lemma_set_subset_finite(state.cuts.union(state.scores.dom()), set);
    let frames = ascending(set);
    assert forall|k: int| 0 <= k < frames.len() implies after_frame(
        options,
        state,
        #[trigger] frames[k],
    ) == state by {
        let frame = frames[k];
        if state.scores.contains_key(frame) && may_be_suppressed(options, state, frame) {
            let score = state.scores[frame];
            if state.cuts.contains(frame) && exists|cut: usize| #[trigger]
                state.cuts.contains(cut) && cut < frame && frame - cut
                    < options.min_previous_scene_len && forall|other: usize|
                    cut < other < frame ==> !#[trigger] state.cuts.contains(other) {
                let cut = choose|cut: usize| #[trigger]
                    state.cuts.contains(cut) && cut < frame && frame - cut
                        < options.min_previous_scene_len && forall|other: usize|
                        cut < other < frame ==> !#[trigger] state.cuts.contains(other);
                assert(is_last_before(state.cuts, frame, cut));
                named_neighbours(state.cuts, frame);
            } else {
                assert forall|slot: int|
                    0 <= slot < 8 && score.forward_similarity_candidates@[slot] is Some implies candidate_match(
                    options,
                    score,
                    state.scores,
                    frame,
                    (#[trigger] score.forward_similarity_candidates@[slot]).unwrap(),
                ) is None by {
                    let candidate = score.forward_similarity_candidates@[slot].unwrap();
                    if exists|late: usize| #[trigger]
                        state.scores.contains_key(late) && late <= candidate.frame && late
                            + options.window_frames > candidate.frame + 1
                            && (state.scores[late].decision == ScenecutDecision::Cut
                            || state.scores[late].decision == ScenecutDecision::CutImportance
                            || state.scores[late].threshold.le(
                            state.scores[late].forward_adjusted_cost,
                        )) {
                        let late = choose|late: usize| #[trigger]
                            state.scores.contains_key(late) && late <= candidate.frame && late
                                + options.window_frames > candidate.frame + 1 && (state.scores[late].decision
                                == ScenecutDecision::Cut || state.scores[late].decision
                                == ScenecutDecision::CutImportance
                                || state.scores[late].threshold.le(
                                state.scores[late].forward_adjusted_cost,
                            ));
                        late_change_is_no_match(
                            options,
                            score,
                            state.scores,
                            frame,
                            candidate,
                            late,
                        );
                    }
                }
                no_candidate_no_match(options, score, state.scores, frame, 8);
            }
        }
    }
    idle_turns_change_nothing(options, state, frames);
}

} // verus!
