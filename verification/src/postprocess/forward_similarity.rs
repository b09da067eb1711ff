//! Cuts after which the earlier scene returns.

use vstd::prelude::*;
use vstd::array::spec_array_update;
use crate::frame_map::FrameMap;
use crate::measure::Measure;
use crate::options::{larger, ForwardSimilarityOptions};
use crate::postprocess::common::{push_gains_one, timeline, Timeline};
use crate::score::{ForwardSimilarityCandidate, ForwardSimilarityCandidateDecision};
use crate::score::{ScenecutDecision, ScenecutResult, FORWARD_SIMILARITY_DIAGNOSTIC_SLOTS};
use crate::similarity::{forward_similarity_return_candidate_allowed, return_candidate_fits};
use crate::similarity::{forward_similarity_start_allowed, forward_similarity_threshold_8bit};
use crate::similarity::return_threshold;
use crate::timeline::{ascending, ascending_form_is_unique, increasing, last_before, FrameSet};

verus! {

/// A return that suppresses a cut.
#[derive(Clone, Copy, Debug, PartialEq, Eq, Structural)]
pub struct PostprocessForwardSimilarityMatch {
    /// The frame that resembles the frames before the cut.
    pub return_frame: usize,
    /// The cut candidate at which the earlier scene returns.
    pub return_candidate_frame: usize,
    /// How much the return differs.
    pub delta: Measure,
}

/// Whether a frame can be the one at which the earlier scene returns.
pub open spec fn may_be_return(score: ScenecutResult) -> bool {
    ||| score.decision == ScenecutDecision::Cut
    ||| score.decision == ScenecutDecision::CutImportance
    ||| score.decision == ScenecutDecision::SuppressedForwardSimilarity
    ||| score.decision == ScenecutDecision::SuppressedTransientSimilarity
    ||| score.threshold.le(score.forward_adjusted_cost)
}

/// Whether a frame is the last one from `low` to `high` at which the earlier scene
/// can return.
pub open spec fn is_last_return(
    scores: Map<usize, ScenecutResult>,
    low: int,
    high: int,
    frame: usize,
) -> bool {
    &&& low <= frame <= high
    &&& scores.contains_key(frame)
    &&& may_be_return(scores[frame])
    &&& forall|later: usize| #[trigger]
        scores.contains_key(later) && frame < later <= high ==> !may_be_return(scores[later])
}

/// The last frame from `low` to `high` at which the earlier scene can return.
pub open spec fn last_return(scores: Map<usize, ScenecutResult>, low: int, high: int) -> Option<
    usize,
> {
    if exists|frame: usize| is_last_return(scores, low, high, frame) {
        Some(choose|frame: usize| is_last_return(scores, low, high, frame))
    } else {
        None
    }
}

/// Whether a recorded candidate is close enough in both picture and time.
pub open spec fn is_close_candidate(
    options: ForwardSimilarityOptions,
    score: ScenecutResult,
    frame: usize,
    candidate: ForwardSimilarityCandidate,
) -> bool {
    &&& candidate.delta.le(return_threshold(options, score))
    &&& larger(options.min_offset as int, 2) <= candidate.offset <= options.reach() + 1
    &&& candidate.frame > frame
}

/// The return that a recorded candidate makes, if it makes one: some cut candidate
/// lies between, before the frames that were compared, and it is weak enough.
pub open spec fn candidate_match(
    options: ForwardSimilarityOptions,
    score: ScenecutResult,
    scores: Map<usize, ScenecutResult>,
    frame: usize,
    candidate: ForwardSimilarityCandidate,
) -> Option<PostprocessForwardSimilarityMatch> {
    if !is_close_candidate(options, score, frame, candidate) {
        None
    } else {
        match last_return(
            scores,
            frame + larger(options.min_offset as int, 2) - 1,
            candidate.frame as int,
        ) {
            Some(returning) => {
                if returning <= candidate.frame + 1 - larger(options.window_frames as int, 1)
                    && return_candidate_fits(options, score, scores[returning], candidate.delta) {
                    Some(
                        PostprocessForwardSimilarityMatch {
                            return_frame: candidate.frame,
                            return_candidate_frame: returning,
                            delta: candidate.delta,
                        },
                    )
                } else {
                    None
                }
            },
            None => None,
        }
    }
}

/// The closest return among the first few recorded candidates, the first one of
/// two that are equally close.
pub open spec fn closest_match(
    options: ForwardSimilarityOptions,
    score: ScenecutResult,
    scores: Map<usize, ScenecutResult>,
    frame: usize,
    slots: nat,
) -> Option<PostprocessForwardSimilarityMatch>
    decreases slots,
{
    if slots == 0 {
        None
    } else {
        let before = closest_match(options, score, scores, frame, (slots - 1) as nat);
        let found = match score.forward_similarity_candidates@[slots - 1] {
            Some(candidate) => candidate_match(options, score, scores, frame, candidate),
            None => None,
        };
        match (before, found) {
            (Some(best), Some(next)) => if next.delta.lt(best.delta) {
                Some(next)
            } else {
                Some(best)
            },
            (None, next) => next,
            (best, None) => best,
        }
    }
}

/// The first recorded candidate at a frame.
pub open spec fn is_first_slot(
    candidates: Seq<Option<ForwardSimilarityCandidate>>,
    frame: usize,
    slot: int,
) -> bool {
    &&& 0 <= slot < candidates.len()
    &&& candidates[slot] matches Some(candidate) && candidate.frame == frame
    &&& forall|earlier: int|
        0 <= earlier < slot ==> !(#[trigger] candidates[earlier] matches Some(candidate)
            && candidate.frame == frame)
}

/// The recorded candidates with the one at the return accepted.
pub open spec fn accepted_candidates(
    candidates: [Option<ForwardSimilarityCandidate>; FORWARD_SIMILARITY_DIAGNOSTIC_SLOTS],
    frame: usize,
    return_frame: usize,
    return_candidate_frame: usize,
) -> [Option<ForwardSimilarityCandidate>; FORWARD_SIMILARITY_DIAGNOSTIC_SLOTS] {
    if exists|slot: int| is_first_slot(candidates@, return_frame, slot) {
        let slot = choose|slot: int| is_first_slot(candidates@, return_frame, slot);
        spec_array_update(
            candidates,
            slot,
            Some(
                ForwardSimilarityCandidate {
                    decision: ForwardSimilarityCandidateDecision::Accepted,
                    candidate_frame: Some(return_candidate_frame),
                    candidate_offset: Some(
                        larger(return_candidate_frame - frame + 1, 0) as usize,
                    ),
                    ..candidates@[slot].unwrap()
                },
            ),
        )
    } else {
        candidates
    }
}

/// The record of a frame that a return suppresses.
pub open spec fn suppressed_record(
    score: ScenecutResult,
    frame: usize,
    found: PostprocessForwardSimilarityMatch,
    delta: Option<Measure>,
) -> ScenecutResult {
    ScenecutResult {
        decision: ScenecutDecision::SuppressedForwardSimilarity,
        forward_return_frame: Some(found.return_frame),
        forward_similarity_score: if delta is Some {
            delta
        } else {
            score.forward_similarity_score
        },
        forward_similarity_candidates: accepted_candidates(
            score.forward_similarity_candidates,
            frame,
            found.return_frame,
            found.return_candidate_frame,
        ),
        ..score
    }
}

/// The scores with the record of a suppressed frame, where it has one.
pub open spec fn with_suppressed(
    scores: Map<usize, ScenecutResult>,
    frame: usize,
    found: PostprocessForwardSimilarityMatch,
    delta: Option<Measure>,
) -> Map<usize, ScenecutResult> {
    if scores.contains_key(frame) {
        scores.insert(frame, suppressed_record(scores[frame], frame, found, delta))
    } else {
        scores
    }
}

/// The timeline with the given cuts suppressed, in turn.
pub open spec fn with_inside_suppressed(
    state: Timeline,
    inside: Seq<usize>,
    found: PostprocessForwardSimilarityMatch,
) -> Timeline
    decreases inside.len(),
{
    if inside.len() == 0 {
        state
    } else {
        let before = with_inside_suppressed(state, inside.drop_last(), found);
        Timeline {
            cuts: before.cuts.remove(inside.last()),
            scores: with_suppressed(before.scores, inside.last(), found, None),
        }
    }
}

/// Whether a frame can be suppressed by a return: a cut that is strong enough, or
/// a frame that was suppressed already.
pub open spec fn may_be_suppressed(
    options: ForwardSimilarityOptions,
    state: Timeline,
    frame: usize,
) -> bool {
    let score = state.scores[frame];
    &&& state.scores.contains_key(frame)
    &&& if state.cuts.contains(frame) {
        let previous = match last_before(state.cuts, frame) {
            Some(cut) => cut as int,
            None => 0,
        };
        &&& score.decision == ScenecutDecision::Cut || score.decision
            == ScenecutDecision::CutImportance
        &&& frame - previous >= options.min_previous_scene_len
        &&& options.min_cut_cost_ratio.le(score.cost_ratio)
    } else {
        score.decision == ScenecutDecision::SuppressedForwardSimilarity
    }
}

/// The timeline after one frame was held against its recorded candidates.
pub open spec fn after_frame(
    options: ForwardSimilarityOptions,
    state: Timeline,
    frame: usize,
) -> Timeline {
    let score = state.scores[frame];
    match closest_match(
        options,
        score,
        state.scores,
        frame,
        FORWARD_SIMILARITY_DIAGNOSTIC_SLOTS as nat,
    ) {
        Some(found) if may_be_suppressed(options, state, frame) => {
            let suppressed = Timeline {
                cuts: state.cuts.remove(frame),
                scores: with_suppressed(state.scores, frame, found, Some(found.delta)),
            };
            if options.suppress_inside {
                with_inside_suppressed(
                    suppressed,
                    ascending(
                        suppressed.cuts.filter(
                            |inside: usize| frame < inside <= found.return_frame,
                        ),
                    ),
                    found,
                )
            } else {
                suppressed
            }
        },
        _ => state,
    }
}

/// The timeline after the given frames were held, in turn, against their recorded
/// candidates.
pub open spec fn after_frames(
    options: ForwardSimilarityOptions,
    state: Timeline,
    frames: Seq<usize>,
) -> Timeline
    decreases frames.len(),
{
    if frames.len() == 0 {
        state
    } else {
        after_frame(options, after_frames(options, state, frames.drop_last()), frames.last())
    }
}

/// The cuts and the frames that a return suppressed before, but for the first
/// frame of the video.
pub open spec fn suppressible(state: Timeline) -> Set<usize> {
    state.cuts.union(
        state.scores.dom().filter(
            |frame: usize|
                state.scores[frame].decision == ScenecutDecision::SuppressedForwardSimilarity,
        ),
    ).remove(0)
}

/// The timeline without cuts after which the earlier scene returns.
pub open spec fn without_returns(options: ForwardSimilarityOptions, state: Timeline) -> Timeline {
    if !options.enabled || !options.require_return_candidate || options.frames == 0 {
        state
    } else {
        after_frames(options, state, ascending(suppressible(state)))
    }
}

/// Whether a frame can be the one at which the earlier scene returns.
pub fn forward_similarity_return_score_passed(score: &ScenecutResult) -> (passed: bool)
    ensures
        passed == may_be_return(*score),
{
    score.decision == ScenecutDecision::Cut || score.decision == ScenecutDecision::CutImportance
        || score.decision == ScenecutDecision::SuppressedForwardSimilarity || score.decision
        == ScenecutDecision::SuppressedTransientSimilarity || score.forward_adjusted_cost.at_least(
        score.threshold,
    )
}

/// The last frame from `low` to `high` at which the earlier scene can return.
fn find_last_return(scores: &FrameMap<ScenecutResult>, low: usize, high: usize) -> (found: Option<
    usize,
>)
    ensures
        found == last_return(scores@, low as int, high as int),
        found matches Some(frame) ==> is_last_return(scores@, low as int, high as int, frame),
{
    if low > high {
        return None;
    }
    let mut frame: usize = high;
    loop
        invariant
            low <= frame <= high,
            forall|later: usize| #[trigger]
                scores@.contains_key(later) && frame < later <= high ==> !may_be_return(
                    scores@[later],
                ),
        decreases frame,
    {
        if let Some(score) = scores.get(frame) {
            if forward_similarity_return_score_passed(score) {
                assert(is_last_return(scores@, low as int, high as int, frame));
                proof {
                    let other = last_return(scores@, low as int, high as int).unwrap();
                    assert(is_last_return(scores@, low as int, high as int, other));
                    assert(scores@.contains_key(other));
                    assert(scores@.contains_key(frame));
                }
                return Some(frame);
            }
        }
        if frame == low {
            assert forall|other: usize| !is_last_return(
                scores@,
                low as int,
                high as int,
                other,
            ) by {
                if is_last_return(scores@, low as int, high as int, other) {
                    assert(scores@.contains_key(other));
                }
            }
            return None;
        }
        frame = frame - 1;
    }
}

/// The return that a recorded candidate makes, if it makes one.
fn match_candidate(
    frame: usize,
    options: &ForwardSimilarityOptions,
    score: &ScenecutResult,
    scores: &FrameMap<ScenecutResult>,
    candidate: &ForwardSimilarityCandidate,
) -> (found: Option<PostprocessForwardSimilarityMatch>)
    ensures
        found == candidate_match(*options, *score, scores@, frame, *candidate),
{
    let min_offset: usize = if options.min_offset > 2 {
        options.min_offset
    } else {
        2
    };
    let max_offset: usize = options.frames.saturating_add(
        options.window_frames.saturating_sub(1),
    ).saturating_add(1);
    let threshold = forward_similarity_threshold_8bit(*options, *score);
    if !(candidate.delta.at_most(threshold) && candidate.offset >= min_offset && candidate.offset
        <= max_offset && candidate.frame > frame) {
        return None;
    }
    if min_offset - 1 > usize::MAX - frame {
        proof {
            let low = frame + min_offset - 1;
            let high = candidate.frame as int;
            assert(forall|f: usize| !is_last_return(scores@, low, high, f));
        }
        return None;
    }
    let returning: usize = match find_last_return(scores, frame + (min_offset - 1), candidate.frame) {
        Some(returning) => returning,
        None => {
            return None;
        },
    };
    let window: usize = if options.window_frames > 1 {
        options.window_frames
    } else {
        1
    };
    let compared_before: usize = window - 1;
    if compared_before > candidate.frame || returning > candidate.frame - compared_before {
        return None;
    }
    let fits = match scores.get(returning) {
        Some(return_score) => forward_similarity_return_candidate_allowed(
            *options,
            *score,
            *return_score,
            candidate.delta,
        ),
        None => false,
    };
    if fits {
        Some(
            PostprocessForwardSimilarityMatch {
                return_frame: candidate.frame,
                return_candidate_frame: returning,
                delta: candidate.delta,
            },
        )
    } else {
        None
    }
}

/// The closest return among the recorded candidates of a frame.
pub fn forward_similarity_postprocess_match(
    frame: usize,
    options: &ForwardSimilarityOptions,
    score: &ScenecutResult,
    scores: &FrameMap<ScenecutResult>,
) -> (found: Option<PostprocessForwardSimilarityMatch>)
    ensures
        found == closest_match(
            *options,
            *score,
            scores@,
            frame,
            FORWARD_SIMILARITY_DIAGNOSTIC_SLOTS as nat,
        ),
{
    let mut best: Option<PostprocessForwardSimilarityMatch> = None;
    for slot in 0..FORWARD_SIMILARITY_DIAGNOSTIC_SLOTS
        invariant
            best == closest_match(*options, *score, scores@, frame, slot as nat),
    {
        if let Some(candidate) = score.forward_similarity_candidates[slot] {
            if let Some(next) = match_candidate(frame, options, score, scores, &candidate) {
                let keep = match best {
                    Some(current) => !next.delta.below(current.delta),
                    None => false,
                };
                if !keep {
                    best = Some(next);
                }
            }
        }
    }
    best
}

/// Records that a return suppresses a frame, where the frame has a score.
pub fn mark_forward_similarity_suppressed(
    scores: &mut FrameMap<ScenecutResult>,
    frame: usize,
    found: &PostprocessForwardSimilarityMatch,
    delta: Option<Measure>,
)
    requires
        found.return_candidate_frame - frame < usize::MAX,
    ensures
        final(scores)@ == with_suppressed(old(scores)@, frame, *found, delta),
{
    let record: Option<ScenecutResult> = match scores.get(frame) {
        Some(score) => Some(*score),
        None => None,
    };
    let mut score: ScenecutResult = match record {
        Some(score) => score,
        None => {
            return;
        },
    };
    let ghost before = score;
    score.decision = ScenecutDecision::SuppressedForwardSimilarity;
    score.forward_return_frame = Some(found.return_frame);
    if delta.is_some() {
        score.forward_similarity_score = delta;
    }
    let mut slot: usize = 0;
    while slot < FORWARD_SIMILARITY_DIAGNOSTIC_SLOTS
        invariant
            slot <= FORWARD_SIMILARITY_DIAGNOSTIC_SLOTS,
            score.forward_similarity_candidates == before.forward_similarity_candidates,
            score == (ScenecutResult {
                decision: ScenecutDecision::SuppressedForwardSimilarity,
                forward_return_frame: Some(found.return_frame),
                forward_similarity_score: if delta is Some {
                    delta
                } else {
                    before.forward_similarity_score
                },
                ..before
            }),
            forall|earlier: int|
                0 <= earlier < slot ==> !(
                #[trigger] before.forward_similarity_candidates@[earlier] matches Some(candidate)
                    && candidate.frame == found.return_frame),
        ensures
            slot < FORWARD_SIMILARITY_DIAGNOSTIC_SLOTS ==> is_first_slot(
                before.forward_similarity_candidates@,
                found.return_frame,
                slot as int,
            ),
        decreases FORWARD_SIMILARITY_DIAGNOSTIC_SLOTS - slot,
    {
        if let Some(candidate) = score.forward_similarity_candidates[slot] {
            if candidate.frame == found.return_frame {
                break;
            }
        }
        slot = slot + 1;
    }
    if slot < FORWARD_SIMILARITY_DIAGNOSTIC_SLOTS {
        if let Some(candidate) = score.forward_similarity_candidates[slot] {
            let mut accepted = candidate;
            accepted.decision = ForwardSimilarityCandidateDecision::Accepted;
            accepted.candidate_frame = Some(found.return_candidate_frame);
            accepted.candidate_offset = Some(
                if found.return_candidate_frame >= frame {
                    found.return_candidate_frame - frame + 1
                } else {
                    0
                },
            );
            score.forward_similarity_candidates[slot] = Some(accepted);
        }
    }
    proof {
        let target = suppressed_record(before, frame, *found, delta);
        assert(score.forward_similarity_candidates =~= target.forward_similarity_candidates);
        assert(score == target);
    }
    scores.insert(frame, score);
}

/// The cuts and the frames that a return suppressed before, in order.
fn suppressible_frames(keyframes: &FrameSet, scores: &FrameMap<ScenecutResult>) -> (all: Vec<usize>)
    ensures
        all@ == ascending(suppressible(timeline(*keyframes, *scores))),
        all@.to_set() == suppressible(timeline(*keyframes, *scores)),
{
    let ghost state = timeline(*keyframes, *scores);
    let mut all = keyframes.clone();
    let frames: Vec<usize> = scores.frames();
    for index in 0..frames.len()
        invariant
            state == timeline(*keyframes, *scores),
            frames@.to_set() == state.scores.dom(),
            forall|f: usize| #[trigger]
                all@.contains(f) && f != 0 ==> suppressible(state).contains(f),
            forall|f: usize| #[trigger] state.cuts.contains(f) ==> all@.contains(f),
            forall|k: int|
                0 <= k < index && state.scores[#[trigger] frames@[k]].decision
                    == ScenecutDecision::SuppressedForwardSimilarity ==> all@.contains(frames@[k]),
    {
        let frame: usize = frames[index];
        assert(frames@.contains(frame));
        assert(frames@.to_set().contains(frame));
        let suppressed = match scores.get(frame) {
            Some(score) => score.decision == ScenecutDecision::SuppressedForwardSimilarity,
            None => false,
        };
        if suppressed {
            all.insert(frame);
        }
    }
    all.remove(0);
    proof {
        assert forall|f: usize| suppressible(state).contains(f) implies all@.contains(f) by {
            if !state.cuts.contains(f) {
                assert(frames@.to_set().contains(f));
                let k = frames@.index_of(f);
                assert(frames@[k] == f);
            }
        }
        assert(all@ =~= suppressible(state));
    }
    all.to_vec()
}

/// Whether a frame can be suppressed by a return.
fn suppression_allowed(
    options: &ForwardSimilarityOptions,
    keyframes: &FrameSet,
    scores: &FrameMap<ScenecutResult>,
    frame: usize,
) -> (allowed: bool)
    ensures
        allowed == may_be_suppressed(*options, timeline(*keyframes, *scores), frame),
{
    let score: &ScenecutResult = match scores.get(frame) {
        Some(score) => score,
        None => {
            return false;
        },
    };
    if !keyframes.contains(frame) {
        return score.decision == ScenecutDecision::SuppressedForwardSimilarity;
    }
    if score.decision != ScenecutDecision::Cut && score.decision
        != ScenecutDecision::CutImportance {
        return false;
    }
    let previous: usize = match keyframes.before(frame) {
        Some(previous) => previous,
        None => 0,
    };
    forward_similarity_start_allowed(*options, *score, frame - previous)
}

/// The cuts after a frame up to its return, in order.
fn cuts_inside(keyframes: &FrameSet, frame: usize, return_frame: usize) -> (inside: Vec<usize>)
    ensures
        inside@ == ascending(
            keyframes@.filter(|cut: usize| frame < cut <= return_frame),
        ),
        forall|k: int| 0 <= k < inside.len() ==> frame < #[trigger] inside@[k],
{
    let ghost target = keyframes@.filter(|cut: usize| frame < cut <= return_frame);
    let mut inside: Vec<usize> = Vec::new();
    let mut at: usize = frame;
    loop
        invariant
            target == keyframes@.filter(|cut: usize| frame < cut <= return_frame),
            frame <= at,
            increasing(inside@),
            forall|k: int| 0 <= k < inside.len() ==> frame < #[trigger] inside@[k] <= at,
            forall|f: usize| #[trigger] inside@.contains(f) ==> target.contains(f),
            forall|f: usize| #[trigger] target.contains(f) && f <= at ==> inside@.contains(f),
        ensures
            increasing(inside@),
            forall|k: int| 0 <= k < inside.len() ==> frame < #[trigger] inside@[k],
            inside@.to_set() == target,
        decreases usize::MAX - at,
    {
        let next: usize = match keyframes.after(at) {
            Some(next) => next,
            None => {
                assert(inside@.to_set() =~= target);
                break;
            },
        };
        if next > return_frame {
            assert(inside@.to_set() =~= target);
            break;
        }
        proof {
            push_gains_one(inside@, next);
        }
        inside.push(next);
        at = next;
    }
    proof {
        ascending_form_is_unique(inside@);
    }
    inside
}

/// Holds one frame against its recorded candidates.
fn suppress_if_returning(
    options: &ForwardSimilarityOptions,
    keyframes: &mut FrameSet,
    scores: &mut FrameMap<ScenecutResult>,
    frame: usize,
)
    requires
        frame != 0,
    ensures
        timeline(*final(keyframes), *final(scores)) == after_frame(
            *options,
            timeline(*old(keyframes), *old(scores)),
            frame,
        ),
{
    let ghost state = timeline(*keyframes, *scores);
    if !suppression_allowed(options, keyframes, scores, frame) {
        return;
    }
    let found = match scores.get(frame) {
        Some(score) => forward_similarity_postprocess_match(frame, options, score, scores),
        None => None,
    };
    if let Some(found) = found {
        keyframes.remove(frame);
        mark_forward_similarity_suppressed(scores, frame, &found, Some(found.delta));
        let ghost suppressed = timeline(*keyframes, *scores);
        if options.suppress_inside {
            let inside: Vec<usize> = cuts_inside(keyframes, frame, found.return_frame);
            for index in 0..inside.len()
                invariant
                    frame != 0,
                    forall|k: int| 0 <= k < inside.len() ==> frame < #[trigger] inside@[k],
                    timeline(*keyframes, *scores) == with_inside_suppressed(
                        suppressed,
                        inside@.take(index as int),
                        found,
                    ),
            {
                assert(inside@.take(index + 1).drop_last() =~= inside@.take(index as int));
                let cut: usize = inside[index];
                keyframes.remove(cut);
                mark_forward_similarity_suppressed(scores, cut, &found, None);
            }
            assert(inside@.take(inside.len() as int) =~= inside@);
        }
    }
}

/// Takes out cuts after which the earlier scene returns, by the candidates that
/// were recorded for them, and where so configured the cuts up to the return.
pub fn apply_forward_similarity_postprocess(
    options: &ForwardSimilarityOptions,
    keyframes: &mut FrameSet,
    scores: &mut FrameMap<ScenecutResult>,
)
    ensures
        timeline(*final(keyframes), *final(scores)) == without_returns(
            *options,
            timeline(*old(keyframes), *old(scores)),
        ),
{
    if !options.enabled || !options.require_return_candidate || options.frames == 0 {
        return;
    }
    let ghost state = timeline(*keyframes, *scores);
    let frames: Vec<usize> = suppressible_frames(keyframes, scores);
    for index in 0..frames.len()
        invariant
            frames@.to_set() == suppressible(state),
            timeline(*keyframes, *scores) == after_frames(
                *options,
                state,
                frames@.take(index as int),
            ),
    {
        assert(frames@.take(index + 1).drop_last() =~= frames@.take(index as int));
        assert(frames@.contains(frames@[index as int]));
        assert(frames@.to_set().contains(frames@[index as int]));
        suppress_if_returning(options, keyframes, scores, frames[index]);
    }
    assert(frames@.take(frames.len() as int) =~= frames@);
}

} // verus!
