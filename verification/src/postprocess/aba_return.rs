//! Cuts that were missed because the scene before the last cut returns.

use vstd::prelude::*;
use crate::frame_map::FrameMap;
use crate::measure::double;
use crate::options::DetectionOptions;
use crate::postprocess::common::{frame_before, frame_distance, frame_signature_delta_for_scores};
use crate::postprocess::common::{mean_steps, promote_spaced, push_gains_one, timeline};
use crate::postprocess::common::{with_spaced_cuts, Timeline};
use crate::postprocess::peaks::{min_distance, min_distance_of};
use crate::score::{ScenecutDecision, ScenecutResult, FRAME_LUMA_SIGNATURE_CELLS};
use crate::timeline::{ascending, ascending_form_is_unique, first_after, increasing, is_last_before};
use crate::timeline::{last_before, FrameSet};

verus! {

/// 0.25
pub const ABA_RETURN_MIN_COST_RATIO: u64 = 0x3FD0_0000_0000_0000;
/// 1.05
pub const ABA_RETURN_MAX_COST_RATIO: u64 = 0x3FF0_CCCC_CCCC_CCCD;
/// 2.0
pub const ABA_RETURN_MIN_IMP_RATIO: u64 = 0x4000_0000_0000_0000;
/// 3.0
pub const ABA_RETURN_MIN_GLOBAL_IMP_RATIO: u64 = 0x4008_0000_0000_0000;
/// 90.0
pub const ABA_RETURN_MAX_LUMA_8BIT: u64 = 0x4056_8000_0000_0000;
/// 0.10
pub const ABA_RETURN_MAX_GOOD_BLOCK_RATIO: u64 = 0x3FB9_9999_9999_999A;
/// Highest mean signature difference of a scene that returns.
pub const ABA_RETURN_MAX_SIGNATURE_DELTA_8BIT: u32 = 4;
/// Least mean signature difference at both ends of the scene between.
pub const ABA_RETURN_MIN_EDGE_DELTA_8BIT: u32 = 5;
/// How many times clearer both ends must be than the return is off.
pub const ABA_RETURN_MIN_EDGE_RATIO: u32 = 2;

/// A frame at which the scene before the last cut returns.
#[derive(Clone, Copy, Debug, PartialEq, Eq, Structural)]
pub struct AbaReturnCandidate {
    pub frame: usize,
    pub previous_cut: usize,
    pub next_cut: usize,
    /// Difference to the end of the scene before the last cut.
    pub return_delta: u32,
    /// Difference to the frame before.
    pub edge_delta: u32,
    /// Difference across the last cut.
    pub previous_edge_delta: u32,
}

/// Whether a score allows for a return without a cut.
pub open spec fn may_return(score: ScenecutResult) -> bool {
    &&& score.decision == ScenecutDecision::NoCut || score.decision
        == ScenecutDecision::SuppressedTransientSimilarity
    &&& double(ABA_RETURN_MIN_COST_RATIO).le(score.cost_ratio)
    &&& score.cost_ratio.le(double(ABA_RETURN_MAX_COST_RATIO))
    &&& double(ABA_RETURN_MIN_IMP_RATIO).le(score.imp_block_ratio)
    &&& double(ABA_RETURN_MIN_GLOBAL_IMP_RATIO).le(score.global_imp_block_ratio)
    &&& score.avg_luma_8bit.le(double(ABA_RETURN_MAX_LUMA_8BIT))
    &&& score.static_good_block_ratio.le(double(ABA_RETURN_MAX_GOOD_BLOCK_RATIO))
}

/// The candidate at a frame: the picture is that before the last cut, and both
/// the last cut and the frame itself are clear changes.
pub open spec fn return_candidate(
    state: Timeline,
    frame: usize,
    min_distance: int,
) -> Option<AbaReturnCandidate> {
    if state.cuts.contains(frame) || !state.scores.contains_key(frame) || !may_return(
        state.scores[frame],
    ) {
        None
    } else {
        match (last_before(state.cuts, frame), first_after(state.cuts, frame)) {
            (Some(previous), Some(next)) => {
                if previous == 0 || frame - previous < min_distance || next - frame
                    < min_distance {
                    None
                } else {
                    match (
                        frame_distance(state.scores, frame_before(previous), frame),
                        frame_distance(state.scores, frame_before(frame), frame),
                        frame_distance(state.scores, frame_before(previous), previous),
                    ) {
                        (Some(back), Some(edge), Some(previous_edge)) => {
                            if back <= mean_steps(ABA_RETURN_MAX_SIGNATURE_DELTA_8BIT) && edge
                                >= mean_steps(ABA_RETURN_MIN_EDGE_DELTA_8BIT) && previous_edge
                                >= mean_steps(ABA_RETURN_MIN_EDGE_DELTA_8BIT) && edge
                                >= ABA_RETURN_MIN_EDGE_RATIO * back && previous_edge
                                >= ABA_RETURN_MIN_EDGE_RATIO * back {
                                Some(
                                    AbaReturnCandidate {
                                        frame,
                                        previous_cut: previous,
                                        next_cut: next,
                                        return_delta: back as u32,
                                        edge_delta: edge as u32,
                                        previous_edge_delta: previous_edge as u32,
                                    },
                                )
                            } else {
                                None
                            }
                        },
                        _ => None,
                    }
                }
            },
            _ => None,
        }
    }
}

impl AbaReturnCandidate {
    /// Whether this is the better return of the two: the closer one, then the
    /// clearer one, then the earlier one.
    pub open spec fn beats(self, other: AbaReturnCandidate) -> bool {
        if self.return_delta != other.return_delta {
            self.return_delta < other.return_delta
        } else if self.edge_delta != other.edge_delta {
            self.edge_delta > other.edge_delta
        } else if self.previous_edge_delta != other.previous_edge_delta {
            self.previous_edge_delta > other.previous_edge_delta
        } else {
            self.frame < other.frame
        }
    }

    /// Whether this is the better return of the two.
    fn is_better_than(&self, other: &AbaReturnCandidate) -> (better: bool)
        ensures
            better == self.beats(*other),
    {
        if self.return_delta != other.return_delta {
            self.return_delta < other.return_delta
        } else if self.edge_delta != other.edge_delta {
            self.edge_delta > other.edge_delta
        } else if self.previous_edge_delta != other.previous_edge_delta {
            self.previous_edge_delta > other.previous_edge_delta
        } else {
            self.frame < other.frame
        }
    }
}

/// Whether a frame is the best return between its cuts.
pub open spec fn is_best_return(state: Timeline, frame: usize, min_distance: int) -> bool {
    return_candidate(state, frame, min_distance) matches Some(candidate) && forall|other: usize|
        (#[trigger] return_candidate(state, other, min_distance) matches Some(rival) ==> {
            rival.previous_cut == candidate.previous_cut ==> !rival.beats(candidate)
        })
}

/// The best return between each pair of cuts that has one.
pub open spec fn best_returns(state: Timeline, min_distance: int) -> Set<usize> {
    state.scores.dom().filter(|frame: usize| is_best_return(state, frame, min_distance))
}

/// The timeline with a cut at the best return between each pair of cuts.
pub open spec fn with_returns(opts: DetectionOptions, state: Timeline) -> Timeline {
    with_spaced_cuts(
        state,
        ascending(best_returns(state, min_distance_of(opts))),
        min_distance_of(opts),
        ScenecutDecision::CutAbaReturn,
    )
}

/// Whether a score allows for a return without a cut.
pub fn aba_return_score(score: &ScenecutResult) -> (allowed: bool)
    ensures
        allowed == may_return(*score),
{
    (score.decision == ScenecutDecision::NoCut || score.decision
        == ScenecutDecision::SuppressedTransientSimilarity) && score.cost_ratio.at_least(
        double(ABA_RETURN_MIN_COST_RATIO),
    ) && score.cost_ratio.at_most(double(ABA_RETURN_MAX_COST_RATIO))
        && score.imp_block_ratio.at_least(double(ABA_RETURN_MIN_IMP_RATIO))
        && score.global_imp_block_ratio.at_least(double(ABA_RETURN_MIN_GLOBAL_IMP_RATIO))
        && score.avg_luma_8bit.at_most(double(ABA_RETURN_MAX_LUMA_8BIT))
        && score.static_good_block_ratio.at_most(double(ABA_RETURN_MAX_GOOD_BLOCK_RATIO))
}

/// The candidate at a frame, if there is one.
pub fn aba_return_recovery_candidate(
    frame: usize,
    keyframes: &FrameSet,
    scores: &FrameMap<ScenecutResult>,
    min_distance: usize,
) -> (candidate: Option<AbaReturnCandidate>)
    ensures
        candidate == return_candidate(timeline(*keyframes, *scores), frame, min_distance as int),
{
    let allowed = match scores.get(frame) {
        Some(score) => aba_return_score(score),
        None => false,
    };
    if keyframes.contains(frame) || !allowed {
        return None;
    }
    match (keyframes.before(frame), keyframes.after(frame)) {
        (Some(previous_cut), Some(next_cut)) => {
            if previous_cut == 0 || frame - previous_cut < min_distance || next_cut - frame
                < min_distance {
                return None;
            }
            let cells: u32 = FRAME_LUMA_SIGNATURE_CELLS as u32;
            let back = frame_signature_delta_for_scores(previous_cut - 1, frame, scores);
            let edge = frame_signature_delta_for_scores(frame - 1, frame, scores);
            let across = frame_signature_delta_for_scores(previous_cut - 1, previous_cut, scores);
            match (back, edge, across) {
                (Some(return_delta), Some(edge_delta), Some(previous_edge_delta)) => {
                    if return_delta > ABA_RETURN_MAX_SIGNATURE_DELTA_8BIT * cells || edge_delta
                        < ABA_RETURN_MIN_EDGE_DELTA_8BIT * cells || previous_edge_delta
                        < ABA_RETURN_MIN_EDGE_DELTA_8BIT * cells {
                        return None;
                    }
                    if edge_delta < ABA_RETURN_MIN_EDGE_RATIO * return_delta || previous_edge_delta
                        < ABA_RETURN_MIN_EDGE_RATIO * return_delta {
                        return None;
                    }
                    Some(
                        AbaReturnCandidate {
                            frame,
                            previous_cut,
                            next_cut,
                            return_delta,
                            edge_delta,
                            previous_edge_delta,
                        },
                    )
                },
                _ => None,
            }
        },
        _ => None,
    }
}

/// All candidates, in the order of their frames.
fn return_candidates(
    keyframes: &FrameSet,
    scores: &FrameMap<ScenecutResult>,
    min_distance: usize,
) -> (candidates: Vec<AbaReturnCandidate>)
    ensures
        forall|i: int, j: int|
            0 <= i < j < candidates.len() ==> candidates@[i].frame < candidates@[j].frame,
        forall|i: int|
            0 <= i < candidates.len() ==> return_candidate(
                timeline(*keyframes, *scores),
                (#[trigger] candidates@[i]).frame,
                min_distance as int,
            ) == Some(candidates@[i]) && scores@.contains_key(candidates@[i].frame),
        forall|frame: usize|
            #[trigger] return_candidate(
                timeline(*keyframes, *scores),
                frame,
                min_distance as int,
            ) is Some ==> exists|i: int|
                0 <= i < candidates.len() && (#[trigger] candidates@[i]).frame == frame,
{
    let ghost state = timeline(*keyframes, *scores);
    let frames: Vec<usize> = scores.frames();
    let mut candidates: Vec<AbaReturnCandidate> = Vec::new();
    for index in 0..frames.len()
        invariant
            state == timeline(*keyframes, *scores),
            increasing(frames@),
            frames@.to_set() == state.scores.dom(),
            forall|i: int, j: int|
                0 <= i < j < candidates.len() ==> candidates@[i].frame < candidates@[j].frame,
            forall|i: int|
                0 <= i < candidates.len() ==> return_candidate(
                    state,
                    (#[trigger] candidates@[i]).frame,
                    min_distance as int,
                ) == Some(candidates@[i]) && state.scores.contains_key(candidates@[i].frame),
            forall|i: int| 0 <= i < candidates.len() && index < frames.len()
                ==> (#[trigger] candidates@[i]).frame < frames@[index as int],
            forall|k: int|
                0 <= k < index && return_candidate(
                    state,
                    #[trigger] frames@[k],
                    min_distance as int,
                ) is Some ==> exists|i: int|
                    0 <= i < candidates.len() && (#[trigger] candidates@[i]).frame == frames@[k],
    {
        let frame: usize = frames[index];
        let ghost before = candidates@;
        assert(frames@.contains(frame));
        assert(frames@.to_set().contains(frame));
        if let Some(candidate) = aba_return_recovery_candidate(
            frame,
            keyframes,
            scores,
            min_distance,
        ) {
            candidates.push(candidate);
            assert(candidates@[before.len() as int].frame == frame);
        }
        proof {
            assert forall|k: int|
                0 <= k < index + 1 && return_candidate(
                    state,
                    #[trigger] frames@[k],
                    min_distance as int,
                ) is Some implies exists|i: int|
                0 <= i < candidates.len() && (#[trigger] candidates@[i]).frame == frames@[k] by {
                if k < index {
                    let i = choose|i: int|
                        0 <= i < before.len() && (#[trigger] before[i]).frame == frames@[k];
                    assert(candidates@[i].frame == frames@[k]);
                }
            }
        }
    }
    proof {
        assert forall|frame: usize|
            #[trigger] return_candidate(
                state,
                frame,
                min_distance as int,
            ) is Some implies exists|i: int|
            0 <= i < candidates.len() && (#[trigger] candidates@[i]).frame == frame by {
            assert(frames@.to_set().contains(frame));
            let k = frames@.index_of(frame);
            assert(frames@[k] == frame);
        }
    }
    candidates
}

/// An earlier frame has no later cut before it.
proof fn earlier_frame_has_earlier_cut(cuts: Set<usize>, earlier: usize, later: usize)
    requires
        earlier <= later,
        last_before(cuts, earlier) is Some,
        last_before(cuts, later) is Some,
    ensures
        last_before(cuts, earlier).unwrap() <= last_before(cuts, later).unwrap(),
{
    let a = last_before(cuts, earlier).unwrap();
    let b = last_before(cuts, later).unwrap();
    assert(is_last_before(cuts, earlier, a));
    assert(is_last_before(cuts, later, b));
    assert(cuts.contains(a));
}

/// The best returns, from the first to the last.
#[verifier::rlimit(40)]
#[verifier::spinoff_prover]
fn best_return_frames(
    keyframes: &FrameSet,
    scores: &FrameMap<ScenecutResult>,
    min_distance: usize,
) -> (best: Vec<usize>)
    ensures
        best@ == ascending(best_returns(timeline(*keyframes, *scores), min_distance as int)),
{
    let ghost state = timeline(*keyframes, *scores);
    let ghost distance = min_distance as int;
    let candidates: Vec<AbaReturnCandidate> = return_candidates(keyframes, scores, min_distance);
    let mut best: Vec<usize> = Vec::new();
    let mut start: usize = 0;
    while start < candidates.len()
        invariant
            start <= candidates.len(),
            state == timeline(*keyframes, *scores),
            distance == min_distance,
            forall|i: int, j: int|
                0 <= i < j < candidates.len() ==> candidates@[i].frame < candidates@[j].frame,
            forall|i: int|
                0 <= i < candidates.len() ==> return_candidate(
                    state,
                    (#[trigger] candidates@[i]).frame,
                    distance,
                ) == Some(candidates@[i]) && state.scores.contains_key(candidates@[i].frame),
            forall|frame: usize|
                #[trigger] return_candidate(state, frame, distance) is Some ==> exists|i: int|
                    0 <= i < candidates.len() && (#[trigger] candidates@[i]).frame == frame,
            0 < start < candidates.len() ==> candidates@[start - 1].previous_cut
                < candidates@[start as int].previous_cut,
            increasing(best@),
            forall|k: int| 0 <= k < best.len() && start < candidates.len() ==> best@[k]
                < candidates@[start as int].frame,
            forall|f: usize| #[trigger]
                best@.contains(f) ==> is_best_return(state, f, distance)
                    && state.scores.contains_key(f),
            forall|i: int|
                0 <= i < start && is_best_return(state, (#[trigger] candidates@[i]).frame, distance)
                    ==> best@.contains(candidates@[i].frame),
        decreases candidates.len() - start,
    {
        let previous_cut: usize = candidates[start].previous_cut;
        let mut winner: usize = start;
        let mut end: usize = start + 1;
        while end < candidates.len() && candidates[end].previous_cut == previous_cut
            invariant
                start <= winner < end <= candidates.len(),
                previous_cut == candidates@[start as int].previous_cut,
                forall|i: int, j: int|
                    0 <= i < j < candidates.len() ==> candidates@[i].frame < candidates@[j].frame,
                forall|i: int|
                    start <= i < end ==> (#[trigger] candidates@[i]).previous_cut == previous_cut,
                forall|i: int|
                    start <= i < end ==> !(#[trigger] candidates@[i]).beats(
                        candidates@[winner as int],
                    ),
            decreases candidates.len() - end,
        {
            if candidates[end].is_better_than(&candidates[winner]) {
                winner = end;
            }
            end = end + 1;
        }
        proof {
            let chosen = candidates@[winner as int];
            assert forall|other: usize|
                (#[trigger] return_candidate(state, other, distance) matches Some(rival)
                    && rival.previous_cut == previous_cut) implies !return_candidate(
                state,
                other,
                distance,
            ).unwrap().beats(chosen) by {
                let i = choose|i: int|
                    0 <= i < candidates.len() && (#[trigger] candidates@[i]).frame == other;
                assert(candidates@[i].previous_cut == previous_cut);
                if i < start {
                    earlier_frame_has_earlier_cut(
                        state.cuts,
                        candidates@[i].frame,
                        candidates@[start - 1].frame,
                    );
                    assert(candidates@[start - 1].previous_cut < previous_cut);
                }
                if i >= end {
                    earlier_frame_has_earlier_cut(
                        state.cuts,
                        candidates@[end - 1].frame,
                        candidates@[end as int].frame,
                    );
                    earlier_frame_has_earlier_cut(
                        state.cuts,
                        candidates@[end as int].frame,
                        candidates@[i].frame,
                    );
                }
            }
            assert(is_best_return(state, chosen.frame, distance));
            assert forall|i: int|
                start <= i < end && is_best_return(
                    state,
                    (#[trigger] candidates@[i]).frame,
                    distance,
                ) implies i == winner by {
                assert(return_candidate(state, chosen.frame, distance) == Some(chosen));
                assert(!chosen.beats(candidates@[i]));
                assert(!candidates@[i].beats(chosen));
            }
            if end < candidates.len() {
                earlier_frame_has_earlier_cut(
                    state.cuts,
                    candidates@[end - 1].frame,
                    candidates@[end as int].frame,
                );
            }
            push_gains_one(best@, chosen.frame);
        }
        best.push(candidates[winner].frame);
        start = end;
    }
    proof {
        let target = best_returns(state, distance);
        assert forall|f: usize| target.contains(f) implies best@.contains(f) by {
            let i = choose|i: int|
                0 <= i < candidates.len() && (#[trigger] candidates@[i]).frame == f;
            assert(candidates@[i].frame == f);
        }
        assert(best@.to_set() =~= target);
        ascending_form_is_unique(best@);
    }
    best
}

/// Adds a cut at the best return between each pair of cuts.
pub fn apply_aba_return_recovery_postprocess(
    opts: &DetectionOptions,
    keyframes: &mut FrameSet,
    scores: &mut FrameMap<ScenecutResult>,
)
    ensures
        timeline(*final(keyframes), *final(scores)) == with_returns(
            *opts,
            timeline(*old(keyframes), *old(scores)),
        ),
{
    let distance: usize = min_distance(opts);
    let best: Vec<usize> = best_return_frames(keyframes, scores, distance);
    promote_spaced(keyframes, scores, &best, distance, ScenecutDecision::CutAbaReturn);
}

} // verus!
