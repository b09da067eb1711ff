//! When one worker can take over from the worker before it.

use vstd::prelude::*;
use crate::frame_map::{from_frame, FrameMap};
use crate::options::DetectionOptions;
use crate::parallel::plan::{no_cut_parallel_warmup, warmup};
use crate::score::{same_record, ScenecutDecision, ScenecutResult};

verus! {

/// Cuts in a row that two workers must agree on.
pub const PARALLEL_SYNC_MATCHES: usize = 2;
/// The same where a returning scene was suppressed nearby.
pub const PARALLEL_FORWARD_SUPPRESSED_SYNC_MATCHES: usize = 3;

/// What a worker found at one frame.
#[derive(Clone, Copy, Debug)]
pub struct ParallelFrameDecision {
    pub is_scene_change: bool,
    pub score: Option<ScenecutResult>,
}

/// Whether two workers found the same.
pub open spec fn same_decision(left: ParallelFrameDecision, right: ParallelFrameDecision) -> bool {
    &&& left.is_scene_change == right.is_scene_change
    &&& match (left.score, right.score) {
        (Some(l), Some(r)) => same_record(l, r),
        (None, None) => true,
        _ => false,
    }
}

/// Whether a returning scene was suppressed at the frame.
pub open spec fn suppressed_by_return(score: Option<ScenecutResult>) -> bool {
    score matches Some(record) && record.decision == ScenecutDecision::SuppressedForwardSimilarity
}

/// Whether two workers found the same.
fn decisions_match(left: &ParallelFrameDecision, right: &ParallelFrameDecision) -> (equal: bool)
    ensures
        equal == same_decision(*left, *right),
{
    let scores = match (&left.score, &right.score) {
        (Some(l), Some(r)) => l.matches(r),
        (None, None) => true,
        _ => false,
    };
    scores && left.is_scene_change == right.is_scene_change
}

/// Whether a returning scene was suppressed at the frame.
pub fn is_forward_similarity_suppressed(score: &Option<ScenecutResult>) -> (suppressed: bool)
    ensures
        suppressed == suppressed_by_return(*score),
{
    match score {
        Some(record) => record.decision == ScenecutDecision::SuppressedForwardSimilarity,
        None => false,
    }
}

/// The end of the stretch without gaps that starts at a frame, within a limit.
pub open spec fn contiguous_end(
    frames: Map<usize, ParallelFrameDecision>,
    start: int,
    limit: int,
) -> int
    decreases limit - start,
{
    if 0 <= start < limit <= usize::MAX && frames.contains_key(start as usize) {
        contiguous_end(frames, start + 1, limit)
    } else {
        start
    }
}

/// The stretch without gaps has none, and ends at the limit or at a gap.
pub proof fn contiguous_stretch(
    frames: Map<usize, ParallelFrameDecision>,
    start: int,
    limit: int,
)
    requires
        0 <= start,
        limit <= usize::MAX,
    ensures
        ({
            let end = contiguous_end(frames, start, limit);
            &&& start <= end
            &&& end <= limit || end == start
            &&& forall|frame: usize| start <= frame < end ==> #[trigger] frames.contains_key(frame)
            &&& end < limit ==> !frames.contains_key(end as usize)
        }),
    decreases limit - start,
{
    if start < limit && frames.contains_key(start as usize) {
        contiguous_stretch(frames, start + 1, limit);
        let end = contiguous_end(frames, start, limit);
        assert forall|frame: usize| start <= frame < end implies #[trigger] frames.contains_key(
            frame,
        ) by {
            if frame != start {
                assert(start + 1 <= frame);
            }
        }
    }
}

/// What one worker has reported so far.
#[derive(Debug)]
pub struct ParallelWorkerOutput {
    frames: FrameMap<ParallelFrameDecision>,
    done: bool,
}

impl ParallelWorkerOutput {
    /// The decisions that are held.
    pub closed spec fn decisions(self) -> Map<usize, ParallelFrameDecision> {
        self.frames@
    }

    /// Whether the worker has ended.
    pub closed spec fn ended(self) -> bool {
        self.done
    }

    /// Nothing reported yet.
    pub fn new() -> (output: Self)
        ensures
            output.decisions() == Map::<usize, ParallelFrameDecision>::empty(),
            !output.ended(),
    {
        ParallelWorkerOutput { frames: FrameMap::new(), done: false }
    }

    /// Adds a decision.
    pub fn insert(&mut self, frame: usize, decision: ParallelFrameDecision)
        ensures
            final(self).decisions() == old(self).decisions().insert(frame, decision),
            final(self).ended() == old(self).ended(),
    {
        self.frames.insert(frame, decision);
    }

    /// Notes that the worker has ended.
    pub fn finish(&mut self)
        ensures
            final(self).decisions() == old(self).decisions(),
            final(self).ended(),
    {
        self.done = true;
    }

    /// The decision at a frame.
    pub fn get(&self, frame: usize) -> (decision: Option<ParallelFrameDecision>)
        ensures
            decision == if self.decisions().contains_key(frame) {
                Some(self.decisions()[frame])
            } else {
                None
            },
    {
        match self.frames.get(frame) {
            Some(decision) => Some(*decision),
            None => None,
        }
    }

    /// The end of the stretch without gaps that starts at a frame, within a limit.
    pub fn contiguous_end_from(&self, start: usize, frame_limit: usize) -> (end: usize)
        ensures
            end == contiguous_end(self.decisions(), start as int, frame_limit as int),
    {
        let mut frame: usize = start;
        while frame < frame_limit && self.frames.get(frame).is_some()
            invariant
                frame <= frame_limit || frame == start,
                contiguous_end(self.decisions(), start as int, frame_limit as int)
                    == contiguous_end(self.decisions(), frame as int, frame_limit as int),
            ensures
                contiguous_end(self.decisions(), frame as int, frame_limit as int) == frame,
            decreases frame_limit - frame,
        {
            frame = frame + 1;
        }
        frame
    }

    /// Whether the worker has ended, with decisions up to the limit.
    pub fn reaches_end_from(&self, start: usize, frame_limit: usize) -> (reaches: bool)
        ensures
            reaches == (self.ended() && contiguous_end(
                self.decisions(),
                start as int,
                frame_limit as int,
            ) >= frame_limit),
    {
        self.done && self.contiguous_end_from(start, frame_limit) >= frame_limit
    }

    /// Lets go of the decisions before a frame.
    pub fn prune_before(&mut self, frame: usize)
        ensures
            final(self).decisions() == from_frame(old(self).decisions(), frame),
            final(self).ended() == old(self).ended(),
    {
        self.frames.prune_before(frame);
    }

    /// Lets go of all decisions.
    pub fn clear(&mut self)
        ensures
            final(self).decisions() == Map::<usize, ParallelFrameDecision>::empty(),
            final(self).ended() == old(self).ended(),
    {
        self.frames = FrameMap::new();
    }
}

/// What has been seen on the way through frames that both workers decided.
#[derive(Clone, Copy, Debug, PartialEq, Eq, Structural)]
pub struct Agreement {
    /// Cuts in a row that both found.
    pub cuts: usize,
    /// Frames in a row on which both agree.
    pub stable: usize,
    /// Frames in a row, without a cut, on which both agree.
    pub quiet: usize,
    /// Whether a returning scene was suppressed on the way.
    pub saw_return: bool,
}

/// What has been seen after one more frame.
pub open spec fn agreement_after(
    seen: Agreement,
    left: ParallelFrameDecision,
    right: ParallelFrameDecision,
) -> Agreement {
    let suppressed = suppressed_by_return(left.score) || suppressed_by_return(right.score);
    if !same_decision(left, right) {
        Agreement { cuts: 0, stable: 0, quiet: 0, saw_return: seen.saw_return || suppressed }
    } else {
        Agreement {
            cuts: if left.is_scene_change {
                (seen.cuts + 1) as usize
            } else {
                seen.cuts
            },
            stable: (seen.stable + 1) as usize,
            quiet: if left.is_scene_change || suppressed {
                0
            } else {
                (seen.quiet + 1) as usize
            },
            saw_return: seen.saw_return || suppressed,
        }
    }
}

/// Whether the agreement is enough to take over: cuts that match within a stable
/// stretch, or a long quiet stretch where no distance forces cuts.
pub open spec fn is_enough(
    seen: Agreement,
    agrees: bool,
    opts: DetectionOptions,
) -> bool {
    let required = if seen.saw_return {
        PARALLEL_FORWARD_SUPPRESSED_SYNC_MATCHES
    } else {
        PARALLEL_SYNC_MATCHES
    };
    agrees && ((seen.cuts >= required && seen.stable >= warmup(opts)) || (
    opts.max_scenecut_distance is None && seen.quiet >= warmup(opts)))
}

/// The frame from which the right worker takes over, on the way from `at` to `end`.
pub open spec fn handoff_from(
    left: Map<usize, ParallelFrameDecision>,
    right: Map<usize, ParallelFrameDecision>,
    opts: DetectionOptions,
    seen: Agreement,
    at: int,
    end: int,
) -> Option<usize>
    decreases end - at,
{
    if at >= end {
        None
    } else {
        let l = left[at as usize];
        let r = right[at as usize];
        let after = agreement_after(seen, l, r);
        if is_enough(after, same_decision(l, r), opts) {
            Some((at + 1) as usize)
        } else {
            handoff_from(left, right, opts, after, at + 1, end)
        }
    }
}

/// Nothing seen yet.
pub open spec fn no_agreement() -> Agreement {
    Agreement { cuts: 0, stable: 0, quiet: 0, saw_return: false }
}

/// The frame from which the right worker takes over from the left one, among the
/// frames from the boundary on that both have decided without a gap.
pub open spec fn handoff(
    left: Map<usize, ParallelFrameDecision>,
    right: Map<usize, ParallelFrameDecision>,
    boundary: int,
    opts: DetectionOptions,
    frame_limit: int,
) -> Option<usize> {
    let left_end = contiguous_end(left, boundary, frame_limit);
    let right_end = contiguous_end(right, boundary, frame_limit);
    handoff_from(
        left,
        right,
        opts,
        no_agreement(),
        boundary,
        if left_end <= right_end {
            left_end
        } else {
            right_end
        },
    )
}

/// A worker takes over within the frames that both have decided, and both agree on
/// the last frame before.
pub proof fn handoff_lies_in_common_stretch(
    left: Map<usize, ParallelFrameDecision>,
    right: Map<usize, ParallelFrameDecision>,
    opts: DetectionOptions,
    seen: Agreement,
    at: int,
    end: int,
)
    requires
        0 <= at,
        end <= usize::MAX,
    ensures
        handoff_from(left, right, opts, seen, at, end) matches Some(frame) ==> {
            &&& at < frame <= end
            &&& same_decision(left[(frame - 1) as usize], right[(frame - 1) as usize])
        },
    decreases end - at,
{
    if at < end {
        handoff_lies_in_common_stretch(
            left,
            right,
            opts,
            agreement_after(seen, left[at as usize], right[at as usize]),
            at + 1,
            end,
        );
    }
}

/// Whether two workers decide a frame alike.
pub open spec fn agree_at(
    left: Map<usize, ParallelFrameDecision>,
    right: Map<usize, ParallelFrameDecision>,
    frame: int,
) -> bool {
    same_decision(left[frame as usize], right[frame as usize])
}

/// Before a worker takes over, both agree on every frame of a whole warmup.
pub proof fn handoff_follows_agreement(
    left: Map<usize, ParallelFrameDecision>,
    right: Map<usize, ParallelFrameDecision>,
    opts: DetectionOptions,
    seen: Agreement,
    from: int,
    at: int,
    end: int,
)
    requires
        0 <= from <= at,
        end <= usize::MAX,
        seen.quiet <= seen.stable <= at - from,
        forall|frame: int| at - seen.stable <= frame < at ==> #[trigger] agree_at(left, right, frame),
    ensures
        handoff_from(left, right, opts, seen, at, end) matches Some(taken) ==> {
            &&& from <= taken - warmup(opts)
            &&& forall|frame: int|
                taken - warmup(opts) <= frame < taken ==> #[trigger] agree_at(left, right, frame)
        },
    decreases end - at,
{
    if at < end {
        let after = agreement_after(seen, left[at as usize], right[at as usize]);
        assert forall|frame: int| at + 1 - after.stable <= frame < at + 1 implies #[trigger] agree_at(
            left,
            right,
            frame,
        ) by {
            if frame < at {
                assert(at - seen.stable <= frame);
            }
        }
        handoff_follows_agreement(left, right, opts, after, from, at + 1, end);
    }
}

/// The frame from which the right worker takes over from the left one.
pub fn find_parallel_handoff(
    left: &ParallelWorkerOutput,
    right: &ParallelWorkerOutput,
    boundary: usize,
    opts: &DetectionOptions,
    frame_limit: usize,
) -> (frame: Option<usize>)
    ensures
        frame == handoff(
            left.decisions(),
            right.decisions(),
            boundary as int,
            *opts,
            frame_limit as int,
        ),
        frame matches Some(f) ==> {
            &&& boundary < f <= contiguous_end(
                left.decisions(),
                boundary as int,
                frame_limit as int,
            )
            &&& f <= contiguous_end(right.decisions(), boundary as int, frame_limit as int)
            &&& f <= frame_limit
        },
{
    let left_end: usize = left.contiguous_end_from(boundary, frame_limit);
    let right_end: usize = right.contiguous_end_from(boundary, frame_limit);
    let end: usize = if left_end <= right_end {
        left_end
    } else {
        right_end
    };
    proof {
        contiguous_stretch(left.decisions(), boundary as int, frame_limit as int);
        contiguous_stretch(right.decisions(), boundary as int, frame_limit as int);
    }
    let quiet_required: usize = no_cut_parallel_warmup(opts);
    let mut seen = Agreement { cuts: 0, stable: 0, quiet: 0, saw_return: false };
    let mut at: usize = boundary;
    while at < end
        invariant
            boundary <= at,
            end <= left_end,
            end <= right_end,
            end <= frame_limit || end == boundary,
            quiet_required == warmup(*opts),
            seen.cuts <= at - boundary,
            seen.stable <= at - boundary,
            seen.quiet <= at - boundary,
            left_end == contiguous_end(left.decisions(), boundary as int, frame_limit as int),
            right_end == contiguous_end(right.decisions(), boundary as int, frame_limit as int),
            end == if left_end <= right_end {
                left_end
            } else {
                right_end
            },
            forall|f: usize|
                boundary <= f < left_end ==> #[trigger] left.decisions().contains_key(f),
            forall|f: usize|
                boundary <= f < right_end ==> #[trigger] right.decisions().contains_key(f),
            handoff(
                left.decisions(),
                right.decisions(),
                boundary as int,
                *opts,
                frame_limit as int,
            ) == handoff_from(
                left.decisions(),
                right.decisions(),
                *opts,
                seen,
                at as int,
                end as int,
            ),
        decreases end - at,
    {
        assert(left.decisions().contains_key(at) && right.decisions().contains_key(at));
        if let (Some(left_decision), Some(right_decision)) = (left.get(at), right.get(at)) {
            let suppressed = is_forward_similarity_suppressed(&left_decision.score)
                || is_forward_similarity_suppressed(&right_decision.score);
            let agrees = decisions_match(&left_decision, &right_decision);
            seen.saw_return = seen.saw_return || suppressed;
            if agrees {
                seen.stable = seen.stable + 1;
                if left_decision.is_scene_change {
                    seen.cuts = seen.cuts + 1;
                    seen.quiet = 0;
                } else if suppressed {
                    seen.quiet = 0;
                } else {
                    seen.quiet = seen.quiet + 1;
                }
                let required: usize = if seen.saw_return {
                    PARALLEL_FORWARD_SUPPRESSED_SYNC_MATCHES
                } else {
                    PARALLEL_SYNC_MATCHES
                };
                if seen.cuts >= required && seen.stable >= quiet_required {
                    return Some(at + 1);
                }
                if opts.max_scenecut_distance.is_none() && seen.quiet >= quiet_required {
                    return Some(at + 1);
                }
            } else {
                seen.cuts = 0;
                seen.stable = 0;
                seen.quiet = 0;
            }
        }
        at = at + 1;
    }
    None
}

/// Two workers decide a frame alike exactly where both find a cut or neither does, and
/// their scores, where there are any, are equal as records.
pub proof fn alike_means_same_cut_and_scores(
    left: ParallelFrameDecision,
    right: ParallelFrameDecision,
)
    ensures
        same_decision(left, right) <==> {
            &&& left.is_scene_change == right.is_scene_change
            &&& left.score is Some == right.score is Some
            &&& left.score is Some ==> same_record(left.score.unwrap(), right.score.unwrap())
        },
        same_decision(left, right) && left.score is Some ==> {
            let (l, r) = (left.score.unwrap(), right.score.unwrap());
            &&& l.decision == r.decision
            &&& l.forward_return_frame == r.forward_return_frame
            &&& l.cost_ratio.le(r.cost_ratio) && r.cost_ratio.le(l.cost_ratio)
            &&& l.imp_block_ratio.le(r.imp_block_ratio) && r.imp_block_ratio.le(l.imp_block_ratio)
            &&& l.forward_adjusted_cost.le(r.forward_adjusted_cost) && r.forward_adjusted_cost.le(
                l.forward_adjusted_cost,
            )
        },
{
}

/// A worker takes over only after both have found the same cuts, with the same verdicts and
/// scores, on every frame of a stretch. The stretch is as long as the largest of the
/// lookahead, the reach of the similarity rules, the smallest distance between cuts and the
/// shortest scene before a return, and eight frames and the history of the rules longer. It
/// starts no earlier than the boundary between the workers.
pub proof fn takeover_follows_equal_findings(
    left: Map<usize, ParallelFrameDecision>,
    right: Map<usize, ParallelFrameDecision>,
    boundary: int,
    opts: DetectionOptions,
    frame_limit: int,
)
    requires
        0 <= boundary,
        frame_limit <= usize::MAX,
    ensures
        handoff(left, right, boundary, opts, frame_limit) matches Some(taken) ==> {
            let forward = opts.tuning.forward_similarity;
            let transient = opts.tuning.transient_similarity;
            &&& boundary < taken <= frame_limit
            &&& forall|frame: usize|
                boundary <= frame < taken ==> #[trigger] left.contains_key(frame)
                    && right.contains_key(frame)
            &&& forall|frame: usize, reach: int, history: int|
                #![trigger left[frame], within_reach(reach, history)]
                {
                    &&& frame < taken <= frame + reach + history + 8
                    &&& {
                        ||| reach == (if opts.detect_flashes {
                            opts.lookahead_distance as int
                        } else {
                            1
                        })
                        ||| forward.enabled && reach == forward.frames
                        ||| forward.enabled && reach == forward.min_previous_scene_len
                        ||| transient.enabled && reach == transient.frames
                        ||| opts.min_scenecut_distance is Some && reach
                            == opts.min_scenecut_distance.unwrap()
                    }
                    &&& {
                        ||| history == 0
                        ||| transient.enabled && history == transient.frames
                        ||| forward.enabled && history == forward.window_frames - 1
                    }
                } ==> {
                    &&& boundary <= frame
                    &&& left[frame].is_scene_change == right[frame].is_scene_change
                    &&& left[frame].score is Some == right[frame].score is Some
                    &&& left[frame].score is Some ==> {
                        let (l, r) = (left[frame].score.unwrap(), right[frame].score.unwrap());
                        &&& same_record(l, r)
                        &&& l.decision == r.decision
                        &&& l.cost_ratio.le(r.cost_ratio) && r.cost_ratio.le(l.cost_ratio)
                    }
                }
        },
{
    let left_end = contiguous_end(left, boundary, frame_limit);
    let right_end = contiguous_end(right, boundary, frame_limit);
    let end = if left_end <= right_end {
        left_end
    } else {
        right_end
    };
    contiguous_stretch(left, boundary, frame_limit);
    contiguous_stretch(right, boundary, frame_limit);
    if end <= usize::MAX {
        handoff_lies_in_common_stretch(left, right, opts, no_agreement(), boundary, end);
        handoff_follows_agreement(left, right, opts, no_agreement(), boundary, boundary, end);
        if let Some(taken) = handoff(left, right, boundary, opts, frame_limit) {
            assert forall|frame: usize| taken - warmup(opts) <= frame < taken implies {
                &&& (#[trigger] left[frame]).is_scene_change == right[frame].is_scene_change
                &&& left[frame].score is Some == right[frame].score is Some
                &&& left[frame].score is Some ==> {
                    let (l, r) = (left[frame].score.unwrap(), right[frame].score.unwrap());
                    &&& same_record(l, r)
                    &&& l.decision == r.decision
                    &&& l.cost_ratio.le(r.cost_ratio) && r.cost_ratio.le(l.cost_ratio)
                }
            } by {
                assert(agree_at(left, right, frame as int));
                alike_means_same_cut_and_scores(left[frame], right[frame]);
            }
        }
    }
}

/// Names a reach and a history together.
pub open spec fn within_reach(reach: int, history: int) -> bool {
    true
}

/// Where both workers find no cut and the same scores on each of so many frames, none of
/// them suppressed by a returning scene, and no largest distance forces cuts, the next
/// worker takes over by the end of them.
pub proof fn quiet_agreement_hands_over(
    left: Map<usize, ParallelFrameDecision>,
    right: Map<usize, ParallelFrameDecision>,
    opts: DetectionOptions,
    seen: Agreement,
    at: int,
    end: int,
)
    requires
        0 <= at,
        end <= usize::MAX,
        opts.max_scenecut_distance is None,
        seen.quiet <= seen.stable <= at,
        seen.cuts <= at,
        end - at + seen.quiet >= warmup(opts),
        at < end,
        forall|frame: usize|
            at <= frame < end ==> {
                &&& !(#[trigger] left[frame]).is_scene_change && !right[frame].is_scene_change
                &&& match (left[frame].score, right[frame].score) {
                    (Some(l), Some(r)) => same_record(l, r) && l.decision
                        != ScenecutDecision::SuppressedForwardSimilarity && r.decision
                        != ScenecutDecision::SuppressedForwardSimilarity,
                    (None, None) => true,
                    _ => false,
                }
            },
    ensures
        handoff_from(left, right, opts, seen, at, end) is Some,
    decreases end - at,
{
    let l = left[at as usize];
    let r = right[at as usize];
    let after = agreement_after(seen, l, r);
    assert(!left[at as usize].is_scene_change);
    if !is_enough(after, same_decision(l, r), opts) {
        quiet_agreement_hands_over(left, right, opts, after, at + 1, end);
    }
}

/// Where both workers find the same on each of so many frames, with three cuts or more among
/// them, the next worker takes over by the end of them.
pub proof fn matching_cuts_hand_over(
    left: Map<usize, ParallelFrameDecision>,
    right: Map<usize, ParallelFrameDecision>,
    opts: DetectionOptions,
    seen: Agreement,
    at: int,
    end: int,
)
    requires
        0 <= at,
        end <= usize::MAX,
        seen.quiet <= seen.stable <= at,
        3 <= seen.cuts <= at,
        end - at + seen.stable >= warmup(opts),
        at < end,
        forall|frame: usize|
            at <= frame < end ==> {
                &&& (#[trigger] left[frame]).is_scene_change == right[frame].is_scene_change
                &&& match (left[frame].score, right[frame].score) {
                    (Some(l), Some(r)) => same_record(l, r),
                    (None, None) => true,
                    _ => false,
                }
            },
    ensures
        handoff_from(left, right, opts, seen, at, end) is Some,
    decreases end - at,
{
    let l = left[at as usize];
    let r = right[at as usize];
    let after = agreement_after(seen, l, r);
    assert(left[at as usize].is_scene_change == right[at as usize].is_scene_change);
    if !is_enough(after, same_decision(l, r), opts) {
        matching_cuts_hand_over(left, right, opts, after, at + 1, end);
    }
}

/// Without enough cuts that both found, a worker takes over only after a quiet warmup: where
/// a largest distance is configured, at least two cuts match, and three once a return was
/// suppressed.
pub proof fn takeover_takes_matching_cuts(
    left: Map<usize, ParallelFrameDecision>,
    right: Map<usize, ParallelFrameDecision>,
    opts: DetectionOptions,
    seen: Agreement,
    at: int,
    end: int,
)
    requires
        0 <= at,
        end <= usize::MAX,
        opts.max_scenecut_distance is Some,
        seen.cuts <= at,
        seen.stable <= at,
        seen.quiet <= at,
    ensures
        handoff_from(left, right, opts, seen, at, end) matches Some(taken) ==> (exists|cut: usize|
            at <= cut < taken && (#[trigger] left[cut]).is_scene_change
                && right[cut].is_scene_change) || (seen.cuts >= 2 && (seen.saw_return ==> seen.cuts
            >= 3)),
    decreases end - at,
{
    if at < end {
        let l = left[at as usize];
        let r = right[at as usize];
        let after = agreement_after(seen, l, r);
        takeover_takes_matching_cuts(left, right, opts, after, at + 1, end);
        handoff_lies_in_common_stretch(left, right, opts, seen, at, end);
        if after.cuts > seen.cuts {
            assert(left[at as usize].is_scene_change && right[at as usize].is_scene_change);
        }
    }
}

} // verus!
