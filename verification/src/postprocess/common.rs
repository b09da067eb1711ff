//! The state that the corrections work on, and the steps that they share.

use vstd::prelude::*;
use crate::frame_map::FrameMap;
use crate::measure::Measure;
use crate::score::{ScenecutDecision, ScenecutResult, FRAME_LUMA_SIGNATURE_CELLS};
use crate::timeline::{frames_between, FrameSet};
pub use crate::timeline::{prefix_gains_one, push_gains_one};

verus! {

/// The cuts and the scores at one moment.
pub struct Timeline {
    pub cuts: Set<usize>,
    pub scores: Map<usize, ScenecutResult>,
}

/// The timeline that a pair of collections holds.
pub open spec fn timeline(keyframes: FrameSet, scores: FrameMap<ScenecutResult>) -> Timeline {
    Timeline { cuts: keyframes@, scores: scores@ }
}

/// The scores with a new verdict on one frame, where it has a score.
pub open spec fn decided(
    scores: Map<usize, ScenecutResult>,
    frame: usize,
    decision: ScenecutDecision,
) -> Map<usize, ScenecutResult> {
    if scores.contains_key(frame) {
        scores.insert(frame, scores[frame].decided(decision))
    } else {
        scores
    }
}

/// The scores with a new verdict on each frame of a set.
pub open spec fn decided_all(
    scores: Map<usize, ScenecutResult>,
    frames: Set<usize>,
    decision: ScenecutDecision,
) -> Map<usize, ScenecutResult> {
    Map::new(
        |frame: usize| scores.contains_key(frame),
        |frame: usize|
            if frames.contains(frame) {
                scores[frame].decided(decision)
            } else {
                scores[frame]
            },
    )
}

impl Timeline {
    /// One cut more, with its verdict.
    pub open spec fn with_cut(self, frame: usize, decision: ScenecutDecision) -> Timeline {
        Timeline {
            cuts: self.cuts.insert(frame),
            scores: decided(self.scores, frame, decision),
        }
    }

    /// One cut less, with its verdict.
    pub open spec fn without_cut(self, frame: usize, decision: ScenecutDecision) -> Timeline {
        Timeline {
            cuts: self.cuts.remove(frame),
            scores: decided(self.scores, frame, decision),
        }
    }

    /// A set of cuts less, with their verdict.
    pub open spec fn without_cuts(self, frames: Set<usize>, decision: ScenecutDecision) -> Timeline {
        Timeline {
            cuts: self.cuts.difference(frames),
            scores: decided_all(self.scores, frames, decision),
        }
    }
}

/// Whether the frame keeps its distance from every other cut.
pub open spec fn well_spaced(cuts: Set<usize>, frame: usize, min_distance: int) -> bool {
    forall|other: usize| #[trigger]
        cuts.contains(other) && other != frame ==> other - frame >= min_distance || frame - other
            >= min_distance
}

/// Adds those frames, in turn, that keep their distance from the cuts so far.
pub open spec fn with_spaced_cuts(
    state: Timeline,
    frames: Seq<usize>,
    min_distance: int,
    decision: ScenecutDecision,
) -> Timeline
    decreases frames.len(),
{
    if frames.len() == 0 {
        state
    } else {
        let before = with_spaced_cuts(state, frames.drop_last(), min_distance, decision);
        if well_spaced(before.cuts, frames.last(), min_distance) {
            before.with_cut(frames.last(), decision)
        } else {
            before
        }
    }
}

/// Whether no scored frame within the radius costs more than this one.
pub open spec fn is_cost_peak(
    scores: Map<usize, ScenecutResult>,
    frame: usize,
    radius: int,
) -> bool {
    &&& scores.contains_key(frame)
    &&& forall|other: usize| #[trigger]
        scores.contains_key(other) && other != frame && frame - radius <= other <= frame + radius
            ==> scores[other].cost_ratio.le(scores[frame].cost_ratio)
}

/// Number of cuts within the radius. The first frame of the video is no cut.
pub open spec fn cut_density(cuts: Set<usize>, frame: usize, radius: int) -> nat {
    frames_between(cuts.remove(0), frame - radius, frame + radius).len()
}

/// The distance between two values.
pub open spec fn gap(a: int, b: int) -> int {
    if a >= b {
        a - b
    } else {
        b - a
    }
}

/// Sum of the cell differences of two luma signatures over their first cells.
pub open spec fn signature_distance(left: Seq<u8>, right: Seq<u8>, cells: nat) -> int
    decreases cells,
{
    if cells == 0 {
        0
    } else {
        let last = (cells - 1) as nat;
        signature_distance(left, right, last) + gap(left[last as int] as int, right[last as int] as int)
    }
}

/// The signature of a frame, where it has one.
pub open spec fn signature_of(scores: Map<usize, ScenecutResult>, frame: usize) -> Option<
    [u8; FRAME_LUMA_SIGNATURE_CELLS],
> {
    if scores.contains_key(frame) {
        scores[frame].frame_luma_signature
    } else {
        None
    }
}

/// The signature difference of two frames, where both have one, in units of one
/// 8-bit step in one cell: the mean difference is this over the number of cells.
pub open spec fn frame_distance(
    scores: Map<usize, ScenecutResult>,
    left: usize,
    right: usize,
) -> Option<int> {
    match (signature_of(scores, left), signature_of(scores, right)) {
        (Some(l), Some(r)) => Some(
            signature_distance(l@, r@, FRAME_LUMA_SIGNATURE_CELLS as nat),
        ),
        _ => None,
    }
}

/// A mean signature difference in the units of [`frame_distance`].
pub open spec fn mean_steps(steps: u32) -> int {
    steps * FRAME_LUMA_SIGNATURE_CELLS
}

/// The frame before, or the first frame.
pub open spec fn frame_before(frame: usize) -> usize {
    if frame > 0 {
        (frame - 1) as usize
    } else {
        0
    }
}

/// Replaces the verdict on a frame, where it has a score.
pub(crate) fn decide(
    scores: &mut FrameMap<ScenecutResult>,
    frame: usize,
    decision: ScenecutDecision,
)
    ensures
        final(scores)@ == decided(old(scores)@, frame, decision),
{
    let found: Option<ScenecutResult> = match scores.get(frame) {
        Some(score) => Some(*score),
        None => None,
    };
    if let Some(mut score) = found {
        score.decision = decision;
        scores.insert(frame, score);
    }
}

/// Takes cuts out and gives them their verdict.
pub(crate) fn suppress_frames(
    keyframes: &mut FrameSet,
    scores: &mut FrameMap<ScenecutResult>,
    frames: &Vec<usize>,
    decision: ScenecutDecision,
)
    ensures
        timeline(*final(keyframes), *final(scores)) == timeline(
            *old(keyframes),
            *old(scores),
        ).without_cuts(frames@.to_set(), decision),
{
    let ghost start = timeline(*keyframes, *scores);
    for index in 0..frames.len()
        invariant
            keyframes@ == start.cuts.difference(frames@.take(index as int).to_set()),
            scores@ == decided_all(start.scores, frames@.take(index as int).to_set(), decision),
    {
        let frame: usize = frames[index];
        keyframes.remove(frame);
        decide(scores, frame, decision);
        proof {
            let before = frames@.take(index as int).to_set();
            let after = frames@.take(index + 1).to_set();
            prefix_gains_one(frames@, index as int);
            assert(keyframes@ =~= start.cuts.difference(after));
            assert(scores@ =~= decided_all(start.scores, after, decision));
        }
    }
    proof {
        assert(frames@.take(frames.len() as int) =~= frames@);
        assert(decided_all(start.scores, Set::empty(), decision) =~= start.scores);
    }
}

/// Whether the frame keeps its distance from every other cut.
pub fn scene_distance_ok(frame: usize, keyframes: &FrameSet, min_distance: usize) -> (ok: bool)
    ensures
        ok == well_spaced(keyframes@, frame, min_distance as int),
{
    let previous_ok = match keyframes.before(frame) {
        Some(previous) => frame - previous >= min_distance,
        None => true,
    };
    let next_ok = match keyframes.after(frame) {
        Some(next) => next - frame >= min_distance,
        None => true,
    };
    previous_ok && next_ok
}

/// Adds those frames, in turn, that keep their distance from the cuts so far.
pub(crate) fn promote_spaced(
    keyframes: &mut FrameSet,
    scores: &mut FrameMap<ScenecutResult>,
    frames: &Vec<usize>,
    min_distance: usize,
    decision: ScenecutDecision,
)
    ensures
        timeline(*final(keyframes), *final(scores)) == with_spaced_cuts(
            timeline(*old(keyframes), *old(scores)),
            frames@,
            min_distance as int,
            decision,
        ),
{
    let ghost start = timeline(*keyframes, *scores);
    for index in 0..frames.len()
        invariant
            timeline(*keyframes, *scores) == with_spaced_cuts(
                start,
                frames@.take(index as int),
                min_distance as int,
                decision,
            ),
    {
        let frame: usize = frames[index];
        proof {
            assert(frames@.take(index + 1).drop_last() =~= frames@.take(index as int));
        }
        if scene_distance_ok(frame, keyframes, min_distance) {
            keyframes.insert(frame);
            decide(scores, frame, decision);
        }
    }
    assert(frames@.take(frames.len() as int) =~= frames@);
}

/// Whether no scored frame within the radius costs more than this one.
pub fn local_cost_peak(
    frame: usize,
    scores: &FrameMap<ScenecutResult>,
    radius: usize,
) -> (peak: bool)
    ensures
        peak == is_cost_peak(scores@, frame, radius as int),
{
    let cost: Measure = match scores.get(frame) {
        Some(score) => score.cost_ratio,
        None => {
            return false;
        },
    };
    let end: usize = frame.saturating_add(radius);
    let mut other: usize = frame.saturating_sub(radius);
    loop
        invariant
            scores@.contains_key(frame),
            cost == scores@[frame].cost_ratio,
            end == if frame + radius <= usize::MAX {
                frame + radius
            } else {
                usize::MAX as int
            },
            frame - radius <= other <= end,
            other <= frame || other - frame <= radius,
            forall|earlier: usize| #[trigger]
                scores@.contains_key(earlier) && earlier != frame && frame - radius <= earlier
                    < other ==> scores@[earlier].cost_ratio.le(cost),
        decreases end - other,
    {
        if other != frame {
            if let Some(score) = scores.get(other) {
                if !score.cost_ratio.at_most(cost) {
                    return false;
                }
            }
        }
        if other == end {
            return true;
        }
        other = other + 1;
    }
}

/// Number of cuts within the radius. The first frame of the video is no cut.
pub fn local_cut_count(keyframes: &FrameSet, frame: usize, radius: usize) -> (count: usize)
    ensures
        count == cut_density(keyframes@, frame, radius as int),
{
    let mut low: usize = frame.saturating_sub(radius);
    if low == 0 {
        low = 1;
    }
    let high: usize = frame.saturating_add(radius);
    assert(frames_between(keyframes@, low as int, high as int) =~= frames_between(
        keyframes@.remove(0),
        frame - radius,
        frame + radius,
    ));
    keyframes.count_between(low, high)
}

/// The difference of two luma signatures, summed over their cells.
pub fn frame_signature_delta_8bit(
    left: &[u8; FRAME_LUMA_SIGNATURE_CELLS],
    right: &[u8; FRAME_LUMA_SIGNATURE_CELLS],
) -> (sum: u32)
    ensures
        sum == signature_distance(left@, right@, FRAME_LUMA_SIGNATURE_CELLS as nat),
        sum <= 255 * FRAME_LUMA_SIGNATURE_CELLS,
{
    let mut sum: u32 = 0;
    for cell in 0..FRAME_LUMA_SIGNATURE_CELLS
        invariant
            sum == signature_distance(left@, right@, cell as nat),
            sum <= 255 * cell,
    {
        let a: u32 = left[cell] as u32;
        let b: u32 = right[cell] as u32;
        sum = sum + if a >= b {
            a - b
        } else {
            b - a
        };
    }
    sum
}

/// The signature difference of two frames, where both have a signature.
pub fn frame_signature_delta_for_scores(
    left: usize,
    right: usize,
    scores: &FrameMap<ScenecutResult>,
) -> (sum: Option<u32>)
    ensures
        match sum {
            Some(s) => frame_distance(scores@, left, right) == Some(s as int),
            None => frame_distance(scores@, left, right) is None,
        },
{
    let left_signature = match scores.get(left) {
        Some(score) => score.frame_luma_signature,
        None => None,
    };
    let right_signature = match scores.get(right) {
        Some(score) => score.frame_luma_signature,
        None => None,
    };
    match (left_signature, right_signature) {
        (Some(l), Some(r)) => Some(frame_signature_delta_8bit(&l, &r)),
        _ => None,
    }
}

/// A frame that keeps its distance splits no pair of cuts below the distance:
/// cuts that are well spaced stay so when such frames are added.
pub proof fn spaced_cuts_stay_spaced(
    state: Timeline,
    frames: Seq<usize>,
    min_distance: int,
    decision: ScenecutDecision,
)
    requires
        forall|cut: usize| #[trigger]
            state.cuts.contains(cut) ==> well_spaced(state.cuts, cut, min_distance),
    ensures
        ({
            let after = with_spaced_cuts(state, frames, min_distance, decision);
            forall|cut: usize| #[trigger]
                after.cuts.contains(cut) ==> well_spaced(after.cuts, cut, min_distance)
        }),
    decreases frames.len(),
{
    if frames.len() > 0 {
        spaced_cuts_stay_spaced(state, frames.drop_last(), min_distance, decision);
        let before = with_spaced_cuts(state, frames.drop_last(), min_distance, decision);
        let after = with_spaced_cuts(state, frames, min_distance, decision);
        assert forall|cut: usize| #[trigger] after.cuts.contains(cut) implies well_spaced(
            after.cuts,
            cut,
            min_distance,
        ) by {
            assert forall|other: usize| #[trigger]
                after.cuts.contains(other) && other != cut implies other - cut >= min_distance || cut
                - other >= min_distance by {
                if before.cuts.contains(cut) {
                    assert(well_spaced(before.cuts, cut, min_distance));
                }
                if before.cuts.contains(other) {
                    assert(well_spaced(before.cuts, other, min_distance));
                }
            }
        }
    }
}

/// Adding frames takes no cut away, and adds nothing but the given frames.
pub proof fn promotion_only_adds(
    state: Timeline,
    frames: Seq<usize>,
    min_distance: int,
    decision: ScenecutDecision,
)
    ensures
        ({
            let after = with_spaced_cuts(state, frames, min_distance, decision);
            &&& state.cuts.subset_of(after.cuts)
            &&& after.cuts.subset_of(state.cuts.union(frames.to_set()))
            &&& after.scores.dom() == state.scores.dom()
        }),
    decreases frames.len(),
{
    if frames.len() > 0 {
        promotion_only_adds(state, frames.drop_last(), min_distance, decision);
        prefix_gains_one(frames, frames.len() - 1);
        assert(frames.take(frames.len() - 1) =~= frames.drop_last());
        assert(frames.take(frames.len() as int) =~= frames);
        let after = with_spaced_cuts(state, frames, min_distance, decision);
        assert(after.scores.dom() =~= state.scores.dom());
    } else {
        assert(frames.to_set() =~= Set::<usize>::empty());
    }
}

} // verus!
