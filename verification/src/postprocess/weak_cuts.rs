//! Weak cuts that motion or an occlusion explains.

use vstd::prelude::*;
use crate::frame_map::FrameMap;
use crate::measure::double;
use crate::postprocess::common::{decide, suppress_frames, timeline, Timeline};
use crate::postprocess::runs::{any_candidate_within, later_cuts, some_candidate_within};
use crate::score::{ScenecutDecision, ScenecutResult};
use crate::timeline::{ascending, increasing, FrameSet};

verus! {

/// Longest distance between the two cuts of a pair.
pub const FAST_MOTION_PAIR_MAX_GAP: usize = 24;
/// Longest distance from the pair to the cut that ends the motion.
pub const FAST_MOTION_PAIR_MAX_EXIT_GAP: usize = 80;
/// Shortest distance from the cut before the pair.
pub const FAST_MOTION_PAIR_MIN_PREVIOUS_GAP: usize = 80;
/// 0.35
pub const FAST_MOTION_MAX_COST_RATIO: u64 = 0x3FD6_6666_6666_6666;
/// 4.0
pub const FAST_MOTION_MIN_GLOBAL_IMP_RATIO: u64 = 0x4010_0000_0000_0000;
/// 2.7
pub const FAST_MOTION_MIN_IMP_RATIO: u64 = 0x4005_9999_9999_999A;
/// 45.0
pub const FAST_MOTION_MIN_LUMA_8BIT: u64 = 0x4046_8000_0000_0000;
/// 6.0
pub const FAST_MOTION_MIN_TRANSIENT_DELTA_8BIT: u64 = 0x4018_0000_0000_0000;
/// 1.2
pub const FAST_MOTION_EXIT_MIN_COST_RATIO: u64 = 0x3FF3_3333_3333_3333;

/// 0.25
pub const DARK_OCCLUSION_MAX_COST_RATIO: u64 = 0x3FD0_0000_0000_0000;
/// 25.0
pub const DARK_OCCLUSION_MAX_LUMA_8BIT: u64 = 0x4039_0000_0000_0000;
/// 3.5
pub const DARK_OCCLUSION_MIN_IMP_RATIO: u64 = 0x400C_0000_0000_0000;
/// 4.5
pub const DARK_OCCLUSION_MIN_GLOBAL_IMP_RATIO: u64 = 0x4012_0000_0000_0000;
/// 0.70
pub const DARK_OCCLUSION_MIN_BAD_BLOCK_RATIO: u64 = 0x3FE6_6666_6666_6666;
/// 0.002
pub const DARK_OCCLUSION_MAX_GOOD_BLOCK_RATIO: u64 = 0x3F60_624D_D2F1_A9FC;
/// 4.0
pub const DARK_OCCLUSION_MAX_TRANSIENT_DELTA_8BIT: u64 = 0x4010_0000_0000_0000;
/// 5.0
pub const DARK_OCCLUSION_MAX_FORWARD_DELTA_8BIT: u64 = 0x4014_0000_0000_0000;

/// Whether a score is that of a cut inside fast motion.
pub open spec fn is_motion_split(score: ScenecutResult) -> bool {
    &&& score.decision == ScenecutDecision::CutImportance
    &&& score.cost_ratio.le(double(FAST_MOTION_MAX_COST_RATIO))
    &&& double(FAST_MOTION_MIN_IMP_RATIO).le(score.imp_block_ratio)
    &&& double(FAST_MOTION_MIN_GLOBAL_IMP_RATIO).le(score.global_imp_block_ratio)
    &&& double(FAST_MOTION_MIN_LUMA_8BIT).le(score.avg_luma_8bit)
    &&& score.transient_similarity_score matches Some(delta) && double(
        FAST_MOTION_MIN_TRANSIENT_DELTA_8BIT,
    ).le(delta)
}

/// Whether a score is that of the cut that ends fast motion.
pub open spec fn is_motion_exit(score: ScenecutResult) -> bool {
    &&& score.decision == ScenecutDecision::Cut
    &&& double(FAST_MOTION_EXIT_MIN_COST_RATIO).le(score.cost_ratio)
}

/// Whether two of four successive cuts are a split inside fast motion: a long
/// scene before, two weak cuts close together, a strong cut soon after.
pub open spec fn is_micro_split(
    scores: Map<usize, ScenecutResult>,
    previous: usize,
    first: usize,
    second: usize,
    exit: usize,
) -> bool {
    &&& first - previous >= FAST_MOTION_PAIR_MIN_PREVIOUS_GAP
    &&& second - first <= FAST_MOTION_PAIR_MAX_GAP
    &&& exit - second <= FAST_MOTION_PAIR_MAX_EXIT_GAP
    &&& scores.contains_key(first) && is_motion_split(scores[first])
    &&& scores.contains_key(second) && is_motion_split(scores[second])
    &&& scores.contains_key(exit) && is_motion_exit(scores[exit])
}

/// The timeline after the splits that start at the first few cuts are taken out.
pub open spec fn without_early_splits(state: Timeline, cuts: Seq<usize>, starts: nat) -> Timeline
    decreases starts,
{
    if starts == 0 {
        state
    } else {
        let at = starts - 1;
        let before = without_early_splits(state, cuts, at as nat);
        if is_micro_split(before.scores, cuts[at], cuts[at + 1], cuts[at + 2], cuts[at + 3]) {
            before.without_cut(
                cuts[at + 1],
                ScenecutDecision::SuppressedFastMotion,
            ).without_cut(cuts[at + 2], ScenecutDecision::SuppressedFastMotion)
        } else {
            before
        }
    }
}

/// The timeline without splits inside fast motion.
pub open spec fn without_micro_splits(state: Timeline) -> Timeline {
    let cuts = ascending(state.cuts.remove(0));
    if cuts.len() < 4 {
        state
    } else {
        without_early_splits(state, cuts, (cuts.len() - 3) as nat)
    }
}

/// Whether a score is that of something dark that passes before the camera.
pub open spec fn is_dark_occlusion(score: ScenecutResult) -> bool {
    &&& score.decision == ScenecutDecision::CutImportance
    &&& score.cost_ratio.le(double(DARK_OCCLUSION_MAX_COST_RATIO))
    &&& score.avg_luma_8bit.le(double(DARK_OCCLUSION_MAX_LUMA_8BIT))
    &&& double(DARK_OCCLUSION_MIN_IMP_RATIO).le(score.imp_block_ratio)
    &&& double(DARK_OCCLUSION_MIN_GLOBAL_IMP_RATIO).le(score.global_imp_block_ratio)
    &&& double(DARK_OCCLUSION_MIN_BAD_BLOCK_RATIO).le(score.static_bad_block_ratio)
    &&& score.static_good_block_ratio.le(double(DARK_OCCLUSION_MAX_GOOD_BLOCK_RATIO))
    &&& (score.transient_similarity_score matches Some(delta) && delta.le(
        double(DARK_OCCLUSION_MAX_TRANSIENT_DELTA_8BIT),
    ))
    &&& some_candidate_within(
        score.forward_similarity_candidates@,
        DARK_OCCLUSION_MAX_FORWARD_DELTA_8BIT,
    )
}

/// The cuts that a dark occlusion explains.
pub open spec fn dark_occlusions(state: Timeline) -> Set<usize> {
    state.cuts.filter(
        |frame: usize|
            frame != 0 && state.scores.contains_key(frame) && is_dark_occlusion(
                state.scores[frame],
            ),
    )
}

/// The timeline without dark occlusions.
pub open spec fn without_dark_occlusions(state: Timeline) -> Timeline {
    state.without_cuts(dark_occlusions(state), ScenecutDecision::SuppressedDarkOcclusion)
}

/// Whether a score is that of a cut inside fast motion.
pub fn weak_fast_motion_split(score: &ScenecutResult) -> (weak: bool)
    ensures
        weak == is_motion_split(*score),
{
    let transient = match score.transient_similarity_score {
        Some(delta) => delta.at_least(double(FAST_MOTION_MIN_TRANSIENT_DELTA_8BIT)),
        None => false,
    };
    transient && score.decision == ScenecutDecision::CutImportance && score.cost_ratio.at_most(
        double(FAST_MOTION_MAX_COST_RATIO),
    ) && score.imp_block_ratio.at_least(double(FAST_MOTION_MIN_IMP_RATIO))
        && score.global_imp_block_ratio.at_least(double(FAST_MOTION_MIN_GLOBAL_IMP_RATIO))
        && score.avg_luma_8bit.at_least(double(FAST_MOTION_MIN_LUMA_8BIT))
}

/// Whether a score is that of the cut that ends fast motion.
pub fn strong_fast_motion_exit(score: &ScenecutResult) -> (strong: bool)
    ensures
        strong == is_motion_exit(*score),
{
    score.decision == ScenecutDecision::Cut && score.cost_ratio.at_least(
        double(FAST_MOTION_EXIT_MIN_COST_RATIO),
    )
}

/// Whether a score is that of something dark that passes before the camera.
pub fn dark_occlusion_cut(score: &ScenecutResult) -> (occlusion: bool)
    ensures
        occlusion == is_dark_occlusion(*score),
{
    let transient = match score.transient_similarity_score {
        Some(delta) => delta.at_most(double(DARK_OCCLUSION_MAX_TRANSIENT_DELTA_8BIT)),
        None => false,
    };
    transient && score.decision == ScenecutDecision::CutImportance && score.cost_ratio.at_most(
        double(DARK_OCCLUSION_MAX_COST_RATIO),
    ) && score.avg_luma_8bit.at_most(double(DARK_OCCLUSION_MAX_LUMA_8BIT))
        && score.imp_block_ratio.at_least(double(DARK_OCCLUSION_MIN_IMP_RATIO))
        && score.global_imp_block_ratio.at_least(double(DARK_OCCLUSION_MIN_GLOBAL_IMP_RATIO))
        && score.static_bad_block_ratio.at_least(double(DARK_OCCLUSION_MIN_BAD_BLOCK_RATIO))
        && score.static_good_block_ratio.at_most(double(DARK_OCCLUSION_MAX_GOOD_BLOCK_RATIO))
        && any_candidate_within(
        &score.forward_similarity_candidates,
        DARK_OCCLUSION_MAX_FORWARD_DELTA_8BIT,
    )
}

/// Whether two of four successive cuts are a split inside fast motion.
fn micro_split(
    scores: &FrameMap<ScenecutResult>,
    previous: usize,
    first: usize,
    second: usize,
    exit: usize,
) -> (split: bool)
    requires
        previous < first < second < exit,
    ensures
        split == is_micro_split(scores@, previous, first, second, exit),
{
    if first - previous < FAST_MOTION_PAIR_MIN_PREVIOUS_GAP || second - first
        > FAST_MOTION_PAIR_MAX_GAP || exit - second > FAST_MOTION_PAIR_MAX_EXIT_GAP {
        return false;
    }
    match (scores.get(first), scores.get(second), scores.get(exit)) {
        (Some(first_score), Some(second_score), Some(exit_score)) => weak_fast_motion_split(
            first_score,
        ) && weak_fast_motion_split(second_score) && strong_fast_motion_exit(exit_score),
        _ => false,
    }
}

/// Takes out pairs of weak cuts that fast motion made inside one scene.
pub fn apply_fast_motion_micro_split_postprocess(
    keyframes: &mut FrameSet,
    scores: &mut FrameMap<ScenecutResult>,
)
    ensures
        timeline(*final(keyframes), *final(scores)) == without_micro_splits(
            timeline(*old(keyframes), *old(scores)),
        ),
{
    let ghost state = timeline(*keyframes, *scores);
    let cuts: Vec<usize> = later_cuts(keyframes);
    if cuts.len() < 4 {
        return;
    }
    for at in 0..cuts.len() - 3
        invariant
            cuts.len() >= 4,
            increasing(cuts@),
            timeline(*keyframes, *scores) == without_early_splits(state, cuts@, at as nat),
    {
        let (first, second) = (cuts[at + 1], cuts[at + 2]);
        if micro_split(scores, cuts[at], first, second, cuts[at + 3]) {
            keyframes.remove(first);
            decide(scores, first, ScenecutDecision::SuppressedFastMotion);
            keyframes.remove(second);
            decide(scores, second, ScenecutDecision::SuppressedFastMotion);
        }
    }
}

/// Takes out cuts that a dark occlusion explains: the scene comes back.
pub fn apply_dark_occlusion_postprocess(
    keyframes: &mut FrameSet,
    scores: &mut FrameMap<ScenecutResult>,
)
    ensures
        timeline(*final(keyframes), *final(scores)) == without_dark_occlusions(
            timeline(*old(keyframes), *old(scores)),
        ),
{
    let ghost state = timeline(*keyframes, *scores);
    let cuts: Vec<usize> = later_cuts(keyframes);
    let mut occluded: Vec<usize> = Vec::new();
    for index in 0..cuts.len()
        invariant
            scores@ == state.scores,
            cuts@.to_set() == state.cuts.remove(0),
            forall|f: usize| #[trigger]
                occluded@.contains(f) ==> dark_occlusions(state).contains(f),
            forall|k: int|
                0 <= k < index && dark_occlusions(state).contains(#[trigger] cuts@[k])
                    ==> occluded@.contains(cuts@[k]),
    {
        let frame: usize = cuts[index];
        assert(cuts@.contains(frame));
        assert(cuts@.to_set().contains(frame));
        let suppress = match scores.get(frame) {
            Some(score) => dark_occlusion_cut(score),
            None => false,
        };
        if suppress {
            let ghost before = occluded@;
            occluded.push(frame);
            proof {
                assert(occluded@[before.len() as int] == frame);
                assert forall|f: usize| before.contains(f) implies occluded@.contains(f) by {
                    assert(occluded@[before.index_of(f)] == f);
                }
                assert forall|f: usize| #[trigger] occluded@.contains(f) implies dark_occlusions(
                    state,
                ).contains(f) by {
                    let i = occluded@.index_of(f);
                    if i < before.len() {
                        assert(before[i] == f);
                        assert(before.contains(f));
                    }
                }
            }
        }
    }
    proof {
        assert forall|f: usize| dark_occlusions(state).contains(f) implies occluded@.contains(
            f,
        ) by {
            assert(cuts@.to_set().contains(f));
            let k = cuts@.index_of(f);
            assert(cuts@[k] == f);
        }
        assert(occluded@.to_set() =~= dark_occlusions(state));
    }
    suppress_frames(keyframes, scores, &occluded, ScenecutDecision::SuppressedDarkOcclusion);
}

} // verus!
