//! Strong cuts that a loose return had suppressed.

use vstd::prelude::*;
use crate::frame_map::FrameMap;
use crate::measure::double;
use crate::options::{larger, DetectionOptions};
use crate::postprocess::common::{decide, prefix_gains_one, push_gains_one, scene_distance_ok};
use crate::postprocess::common::{timeline, well_spaced, Timeline};
use crate::postprocess::peaks::{edge_at_least, has_edge, min_distance, min_distance_of};
use crate::score::{ScenecutDecision, ScenecutResult};
use crate::timeline::{ascending, ascending_form_is_unique, increasing, FrameSet};

verus! {

/// 8.0
pub const FORWARD_SIMILARITY_RECOVERY_MIN_MATCH_DELTA_8BIT: u64 = 0x4020_0000_0000_0000;
/// 1.2
pub const FORWARD_SIMILARITY_RECOVERY_MIN_COST_RATIO: u64 = 0x3FF3_3333_3333_3333;
/// 5.0
pub const FORWARD_SIMILARITY_RECOVERY_MIN_IMP_RATIO: u64 = 0x4014_0000_0000_0000;
/// 6.0
pub const FORWARD_SIMILARITY_RECOVERY_MIN_GLOBAL_IMP_RATIO: u64 = 0x4018_0000_0000_0000;
/// Least mean signature difference at a cut that is recovered.
pub const FORWARD_SIMILARITY_RECOVERY_MIN_EDGE_DELTA_8BIT: u32 = 20;
/// Most cuts that are recovered together.
pub const FORWARD_SIMILARITY_RECOVERY_MAX_FRAMES: usize = 3;

/// Whether a suppressed frame is a strong cut by itself.
pub open spec fn is_recoverable(scores: Map<usize, ScenecutResult>, frame: usize) -> bool {
    &&& scores.contains_key(frame)
    &&& scores[frame].decision == ScenecutDecision::SuppressedForwardSimilarity
    &&& double(FORWARD_SIMILARITY_RECOVERY_MIN_COST_RATIO).le(scores[frame].cost_ratio)
    &&& double(FORWARD_SIMILARITY_RECOVERY_MIN_IMP_RATIO).le(scores[frame].imp_block_ratio)
    &&& double(FORWARD_SIMILARITY_RECOVERY_MIN_GLOBAL_IMP_RATIO).le(
        scores[frame].global_imp_block_ratio,
    )
    &&& has_edge(scores, frame, FORWARD_SIMILARITY_RECOVERY_MIN_EDGE_DELTA_8BIT)
}

/// The strong cuts inside a scene that was suppressed, apart from both its ends.
pub open spec fn recoverable_inside(
    scores: Map<usize, ScenecutResult>,
    frame: usize,
    return_frame: usize,
    min_distance: int,
) -> Set<usize> {
    let distance = larger(min_distance, 1);
    scores.dom().filter(
        |inside: usize|
            frame + distance <= inside <= return_frame - distance && is_recoverable(scores, inside),
    )
}

/// Whether a suppressed cut is recovered together with cuts inside its scene: the
/// return was loose, the cut is strong, and so is some cut inside.
pub open spec fn heads_recovery(
    scores: Map<usize, ScenecutResult>,
    frame: usize,
    min_distance: int,
) -> bool {
    &&& is_recoverable(scores, frame)
    &&& (scores[frame].forward_similarity_score matches Some(delta) && !delta.lt(
        double(FORWARD_SIMILARITY_RECOVERY_MIN_MATCH_DELTA_8BIT),
    ))
    &&& (scores[frame].forward_return_frame matches Some(return_frame) && exists|inside: usize|
     #[trigger]
        recoverable_inside(scores, frame, return_frame, min_distance).contains(inside))
}

/// The cuts that are recovered together with a frame, from the first to the last.
pub open spec fn recovery_group(
    scores: Map<usize, ScenecutResult>,
    frame: usize,
    min_distance: int,
) -> Seq<usize> {
    ascending(
        recoverable_inside(
            scores,
            frame,
            scores[frame].forward_return_frame.unwrap(),
            min_distance,
        ).insert(frame),
    )
}

/// The groups that the given frames head, in order.
pub open spec fn recovery_groups(
    scores: Map<usize, ScenecutResult>,
    frames: Seq<usize>,
    min_distance: int,
) -> Seq<Seq<usize>>
    decreases frames.len(),
{
    if frames.len() == 0 {
        Seq::empty()
    } else {
        let before = recovery_groups(scores, frames.drop_last(), min_distance);
        if heads_recovery(scores, frames.last(), min_distance) {
            before.push(recovery_group(scores, frames.last(), min_distance))
        } else {
            before
        }
    }
}

/// Whether a group fits among the cuts: each frame keeps its distance from the
/// cuts and from the frames of the group before it.
pub open spec fn group_fits(cuts: Set<usize>, group: Seq<usize>, min_distance: int) -> bool {
    forall|index: int|
        0 <= index < group.len() ==> #[trigger] well_spaced(
            cuts.union(group.take(index).to_set()),
            group[index],
            min_distance,
        )
}

/// The timeline with a cut at each frame of a group.
pub open spec fn with_group(state: Timeline, group: Seq<usize>) -> Timeline
    decreases group.len(),
{
    if group.len() == 0 {
        state
    } else {
        with_group(state, group.drop_last()).with_cut(
            group.last(),
            ScenecutDecision::CutForwardSimilarityRecovery,
        )
    }
}

/// The timeline with those groups recovered, in turn, that are small and fit.
pub open spec fn with_groups(
    state: Timeline,
    groups: Seq<Seq<usize>>,
    min_distance: int,
) -> Timeline
    decreases groups.len(),
{
    if groups.len() == 0 {
        state
    } else {
        let before = with_groups(state, groups.drop_last(), min_distance);
        let group = groups.last();
        if group.len() <= FORWARD_SIMILARITY_RECOVERY_MAX_FRAMES && group_fits(
            before.cuts,
            group,
            min_distance,
        ) {
            with_group(before, group)
        } else {
            before
        }
    }
}

/// The timeline with strong cuts recovered that a loose return had suppressed.
pub open spec fn with_recovered_cuts(opts: DetectionOptions, state: Timeline) -> Timeline {
    let distance = min_distance_of(opts);
    with_groups(
        state,
        recovery_groups(state.scores, ascending(state.scores.dom()), distance),
        distance,
    )
}

/// Whether a suppressed frame is a strong cut by itself.
pub fn forward_similarity_recovery_score(
    frame: usize,
    scores: &FrameMap<ScenecutResult>,
) -> (strong: bool)
    ensures
        strong == is_recoverable(scores@, frame),
{
    let fits = match scores.get(frame) {
        Some(score) => score.decision == ScenecutDecision::SuppressedForwardSimilarity
            && score.cost_ratio.at_least(double(FORWARD_SIMILARITY_RECOVERY_MIN_COST_RATIO))
            && score.imp_block_ratio.at_least(double(FORWARD_SIMILARITY_RECOVERY_MIN_IMP_RATIO))
            && score.global_imp_block_ratio.at_least(
            double(FORWARD_SIMILARITY_RECOVERY_MIN_GLOBAL_IMP_RATIO),
        ),
        None => false,
    };
    fits && edge_at_least(scores, frame, FORWARD_SIMILARITY_RECOVERY_MIN_EDGE_DELTA_8BIT)
}

/// The cuts that are recovered together with a frame, if it heads a group.
pub fn forward_similarity_recovery_candidate(
    frame: usize,
    scores: &FrameMap<ScenecutResult>,
    min_distance: usize,
) -> (group: Option<Vec<usize>>)
    ensures
        match group {
            Some(frames) => heads_recovery(scores@, frame, min_distance as int) && frames@
                == recovery_group(scores@, frame, min_distance as int),
            None => !heads_recovery(scores@, frame, min_distance as int),
        },
{
    if !forward_similarity_recovery_score(frame, scores) {
        return None;
    }
    let score: &ScenecutResult = match scores.get(frame) {
        Some(score) => score,
        None => {
            return None;
        },
    };
    let loose = match score.forward_similarity_score {
        Some(delta) => !delta.below(double(FORWARD_SIMILARITY_RECOVERY_MIN_MATCH_DELTA_8BIT)),
        None => false,
    };
    if !loose {
        return None;
    }
    let return_frame: usize = match score.forward_return_frame {
        Some(return_frame) => return_frame,
        None => {
            return None;
        },
    };
    let distance: usize = if min_distance > 1 {
        min_distance
    } else {
        1
    };
    let ghost target = recoverable_inside(scores@, frame, return_frame, min_distance as int);
    if return_frame < distance || usize::MAX - frame < distance || frame + distance > return_frame
        - distance {
        assert forall|inside: usize| !#[trigger] target.contains(inside) by {}
        return None;
    }
    let last: usize = return_frame - distance;
    let mut inside: usize = frame + distance;
    let mut group: Vec<usize> = Vec::new();
    group.push(frame);
    proof {
        push_gains_one(Seq::empty(), frame);
    }
    while inside <= last
        invariant
            distance == larger(min_distance as int, 1),
            frame + distance <= inside <= last + 1,
            last == return_frame - distance,
            target == recoverable_inside(scores@, frame, return_frame, min_distance as int),
            group.len() >= 1,
            group@[0] == frame,
            increasing(group@),
            forall|k: int| 0 <= k < group.len() ==> group@[k] < inside,
            forall|f: usize| #[trigger]
                group@.contains(f) ==> f == frame || target.contains(f),
            group@.contains(frame),
            forall|f: usize| #[trigger]
                target.contains(f) && f < inside ==> group@.contains(f),
            group.len() > 1 ==> target.contains(group@[1]),
        decreases last + 1 - inside,
    {
        if forward_similarity_recovery_score(inside, scores) {
            proof {
                push_gains_one(group@, inside);
            }
            group.push(inside);
        }
        inside = inside + 1;
    }
    if group.len() == 1 {
        assert forall|f: usize| !#[trigger] target.contains(f) by {
            if target.contains(f) {
                assert(group@.contains(f));
                let k = group@.index_of(f);
                assert(group@[k] == f);
            }
        }
        return None;
    }
    proof {
        assert(target.contains(group@[1]));
        assert(group@.to_set() =~= target.insert(frame));
        ascending_form_is_unique(group@);
    }
    Some(group)
}

/// Whether a group fits among the cuts.
pub fn forward_similarity_recovery_distance_ok(
    frames: &Vec<usize>,
    keyframes: &FrameSet,
    min_distance: usize,
) -> (fits: bool)
    ensures
        fits == group_fits(keyframes@, frames@, min_distance as int),
{
    let mut trial = keyframes.clone();
    assert(trial@ =~= keyframes@.union(frames@.take(0).to_set()));
    for index in 0..frames.len()
        invariant
            trial@ == keyframes@.union(frames@.take(index as int).to_set()),
            forall|k: int|
                0 <= k < index ==> #[trigger] well_spaced(
                    keyframes@.union(frames@.take(k).to_set()),
                    frames@[k],
                    min_distance as int,
                ),
    {
        if !scene_distance_ok(frames[index], &trial, min_distance) {
            return false;
        }
        trial.insert(frames[index]);
        proof {
            prefix_gains_one(frames@, index as int);
            assert(trial@ =~= keyframes@.union(frames@.take(index + 1).to_set()));
        }
    }
    true
}

/// Adds a cut at each frame of a group.
fn recover_group(
    keyframes: &mut FrameSet,
    scores: &mut FrameMap<ScenecutResult>,
    group: &Vec<usize>,
)
    ensures
        timeline(*final(keyframes), *final(scores)) == with_group(
            timeline(*old(keyframes), *old(scores)),
            group@,
        ),
{
    let ghost start = timeline(*keyframes, *scores);
    for index in 0..group.len()
        invariant
            timeline(*keyframes, *scores) == with_group(start, group@.take(index as int)),
    {
        assert(group@.take(index + 1).drop_last() =~= group@.take(index as int));
        keyframes.insert(group[index]);
        decide(scores, group[index], ScenecutDecision::CutForwardSimilarityRecovery);
    }
    assert(group@.take(group.len() as int) =~= group@);
}

/// Recovers strong cuts that a loose return had suppressed, together with those
/// inside the scene, where they are few and keep their distance.
pub fn apply_forward_similarity_recovery_postprocess(
    opts: &DetectionOptions,
    keyframes: &mut FrameSet,
    scores: &mut FrameMap<ScenecutResult>,
)
    ensures
        timeline(*final(keyframes), *final(scores)) == with_recovered_cuts(
            *opts,
            timeline(*old(keyframes), *old(scores)),
        ),
{
    let ghost state = timeline(*keyframes, *scores);
    let distance: usize = min_distance(opts);
    let frames: Vec<usize> = scores.frames();
    let mut groups: Vec<Vec<usize>> = Vec::new();
    let ghost mut model: Seq<Seq<usize>> = Seq::empty();
    for index in 0..frames.len()
        invariant
            scores@ == state.scores,
            model == recovery_groups(state.scores, frames@.take(index as int), distance as int),
            model.len() == groups.len(),
            forall|k: int| 0 <= k < groups.len() ==> (#[trigger] groups@[k])@ == model[k],
    {
        assert(frames@.take(index + 1).drop_last() =~= frames@.take(index as int));
        if let Some(group) = forward_similarity_recovery_candidate(
            frames[index],
            scores,
            distance,
        ) {
            proof {
                model = model.push(group@);
            }
            groups.push(group);
        }
    }
    assert(frames@.take(frames.len() as int) =~= frames@);
    for index in 0..groups.len()
        invariant
            model.len() == groups.len(),
            forall|k: int| 0 <= k < groups.len() ==> (#[trigger] groups@[k])@ == model[k],
            timeline(*keyframes, *scores) == with_groups(
                state,
                model.take(index as int),
                distance as int,
            ),
    {
        assert(model.take(index + 1).drop_last() =~= model.take(index as int));
        let group: &Vec<usize> = &groups[index];
        assert(groups@[index as int]@ == model[index as int]);
        if group.len() <= FORWARD_SIMILARITY_RECOVERY_MAX_FRAMES
            && forward_similarity_recovery_distance_ok(group, keyframes, distance) {
            recover_group(keyframes, scores, group);
        }
    }
    assert(model.take(groups.len() as int) =~= model);
}

} // verus!
