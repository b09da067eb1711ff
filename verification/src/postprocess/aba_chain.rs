//! Scenes that alternate: a chain of cuts back and forth counts as one scene.

use vstd::prelude::*;
use vstd::relations::{sorted_by, total_ordering};
use vstd::seq_lib::{lemma_sorted_unique, to_multiset_build, to_multiset_insert};
use crate::frame_map::FrameMap;
use crate::measure::double;
use crate::options::DetectionOptions;
use crate::postprocess::common::{frame_distance, frame_signature_delta_for_scores};
use crate::postprocess::common::{mean_steps, suppress_frames, timeline, Timeline};
use crate::postprocess::peaks::{edge_at_least, has_edge};
use crate::score::{ScenecutDecision, ScenecutResult, FRAME_LUMA_SIGNATURE_CELLS};
use crate::timeline::{ascending, increasing, FrameSet};

verus! {

/// Fewest scenes of a chain.
pub const ABA_CHAIN_MIN_SEGMENTS: usize = 4;
/// Highest mean signature difference of a scene that returns.
pub const ABA_CHAIN_MAX_SIGNATURE_DELTA_8BIT: u32 = 5;
/// Least mean signature difference between two successive scenes.
pub const ABA_CHAIN_MIN_DIFFERENT_DELTA_8BIT: u32 = 8;
/// Most that is added to the length of a scene of a chain.
pub const ABA_CHAIN_MAX_SEGMENT_EXTRA: usize = 50;
/// 0.25
pub const ABA_CHAIN_MIN_HIDDEN_COST_RATIO: u64 = 0x3FD0_0000_0000_0000;
/// 1.2
pub const ABA_CHAIN_MAX_HIDDEN_COST_RATIO: u64 = 0x3FF3_3333_3333_3333;
/// 2.0
pub const ABA_CHAIN_MIN_HIDDEN_IMP_RATIO: u64 = 0x4000_0000_0000_0000;
/// 3.0
pub const ABA_CHAIN_MIN_HIDDEN_GLOBAL_IMP_RATIO: u64 = 0x4008_0000_0000_0000;
/// 95.0
pub const ABA_CHAIN_MAX_HIDDEN_LUMA_8BIT: u64 = 0x4057_C000_0000_0000;
/// 0.12
pub const ABA_CHAIN_MAX_HIDDEN_GOOD_BLOCK_RATIO: u64 = 0x3FBE_B851_EB85_1EB8;
/// Least mean signature difference at a boundary without a cut.
pub const ABA_CHAIN_MIN_HIDDEN_EDGE_DELTA_8BIT: u32 = 5;

/// Whether a frame without a cut is a boundary all the same.
pub open spec fn is_hidden_boundary(state: Timeline, frame: usize) -> bool {
    let score = state.scores[frame];
    &&& frame != 0
    &&& !state.cuts.contains(frame)
    &&& state.scores.contains_key(frame)
    &&& {
        ||| score.decision == ScenecutDecision::NoCut
        ||| score.decision == ScenecutDecision::SuppressedForwardSimilarity
        ||| score.decision == ScenecutDecision::SuppressedTransientSimilarity
    }
    &&& !score.cost_ratio.lt(double(ABA_CHAIN_MIN_HIDDEN_COST_RATIO))
    &&& !double(ABA_CHAIN_MAX_HIDDEN_COST_RATIO).lt(score.cost_ratio)
    &&& !score.imp_block_ratio.lt(double(ABA_CHAIN_MIN_HIDDEN_IMP_RATIO))
    &&& !score.global_imp_block_ratio.lt(double(ABA_CHAIN_MIN_HIDDEN_GLOBAL_IMP_RATIO))
    &&& !double(ABA_CHAIN_MAX_HIDDEN_LUMA_8BIT).lt(score.avg_luma_8bit)
    &&& !double(ABA_CHAIN_MAX_HIDDEN_GOOD_BLOCK_RATIO).lt(score.static_good_block_ratio)
    &&& has_edge(state.scores, frame, ABA_CHAIN_MIN_HIDDEN_EDGE_DELTA_8BIT)
}

/// The cuts and the boundaries without a cut.
pub open spec fn boundaries_of(state: Timeline) -> Set<usize> {
    state.cuts.remove(0).union(
        state.scores.dom().filter(|frame: usize| is_hidden_boundary(state, frame)),
    )
}

/// Whether the scenes at two frames differ.
pub open spec fn scenes_differ(
    scores: Map<usize, ScenecutResult>,
    left: usize,
    right: usize,
) -> bool {
    frame_distance(scores, left, right) matches Some(distance) && distance >= mean_steps(
        ABA_CHAIN_MIN_DIFFERENT_DELTA_8BIT,
    )
}

/// Whether two frames show the same scene.
pub open spec fn scenes_match(
    scores: Map<usize, ScenecutResult>,
    left: usize,
    right: usize,
) -> bool {
    frame_distance(scores, left, right) matches Some(distance) && distance <= mean_steps(
        ABA_CHAIN_MAX_SIGNATURE_DELTA_8BIT,
    )
}

/// How long the scenes of a chain may be.
#[derive(Clone, Copy, Debug, PartialEq, Eq, Structural)]
pub struct SegmentLimits {
    /// A scene longer than this, other than the first, ends the chain.
    pub break_len: usize,
    /// A scene longer than this belongs to no chain.
    pub max_len: usize,
}

/// Whether a chain can start at a boundary.
pub open spec fn chain_starts(
    scores: Map<usize, ScenecutResult>,
    boundaries: Seq<usize>,
    limits: SegmentLimits,
    start: int,
) -> bool {
    &&& boundaries[start + 1] - boundaries[start] <= limits.max_len
    &&& scenes_differ(scores, boundaries[start], boundaries[start + 1])
}

/// Whether a chain that reaches up to a boundary goes on to it: it shows the scene
/// before the last one again.
pub open spec fn chain_goes_on(
    scores: Map<usize, ScenecutResult>,
    boundaries: Seq<usize>,
    limits: SegmentLimits,
    start: int,
    at: int,
) -> bool {
    &&& at - start >= 3 ==> boundaries[at - 1] - boundaries[at - 2] <= limits.break_len
    &&& boundaries[at] - boundaries[at - 1] <= limits.max_len
    &&& scenes_match(scores, boundaries[at - 2], boundaries[at])
    &&& scenes_differ(scores, boundaries[at - 1], boundaries[at])
}

/// Where a chain ends that reaches up to a boundary.
pub open spec fn chain_end(
    scores: Map<usize, ScenecutResult>,
    boundaries: Seq<usize>,
    limits: SegmentLimits,
    start: int,
    at: int,
) -> int
    decreases boundaries.len() - at,
{
    if at < boundaries.len() && chain_goes_on(scores, boundaries, limits, start, at) {
        chain_end(scores, boundaries, limits, start, at + 1)
    } else {
        at
    }
}

/// A chain: the boundaries from `start` to before `end`.
#[derive(Clone, Copy, Debug, PartialEq, Eq, Structural)]
pub struct AbaChain {
    pub start: usize,
    pub end: usize,
}

/// Whether a boundary inside a chain is a cut that the chain makes redundant.
pub open spec fn is_redundant(state: Timeline, frame: usize) -> bool {
    &&& state.cuts.contains(frame)
    &&& state.scores.contains_key(frame)
    &&& {
        ||| state.scores[frame].decision == ScenecutDecision::Cut
        ||| state.scores[frame].decision == ScenecutDecision::CutImportance
        ||| state.scores[frame].decision == ScenecutDecision::CutAbaReturn
    }
}

/// The cuts that a chain makes redundant: those inside it.
pub open spec fn redundant_cuts(
    state: Timeline,
    boundaries: Seq<usize>,
    chain: AbaChain,
) -> Set<usize> {
    Set::new(
        |frame: usize|
            exists|at: int|
                chain.start < at < chain.end - 1 && #[trigger] boundaries[at] == frame
                    && is_redundant(state, frame),
    )
}

/// The chain that starts at a boundary, if it is long enough and makes some cut
/// redundant.
pub open spec fn chain_at(
    state: Timeline,
    boundaries: Seq<usize>,
    limits: SegmentLimits,
    start: int,
) -> Option<AbaChain> {
    if !chain_starts(state.scores, boundaries, limits, start) {
        None
    } else {
        let end = chain_end(state.scores, boundaries, limits, start, start + 2);
        let chain = AbaChain { start: start as usize, end: end as usize };
        if end - start - 1 < ABA_CHAIN_MIN_SEGMENTS || !(exists|frame: usize| #[trigger]
            redundant_cuts(state, boundaries, chain).contains(frame)) {
            None
        } else {
            Some(chain)
        }
    }
}

/// The chains that start at the first few boundaries.
pub open spec fn chains_of(
    state: Timeline,
    boundaries: Seq<usize>,
    limits: SegmentLimits,
    starts: nat,
) -> Seq<AbaChain>
    decreases starts,
{
    if starts == 0 {
        Seq::empty()
    } else {
        let before = chains_of(state, boundaries, limits, (starts - 1) as nat);
        match chain_at(state, boundaries, limits, starts - 1) {
            Some(chain) => before.push(chain),
            None => before,
        }
    }
}

/// Which of two chains goes first: the longer one, then the earlier one.
pub open spec fn goes_first(left: AbaChain, right: AbaChain) -> bool {
    let left_len = left.end - left.start;
    let right_len = right.end - right.start;
    left_len > right_len || (left_len == right_len && left.start <= right.start)
}

/// The chains with the longest first.
pub open spec fn by_length(chains: Seq<AbaChain>) -> Seq<AbaChain> {
    chains.sort_by(|left: AbaChain, right: AbaChain| goes_first(left, right))
}

/// The cuts that the chains make redundant, taken in turn. A chain with a boundary
/// that an earlier one made redundant is left alone.
pub open spec fn redundant_in_turn(
    state: Timeline,
    boundaries: Seq<usize>,
    chains: Seq<AbaChain>,
) -> Set<usize>
    decreases chains.len(),
{
    if chains.len() == 0 {
        Set::empty()
    } else {
        let before = redundant_in_turn(state, boundaries, chains.drop_last());
        let chain = chains.last();
        if exists|at: int|
            chain.start <= at < chain.end && #[trigger] before.contains(boundaries[at]) {
            before
        } else {
            before.union(redundant_cuts(state, boundaries, chain))
        }
    }
}

/// The scene lengths that the forward-similarity window allows for.
pub open spec fn limits_of(opts: DetectionOptions) -> SegmentLimits {
    let frames = opts.tuning.forward_similarity.frames;
    let break_len = if frames > 1 {
        frames
    } else {
        1
    };
    let extra = if break_len < ABA_CHAIN_MAX_SEGMENT_EXTRA {
        break_len
    } else {
        ABA_CHAIN_MAX_SEGMENT_EXTRA
    };
    let max_len = break_len + break_len / 2 + extra;
    SegmentLimits {
        break_len,
        max_len: if max_len <= usize::MAX {
            max_len as usize
        } else {
            usize::MAX
        },
    }
}

/// The cuts that chains make redundant.
pub open spec fn chained_cuts(opts: DetectionOptions, state: Timeline) -> Set<usize> {
    let boundaries = ascending(boundaries_of(state));
    if boundaries.len() < 3 {
        Set::empty()
    } else {
        redundant_in_turn(
            state,
            boundaries,
            by_length(chains_of(state, boundaries, limits_of(opts), (boundaries.len() - 2) as nat)),
        )
    }
}

/// The timeline without the cuts that chains make redundant.
pub open spec fn without_chains(opts: DetectionOptions, state: Timeline) -> Timeline {
    state.without_cuts(chained_cuts(opts, state), ScenecutDecision::SuppressedAbaChain)
}

/// Whether a frame without a cut is a boundary all the same.
pub fn aba_chain_hidden_boundary(
    frame: usize,
    keyframes: &FrameSet,
    scores: &FrameMap<ScenecutResult>,
) -> (hidden: bool)
    ensures
        hidden == is_hidden_boundary(timeline(*keyframes, *scores), frame),
{
    if frame == 0 || keyframes.contains(frame) {
        return false;
    }
    let fits = match scores.get(frame) {
        Some(score) => (score.decision == ScenecutDecision::NoCut || score.decision
            == ScenecutDecision::SuppressedForwardSimilarity || score.decision
            == ScenecutDecision::SuppressedTransientSimilarity) && !(score.cost_ratio.below(
            double(ABA_CHAIN_MIN_HIDDEN_COST_RATIO),
        ) || score.cost_ratio.above(double(ABA_CHAIN_MAX_HIDDEN_COST_RATIO))
            || score.imp_block_ratio.below(double(ABA_CHAIN_MIN_HIDDEN_IMP_RATIO))
            || score.global_imp_block_ratio.below(double(ABA_CHAIN_MIN_HIDDEN_GLOBAL_IMP_RATIO))
            || score.avg_luma_8bit.above(double(ABA_CHAIN_MAX_HIDDEN_LUMA_8BIT))
            || score.static_good_block_ratio.above(double(ABA_CHAIN_MAX_HIDDEN_GOOD_BLOCK_RATIO))),
        None => false,
    };
    fits && edge_at_least(scores, frame, ABA_CHAIN_MIN_HIDDEN_EDGE_DELTA_8BIT)
}

/// The cuts and the boundaries without a cut, from the first to the last.
pub fn aba_chain_boundaries(
    keyframes: &FrameSet,
    scores: &FrameMap<ScenecutResult>,
) -> (boundaries: Vec<usize>)
    ensures
        boundaries@ == ascending(boundaries_of(timeline(*keyframes, *scores))),
        increasing(boundaries@),
{
    let ghost state = timeline(*keyframes, *scores);
    let mut all = keyframes.clone();
    all.remove(0);
    let frames: Vec<usize> = scores.frames();
    for index in 0..frames.len()
        invariant
            state == timeline(*keyframes, *scores),
            frames@.to_set() == state.scores.dom(),
            forall|f: usize| #[trigger]
                all@.contains(f) ==> boundaries_of(state).contains(f),
            forall|f: usize| #[trigger] state.cuts.remove(0).contains(f) ==> all@.contains(f),
            forall|k: int|
                0 <= k < index && is_hidden_boundary(state, #[trigger] frames@[k]) ==> all@.contains(
                    frames@[k],
                ),
    {
        let frame: usize = frames[index];
        assert(frames@.contains(frame));
        assert(frames@.to_set().contains(frame));
        if aba_chain_hidden_boundary(frame, keyframes, scores) {
            all.insert(frame);
        }
    }
    proof {
        assert forall|f: usize| boundaries_of(state).contains(f) implies all@.contains(f) by {
            if state.cuts.remove(0).contains(f) {
            } else {
                assert(frames@.to_set().contains(f));
                let k = frames@.index_of(f);
                assert(frames@[k] == f);
            }
        }
        assert(all@ =~= boundaries_of(state));
    }
    all.to_vec()
}

/// The signature difference of two frames, where both have a signature.
pub fn aba_chain_signature_delta(
    left: usize,
    right: usize,
    scores: &FrameMap<ScenecutResult>,
) -> (sum: Option<u32>)
    ensures
        match sum {
            Some(s) => frame_distance(scores@, left, right) == Some(s as int),
            None => frame_distance(scores@, left, right) is None,
        },
{
    frame_signature_delta_for_scores(left, right, scores)
}

/// Whether the scenes at two frames differ.
fn are_different(scores: &FrameMap<ScenecutResult>, left: usize, right: usize) -> (differ: bool)
    ensures
        differ == scenes_differ(scores@, left, right),
{
    match aba_chain_signature_delta(left, right, scores) {
        Some(sum) => sum >= ABA_CHAIN_MIN_DIFFERENT_DELTA_8BIT * FRAME_LUMA_SIGNATURE_CELLS as u32,
        None => false,
    }
}

/// Whether two frames show the same scene.
fn are_alike(scores: &FrameMap<ScenecutResult>, left: usize, right: usize) -> (alike: bool)
    ensures
        alike == scenes_match(scores@, left, right),
{
    match aba_chain_signature_delta(left, right, scores) {
        Some(sum) => sum <= ABA_CHAIN_MAX_SIGNATURE_DELTA_8BIT * FRAME_LUMA_SIGNATURE_CELLS as u32,
        None => false,
    }
}

/// Whether a boundary is a cut that a chain around it makes redundant.
pub fn aba_chain_suppressible_cut(
    frame: usize,
    keyframes: &FrameSet,
    scores: &FrameMap<ScenecutResult>,
) -> (redundant: bool)
    ensures
        redundant == is_redundant(timeline(*keyframes, *scores), frame),
{
    match scores.get(frame) {
        Some(score) => keyframes.contains(frame) && (score.decision == ScenecutDecision::Cut
            || score.decision == ScenecutDecision::CutImportance || score.decision
            == ScenecutDecision::CutAbaReturn),
        None => false,
    }
}

/// The chain that starts at a boundary, if it is long enough and makes some cut
/// redundant.
pub fn aba_chain_from_boundary(
    start: usize,
    boundaries: &Vec<usize>,
    keyframes: &FrameSet,
    scores: &FrameMap<ScenecutResult>,
    limits: SegmentLimits,
) -> (chain: Option<AbaChain>)
    requires
        increasing(boundaries@),
        start + 2 <= boundaries.len(),
    ensures
        chain == chain_at(
            timeline(*keyframes, *scores),
            boundaries@,
            limits,
            start as int,
        ),
        chain matches Some(c) ==> c.start == start && start + 2 <= c.end <= boundaries.len(),
{
    let ghost state = timeline(*keyframes, *scores);
    if boundaries[start + 1] - boundaries[start] > limits.max_len || !are_different(
        scores,
        boundaries[start],
        boundaries[start + 1],
    ) {
        return None;
    }
    let mut end: usize = start + 2;
    while end < boundaries.len() && !(end - start >= 3 && boundaries[end - 1] - boundaries[end - 2]
        > limits.break_len) && boundaries[end] - boundaries[end - 1] <= limits.max_len && are_alike(
        scores,
        boundaries[end - 2],
        boundaries[end],
    ) && are_different(scores, boundaries[end - 1], boundaries[end])
        invariant
            increasing(boundaries@),
            start + 2 <= end <= boundaries.len(),
            chain_end(scores@, boundaries@, limits, start as int, start + 2) == chain_end(
                scores@,
                boundaries@,
                limits,
                start as int,
                end as int,
            ),
        ensures
            chain_end(scores@, boundaries@, limits, start as int, end as int) == end,
        decreases boundaries.len() - end,
    {
        end = end + 1;
    }
    if end - start - 1 < ABA_CHAIN_MIN_SEGMENTS {
        return None;
    }
    let chain = AbaChain { start, end };
    proof {
        assert(chain_starts(state.scores, boundaries@, limits, start as int));
        let reached = chain_end(state.scores, boundaries@, limits, start as int, start + 2);
        assert(reached == end);
        assert((AbaChain { start: (start as int) as usize, end: reached as usize }) == chain);
    }
    let mut at: usize = start + 1;
    while at < end - 1
        invariant
            start < at <= end - 1,
            start + 2 <= end <= boundaries.len(),
            chain == (AbaChain { start, end }),
            state == timeline(*keyframes, *scores),
            chain_at(state, boundaries@, limits, start as int) == if exists|frame: usize| #[trigger]
                redundant_cuts(state, boundaries@, chain).contains(frame) {
                Some(chain)
            } else {
                None
            },
            forall|k: int|
                start < k < at ==> !is_redundant(state, #[trigger] boundaries@[k]),
        decreases end - at,
    {
        if aba_chain_suppressible_cut(boundaries[at], keyframes, scores) {
            assert(boundaries@[at as int] == boundaries[at as int]);
            assert(redundant_cuts(state, boundaries@, chain).contains(boundaries@[at as int]));
            return Some(chain);
        }
        at = at + 1;
    }
    None
}

/// The order of chains is total.
pub(crate) proof fn length_order_is_total()
    ensures
        total_ordering(|left: AbaChain, right: AbaChain| goes_first(left, right)),
{
}

/// All chains, the longest first.
fn chains_by_length(
    boundaries: &Vec<usize>,
    keyframes: &FrameSet,
    scores: &FrameMap<ScenecutResult>,
    limits: SegmentLimits,
) -> (chains: Vec<AbaChain>)
    requires
        increasing(boundaries@),
        boundaries.len() >= 3,
    ensures
        chains@ == by_length(
            chains_of(
                timeline(*keyframes, *scores),
                boundaries@,
                limits,
                (boundaries.len() - 2) as nat,
            ),
        ),
        forall|k: int|
            0 <= k < chains.len() ==> (#[trigger] chains@[k]).start < chains@[k].end
                <= boundaries.len(),
{
    let ghost state = timeline(*keyframes, *scores);
    let ghost order = |left: AbaChain, right: AbaChain| goes_first(left, right);
    let mut chains: Vec<AbaChain> = Vec::new();
    for start in 0..boundaries.len() - 2
        invariant
            increasing(boundaries@),
            boundaries.len() >= 3,
            state == timeline(*keyframes, *scores),
            order == |left: AbaChain, right: AbaChain| goes_first(left, right),
            sorted_by(chains@, order),
            chains@.to_multiset() == chains_of(
                state,
                boundaries@,
                limits,
                start as nat,
            ).to_multiset(),
            forall|k: int|
                0 <= k < chains.len() ==> (#[trigger] chains@[k]).start < chains@[k].end
                    <= boundaries.len() && chains@[k].start < start,
    {
        if let Some(chain) = aba_chain_from_boundary(start, boundaries, keyframes, scores, limits) {
            let ghost before = chains@;
            let mut place: usize = chains.len();
            while place > 0 && chains[place - 1].end - chains[place - 1].start < chain.end
                - chain.start
                invariant
                    place <= chains.len(),
                    chains@ == before,
                    chain.start < chain.end,
                    forall|k: int|
                        0 <= k < chains.len() ==> (#[trigger] chains@[k]).start < chains@[k].end,
                    forall|k: int|
                        place <= k < chains.len() ==> (#[trigger] chains@[k]).end
                            - chains@[k].start < chain.end - chain.start,
                decreases place,
            {
                place = place - 1;
            }
            chains.insert(place, chain);
            proof {
                to_multiset_insert(before, place as int, chain);
                to_multiset_build(chains_of(state, boundaries@, limits, start as nat), chain);
                assert forall|i: int, j: int| 0 <= i < j < chains.len() implies #[trigger] order(
                    chains@[i],
                    chains@[j],
                ) by {
                    let old_i = if i < place {
                        i
                    } else {
                        i - 1
                    };
                    let old_j = if j < place {
                        j
                    } else {
                        j - 1
                    };
                    if i == place {
                        assert(chains@[j] == before[old_j]);
                    } else if j == place {
                        assert(chains@[i] == before[i]);
                        assert(order(before[i], before[place - 1]));
                    } else {
                        assert(chains@[i] == before[old_i]);
                        assert(chains@[j] == before[old_j]);
                        assert(order(before[old_i], before[old_j]));
                    }
                }
            }
        }
    }
    proof {
        let all = chains_of(state, boundaries@, limits, (boundaries.len() - 2) as nat);
        length_order_is_total();
        all.lemma_sort_by_ensures(order);
        lemma_sorted_unique(chains@, by_length(all), order);
    }
    chains
}

/// Whether some boundary of a chain is in the set.
fn touches(boundaries: &Vec<usize>, chain: &AbaChain, set: &FrameSet) -> (found: bool)
    requires
        chain.start < chain.end <= boundaries.len(),
    ensures
        found == exists|at: int|
            chain.start <= at < chain.end && #[trigger] set@.contains(boundaries@[at]),
{
    let mut at: usize = chain.start;
    while at < chain.end
        invariant
            chain.start <= at <= chain.end <= boundaries.len(),
            forall|k: int| chain.start <= k < at ==> !#[trigger] set@.contains(boundaries@[k]),
        decreases chain.end - at,
    {
        if set.contains(boundaries[at]) {
            return true;
        }
        at = at + 1;
    }
    false
}

/// Takes out the cuts inside chains of alternating scenes, the longest chain first.
pub fn apply_aba_chain_compaction_postprocess(
    opts: &DetectionOptions,
    keyframes: &mut FrameSet,
    scores: &mut FrameMap<ScenecutResult>,
)
    ensures
        timeline(*final(keyframes), *final(scores)) == without_chains(
            *opts,
            timeline(*old(keyframes), *old(scores)),
        ),
{
    let ghost state = timeline(*keyframes, *scores);
    let frames: usize = opts.tuning.forward_similarity.frames;
    let break_len: usize = if frames > 1 {
        frames
    } else {
        1
    };
    let extra: usize = if break_len < ABA_CHAIN_MAX_SEGMENT_EXTRA {
        break_len
    } else {
        ABA_CHAIN_MAX_SEGMENT_EXTRA
    };
    let max_len: usize = break_len.saturating_add(break_len / 2).saturating_add(extra);
    let limits = SegmentLimits { break_len, max_len };
    assert(limits == limits_of(*opts));
    let boundaries: Vec<usize> = aba_chain_boundaries(keyframes, scores);
    let mut redundant = FrameSet::new();
    if boundaries.len() >= 3 {
        let chains: Vec<AbaChain> = chains_by_length(&boundaries, keyframes, scores, limits);
        for index in 0..chains.len()
            invariant
                state == timeline(*keyframes, *scores),
                increasing(boundaries@),
                forall|k: int|
                    0 <= k < chains.len() ==> (#[trigger] chains@[k]).start < chains@[k].end
                        <= boundaries.len(),
                redundant@ == redundant_in_turn(
                    state,
                    boundaries@,
                    chains@.take(index as int),
                ),
        {
            let chain = chains[index];
            let ghost before = redundant@;
            assert(chains@.take(index + 1).drop_last() =~= chains@.take(index as int));
            if !touches(&boundaries, &chain, &redundant) {
                let mut at: usize = chain.start + 1;
                while at < chain.end - 1
                    invariant
                        chain.start < chain.end <= boundaries.len(),
                        chain.start < at,
                        at <= chain.end,
                        state == timeline(*keyframes, *scores),
                        forall|f: usize| #[trigger]
                            redundant@.contains(f) ==> before.contains(f) || redundant_cuts(
                                state,
                                boundaries@,
                                chain,
                            ).contains(f),
                        forall|f: usize| #[trigger] before.contains(f) ==> redundant@.contains(f),
                        forall|k: int|
                            chain.start < k < at && is_redundant(state, #[trigger] boundaries@[k])
                                ==> redundant@.contains(boundaries@[k]),
                    decreases chain.end - at,
                {
                    if aba_chain_suppressible_cut(boundaries[at], keyframes, scores) {
                        assert(redundant_cuts(state, boundaries@, chain).contains(
                            boundaries@[at as int],
                        ));
                        redundant.insert(boundaries[at]);
                    }
                    at = at + 1;
                }
                assert(redundant@ =~= before.union(redundant_cuts(state, boundaries@, chain)));
            }
        }
        assert(chains@.take(chains.len() as int) =~= chains@);
    }
    let suppress: Vec<usize> = redundant.to_vec();
    suppress_frames(keyframes, scores, &suppress, ScenecutDecision::SuppressedAbaChain);
}

} // verus!
