//! Runs of weak cuts: title cards that follow one another, and rolling credits.

use vstd::prelude::*;
use crate::frame_map::FrameMap;
use crate::measure::double;
use crate::postprocess::common::{suppress_frames, timeline, Timeline};
use crate::score::{ForwardSimilarityCandidate, ScenecutDecision, ScenecutResult};
use crate::score::FORWARD_SIMILARITY_DIAGNOSTIC_SLOTS;
use crate::timeline::{ascending, increasing, FrameSet};

verus! {

/// Fewest weak cuts in a row that are taken for title cards.
pub const TEXT_CARD_CLUSTER_MIN_CUTS: usize = 3;
/// Longest distance between two title cards.
pub const TEXT_CARD_CLUSTER_MAX_GAP: usize = 130;
/// 0.40
pub const TEXT_CARD_MAX_COST_RATIO: u64 = 0x3FD9_9999_9999_999A;
/// 35.0
pub const TEXT_CARD_MAX_LUMA_8BIT: u64 = 0x4041_8000_0000_0000;
/// 4.0
pub const TEXT_CARD_MAX_IMP_RATIO: u64 = 0x4010_0000_0000_0000;
/// 3.8
pub const TEXT_CARD_MIN_GLOBAL_IMP_RATIO: u64 = 0x400E_6666_6666_6666;
/// 6.0
pub const TEXT_CARD_MAX_SIMILARITY_DELTA_8BIT: u64 = 0x4018_0000_0000_0000;
/// 3.0
pub const TEXT_CARD_MAX_TRANSIENT_DELTA_8BIT: u64 = 0x4008_0000_0000_0000;

/// Fewest static cuts in a row that are taken for credits.
pub const STATIC_CREDITS_MIN_RUN_CUTS: usize = 5;
/// Longest distance between two cuts of the credits.
pub const STATIC_CREDITS_MAX_GAP: usize = 210;
/// 45.0
pub const STATIC_CREDITS_MAX_LUMA_8BIT: u64 = 0x4046_8000_0000_0000;
/// 6.0
pub const STATIC_CREDITS_MIN_IMP_RATIO: u64 = 0x4018_0000_0000_0000;
/// 8.0
pub const STATIC_CREDITS_MIN_GLOBAL_IMP_RATIO: u64 = 0x4020_0000_0000_0000;
/// 0.35
pub const STATIC_CREDITS_MIN_GOOD_BLOCK_RATIO: u64 = 0x3FD6_6666_6666_6666;
/// 0.65
pub const STATIC_CREDITS_MAX_BAD_BLOCK_RATIO: u64 = 0x3FE4_CCCC_CCCC_CCCD;

/// Whether the cuts from `first` to `last` all belong, none far from the next.
pub open spec fn is_run(
    cuts: Seq<usize>,
    belongs: spec_fn(usize) -> bool,
    max_gap: int,
    first: int,
    last: int,
) -> bool {
    &&& 0 <= first <= last < cuts.len()
    &&& forall|k: int| first <= k <= last ==> belongs(#[trigger] cuts[k])
    &&& forall|k: int| first < k <= last ==> #[trigger] cuts[k] - cuts[k - 1] <= max_gap
}

/// Whether a cut stands in a run of the given length.
pub open spec fn in_run(
    cuts: Seq<usize>,
    belongs: spec_fn(usize) -> bool,
    max_gap: int,
    min_cuts: int,
    index: int,
) -> bool {
    exists|first: int, last: int| #[trigger]
        is_run(cuts, belongs, max_gap, first, last) && first <= index <= last && last - first + 1
            >= min_cuts
}

/// The cuts in runs of the given length.
pub open spec fn run_cuts(
    cuts: Seq<usize>,
    belongs: spec_fn(usize) -> bool,
    max_gap: int,
    min_cuts: int,
) -> Set<usize> {
    Set::new(
        |frame: usize|
            exists|index: int|
                0 <= index < cuts.len() && #[trigger] cuts[index] == frame && in_run(
                    cuts,
                    belongs,
                    max_gap,
                    min_cuts,
                    index,
                ),
    )
}

/// The cuts in runs of the given length, but for the first of each run.
pub open spec fn later_run_cuts(
    cuts: Seq<usize>,
    belongs: spec_fn(usize) -> bool,
    max_gap: int,
    min_cuts: int,
) -> Set<usize> {
    Set::new(
        |frame: usize|
            exists|index: int|
                0 <= index < cuts.len() && #[trigger] cuts[index] == frame && in_run(
                    cuts,
                    belongs,
                    max_gap,
                    min_cuts,
                    index,
                ) && is_run(cuts, belongs, max_gap, index - 1, index),
    )
}

/// Whether some candidate stays within the difference.
pub open spec fn some_candidate_within(
    candidates: Seq<Option<ForwardSimilarityCandidate>>,
    limit: u64,
) -> bool {
    exists|slot: int|
        0 <= slot < candidates.len() && (#[trigger] candidates[slot] matches Some(candidate)
            && candidate.delta.le(double(limit)))
}

/// Whether a score is that of a title card.
pub open spec fn is_text_card(score: ScenecutResult) -> bool {
    &&& score.decision == ScenecutDecision::CutImportance
    &&& !double(TEXT_CARD_MAX_COST_RATIO).lt(score.cost_ratio)
    &&& !double(TEXT_CARD_MAX_LUMA_8BIT).lt(score.avg_luma_8bit)
    &&& !double(TEXT_CARD_MAX_IMP_RATIO).lt(score.imp_block_ratio)
    &&& !score.global_imp_block_ratio.lt(double(TEXT_CARD_MIN_GLOBAL_IMP_RATIO))
    &&& {
        ||| score.transient_similarity_score matches Some(delta) && delta.le(
            double(TEXT_CARD_MAX_TRANSIENT_DELTA_8BIT),
        )
        ||| some_candidate_within(
            score.forward_similarity_candidates@,
            TEXT_CARD_MAX_SIMILARITY_DELTA_8BIT,
        )
    }
}

/// Whether a score is that of a cut inside credits.
pub open spec fn is_static_credits(score: ScenecutResult) -> bool {
    &&& score.decision == ScenecutDecision::Cut
    &&& score.avg_luma_8bit.le(double(STATIC_CREDITS_MAX_LUMA_8BIT))
    &&& double(STATIC_CREDITS_MIN_IMP_RATIO).le(score.imp_block_ratio)
    &&& double(STATIC_CREDITS_MIN_GLOBAL_IMP_RATIO).le(score.global_imp_block_ratio)
    &&& double(STATIC_CREDITS_MIN_GOOD_BLOCK_RATIO).le(score.static_good_block_ratio)
    &&& score.static_bad_block_ratio.le(double(STATIC_CREDITS_MAX_BAD_BLOCK_RATIO))
}

/// The timeline without runs of title cards.
pub open spec fn without_text_cards(state: Timeline) -> Timeline {
    state.without_cuts(
        run_cuts(
            ascending(state.cuts.remove(0)),
            |frame: usize| state.scores.contains_key(frame) && is_text_card(state.scores[frame]),
            TEXT_CARD_CLUSTER_MAX_GAP as int,
            TEXT_CARD_CLUSTER_MIN_CUTS as int,
        ),
        ScenecutDecision::SuppressedTextCardCluster,
    )
}

/// The timeline with the first cut alone of each run of credits.
pub open spec fn without_static_credits(state: Timeline) -> Timeline {
    state.without_cuts(
        later_run_cuts(
            ascending(state.cuts.remove(0)),
            |frame: usize|
                state.scores.contains_key(frame) && is_static_credits(state.scores[frame]),
            STATIC_CREDITS_MAX_GAP as int,
            STATIC_CREDITS_MIN_RUN_CUTS as int,
        ),
        ScenecutDecision::SuppressedStaticCredits,
    )
}

/// Whether some candidate stays within the difference.
pub(crate) fn any_candidate_within(
    candidates: &[Option<ForwardSimilarityCandidate>; FORWARD_SIMILARITY_DIAGNOSTIC_SLOTS],
    limit: u64,
) -> (found: bool)
    ensures
        found == some_candidate_within(candidates@, limit),
{
    for slot in 0..FORWARD_SIMILARITY_DIAGNOSTIC_SLOTS
        invariant
            forall|earlier: int|
                0 <= earlier < slot ==> !(#[trigger] candidates@[earlier] matches Some(candidate)
                    && candidate.delta.le(double(limit))),
    {
        if let Some(candidate) = candidates[slot] {
            if candidate.delta.at_most(double(limit)) {
                assert(candidates@[slot as int] == Some(candidate));
                return true;
            }
        }
    }
    false
}

/// Whether a score is that of a title card.
pub fn weak_text_card_cut(score: &ScenecutResult) -> (weak: bool)
    ensures
        weak == is_text_card(*score),
{
    if score.decision != ScenecutDecision::CutImportance {
        return false;
    }
    if score.cost_ratio.above(double(TEXT_CARD_MAX_COST_RATIO)) || score.avg_luma_8bit.above(
        double(TEXT_CARD_MAX_LUMA_8BIT),
    ) || score.imp_block_ratio.above(double(TEXT_CARD_MAX_IMP_RATIO))
        || score.global_imp_block_ratio.below(double(TEXT_CARD_MIN_GLOBAL_IMP_RATIO)) {
        return false;
    }
    let transient = match score.transient_similarity_score {
        Some(delta) => delta.at_most(double(TEXT_CARD_MAX_TRANSIENT_DELTA_8BIT)),
        None => false,
    };
    transient || any_candidate_within(
        &score.forward_similarity_candidates,
        TEXT_CARD_MAX_SIMILARITY_DELTA_8BIT,
    )
}

/// Whether a score is that of a cut inside credits.
pub fn static_credits_cut(score: &ScenecutResult) -> (credits: bool)
    ensures
        credits == is_static_credits(*score),
{
    score.decision == ScenecutDecision::Cut && score.avg_luma_8bit.at_most(
        double(STATIC_CREDITS_MAX_LUMA_8BIT),
    ) && score.imp_block_ratio.at_least(double(STATIC_CREDITS_MIN_IMP_RATIO))
        && score.global_imp_block_ratio.at_least(double(STATIC_CREDITS_MIN_GLOBAL_IMP_RATIO))
        && score.static_good_block_ratio.at_least(double(STATIC_CREDITS_MIN_GOOD_BLOCK_RATIO))
        && score.static_bad_block_ratio.at_most(double(STATIC_CREDITS_MAX_BAD_BLOCK_RATIO))
}

/// All cuts but the first frame of the video.
pub(crate) fn later_cuts(keyframes: &FrameSet) -> (cuts: Vec<usize>)
    ensures
        cuts@ == ascending(keyframes@.remove(0)),
        cuts@.to_set() == keyframes@.remove(0),
        increasing(cuts@),
{
    let mut later = keyframes.clone();
    later.remove(0);
    later.to_vec()
}

/// Where a cut that belongs does not continue the run before it, no run holds
/// both.
proof fn no_run_crosses(
    cuts: Seq<usize>,
    belongs: spec_fn(usize) -> bool,
    max_gap: int,
    border: int,
    first: int,
    last: int,
)
    requires
        is_run(cuts, belongs, max_gap, first, last),
        0 < border < cuts.len(),
        !is_run(cuts, belongs, max_gap, border - 1, border),
    ensures
        !(first < border <= last),
{
    if first < border <= last {
        assert(belongs(cuts[border]));
        assert(belongs(cuts[border - 1]));
        assert(cuts[border] - cuts[border - 1] <= max_gap);
        assert(is_run(cuts, belongs, max_gap, border - 1, border));
    }
}

/// Whether a cut stands in a run of the given length and is not the first of it
/// where that one is kept.
spec fn chosen(
    cuts: Seq<usize>,
    belongs: spec_fn(usize) -> bool,
    max_gap: int,
    min_cuts: int,
    keep_first: bool,
    index: int,
) -> bool {
    &&& in_run(cuts, belongs, max_gap, min_cuts, index)
    &&& keep_first ==> is_run(cuts, belongs, max_gap, index - 1, index)
}

/// The cuts in runs of the given length, with or without the first of each run.
#[verifier::spinoff_prover]
#[verifier::rlimit(40)]
fn cuts_in_runs(
    cuts: &Vec<usize>,
    belongs: &Vec<bool>,
    Ghost(member): Ghost<spec_fn(usize) -> bool>,
    max_gap: usize,
    min_cuts: usize,
    keep_first: bool,
) -> (found: Vec<usize>)
    requires
        increasing(cuts@),
        belongs.len() == cuts.len(),
        forall|k: int| 0 <= k < cuts.len() ==> belongs@[k] == member(#[trigger] cuts@[k]),
        min_cuts >= 2,
    ensures
        found@.to_set() == if keep_first {
            later_run_cuts(cuts@, member, max_gap as int, min_cuts as int)
        } else {
            run_cuts(cuts@, member, max_gap as int, min_cuts as int)
        },
{
    let mut found: Vec<usize> = Vec::new();
    let mut start: usize = 0;
    while start < cuts.len()
        invariant
            start <= cuts.len(),
            increasing(cuts@),
            belongs.len() == cuts.len(),
            min_cuts >= 2,
            forall|k: int| 0 <= k < cuts.len() ==> belongs@[k] == member(#[trigger] cuts@[k]),
            0 < start < cuts.len() ==> !is_run(
                cuts@,
                member,
                max_gap as int,
                start - 1,
                start as int,
            ),
            forall|k: int| 0 <= k < start && chosen(cuts@, member, max_gap as int, min_cuts as int, keep_first, k) ==> found@.contains(#[trigger] cuts@[k]),
            forall|f: usize| #[trigger]
                found@.contains(f) ==> exists|k: int|
                    0 <= k < start && #[trigger] cuts@[k] == f && chosen(cuts@, member, max_gap as int, min_cuts as int, keep_first, k),
        decreases cuts.len() - start,
    {
        if !belongs[start] {
            proof {
                assert(!in_run(cuts@, member, max_gap as int, min_cuts as int, start as int)) by {
                    if exists|first: int, last: int| #[trigger]
                        is_run(cuts@, member, max_gap as int, first, last) && first <= start
                            <= last {
                        assert(member(cuts@[start as int]));
                    }
                }
                assert(!chosen(cuts@, member, max_gap as int, min_cuts as int, keep_first, start as int));
            }
            start = start + 1;
            assert(start < cuts.len() ==> !is_run(
                cuts@,
                member,
                max_gap as int,
                start - 1,
                start as int,
            )) by {
                assert(!member(cuts@[start - 1]));
            }
            continue;
        }
        let mut end: usize = start + 1;
        while end < cuts.len() && belongs[end] && cuts[end] - cuts[end - 1] <= max_gap
            invariant
                start < end <= cuts.len(),
                increasing(cuts@),
                belongs.len() == cuts.len(),
                forall|k: int| 0 <= k < cuts.len() ==> belongs@[k] == member(#[trigger] cuts@[k]),
                is_run(cuts@, member, max_gap as int, start as int, end - 1),
            decreases cuts.len() - end,
        {
            end = end + 1;
        }
        assert(end < cuts.len() ==> !is_run(cuts@, member, max_gap as int, end - 1, end as int)) by {
            if end < cuts.len() && is_run(cuts@, member, max_gap as int, end - 1, end as int) {
                let at = end as int;
                assert(belongs@[at] == member(cuts@[at]));
                assert(cuts@[at] - cuts@[at - 1] <= max_gap);
            }
        }
        let long = end - start >= min_cuts;
        proof {
            assert forall|k: int| start <= k < end implies #[trigger] chosen(cuts@, member, max_gap as int, min_cuts as int, keep_first, k) == (long && (keep_first ==> k
                > start)) by {
                if in_run(cuts@, member, max_gap as int, min_cuts as int, k) {
                    let (first, last) = choose|first: int, last: int| #[trigger]
                        is_run(cuts@, member, max_gap as int, first, last) && first <= k <= last
                            && last - first + 1 >= min_cuts;
                    if start > 0 {
                        no_run_crosses(cuts@, member, max_gap as int, start as int, first, last);
                    }
                    if end < cuts.len() {
                        no_run_crosses(cuts@, member, max_gap as int, end as int, first, last);
                    }
                    assert(long);
                }
                if long {
                    assert(is_run(cuts@, member, max_gap as int, start as int, end - 1));
                    assert(in_run(cuts@, member, max_gap as int, min_cuts as int, k));
                }
                if k > start {
                    assert(is_run(cuts@, member, max_gap as int, k - 1, k));
                }
            }
        }
        if long {
            let ghost before = found@;
            let from: usize = if keep_first {
                start + 1
            } else {
                start
            };
            for k in from..end
                invariant
                    start <= from <= end <= cuts.len(),
                    forall|f: usize| #[trigger]
                        found@.contains(f) ==> before.contains(f) || exists|j: int|
                            from <= j < k && #[trigger] cuts@[j] == f,
                    forall|f: usize| #[trigger] before.contains(f) ==> found@.contains(f),
                    forall|j: int| from <= j < k ==> found@.contains(#[trigger] cuts@[j]),
            {
                let ghost earlier = found@;
                found.push(cuts[k]);
                proof {
                    assert(found@[earlier.len() as int] == cuts@[k as int]);
                    assert forall|f: usize| earlier.contains(f) implies found@.contains(f) by {
                        assert(found@[earlier.index_of(f)] == f);
                    }
                    assert forall|f: usize| #[trigger] found@.contains(f) implies before.contains(f)
                        || exists|j: int| from <= j < k + 1 && #[trigger] cuts@[j] == f by {
                        let i = found@.index_of(f);
                        if i < earlier.len() {
                            assert(earlier[i] == f);
                            assert(earlier.contains(f));
                        } else {
                            assert(cuts@[k as int] == f);
                        }
                    }
                }
            }
            proof {
                assert forall|f: usize| #[trigger] found@.contains(f) implies exists|k: int|
                    0 <= k < end && #[trigger] cuts@[k] == f && chosen(cuts@, member, max_gap as int, min_cuts as int, keep_first, k) by {
                    if before.contains(f) {
                        let k = choose|k: int| 0 <= k < start && #[trigger] cuts@[k] == f && chosen(cuts@, member, max_gap as int, min_cuts as int, keep_first, k);
                        assert(cuts@[k] == f && chosen(cuts@, member, max_gap as int, min_cuts as int, keep_first, k));
                    } else {
                        let k = choose|k: int| from <= k < end && #[trigger] cuts@[k] == f;
                        assert(chosen(cuts@, member, max_gap as int, min_cuts as int, keep_first, k));
                    }
                }
            }
        }
        start = end;
    }
    proof {
        let target = if keep_first {
            later_run_cuts(cuts@, member, max_gap as int, min_cuts as int)
        } else {
            run_cuts(cuts@, member, max_gap as int, min_cuts as int)
        };
        assert forall|f: usize| found@.to_set().contains(f) == target.contains(f) by {
            if target.contains(f) {
                let k = choose|k: int|
                    0 <= k < cuts@.len() && #[trigger] cuts@[k] == f && in_run(
                        cuts@,
                        member,
                        max_gap as int,
                        min_cuts as int,
                        k,
                    ) && (keep_first ==> is_run(cuts@, member, max_gap as int, k - 1, k));
                assert(chosen(cuts@, member, max_gap as int, min_cuts as int, keep_first, k));
                assert(found@.contains(cuts@[k]));
            }
        }
        assert(found@.to_set() =~= target);
    }
    found
}

/// Takes out runs of title cards: dark, cheap cuts in a row that only the
/// importance blocks support.
pub fn apply_text_card_cluster_postprocess(
    keyframes: &mut FrameSet,
    scores: &mut FrameMap<ScenecutResult>,
)
    ensures
        timeline(*final(keyframes), *final(scores)) == without_text_cards(
            timeline(*old(keyframes), *old(scores)),
        ),
{
    let cuts: Vec<usize> = later_cuts(keyframes);
    let ghost member = |frame: usize|
        scores@.contains_key(frame) && is_text_card(scores@[frame]);
    let mut belongs: Vec<bool> = Vec::new();
    for index in 0..cuts.len()
        invariant
            belongs.len() == index,
            member == |frame: usize| scores@.contains_key(frame) && is_text_card(scores@[frame]),
            forall|k: int| 0 <= k < index ==> belongs@[k] == member(#[trigger] cuts@[k]),
    {
        let weak = match scores.get(cuts[index]) {
            Some(score) => weak_text_card_cut(score),
            None => false,
        };
        belongs.push(weak);
    }
    let runs: Vec<usize> = cuts_in_runs(
        &cuts,
        &belongs,
        Ghost(member),
        TEXT_CARD_CLUSTER_MAX_GAP,
        TEXT_CARD_CLUSTER_MIN_CUTS,
        false,
    );
    suppress_frames(keyframes, scores, &runs, ScenecutDecision::SuppressedTextCardCluster);
}

/// Keeps only the first cut of each run of static credits.
pub fn apply_static_credits_postprocess(
    keyframes: &mut FrameSet,
    scores: &mut FrameMap<ScenecutResult>,
)
    ensures
        timeline(*final(keyframes), *final(scores)) == without_static_credits(
            timeline(*old(keyframes), *old(scores)),
        ),
{
    let cuts: Vec<usize> = later_cuts(keyframes);
    let ghost member = |frame: usize|
        scores@.contains_key(frame) && is_static_credits(scores@[frame]);
    let mut belongs: Vec<bool> = Vec::new();
    for index in 0..cuts.len()
        invariant
            belongs.len() == index,
            member == |frame: usize|
                scores@.contains_key(frame) && is_static_credits(scores@[frame]),
            forall|k: int| 0 <= k < index ==> belongs@[k] == member(#[trigger] cuts@[k]),
    {
        let credits = match scores.get(cuts[index]) {
            Some(score) => static_credits_cut(score),
            None => false,
        };
        belongs.push(credits);
    }
    let runs: Vec<usize> = cuts_in_runs(
        &cuts,
        &belongs,
        Ghost(member),
        STATIC_CREDITS_MAX_GAP,
        STATIC_CREDITS_MIN_RUN_CUTS,
        true,
    );
    suppress_frames(keyframes, scores, &runs, ScenecutDecision::SuppressedStaticCredits);
}

} // verus!
