//! Corrections of runs of cuts act on good grounds only.

use vstd::prelude::*;
use vstd::set_lib::lemma_set_subset_finite;
use crate::measure::double;
use crate::options::DetectionOptions;
use crate::postprocess::aba_chain::{boundaries_of, by_length, chain_at, chain_end, chain_goes_on};
use crate::postprocess::aba_chain::{chain_starts, chains_of, goes_first, length_order_is_total};
use crate::postprocess::aba_chain::{limits_of, redundant_cuts, redundant_in_turn, without_chains};
use crate::postprocess::aba_chain::{is_hidden_boundary, AbaChain, SegmentLimits};
use crate::postprocess::aba_chain::{ABA_CHAIN_MAX_HIDDEN_COST_RATIO, ABA_CHAIN_MAX_HIDDEN_GOOD_BLOCK_RATIO};
use crate::postprocess::aba_chain::{ABA_CHAIN_MAX_HIDDEN_LUMA_8BIT, ABA_CHAIN_MIN_HIDDEN_COST_RATIO};
use crate::postprocess::aba_chain::{ABA_CHAIN_MIN_HIDDEN_GLOBAL_IMP_RATIO, ABA_CHAIN_MIN_HIDDEN_IMP_RATIO};
use crate::postprocess::chain_marks::chains_have_their_starts;
use crate::postprocess::common::{frame_distance, Timeline};
use crate::postprocess::laws::{ascending_members, later_frames_are_countable};
use crate::postprocess::runs::{in_run, is_run, is_static_credits, is_text_card};
use crate::postprocess::runs::{without_static_credits, without_text_cards};
use crate::postprocess::runs::{STATIC_CREDITS_MAX_BAD_BLOCK_RATIO, STATIC_CREDITS_MAX_LUMA_8BIT};
use crate::postprocess::runs::{STATIC_CREDITS_MIN_GLOBAL_IMP_RATIO, STATIC_CREDITS_MIN_GOOD_BLOCK_RATIO};
use crate::postprocess::runs::{STATIC_CREDITS_MIN_IMP_RATIO, TEXT_CARD_MAX_COST_RATIO};
use crate::postprocess::runs::{TEXT_CARD_MAX_IMP_RATIO, TEXT_CARD_MAX_LUMA_8BIT};
use crate::postprocess::runs::TEXT_CARD_MIN_GLOBAL_IMP_RATIO;
use crate::postprocess::turns::{ascending_holds, is_run_of_video, left_alone};
use crate::postprocess::weak_cuts::{is_micro_split, without_early_splits, without_micro_splits};
use crate::postprocess::weak_cuts::FAST_MOTION_EXIT_MIN_COST_RATIO;
use crate::score::{ScenecutDecision, ScenecutResult, FRAME_LUMA_SIGNATURE_CELLS};
use crate::timeline::ascending;

verus! {

/// No frame of a set lies between two that follow one another in its ascending form.
pub(crate) proof fn nothing_lies_between(set: Set<usize>, at: int, frame: usize)
    requires
        set.finite(),
        0 <= at < ascending(set).len() - 1,
        ascending(set)[at] < frame < ascending(set)[at + 1],
    ensures
        !set.contains(frame),
{
    ascending_members(set);
    ascending_holds(set, frame);
    if set.contains(frame) {
        let all = ascending(set);
        let k = all.index_of(frame);
        assert(all[k] == frame);
        if k < at {
            assert(all[k] < all[at]);
        }
        if k > at + 1 {
            assert(all[at + 1] < all[k]);
        }
    }
}

/// A title card goes on good grounds only: it is one of three cuts in a row, each close to
/// the one before, that are all dark and weak.
pub proof fn title_cards_go_in_rows(given: Timeline, frame: usize)
    requires
        is_run_of_video(given),
        given.cuts.contains(frame),
        !without_text_cards(given).cuts.contains(frame),
    ensures
        exists|x: usize, y: usize, z: usize|
            {
                &&& #[trigger] given.cuts.contains(x)
                &&& #[trigger] given.cuts.contains(y)
                &&& #[trigger] given.cuts.contains(z)
                &&& frame == x || frame == y || frame == z
                &&& 0 < x < y < z
                &&& y - x <= 130 && z - y <= 130
                &&& forall|cut: usize| #[trigger]
                    given.cuts.contains(cut) && x <= cut <= z ==> cut == x || cut == y || cut == z
                &&& forall|cut: usize|
                    (cut == x || cut == y || cut == z) ==> {
                        let score = #[trigger] given.scores[cut];
                        &&& given.scores.contains_key(cut)
                        &&& score.decision == ScenecutDecision::CutImportance
                        &&& !double(TEXT_CARD_MAX_COST_RATIO).lt(score.cost_ratio)
                        &&& !double(TEXT_CARD_MAX_LUMA_8BIT).lt(score.avg_luma_8bit)
                        &&& !double(TEXT_CARD_MAX_IMP_RATIO).lt(score.imp_block_ratio)
                        &&& !score.global_imp_block_ratio.lt(double(TEXT_CARD_MIN_GLOBAL_IMP_RATIO))
                    }
            },
{
    let later = given.cuts.remove(0);
    let cuts = ascending(later);
    ascending_members(later);
    let belongs = |f: usize| given.scores.contains_key(f) && is_text_card(given.scores[f]);
    let index = choose|index: int|
        0 <= index < cuts.len() && #[trigger] cuts[index] == frame && in_run(
            cuts,
            belongs,
            130,
            3,
            index,
        );
    let (first, last) = choose|first: int, last: int| #[trigger]
        is_run(cuts, belongs, 130, first, last) && first <= index <= last && last - first + 1 >= 3;
    let s = if index - first >= 2 {
        index - 2
    } else {
        first
    };
    let x = cuts[s];
    let y = cuts[s + 1];
    let z = cuts[s + 2];
    assert(later.contains(x) && later.contains(y) && later.contains(z));
    assert(belongs(cuts[s]) && belongs(cuts[s + 1]) && belongs(cuts[s + 2]));
    assert(cuts[s + 1] - cuts[s + 1 - 1] <= 130);
    assert(cuts[s + 2] - cuts[s + 2 - 1] <= 130);
    assert(x < y && y < z);
    assert forall|cut: usize| #[trigger] given.cuts.contains(cut) && x <= cut <= z implies cut == x
        || cut == y || cut == z by {
        assert(later.contains(cut));
        if x < cut < y {
            nothing_lies_between(later, s, cut);
        }
        if y < cut < z {
            nothing_lies_between(later, s + 1, cut);
        }
    }
    assert(given.cuts.contains(x) && given.cuts.contains(y) && given.cuts.contains(z));
}

/// A cut inside credits goes on good grounds only: it is one of five cuts in a row, each
/// close to the one before, that are all dark and mostly still, and it is not the first.
pub proof fn credits_go_in_rows(given: Timeline, frame: usize)
    requires
        is_run_of_video(given),
        given.cuts.contains(frame),
        !without_static_credits(given).cuts.contains(frame),
    ensures
        exists|cuts: Seq<usize>, at: int|
            {
                &&& cuts.len() == 5
                &&& 0 <= at < 5
                &&& #[trigger] cuts[at] == frame
                &&& 0 < cuts[0]
                &&& forall|i: int, j: int|
                    0 <= i < 4 && j == i + 1 ==> #[trigger] cuts[i] < #[trigger] cuts[j] && cuts[j]
                        - cuts[i] <= 210
                &&& forall|k: int| 0 <= k < 5 ==> given.cuts.contains(#[trigger] cuts[k])
                &&& forall|k: int|
                    0 <= k < 5 ==> {
                        let score = given.scores[#[trigger] cuts[k]];
                        &&& given.scores.contains_key(cuts[k])
                        &&& score.decision == ScenecutDecision::Cut
                        &&& score.avg_luma_8bit.le(double(STATIC_CREDITS_MAX_LUMA_8BIT))
                        &&& double(STATIC_CREDITS_MIN_IMP_RATIO).le(score.imp_block_ratio)
                        &&& double(STATIC_CREDITS_MIN_GLOBAL_IMP_RATIO).le(
                            score.global_imp_block_ratio,
                        )
                        &&& double(STATIC_CREDITS_MIN_GOOD_BLOCK_RATIO).le(
                            score.static_good_block_ratio,
                        )
                        &&& score.static_bad_block_ratio.le(
                            double(STATIC_CREDITS_MAX_BAD_BLOCK_RATIO),
                        )
                    }
            },
        exists|previous: usize|
            {
                &&& #[trigger] given.cuts.contains(previous)
                &&& 0 < previous < frame
                &&& frame - previous <= 210
                &&& given.scores.contains_key(previous)
                &&& given.scores[previous].decision == ScenecutDecision::Cut
            },
{
    let later = given.cuts.remove(0);
    let all = ascending(later);
    ascending_members(later);
    let belongs = |f: usize| given.scores.contains_key(f) && is_static_credits(given.scores[f]);
    let index = choose|index: int|
        0 <= index < all.len() && #[trigger] all[index] == frame && in_run(
            all,
            belongs,
            210,
            5,
            index,
        ) && is_run(all, belongs, 210, index - 1, index);
    let (first, last) = choose|first: int, last: int| #[trigger]
        is_run(all, belongs, 210, first, last) && first <= index <= last && last - first + 1 >= 5;
    let s = if index - first >= 4 {
        index - 4
    } else {
        first
    };
    let cuts = Seq::new(5, |k: int| all[s + k]);
    let at = index - s;
    assert(cuts[at] == frame);
    assert forall|k: int| 0 <= k < 5 implies given.cuts.contains(#[trigger] cuts[k]) && belongs(
        cuts[k],
    ) && 0 < cuts[k] by {
        assert(later.contains(all[s + k]));
        assert(belongs(all[s + k]));
    }
    assert forall|i: int, j: int| 0 <= i < 4 && j == i + 1 implies #[trigger] cuts[i]
        < #[trigger] cuts[j] && cuts[j] - cuts[i] <= 210 by {
        assert(all[s + i] < all[s + j]);
        let k = s + j;
        assert(all[k] - all[k - 1] <= 210);
    }
    let previous = all[index - 1];
    assert(later.contains(previous));
    assert(belongs(previous));
    assert(all[index] - all[index - 1] <= 210);
    assert(given.cuts.contains(previous));
}

/// Splits are taken out where four cuts in a row say so.
proof fn split_has_its_cuts(state: Timeline, cuts: Seq<usize>, starts: nat, frame: usize)
    requires
        starts + 3 <= cuts.len(),
        state.scores.contains_key(frame),
        forall|k: int| 0 <= k < cuts.len() ==> state.cuts.contains(#[trigger] cuts[k]),
    ensures
        ({
            let after = without_early_splits(state, cuts, starts);
            &&& after.scores.dom() =~= state.scores.dom()
            &&& forall|other: usize| #[trigger]
                state.scores.contains_key(other) ==> after.scores[other] == state.scores[other]
                    || after.scores[other].decision == ScenecutDecision::SuppressedFastMotion
            &&& left_alone(state, after, frame) || (exists|at: int|
                0 <= at < starts && #[trigger] is_micro_split(
                    state.scores,
                    cuts[at],
                    cuts[at + 1],
                    cuts[at + 2],
                    cuts[at + 3],
                ) && (frame == cuts[at + 1] || frame == cuts[at + 2]))
        }),
    decreases starts,
{
    if starts > 0 {
        let at = starts - 1;
        split_has_its_cuts(state, cuts, at as nat, frame);
        let before = without_early_splits(state, cuts, at as nat);
        if is_micro_split(before.scores, cuts[at], cuts[at + 1], cuts[at + 2], cuts[at + 3]) {
            assert(state.scores.contains_key(cuts[at + 1]));
            assert(state.scores.contains_key(cuts[at + 2]));
            assert(state.scores.contains_key(cuts[at + 3]));
            assert(is_micro_split(
                state.scores,
                cuts[at],
                cuts[at + 1],
                cuts[at + 2],
                cuts[at + 3],
            ));
        }
    }
}

/// A split goes on good grounds only: it is one of two weak cuts close together, after a long
/// scene and soon before a strong cut.
pub proof fn splits_go_in_pairs(given: Timeline, frame: usize)
    requires
        is_run_of_video(given),
        given.scores.contains_key(frame),
        given.cuts.contains(frame),
        !without_micro_splits(given).cuts.contains(frame),
    ensures
        exists|four: Seq<usize>, at: int|
            {
                &&& four.len() == 4
                &&& at == 1 || at == 2
                &&& #[trigger] four[at] == frame
                &&& 0 < four[0] < four[1] < four[2] < four[3]
                &&& forall|k: int| 0 <= k < 4 ==> given.cuts.contains(#[trigger] four[k])
                &&& forall|cut: usize| #[trigger]
                    given.cuts.contains(cut) && four[0] <= cut <= four[3] ==> four.contains(cut)
                &&& four[1] - four[0] >= 80
                &&& four[2] - four[1] <= 24
                &&& four[3] - four[2] <= 80
                &&& given.scores.contains_key(four[1]) && given.scores[four[1]].decision
                    == ScenecutDecision::CutImportance
                &&& given.scores.contains_key(four[2]) && given.scores[four[2]].decision
                    == ScenecutDecision::CutImportance
                &&& given.scores.contains_key(four[3]) && given.scores[four[3]].decision
                    == ScenecutDecision::Cut
                &&& double(FAST_MOTION_EXIT_MIN_COST_RATIO).le(given.scores[four[3]].cost_ratio)
            },
{
    let later = given.cuts.remove(0);
    let cuts = ascending(later);
    ascending_members(later);
    assert forall|k: int| 0 <= k < cuts.len() implies given.cuts.contains(#[trigger] cuts[k]) && 0
        < cuts[k] by {
        assert(later.contains(cuts[k]));
    }
    let starts = (cuts.len() - 3) as nat;
    split_has_its_cuts(given, cuts, starts, frame);
    let at = choose|at: int|
        0 <= at < starts && #[trigger] is_micro_split(
            given.scores,
            cuts[at],
            cuts[at + 1],
            cuts[at + 2],
            cuts[at + 3],
        ) && (frame == cuts[at + 1] || frame == cuts[at + 2]);
    let previous = cuts[at];
    let first = cuts[at + 1];
    let second = cuts[at + 2];
    let exit = cuts[at + 3];
    assert(previous < first && first < second && second < exit);
    let four = seq![previous, first, second, exit];
    assert(four[0] == previous && four[1] == first && four[2] == second && four[3] == exit);
    assert forall|cut: usize| #[trigger]
        given.cuts.contains(cut) && previous <= cut <= exit implies four.contains(cut) by {
        assert(later.contains(cut));
        if previous < cut < first {
            nothing_lies_between(later, at, cut);
        }
        if first < cut < second {
            nothing_lies_between(later, at + 1, cut);
        }
        if second < cut < exit {
            nothing_lies_between(later, at + 2, cut);
        }
    }
    let place = if frame == first {
        1int
    } else {
        2
    };
    assert(four[place] == frame);
}

/// Inside a chain every boundary goes on with it.
proof fn chain_goes_on_inside(
    scores: Map<usize, ScenecutResult>,
    boundaries: Seq<usize>,
    limits: SegmentLimits,
    start: int,
    at: int,
)
    requires
        at <= boundaries.len(),
    ensures
        at <= chain_end(scores, boundaries, limits, start, at) <= boundaries.len(),
        forall|k: int|
            at <= k < chain_end(scores, boundaries, limits, start, at) ==> #[trigger] chain_goes_on(
                scores,
                boundaries,
                limits,
                start,
                k,
            ),
    decreases boundaries.len() - at,
{
    if at < boundaries.len() && chain_goes_on(scores, boundaries, limits, start, at) {
        chain_goes_on_inside(scores, boundaries, limits, start, at + 1);
    }
}

/// What chains make redundant lies inside one of them.
proof fn redundant_lie_in_a_chain(
    state: Timeline,
    boundaries: Seq<usize>,
    chains: Seq<AbaChain>,
    frame: usize,
)
    ensures
        redundant_in_turn(state, boundaries, chains).contains(frame) ==> exists|k: int|
            0 <= k < chains.len() && redundant_cuts(
                state,
                boundaries,
                #[trigger] chains[k],
            ).contains(frame),
    decreases chains.len(),
{
    if chains.len() > 0 {
        let rest = chains.drop_last();
        redundant_lie_in_a_chain(state, boundaries, rest, frame);
        if redundant_in_turn(state, boundaries, rest).contains(frame) {
            let k = choose|k: int|
                0 <= k < rest.len() && redundant_cuts(
                    state,
                    boundaries,
                    #[trigger] rest[k],
                ).contains(frame);
            assert(chains[k] == rest[k]);
        } else {
            assert(chains[chains.len() - 1] == chains.last());
        }
    }
}

/// A cut goes for alternating scenes on good grounds only: it lies inside a stretch of at
/// least four short scenes, each unlike the one before and like the one before that.
pub proof fn alternating_cuts_have_grounds(opts: DetectionOptions, given: Timeline, frame: usize)
    requires
        is_run_of_video(given),
        given.cuts.contains(frame),
        !without_chains(opts, given).cuts.contains(frame),
    ensures
        exists|stretch: Seq<usize>, at: int|
            {
                let reach = if opts.tuning.forward_similarity.frames > 1 {
                    opts.tuning.forward_similarity.frames as int
                } else {
                    1
                };
                let longest = reach + reach / 2 + if reach < 50 {
                    reach
                } else {
                    50
                };
                &&& stretch.len() >= 5
                &&& 0 < at < stretch.len() - 1
                &&& #[trigger] stretch[at] == frame
                &&& forall|k: int|
                    0 <= k < stretch.len() ==> {
                        let score = given.scores[#[trigger] stretch[k]];
                        ||| given.cuts.contains(stretch[k])
                        ||| {
                            &&& given.scores.contains_key(stretch[k])
                            &&& score.decision == ScenecutDecision::NoCut || score.decision
                                == ScenecutDecision::SuppressedForwardSimilarity || score.decision
                                == ScenecutDecision::SuppressedTransientSimilarity
                            &&& !score.cost_ratio.lt(double(ABA_CHAIN_MIN_HIDDEN_COST_RATIO))
                            &&& !double(ABA_CHAIN_MAX_HIDDEN_COST_RATIO).lt(score.cost_ratio)
                            &&& !score.imp_block_ratio.lt(double(ABA_CHAIN_MIN_HIDDEN_IMP_RATIO))
                            &&& !score.global_imp_block_ratio.lt(
                                double(ABA_CHAIN_MIN_HIDDEN_GLOBAL_IMP_RATIO),
                            )
                            &&& !double(ABA_CHAIN_MAX_HIDDEN_LUMA_8BIT).lt(score.avg_luma_8bit)
                            &&& !double(ABA_CHAIN_MAX_HIDDEN_GOOD_BLOCK_RATIO).lt(
                                score.static_good_block_ratio,
                            )
                        }
                    }
                &&& forall|i: int, j: int|
                    1 <= i < stretch.len() - 2 && j == i + 1 ==> #[trigger] stretch[j]
                        - #[trigger] stretch[i] <= reach
                &&& forall|i: int, j: int|
                    0 <= i < stretch.len() - 1 && j == i + 1 ==> {
                        let step = frame_distance(
                            given.scores,
                            #[trigger] stretch[i],
                            #[trigger] stretch[j],
                        );
                        &&& 0 < stretch[j] - stretch[i] <= longest
                        &&& step is Some && step.unwrap() >= 8 * FRAME_LUMA_SIGNATURE_CELLS
                    }
                &&& forall|i: int, j: int|
                    0 <= i < stretch.len() - 2 && j == i + 2 ==> {
                        let back = frame_distance(
                            given.scores,
                            #[trigger] stretch[i],
                            #[trigger] stretch[j],
                        );
                        back is Some && back.unwrap() <= 5 * FRAME_LUMA_SIGNATURE_CELLS
                    }
            },
{
    let limits = limits_of(opts);
    let set = boundaries_of(given);
    lemma_set_subset_finite(given.cuts.union(given.scores.dom()), set);
    ascending_members(set);
    let boundaries = ascending(set);
    assert forall|k: int| 0 <= k < boundaries.len() implies #[trigger] boundaries[k] != 0
        && set.contains(boundaries[k]) by {
        assert(set.contains(boundaries[k]));
    }
    later_frames_are_countable(boundaries);
    let starts = (boundaries.len() - 2) as nat;
    let found = chains_of(given, boundaries, limits, starts);
    let order = |left: AbaChain, right: AbaChain| goes_first(left, right);
    length_order_is_total();
    found.lemma_sort_by_ensures(order);
    let chains = by_length(found);
    redundant_lie_in_a_chain(given, boundaries, chains, frame);
    let k = choose|k: int|
        0 <= k < chains.len() && redundant_cuts(given, boundaries, #[trigger] chains[k]).contains(
            frame,
        );
    let chain = chains[k];
    assert(chains.contains(chain));
    assert(found.contains(chain));
    chains_have_their_starts(given, boundaries, limits, starts);
    let start = chain.start as int;
    assert(chain_at(given, boundaries, limits, start) == Some(chain));
    chain_goes_on_inside(given.scores, boundaries, limits, start, start + 2);
    let end = chain_end(given.scores, boundaries, limits, start, start + 2);
    assert(chain.end == end);
    let place = choose|place: int|
        chain.start < place < chain.end - 1 && #[trigger] boundaries[place] == frame;
    let stretch = boundaries.subrange(start, end);
    let at = place - start;
    assert(stretch[at] == frame);
    assert forall|k: int| 0 <= k < stretch.len() implies given.cuts.contains(#[trigger] stretch[k])
        || is_hidden_boundary(given, stretch[k]) by {
        assert(set.contains(boundaries[start + k]));
    }
    assert forall|i: int, j: int| 1 <= i < stretch.len() - 2 && j == i + 1 implies #[trigger] stretch[j]
        - #[trigger] stretch[i] <= limits.break_len by {
        assert(stretch[i] == boundaries[start + i] && stretch[j] == boundaries[start + j]);
        assert(chain_goes_on(given.scores, boundaries, limits, start, start + j + 1));
    }
    assert(chain_starts(given.scores, boundaries, limits, start));
    assert forall|i: int, j: int| 0 <= i < stretch.len() - 1 && j == i + 1 implies {
        let step = frame_distance(given.scores, #[trigger] stretch[i], #[trigger] stretch[j]);
        &&& 0 < stretch[j] - stretch[i] <= limits.max_len
        &&& step is Some && step.unwrap() >= 8 * FRAME_LUMA_SIGNATURE_CELLS
    } by {
        assert(stretch[i] == boundaries[start + i] && stretch[j] == boundaries[start + j]);
        assert(boundaries[start + i] < boundaries[start + j]);
        if i > 0 {
            assert(chain_goes_on(given.scores, boundaries, limits, start, start + j));
        }
    }
    assert forall|i: int, j: int| 0 <= i < stretch.len() - 2 && j == i + 2 implies {
        let back = frame_distance(given.scores, #[trigger] stretch[i], #[trigger] stretch[j]);
        back is Some && back.unwrap() <= 5 * FRAME_LUMA_SIGNATURE_CELLS
    } by {
        assert(stretch[i] == boundaries[start + i] && stretch[j] == boundaries[start + j]);
        assert(chain_goes_on(given.scores, boundaries, limits, start, start + j));
    }
}

} // verus!
