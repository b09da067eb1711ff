//! Chains of scenes that alternate leave their mark on the corrected timeline.

use vstd::prelude::*;
use vstd::set_lib::lemma_set_subset_finite;
use crate::measure::double;
use crate::options::{DetectionOptions, SceneDetectionSpeed};
use crate::postprocess::aba_chain::{boundaries_of, by_length, chain_at, chain_end, chain_goes_on};
use crate::postprocess::aba_chain::{chain_starts, chained_cuts, chains_of, goes_first, length_order_is_total};
use crate::postprocess::aba_chain::{limits_of, redundant_cuts, redundant_in_turn, without_chains};
use crate::postprocess::aba_chain::{AbaChain, SegmentLimits, ABA_CHAIN_MIN_HIDDEN_COST_RATIO};
use crate::postprocess::aba_chain::{is_hidden_boundary, ABA_CHAIN_MAX_HIDDEN_COST_RATIO};
use crate::postprocess::aba_chain::{ABA_CHAIN_MAX_HIDDEN_GOOD_BLOCK_RATIO, ABA_CHAIN_MAX_HIDDEN_LUMA_8BIT};
use crate::postprocess::aba_chain::{ABA_CHAIN_MIN_HIDDEN_GLOBAL_IMP_RATIO, ABA_CHAIN_MIN_HIDDEN_IMP_RATIO};
use crate::postprocess::aba_return::with_returns;
use crate::postprocess::common::{frame_distance, Timeline};
use crate::postprocess::corrected;
use crate::postprocess::forward_similarity::without_returns;
use crate::postprocess::laws::{ascending_members, later_frames_are_countable};
use crate::postprocess::marks::{mark_stays, next_in_order, one_place_in_order, remaining, stages};
use crate::postprocess::peaks::{with_dark_peaks, with_sparse_peaks};
use crate::postprocess::refined::with_refined_peaks;
use crate::postprocess::runs::without_text_cards;
use crate::postprocess::turns::{ascending_holds, corrections_leave_runs, is_run_of_video};
use crate::postprocess::weak_cuts::{without_dark_occlusions, without_micro_splits};
use crate::score::{ScenecutDecision, ScenecutResult, FRAME_LUMA_SIGNATURE_CELLS};
use crate::timeline::{ascending, increasing, is_first_after};

verus! {

/// No scene of a chain is longer than the limit.
proof fn scenes_of_chain_are_short(
    scores: Map<usize, ScenecutResult>,
    boundaries: Seq<usize>,
    limits: SegmentLimits,
    start: int,
    at: int,
)
    requires
        at <= boundaries.len(),
    ensures
        at <= chain_end(scores, boundaries, limits, start, at) <= boundaries.len(),
        forall|k: int|
            at <= k < chain_end(scores, boundaries, limits, start, at)
                ==> #[trigger] boundaries[k] - boundaries[k - 1] <= limits.max_len,
    decreases boundaries.len() - at,
{
    if at < boundaries.len() && chain_goes_on(scores, boundaries, limits, start, at) {
        scenes_of_chain_are_short(scores, boundaries, limits, start, at + 1);
    }
}

/// A chain goes on up to where it ends.
proof fn chain_ends_there(
    scores: Map<usize, ScenecutResult>,
    boundaries: Seq<usize>,
    limits: SegmentLimits,
    start: int,
    at: int,
    end: int,
)
    requires
        at <= end <= boundaries.len(),
        forall|k: int|
            at <= k < end ==> #[trigger] chain_goes_on(scores, boundaries, limits, start, k),
        end < boundaries.len() ==> !chain_goes_on(scores, boundaries, limits, start, end),
    ensures
        chain_end(scores, boundaries, limits, start, at) == end,
    decreases end - at,
{
    if at < end {
        assert(chain_goes_on(scores, boundaries, limits, start, at));
        chain_ends_there(scores, boundaries, limits, start, at + 1, end);
    }
}

/// The chains are those that start at some boundary, and no others.
pub(crate) proof fn chains_have_their_starts(
    state: Timeline,
    boundaries: Seq<usize>,
    limits: SegmentLimits,
    starts: nat,
)
    requires
        starts + 2 <= boundaries.len() <= usize::MAX,
    ensures
        forall|chain: AbaChain| #[trigger]
            chains_of(state, boundaries, limits, starts).contains(chain) ==> chain.start < starts
                && chain_at(state, boundaries, limits, chain.start as int) == Some(chain),
        forall|start: int|
            0 <= start < starts ==> (#[trigger] chain_at(state, boundaries, limits, start) matches Some(
                chain,
            ) ==> chains_of(state, boundaries, limits, starts).contains(chain)),
    decreases starts,
{
    if starts > 0 {
        let rest = (starts - 1) as nat;
        chains_have_their_starts(state, boundaries, limits, rest);
        let before = chains_of(state, boundaries, limits, rest);
        let all = chains_of(state, boundaries, limits, starts);
        let here = chain_at(state, boundaries, limits, starts - 1);
        assert forall|chain: AbaChain| #[trigger] all.contains(chain) implies chain.start < starts
            && chain_at(state, boundaries, limits, chain.start as int) == Some(chain) by {
            let k = all.index_of(chain);
            if k < before.len() {
                assert(before[k] == chain);
                assert(before.contains(chain));
            }
        }
        assert forall|start: int| 0 <= start < starts implies (#[trigger] chain_at(
            state,
            boundaries,
            limits,
            start,
        ) matches Some(chain) ==> all.contains(chain)) by {
            if chain_at(state, boundaries, limits, start) is Some {
                let chain = chain_at(state, boundaries, limits, start).unwrap();
                if start < rest {
                    assert(before.contains(chain));
                    let k = before.index_of(chain);
                    assert(all[k] == chain);
                } else {
                    assert(all[before.len() as int] == chain);
                }
            }
        }
    }
}

/// A chain that lies apart from the others comes to its turn with nothing taken out of it.
proof fn lone_chain_has_its_turn(
    state: Timeline,
    boundaries: Seq<usize>,
    chains: Seq<AbaChain>,
    lone: AbaChain,
    turns: int,
)
    requires
        0 <= turns <= chains.len(),
        chains.contains(lone),
        increasing(boundaries),
        lone.end <= boundaries.len(),
        forall|i: int, j: int|
            0 <= i < j < chains.len() ==> goes_first(#[trigger] chains[i], #[trigger] chains[j]),
        forall|k: int|
            0 <= k < chains.len() ==> {
                let chain = #[trigger] chains[k];
                &&& chain.start < chain.end <= boundaries.len()
                &&& chain.start < lone.start ==> chain.end <= lone.start
                &&& lone.start <= chain.start < lone.end ==> chain.end <= lone.end
            },
    ensures
        ({
            let taken = redundant_in_turn(state, boundaries, chains.take(turns));
            &&& chains.take(turns).contains(lone) ==> redundant_cuts(
                state,
                boundaries,
                lone,
            ).subset_of(taken)
            &&& !chains.take(turns).contains(lone) ==> forall|at: int|
                lone.start <= at < lone.end ==> !taken.contains(#[trigger] boundaries[at])
            &&& lone.start < lone.end ==> !taken.contains(boundaries[lone.start as int])
                && !taken.contains(boundaries[lone.end - 1])
        }),
    decreases turns,
{
    if turns > 0 {
        let now = turns - 1;
        lone_chain_has_its_turn(state, boundaries, chains, lone, now);
        let sooner = chains.take(now);
        let later = chains.take(turns);
        assert(later.drop_last() =~= sooner);
        let chain = chains[now];
        assert(later.last() == chain);
        let before = redundant_in_turn(state, boundaries, sooner);
        let taken = redundant_in_turn(state, boundaries, later);
        assert forall|at: int| 0 <= at < boundaries.len() && redundant_cuts(
            state,
            boundaries,
            chain,
        ).contains(#[trigger] boundaries[at]) implies chain.start < at < chain.end - 1 by {
            let there = choose|there: int|
                chain.start < there < chain.end - 1 && #[trigger] boundaries[there]
                    == boundaries[at];
            if there < at {
                assert(boundaries[there] < boundaries[at]);
            } else if at < there {
                assert(boundaries[at] < boundaries[there]);
            }
        }
        if sooner.contains(lone) {
            let i = sooner.index_of(lone);
            assert(later[i] == lone);
        } else if chain == lone {
            assert(later[now] == lone);
            assert(!(exists|at: int|
                chain.start <= at < chain.end && #[trigger] before.contains(boundaries[at])));
        } else {
            assert(!later.contains(lone)) by {
                if later.contains(lone) {
                    let i = later.index_of(lone);
                    assert(sooner[i] == lone);
                }
            }
            let i = chains.index_of(lone);
            assert(chains[i] == lone);
            if i < now {
                assert(sooner[i] == lone);
            }
            assert(now < i);
            assert(goes_first(chains[now], chains[i]));
        }
    }
}

/// A stretch of boundaries that follow one another does so in the ascending form.
proof fn stretch_in_order(set: Set<usize>, stretch: Seq<usize>, upto: int) -> (first: int)
    requires
        set.finite(),
        0 <= upto < stretch.len(),
        set.contains(stretch[0]),
        forall|i: int, j: int|
            0 <= i < stretch.len() - 1 && j == i + 1 ==> is_first_after(
                set,
                #[trigger] stretch[i],
                #[trigger] stretch[j],
            ),
    ensures
        0 <= first,
        first + upto < ascending(set).len(),
        forall|k: int| 0 <= k <= upto ==> ascending(set)[first + k] == #[trigger] stretch[k],
    decreases upto,
{
    if upto == 0 {
        ascending_holds(set, stretch[0]);
        ascending(set).index_of(stretch[0])
    } else {
        let first = stretch_in_order(set, stretch, upto - 1);
        assert(is_first_after(set, stretch[upto - 1], stretch[upto]));
        if upto >= 2 {
            assert(is_first_after(set, stretch[upto - 2], stretch[upto - 1]));
        }
        let place = next_in_order(set, stretch[upto - 1], stretch[upto]);
        assert(ascending(set)[first + (upto - 1)] == stretch[upto - 1]);
        one_place_in_order(set, first + (upto - 1), place);
        first
    }
}

/// A stretch of cuts apart from all others has its place among the boundaries.
proof fn stretch_has_its_place(given: Timeline, stretch: Seq<usize>, longest: int) -> (first: int)
    requires
        is_run_of_video(given),
        longest >= 0,
        stretch.len() >= 5,
        0 < stretch[0],
        forall|i: int, j: int|
            0 <= i < j < stretch.len() ==> #[trigger] stretch[i] < #[trigger] stretch[j],
        forall|k: int|
            0 <= k < stretch.len() ==> {
                let score = given.scores[#[trigger] stretch[k]];
                ||| given.cuts.contains(stretch[k])
                ||| {
                    &&& given.scores.contains_key(stretch[k])
                    &&& score.decision == ScenecutDecision::NoCut || score.decision
                        == ScenecutDecision::SuppressedForwardSimilarity || score.decision
                        == ScenecutDecision::SuppressedTransientSimilarity
                    &&& double(ABA_CHAIN_MIN_HIDDEN_COST_RATIO).le(score.cost_ratio)
                    &&& score.cost_ratio.le(double(ABA_CHAIN_MAX_HIDDEN_COST_RATIO))
                    &&& double(ABA_CHAIN_MIN_HIDDEN_IMP_RATIO).le(score.imp_block_ratio)
                    &&& double(ABA_CHAIN_MIN_HIDDEN_GLOBAL_IMP_RATIO).le(
                        score.global_imp_block_ratio,
                    )
                    &&& score.avg_luma_8bit.le(double(ABA_CHAIN_MAX_HIDDEN_LUMA_8BIT))
                    &&& score.static_good_block_ratio.le(
                        double(ABA_CHAIN_MAX_HIDDEN_GOOD_BLOCK_RATIO),
                    )
                    &&& frame_distance(given.scores, (stretch[k] - 1) as usize, stretch[k]) is Some
                    &&& frame_distance(
                        given.scores,
                        (stretch[k] - 1) as usize,
                        stretch[k],
                    ).unwrap() >= 5 * FRAME_LUMA_SIGNATURE_CELLS
                }
            },
        forall|cut: usize| #[trigger]
            given.cuts.contains(cut) && cut != 0 && stretch[0] - longest <= cut
                <= stretch.last() + longest ==> stretch.contains(cut),
        forall|other: usize| #[trigger]
            given.scores.contains_key(other) && !given.cuts.contains(other) && stretch[0]
                - longest <= other <= stretch.last() + longest ==> stretch.contains(other)
                || given.scores[other].cost_ratio.lt(double(ABA_CHAIN_MIN_HIDDEN_COST_RATIO)),
    ensures
        ({
            let boundaries = ascending(boundaries_of(given));
            &&& increasing(boundaries)
            &&& boundaries.len() <= usize::MAX
            &&& 0 <= first <= first + stretch.len() <= boundaries.len()
            &&& forall|k: int|
                0 <= k < stretch.len() ==> boundaries[first + k] == #[trigger] stretch[k]
            &&& first + stretch.len() < boundaries.len() ==> boundaries[first + stretch.len()]
                - stretch.last() > longest
            &&& first > 0 ==> stretch[0] - boundaries[first - 1] > longest
        }),
{
    let set = boundaries_of(given);
    lemma_set_subset_finite(given.cuts.union(given.scores.dom()), set);
    ascending_members(set);
    let boundaries = ascending(set);
    assert forall|k: int| 0 <= k < boundaries.len() implies #[trigger] boundaries[k] != 0 by {
        assert(set.contains(boundaries[k]));
    }
    later_frames_are_countable(boundaries);
    let size = stretch.len() as int;
    let end = stretch[size - 1];
    assert(stretch.last() == end);
    assert forall|other: usize| #[trigger] set.contains(other) && stretch[0] - longest <= other <= end
        + longest implies stretch.contains(other) by {
        if !given.cuts.contains(other) {
            assert(given.scores.contains_key(other));
        }
    }
    assert forall|k: int| 0 <= k < size implies set.contains(#[trigger] stretch[k]) by {
        if 0 < k {
            assert(stretch[0] < stretch[k]);
        }
        let score = given.scores[stretch[k]];
        if !given.cuts.contains(stretch[k]) {
            assert(is_hidden_boundary(given, stretch[k]));
        }
    }
    assert forall|i: int, j: int| 0 <= i < size - 1 && j == i + 1 implies is_first_after(
        set,
        #[trigger] stretch[i],
        #[trigger] stretch[j],
    ) by {
        assert(set.contains(stretch[j]));
        assert(stretch[0] < stretch[j]);
        assert(stretch[i] < stretch[j]);
        assert forall|other: usize| #[trigger] set.contains(other) && stretch[i] < other implies stretch[j]
            <= other by {
            if other < stretch[j] {
                if 0 < i {
                    assert(stretch[0] < stretch[i]);
                }
                if j < size - 1 {
                    assert(stretch[j] < stretch[size - 1]);
                }
                assert(stretch.contains(other));
                let m = choose|m: int| 0 <= m < size && stretch[m] == other;
                if m < i {
                    assert(stretch[m] < stretch[i]);
                } else if m > j {
                    assert(stretch[j] < stretch[m]);
                }
            }
        }
    }
    let first = stretch_in_order(set, stretch, size - 1);
    assert(boundaries[first + (size - 1)] == stretch[size - 1]);
    assert(boundaries[first + 0] == stretch[0]);
    if first + size < boundaries.len() {
        let beyond = boundaries[first + size];
        assert(set.contains(beyond));
        assert(boundaries[first + (size - 1)] < beyond);
        if beyond - end <= longest {
            assert(stretch[0] < stretch[size - 1]);
            assert(stretch.contains(beyond));
            let m = choose|m: int| 0 <= m < size && stretch[m] == beyond;
            if m < size - 1 {
                assert(stretch[m] < stretch[size - 1]);
            }
        }
    }
    if first > 0 {
        let sooner = boundaries[first - 1];
        assert(set.contains(sooner));
        assert(sooner < boundaries[first + 0]);
        if stretch[0] - sooner <= longest {
            assert(stretch[0] < stretch[size - 1]);
            assert(stretch.contains(sooner));
            let m = choose|m: int| 0 <= m < size && stretch[m] == sooner;
            if 0 < m {
                assert(stretch[0] < stretch[m]);
            }
        }
    }
    first
}

/// A stretch of boundaries between which scenes alternate is a chain.
proof fn stretch_is_a_chain(
    given: Timeline,
    boundaries: Seq<usize>,
    limits: SegmentLimits,
    stretch: Seq<usize>,
    first: int,
    at: int,
    reach: int,
    longest: int,
)
    requires
        stretch.len() >= 5,
        reach == limits.break_len,
        limits.max_len == longest || limits.max_len == usize::MAX,
        increasing(boundaries),
        boundaries.len() <= usize::MAX,
        0 <= first <= first + stretch.len() <= boundaries.len(),
        forall|k: int| 0 <= k < stretch.len() ==> boundaries[first + k] == #[trigger] stretch[k],
        0 < at < stretch.len() - 1,
        first + stretch.len() < boundaries.len() ==> boundaries[first + stretch.len()]
            - stretch.last() > limits.max_len,
        forall|i: int, j: int|
            0 <= i < stretch.len() - 1 && j == i + 1 ==> #[trigger] stretch[j]
                - #[trigger] stretch[i] <= longest,
        forall|i: int, j: int|
            1 <= i < stretch.len() - 2 && j == i + 1 ==> #[trigger] stretch[j]
                - #[trigger] stretch[i] <= reach,
        forall|i: int, j: int|
            0 <= i < stretch.len() - 1 && j == i + 1 ==> frame_distance(
                given.scores,
                #[trigger] stretch[i],
                #[trigger] stretch[j],
            ) is Some && frame_distance(given.scores, stretch[i], stretch[j]).unwrap() >= 8
                * FRAME_LUMA_SIGNATURE_CELLS,
        forall|i: int, j: int|
            0 <= i < stretch.len() - 2 && j == i + 2 ==> frame_distance(
                given.scores,
                #[trigger] stretch[i],
                #[trigger] stretch[j],
            ) is Some && frame_distance(given.scores, stretch[i], stretch[j]).unwrap() <= 5
                * FRAME_LUMA_SIGNATURE_CELLS,
        given.cuts.contains(stretch[at]),
        given.scores.contains_key(stretch[at]),
        given.scores[stretch[at]].decision == ScenecutDecision::Cut
            || given.scores[stretch[at]].decision == ScenecutDecision::CutImportance
            || given.scores[stretch[at]].decision == ScenecutDecision::CutAbaReturn,
    ensures
        ({
            let lone = AbaChain { start: first as usize, end: (first + stretch.len()) as usize };
            &&& chain_at(given, boundaries, limits, first) == Some(lone)
            &&& redundant_cuts(given, boundaries, lone).contains(stretch[at])
        }),
{
    let size = stretch.len() as int;
    let lone = AbaChain { start: first as usize, end: (first + size) as usize };
    assert(boundaries[first + (size - 1)] == stretch[size - 1]);
    assert forall|at: int| first + 2 <= at < first + size implies #[trigger] chain_goes_on(
        given.scores,
        boundaries,
        limits,
        first,
        at,
    ) by {
        let k = at - first;
        assert(boundaries[first + k] == stretch[k]);
        assert(boundaries[first + (k - 1)] == stretch[k - 1]);
        assert(boundaries[first + (k - 2)] == stretch[k - 2]);
        assert(frame_distance(given.scores, stretch[k - 1], stretch[k]) is Some);
        assert(frame_distance(given.scores, stretch[k - 2], stretch[k]) is Some);
    }
    assert(chain_starts(given.scores, boundaries, limits, first)) by {
        assert(boundaries[first + 0] == stretch[0]);
        assert(boundaries[first + 1] == stretch[1]);
        assert(frame_distance(given.scores, stretch[0], stretch[1]) is Some);
    }
    chain_ends_there(given.scores, boundaries, limits, first, first + 2, first + size);
    assert(boundaries[first + at] == stretch[at]);
    assert(redundant_cuts(given, boundaries, lone).contains(stretch[at]));
}

/// A chain apart from all others gives up its cuts, but for those at its ends.
proof fn lone_chain_gives_up_its_cuts(
    given: Timeline,
    boundaries: Seq<usize>,
    limits: SegmentLimits,
    lone: AbaChain,
)
    requires
        increasing(boundaries),
        3 <= boundaries.len() <= usize::MAX,
        lone.start < boundaries.len() - 2,
        lone.start < lone.end <= boundaries.len(),
        chain_at(given, boundaries, limits, lone.start as int) == Some(lone),
        lone.end < boundaries.len() ==> boundaries[lone.end as int] - boundaries[lone.end - 1]
            > limits.max_len,
        lone.start > 0 ==> boundaries[lone.start as int] - boundaries[lone.start - 1]
            > limits.max_len,
    ensures
        ({
            let taken = redundant_in_turn(
                given,
                boundaries,
                by_length(chains_of(given, boundaries, limits, (boundaries.len() - 2) as nat)),
            );
            &&& redundant_cuts(given, boundaries, lone).subset_of(taken)
            &&& !taken.contains(boundaries[lone.start as int])
            &&& !taken.contains(boundaries[lone.end - 1])
        }),
{
    let starts = (boundaries.len() - 2) as nat;
    let found = chains_of(given, boundaries, limits, starts);
    chains_have_their_starts(given, boundaries, limits, starts);
    assert(found.contains(lone));
    let chains = by_length(found);
    let order = |left: AbaChain, right: AbaChain| goes_first(left, right);
    length_order_is_total();
    found.lemma_sort_by_ensures(order);
    assert(chains == found.sort_by(order));
    assert(chains.contains(lone)) by {
        found.to_multiset_ensures();
        chains.to_multiset_ensures();
        assert(found.to_multiset().count(lone) > 0);
        assert(chains.to_multiset().count(lone) > 0);
    }
    assert forall|i: int, j: int| 0 <= i < j < chains.len() implies goes_first(
        #[trigger] chains[i],
        #[trigger] chains[j],
    ) by {
        assert(order(chains[i], chains[j]));
    }
    assert forall|k: int| 0 <= k < chains.len() implies {
        let chain = #[trigger] chains[k];
        &&& chain.start < chain.end <= boundaries.len()
        &&& chain.start < lone.start ==> chain.end <= lone.start
        &&& lone.start <= chain.start < lone.end ==> chain.end <= lone.end
    } by {
        let chain = chains[k];
        assert(chains.contains(chain));
        assert(found.contains(chain));
        chain_lies_on_one_side(given, boundaries, limits, chain, lone);
    }
    lone_chain_has_its_turn(given, boundaries, chains, lone, chains.len() as int);
    assert(chains.take(chains.len() as int) =~= chains);
}

/// No chain reaches over a long scene.
proof fn chain_lies_on_one_side(
    given: Timeline,
    boundaries: Seq<usize>,
    limits: SegmentLimits,
    chain: AbaChain,
    lone: AbaChain,
)
    requires
        3 <= boundaries.len() <= usize::MAX,
        chain.start < boundaries.len() - 2,
        chain_at(given, boundaries, limits, chain.start as int) == Some(chain),
        lone.start < lone.end <= boundaries.len(),
        lone.end < boundaries.len() ==> boundaries[lone.end as int] - boundaries[lone.end - 1]
            > limits.max_len,
        lone.start > 0 ==> boundaries[lone.start as int] - boundaries[lone.start - 1]
            > limits.max_len,
    ensures
        chain.start < chain.end <= boundaries.len(),
        chain.start < lone.start ==> chain.end <= lone.start,
        lone.start <= chain.start < lone.end ==> chain.end <= lone.end,
{
    let start = chain.start as int;
    scenes_of_chain_are_short(given.scores, boundaries, limits, start, start + 2);
    assert(chain_starts(given.scores, boundaries, limits, start));
    assert(chain.end == chain_end(given.scores, boundaries, limits, start, start + 2));
    if start < lone.start && chain.end > lone.start {
        let at = lone.start as int;
        assert(boundaries[at] - boundaries[at - 1] <= limits.max_len);
    }
    if lone.start <= start < lone.end && chain.end > lone.end {
        let at = lone.end as int;
        assert(boundaries[at] - boundaries[at - 1] <= limits.max_len);
    }
}

/// Inside a chain of scenes that alternate, every cut that may go goes.
proof fn alternating_cuts_go(
    opts: DetectionOptions,
    given: Timeline,
    stretch: Seq<usize>,
    at: int,
    reach: int,
    longest: int,
)
    requires
        is_run_of_video(given),
        0 < at < stretch.len() - 1,
        reach == limits_of(opts).break_len,
        longest == reach + reach / 2 + if reach < 50 {
            reach
        } else {
            50
        },
        stretch.len() >= 5,
        0 < stretch[0],
        forall|i: int, j: int|
            0 <= i < j < stretch.len() ==> #[trigger] stretch[i] < #[trigger] stretch[j],
        forall|k: int|
            0 <= k < stretch.len() ==> {
                let score = given.scores[#[trigger] stretch[k]];
                ||| given.cuts.contains(stretch[k])
                ||| {
                    &&& given.scores.contains_key(stretch[k])
                    &&& score.decision == ScenecutDecision::NoCut || score.decision
                        == ScenecutDecision::SuppressedForwardSimilarity || score.decision
                        == ScenecutDecision::SuppressedTransientSimilarity
                    &&& double(ABA_CHAIN_MIN_HIDDEN_COST_RATIO).le(score.cost_ratio)
                    &&& score.cost_ratio.le(double(ABA_CHAIN_MAX_HIDDEN_COST_RATIO))
                    &&& double(ABA_CHAIN_MIN_HIDDEN_IMP_RATIO).le(score.imp_block_ratio)
                    &&& double(ABA_CHAIN_MIN_HIDDEN_GLOBAL_IMP_RATIO).le(
                        score.global_imp_block_ratio,
                    )
                    &&& score.avg_luma_8bit.le(double(ABA_CHAIN_MAX_HIDDEN_LUMA_8BIT))
                    &&& score.static_good_block_ratio.le(
                        double(ABA_CHAIN_MAX_HIDDEN_GOOD_BLOCK_RATIO),
                    )
                    &&& frame_distance(given.scores, (stretch[k] - 1) as usize, stretch[k]) is Some
                    &&& frame_distance(
                        given.scores,
                        (stretch[k] - 1) as usize,
                        stretch[k],
                    ).unwrap() >= 5 * FRAME_LUMA_SIGNATURE_CELLS
                }
            },
        forall|cut: usize| #[trigger]
            given.cuts.contains(cut) && cut != 0 && stretch[0] - longest <= cut
                <= stretch.last() + longest ==> stretch.contains(cut),
        forall|other: usize| #[trigger]
            given.scores.contains_key(other) && !given.cuts.contains(other) && stretch[0]
                - longest <= other <= stretch.last() + longest ==> stretch.contains(other)
                || given.scores[other].cost_ratio.lt(double(ABA_CHAIN_MIN_HIDDEN_COST_RATIO)),
        forall|i: int, j: int|
            0 <= i < stretch.len() - 1 && j == i + 1 ==> #[trigger] stretch[j]
                - #[trigger] stretch[i] <= longest,
        forall|i: int, j: int|
            1 <= i < stretch.len() - 2 && j == i + 1 ==> #[trigger] stretch[j]
                - #[trigger] stretch[i] <= reach,
        forall|i: int, j: int|
            0 <= i < stretch.len() - 1 && j == i + 1 ==> frame_distance(
                given.scores,
                #[trigger] stretch[i],
                #[trigger] stretch[j],
            ) is Some && frame_distance(given.scores, stretch[i], stretch[j]).unwrap() >= 8
                * FRAME_LUMA_SIGNATURE_CELLS,
        forall|i: int, j: int|
            0 <= i < stretch.len() - 2 && j == i + 2 ==> frame_distance(
                given.scores,
                #[trigger] stretch[i],
                #[trigger] stretch[j],
            ) is Some && frame_distance(given.scores, stretch[i], stretch[j]).unwrap() <= 5
                * FRAME_LUMA_SIGNATURE_CELLS,
        given.cuts.contains(stretch[at]),
        given.scores.contains_key(stretch[at]),
        given.scores[stretch[at]].decision == ScenecutDecision::Cut
            || given.scores[stretch[at]].decision == ScenecutDecision::CutImportance
            || given.scores[stretch[at]].decision == ScenecutDecision::CutAbaReturn,
    ensures
        !without_chains(opts, given).cuts.contains(stretch[at]),
        without_chains(opts, given).scores[stretch[at]].decision
            == ScenecutDecision::SuppressedAbaChain,
        given.cuts.contains(stretch[0]) ==> without_chains(opts, given).cuts.contains(stretch[0]),
        given.cuts.contains(stretch.last()) ==> without_chains(opts, given).cuts.contains(
            stretch.last(),
        ),
{
    let limits = limits_of(opts);
    let boundaries = ascending(boundaries_of(given));
    let first = stretch_has_its_place(given, stretch, longest);
    stretch_gives_up_its_cuts(given, boundaries, limits, stretch, first, at, reach, longest);
    let taken = chained_cuts(opts, given);
    assert(taken == redundant_in_turn(
        given,
        boundaries,
        by_length(chains_of(given, boundaries, limits, (boundaries.len() - 2) as nat)),
    ));
    assert(taken.contains(stretch[at]));
}

/// A stretch between which scenes alternate gives up its cuts, but for those at its ends.
proof fn stretch_gives_up_its_cuts(
    given: Timeline,
    boundaries: Seq<usize>,
    limits: SegmentLimits,
    stretch: Seq<usize>,
    first: int,
    at: int,
    reach: int,
    longest: int,
)
    requires
        stretch.len() >= 5,
        reach == limits.break_len,
        limits.max_len == longest || limits.max_len == usize::MAX,
        longest >= limits.max_len,
        increasing(boundaries),
        boundaries.len() <= usize::MAX,
        0 <= first <= first + stretch.len() <= boundaries.len(),
        forall|k: int| 0 <= k < stretch.len() ==> boundaries[first + k] == #[trigger] stretch[k],
        0 < at < stretch.len() - 1,
        first + stretch.len() < boundaries.len() ==> boundaries[first + stretch.len()]
            - stretch.last() > longest,
        first > 0 ==> stretch[0] - boundaries[first - 1] > longest,
        forall|i: int, j: int|
            0 <= i < stretch.len() - 1 && j == i + 1 ==> #[trigger] stretch[j]
                - #[trigger] stretch[i] <= longest,
        forall|i: int, j: int|
            1 <= i < stretch.len() - 2 && j == i + 1 ==> #[trigger] stretch[j]
                - #[trigger] stretch[i] <= reach,
        forall|i: int, j: int|
            0 <= i < stretch.len() - 1 && j == i + 1 ==> frame_distance(
                given.scores,
                #[trigger] stretch[i],
                #[trigger] stretch[j],
            ) is Some && frame_distance(given.scores, stretch[i], stretch[j]).unwrap() >= 8
                * FRAME_LUMA_SIGNATURE_CELLS,
        forall|i: int, j: int|
            0 <= i < stretch.len() - 2 && j == i + 2 ==> frame_distance(
                given.scores,
                #[trigger] stretch[i],
                #[trigger] stretch[j],
            ) is Some && frame_distance(given.scores, stretch[i], stretch[j]).unwrap() <= 5
                * FRAME_LUMA_SIGNATURE_CELLS,
        given.cuts.contains(stretch[at]),
        given.scores.contains_key(stretch[at]),
        given.scores[stretch[at]].decision == ScenecutDecision::Cut
            || given.scores[stretch[at]].decision == ScenecutDecision::CutImportance
            || given.scores[stretch[at]].decision == ScenecutDecision::CutAbaReturn,
    ensures
        ({
            let taken = redundant_in_turn(
                given,
                boundaries,
                by_length(chains_of(given, boundaries, limits, (boundaries.len() - 2) as nat)),
            );
            &&& taken.contains(stretch[at])
            &&& !taken.contains(stretch[0])
            &&& !taken.contains(stretch.last())
        }),
{
    let size = stretch.len() as int;
    let lone = AbaChain { start: first as usize, end: (first + size) as usize };
    assert(boundaries[first + (size - 1)] == stretch[size - 1]);
    assert(boundaries[first + 0] == stretch[0]);
    stretch_is_a_chain(given, boundaries, limits, stretch, first, at, reach, longest);
    lone_chain_gives_up_its_cuts(given, boundaries, limits, lone);
}

/// Where scenes of two kinds alternate over at least four short scenes, with cuts or changes
/// that went without one between them, apart from all others, they are one scene: every cut
/// inside the stretch goes, and says why, while cuts at its ends do not go for it.
pub proof fn alternating_scenes_are_one(
    opts: DetectionOptions,
    state: Timeline,
    stretch: Seq<usize>,
    at: int,
)
    requires
        opts.analysis_speed == SceneDetectionSpeed::High,
        is_run_of_video(state),
        0 < at < stretch.len() - 1,
        ({
            let d = without_dark_occlusions(
                without_micro_splits(
                    without_text_cards(without_returns(opts.tuning.forward_similarity, state)),
                ),
            );
            let g = with_refined_peaks(opts, with_sparse_peaks(opts, with_dark_peaks(opts, d)));
            let given = with_returns(opts, g);
            let reach = if opts.tuning.forward_similarity.frames > 1 {
                opts.tuning.forward_similarity.frames as int
            } else {
                1
            };
            let longest = reach + reach / 2 + if reach < 50 {
                reach
            } else {
                50
            };
            &&& stretch.len() >= 5
            &&& 0 < stretch[0]
            &&& forall|i: int, j: int|
                0 <= i < j < stretch.len() ==> #[trigger] stretch[i] < #[trigger] stretch[j]
            &&& forall|k: int|
                0 <= k < stretch.len() ==> {
                    let score = given.scores[#[trigger] stretch[k]];
                    ||| given.cuts.contains(stretch[k])
                    ||| {
                        &&& given.scores.contains_key(stretch[k])
                        &&& score.decision == ScenecutDecision::NoCut || score.decision
                            == ScenecutDecision::SuppressedForwardSimilarity || score.decision
                            == ScenecutDecision::SuppressedTransientSimilarity
                        &&& double(ABA_CHAIN_MIN_HIDDEN_COST_RATIO).le(score.cost_ratio)
                        &&& score.cost_ratio.le(double(ABA_CHAIN_MAX_HIDDEN_COST_RATIO))
                        &&& double(ABA_CHAIN_MIN_HIDDEN_IMP_RATIO).le(score.imp_block_ratio)
                        &&& double(ABA_CHAIN_MIN_HIDDEN_GLOBAL_IMP_RATIO).le(
                            score.global_imp_block_ratio,
                        )
                        &&& score.avg_luma_8bit.le(double(ABA_CHAIN_MAX_HIDDEN_LUMA_8BIT))
                        &&& score.static_good_block_ratio.le(
                            double(ABA_CHAIN_MAX_HIDDEN_GOOD_BLOCK_RATIO),
                        )
                        &&& frame_distance(given.scores, (stretch[k] - 1) as usize, stretch[k]) is Some
                        &&& frame_distance(
                            given.scores,
                            (stretch[k] - 1) as usize,
                            stretch[k],
                        ).unwrap() >= 5 * FRAME_LUMA_SIGNATURE_CELLS
                    }
                }
            &&& forall|cut: usize| #[trigger]
                given.cuts.contains(cut) && cut != 0 && stretch[0] - longest <= cut
                    <= stretch.last() + longest ==> stretch.contains(cut)
            &&& forall|other: usize| #[trigger]
                given.scores.contains_key(other) && !given.cuts.contains(other) && stretch[0]
                    - longest <= other <= stretch.last() + longest ==> stretch.contains(other)
                    || given.scores[other].cost_ratio.lt(double(ABA_CHAIN_MIN_HIDDEN_COST_RATIO))
            &&& forall|i: int, j: int|
                0 <= i < stretch.len() - 1 && j == i + 1 ==> #[trigger] stretch[j]
                    - #[trigger] stretch[i] <= longest
            &&& forall|i: int, j: int|
                1 <= i < stretch.len() - 2 && j == i + 1 ==> #[trigger] stretch[j]
                    - #[trigger] stretch[i] <= reach
            &&& forall|i: int, j: int|
                0 <= i < stretch.len() - 1 && j == i + 1 ==> frame_distance(
                    given.scores,
                    #[trigger] stretch[i],
                    #[trigger] stretch[j],
                ) is Some && frame_distance(given.scores, stretch[i], stretch[j]).unwrap() >= 8
                    * FRAME_LUMA_SIGNATURE_CELLS
            &&& forall|i: int, j: int|
                0 <= i < stretch.len() - 2 && j == i + 2 ==> frame_distance(
                    given.scores,
                    #[trigger] stretch[i],
                    #[trigger] stretch[j],
                ) is Some && frame_distance(given.scores, stretch[i], stretch[j]).unwrap() <= 5
                    * FRAME_LUMA_SIGNATURE_CELLS
            &&& given.cuts.contains(stretch[at])
            &&& given.scores.contains_key(stretch[at])
            &&& given.scores[stretch[at]].decision == ScenecutDecision::Cut
                || given.scores[stretch[at]].decision == ScenecutDecision::CutImportance
                || given.scores[stretch[at]].decision == ScenecutDecision::CutAbaReturn
        }),
    ensures
        ({
            let d = without_dark_occlusions(
                without_micro_splits(
                    without_text_cards(without_returns(opts.tuning.forward_similarity, state)),
                ),
            );
            let g = with_refined_peaks(opts, with_sparse_peaks(opts, with_dark_peaks(opts, d)));
            let given = with_returns(opts, g);
            &&& !corrected(opts, state).cuts.contains(stretch[at])
            &&& corrected(opts, state).scores[stretch[at]].decision
                == ScenecutDecision::SuppressedAbaChain
            &&& given.cuts.contains(stretch[0]) ==> without_chains(opts, given).cuts.contains(
                stretch[0],
            )
            &&& given.cuts.contains(stretch.last()) ==> without_chains(opts, given).cuts.contains(
                stretch.last(),
            )
        }),
{
    stages(opts, state);
    let a = without_returns(opts.tuning.forward_similarity, state);
    let d = without_dark_occlusions(without_micro_splits(without_text_cards(a)));
    let g = with_refined_peaks(opts, with_sparse_peaks(opts, with_dark_peaks(opts, d)));
    let given = with_returns(opts, g);
    corrections_leave_runs(opts, given);
    let after = without_chains(opts, given);
    assert(remaining(opts, given, 9) == remaining(opts, after, 10));
    let reach = if opts.tuning.forward_similarity.frames > 1 {
        opts.tuning.forward_similarity.frames as int
    } else {
        1
    };
    let longest = reach + reach / 2 + if reach < 50 {
        reach
    } else {
        50
    };
    alternating_cuts_go(opts, given, stretch, at, reach, longest);
    assert(given.scores.contains_key(stretch[at]));
    assert(after.scores.contains_key(stretch[at]));
    assert(!after.cuts.contains(stretch[at]));
    mark_stays(opts, after, stretch[at], 10);
}

} // verus!
