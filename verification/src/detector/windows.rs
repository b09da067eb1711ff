//! What the detector looks at, before and after a frame, and what it takes from it.

use vstd::prelude::*;
use crate::active::{whole, ActiveRegion};
use crate::blocks::{all_blocks, positions, ranked, ranking_is_total, ranking_keeps_count};
use crate::blocks::{is_capped_top, top_blocks, BlockGrid, BlockShare};
use crate::detector::analysis::ScenecutAnalysis;
use crate::detector::compare::{adjusted_forward, lowest, peak_height};
use crate::detector::cost::rect_of;
use crate::detector::importance::{selection, with_importance, SelectionRule};
use crate::detector::search::{in_order, recorded, recording_keeps_order, with_candidate, ForwardSearch};
use crate::detector::search::place_of;
use crate::detector::segments::{closest_of, compared_frames, pairs_of};
use crate::detector::verdict::RelaxedRatios;
use crate::detector::state::SceneChangeDetector;
use crate::measure::{double, Measure};
use crate::options::{ForwardSimilarityOptions, ImportanceAggregation, TransientSimilarityOptions};
use crate::score::{ForwardSimilarityCandidate, ForwardSimilarityCandidateDecision, ScenecutResult};

verus! {

/// The lowest of some numbers is one of them, and no other is lower.
proof fn lowest_is_one_of_them(values: Seq<Measure>, k: int)
    requires
        0 <= k < values.len(),
        forall|i: int| 0 <= i < values.len() ==> !(#[trigger] values[i]).is_nan(),
    ensures
        lowest(values).le(values[k]),
        values.contains(lowest(values)),
    decreases values.len(),
{
    if values.len() > 1 {
        let rest = values.drop_last();
        let last = values.len() - 1;
        assert(!values[last].is_nan());
        assert forall|i: int| 0 <= i < rest.len() implies !(#[trigger] rest[i]).is_nan() by {
            assert(!values[i].is_nan());
        }
        let at = if k < last {
            k
        } else {
            0
        };
        lowest_is_one_of_them(rest, at);
        assert(!values[k].is_nan());
        let i = rest.index_of(lowest(rest));
        assert(values[i] == lowest(rest));
        assert(values[last] == values.last());
    } else {
        assert(values[0] == lowest(values));
    }
}

/// A new frame stands above the frames before it by the least that it stands above any of
/// them; where it stands below one, by nothing.
pub proof fn peak_stands_above_every_frame_before(above: Seq<Measure>, k: int)
    requires
        0 <= k < above.len(),
        forall|i: int| 0 <= i < above.len() ==> !(#[trigger] above[i]).is_nan(),
    ensures
        above[k].lt(double(0)) ==> peak_height(above) == double(0),
        peak_height(above).le(above[k]) || above[k].lt(double(0)),
        !peak_height(above).lt(double(0)),
        (forall|i: int| 0 <= i < above.len() ==> double(0).le(#[trigger] above[i]))
            ==> above.contains(peak_height(above)),
{
    lowest_is_one_of_them(above, k);
    if forall|i: int| 0 <= i < above.len() ==> !(#[trigger] above[i]).lt(double(0)) {
        let i = above.index_of(lowest(above));
        assert(!above[i].lt(double(0)));
    }
    if above[k].lt(double(0)) {
        assert(exists|i: int| 0 <= i < above.len() && (#[trigger] above[i]).lt(double(0)));
    }
}

/// By each later frame, the height of a frame over those after it falls to what it stands
/// above the new one, never rises but where that is the first, and never falls below zero.
pub proof fn height_only_falls(current: Measure, difference: Measure)
    requires
        !current.is_nan(),
        !difference.is_nan(),
        double(0).le(current),
    ensures
        double(0).le(adjusted_forward(current, difference, false)),
        adjusted_forward(current, difference, false).le(current),
        difference.le(double(0)) ==> adjusted_forward(current, difference, false).le(double(0)),
        double(0).le(difference) ==> adjusted_forward(current, difference, false).le(difference),
        current.le(difference) ==> adjusted_forward(current, difference, false) == current,
        double(0).le(difference) ==> adjusted_forward(current, difference, true) == difference,
        difference.lt(double(0)) ==> adjusted_forward(current, difference, true) == double(0),
{
}

/// A search looks at every offset from the smallest, and from the second frame after the cut,
/// up to the last frame that its window reaches and that is there, and at no other.
pub proof fn search_covers_its_reach(
    search: ForwardSearch,
    options: ForwardSimilarityOptions,
    score: ScenecutResult,
    frame: int,
    frames: int,
    previous_frames: int,
    offset: int,
)
    requires
        search.begins(options, score, frame, frames, previous_frames),
        frames >= 1,
        previous_frames >= 0,
    ensures
        search.min_offset <= offset <= search.max_offset <==> {
            &&& offset >= 2
            &&& offset >= options.min_offset
            &&& offset < frames
            &&& offset <= options.frames + 1 || (options.window_frames > 1 && offset
                <= options.frames + options.window_frames)
        },
        search.offset == search.min_offset,
        search.compared >= 1,
        search.compared == 1 || search.compared <= options.window_frames,
        search.compared == 1 || search.compared <= previous_frames,
        previous_frames >= options.window_frames >= 1 ==> search.compared == options.window_frames,
        search.accepted is None,
        search.rejected_candidates == 0,
{
}

/// A later stretch that is compared is as long as what it is compared with, ends at the
/// offset that is judged, and begins no sooner than the last change before it. It is
/// compared wherever it fits.
pub proof fn segment_lies_after_the_change(
    search: ForwardSearch,
    detector: SceneChangeDetector,
    relaxed: Seq<RelaxedRatios>,
)
    requires
        search.compared >= 1,
    ensures
        ({
            let start = search.start_at(detector, relaxed);
            let change = search.candidate_at(detector, relaxed);
            &&& start is Some ==> {
                &&& search.offset - start.unwrap() + 1 == search.compared
                &&& start.unwrap() >= 1
                &&& change is Some ==> change.unwrap() <= start.unwrap()
            }
            &&& start is None ==> search.offset < search.compared || (change is Some
                && search.offset + 1 - search.compared < change.unwrap())
        }),
{
}

/// Of the candidates of a search the closest are kept: a new one comes in where there is
/// room, where it is accepted or where it is closer than the last, and pushes out no more
/// than the last.
pub proof fn closest_candidates_are_kept(
    candidates: Seq<ForwardSimilarityCandidate>,
    candidate: ForwardSimilarityCandidate,
    k: int,
)
    requires
        in_order(candidates),
        !candidate.delta.is_nan(),
        0 <= k < candidates.len(),
    ensures
        ({
            let after = recorded(candidates, candidate);
            let full = candidates.len() == 8;
            &&& !full ==> after.len() == candidates.len() + 1
            &&& full ==> after.len() == 8
            &&& !full || k < 7 ==> after.contains(candidates[k])
            &&& !full || candidate.delta.lt(candidates.last().delta) || candidate.decision
                == ForwardSimilarityCandidateDecision::Accepted ==> after.contains(candidate)
            &&& full && candidates.last().delta.le(candidate.delta) && candidate.decision
                != ForwardSimilarityCandidateDecision::Accepted ==> after == candidates
        }),
{
    recording_keeps_order(candidates, candidate);
    let base = if candidates.len() < 8 {
        candidates
    } else {
        candidates.drop_last()
    };
    let after = with_candidate(base, candidate);
    place_lies_within(base, candidate.delta);
    let place = place_of(base, candidate.delta);
    assert(after[place] == candidate);
    if k < base.len() {
        assert(base[k] == candidates[k]);
        if k < place {
            assert(after[k] == base[k]);
        } else {
            assert(after[k + 1] == base[k]);
        }
    }
}

/// A place for a candidate lies among the others.
proof fn place_lies_within(candidates: Seq<ForwardSimilarityCandidate>, delta: Measure)
    ensures
        0 <= place_of(candidates, delta) <= candidates.len(),
    decreases candidates.len(),
{
    if candidates.len() > 0 {
        place_lies_within(candidates.drop_last(), delta);
    }
}

/// The closest likeness of some pairs is that of one of them, and none is closer.
pub proof fn closest_is_one_of_them(deltas: Seq<Measure>, k: int)
    requires
        0 <= k < deltas.len(),
        forall|i: int|
            0 <= i < deltas.len() ==> (#[trigger] deltas[i]).lt(closest_of(Seq::empty())),
    ensures
        closest_of(deltas).le(deltas[k]),
        deltas.contains(closest_of(deltas)),
    decreases deltas.len(),
{
    let rest = deltas.drop_last();
    let last = deltas.len() - 1;
    assert(deltas[last].lt(closest_of(Seq::empty())));
    assert(deltas[last] == deltas.last());
    if last == 0 {
        assert(rest =~= Seq::empty());
    } else {
        assert forall|i: int| 0 <= i < rest.len() implies (#[trigger] rest[i]).lt(
            closest_of(Seq::empty()),
        ) by {
            assert(deltas[i] == rest[i]);
        }
        let at = if k < last {
            k
        } else {
            0
        };
        closest_is_one_of_them(rest, at);
        let i = rest.index_of(closest_of(rest));
        assert(deltas[i] == closest_of(rest));
        assert(deltas[k].lt(closest_of(Seq::empty())));
    }
}

/// The last of the frames before a cut are compared, in order, with the first of a later
/// stretch: as many as both have.
pub proof fn frames_are_paired_in_order(references: int, start: int, end: int, k: int)
    requires
        0 < references <= usize::MAX,
        0 <= start <= end < usize::MAX,
        0 <= k < references,
        k <= end - start,
    ensures
        ({
            let pairs = pairs_of(references, start, end);
            let last = pairs.len() - 1;
            &&& k <= last
            &&& pairs[0].later == start
            &&& pairs[last].reference == references - 1
            &&& pairs[last].later <= end
            &&& pairs.len() == references || pairs[last].later == end
            &&& pairs[k].later - pairs[0].later == k
            &&& pairs[k].reference - pairs[0].reference == k
            &&& pairs[0].reference >= 0
        }),
{
}

/// On both sides of a cut the nearest frames are compared, as many as are set and are there.
pub proof fn nearest_frames_are_compared(
    options: TransientSimilarityOptions,
    previous_frames: int,
    frames: int,
    k: int,
)
    requires
        0 <= previous_frames <= usize::MAX,
        0 <= frames <= usize::MAX,
    ensures
        ({
            let compared = compared_frames(options, previous_frames, frames);
            &&& compared is Some <==> options.enabled && options.frames >= 1 && previous_frames >= 1
                && frames >= 2
            &&& compared is Some ==> {
                &&& compared.unwrap().pre_start <= k < previous_frames <==> previous_frames
                    - options.frames <= k && 0 <= k < previous_frames
                &&& 1 <= k <= compared.unwrap().post_count <==> 1 <= k <= options.frames && k
                    < frames
            }
        }),
{
}

/// A sample lies in the part of a picture that is looked at where its block does: blocks are
/// eight samples wide and high. A whole picture has no such part.
pub proof fn samples_lie_in_their_blocks(region: ActiveRegion, x: int, y: int)
    requires
        region.wf(),
        region.cols * 8 <= usize::MAX,
        region.rows * 8 <= usize::MAX,
        0 <= x,
        0 <= y,
    ensures
        rect_of(region) is None <==> region.left == 0 && region.top == 0 && region.right
            == region.cols && region.bottom == region.rows,
        rect_of(region) matches Some(rect) ==> {
            rect.left <= x < rect.right && rect.top <= y < rect.bottom <==> region.covers(
                x / 8,
                y / 8,
            )
        },
{
}

/// The strongest blocks are as many as the share asks for, at least one and at most all; a
/// share of nothing has none.
pub proof fn top_blocks_make_up_their_share(source: Seq<Measure>, share: BlockShare)
    requires
        0 < source.len() <= usize::MAX,
    ensures
        double(0).lt(share.percent) ==> top_blocks(source, share).len() == if share.blocks < 1 {
            1
        } else if share.blocks > source.len() {
            source.len() as int
        } else {
            share.blocks as int
        },
        share.percent.le(double(0)) ==> top_blocks(source, share).len() == 0,
{
    ranking_keeps_count(positions(source), all_blocks(source.len()));
}

/// No block that is left out is stronger than one of the strongest.
pub proof fn top_blocks_are_the_strongest(
    source: Seq<Measure>,
    share: BlockShare,
    inside: usize,
    outside: usize,
)
    requires
        0 < source.len() <= usize::MAX,
        forall|i: int| 0 <= i < source.len() ==> !(#[trigger] source[i]).is_nan(),
        double(0).lt(share.percent),
        inside < source.len(),
        outside < source.len(),
        top_blocks(source, share).contains(inside),
        !top_blocks(source, share).contains(outside),
    ensures
        source[outside as int].le(source[inside as int]),
        source[outside as int].same(source[inside as int]) ==> inside < outside,
{
    let values = positions(source);
    let blocks = all_blocks(source.len());
    let all = ranked(values, blocks);
    let order = |left: usize, right: usize| crate::blocks::ranks_first(values, left, right);
    ranking_is_total(values);
    blocks.lemma_sort_by_ensures(order);
    blocks.to_multiset_ensures();
    all.to_multiset_ensures();
    assert(all.len() == blocks.len());
    let count = share.count(source.len() as int);
    let top = all.take(count);
    let i = top.index_of(inside);
    assert(all[i] == inside);
    assert(blocks[outside as int] == outside);
    assert(blocks.contains(outside));
    assert(all.contains(outside)) by {
        assert(blocks.to_multiset().count(outside) > 0);
        assert(all.to_multiset().count(outside) > 0);
    }
    let j = all.index_of(outside);
    if j < count {
        assert(top[j] == outside);
    }
    assert(i < j);
    assert(order(all[i], all[j]));
    assert(!source[inside as int].is_nan());
    assert(!source[outside as int].is_nan());
}

/// A block is selected where one of the three frames selects it, and a frame that is not
/// there selects none.
pub proof fn any_of_three_frames_selects(
    previous: Option<ScenecutAnalysis>,
    current: ScenecutAnalysis,
    next: Option<ScenecutAnalysis>,
    rule: SelectionRule,
    block: int,
)
    requires
        0 <= block < current.importance_blocks@.len(),
    ensures
        ({
            let mine = current.contributes(
                current,
                rule.shares.current,
                rule.region_cols,
                rule.region_rows,
                rule.spatially_capped,
            );
            let own = block < mine.len() && mine[block];
            let earlier = previous is Some && {
                let mask = previous.unwrap().contributes(
                    current,
                    rule.shares.previous,
                    rule.region_cols,
                    rule.region_rows,
                    rule.spatially_capped,
                );
                block < mask.len() && mask[block]
            };
            let later = next is Some && {
                let mask = next.unwrap().contributes(
                    current,
                    rule.shares.next,
                    rule.region_cols,
                    rule.region_rows,
                    rule.spatially_capped,
                );
                block < mask.len() && mask[block]
            };
            &&& selection(previous, current, next, rule)[block] == (own || earlier || later)
            &&& selection(previous, current, next, rule).len() == current.importance_blocks@.len()
        }),
{
}

/// Importance is the mean over all blocks where that is asked for; else the global one is
/// that of the strongest blocks, and the one that is judged is that of the strongest blocks,
/// spread over regions where that is asked for. Where no block is selected the mean over all
/// blocks stands for it.
pub proof fn importance_is_taken_as_asked_for(
    result: ScenecutResult,
    aggregation: ImportanceAggregation,
    global_mean: Option<Measure>,
    spatial_mean: Option<Measure>,
    threshold: Measure,
)
    ensures
        ({
            let raw = result.imp_block_cost_raw;
            let taken = with_importance(result, aggregation, global_mean, spatial_mean, threshold);
            &&& taken.imp_block_threshold == threshold
            &&& taken.imp_block_cost_raw == raw
            &&& taken.cost_ratio == result.cost_ratio
            &&& aggregation is Mean ==> taken.imp_block_cost == raw && taken.global_imp_block_cost
                == raw
            &&& !(aggregation is Mean) && global_mean is Some ==> taken.global_imp_block_cost
                == global_mean.unwrap()
            &&& global_mean is None ==> taken.global_imp_block_cost == raw
            &&& aggregation is TemporalTopBlocks ==> taken.imp_block_cost
                == taken.global_imp_block_cost
            &&& aggregation is SpatialTemporalTopBlocks && spatial_mean is Some
                ==> taken.imp_block_cost == spatial_mean.unwrap()
            &&& aggregation is SpatialTemporalTopBlocks && spatial_mean is None
                ==> taken.imp_block_cost == raw
        }),
{
}

/// A frame selects its strongest blocks: over the whole picture, or of each region where they
/// are to be spread; it does so whether or not it carries a mask of them already.
pub proof fn frames_select_their_strongest_blocks(
    analysis: ScenecutAnalysis,
    current: ScenecutAnalysis,
    share: BlockShare,
    region_cols: usize,
    region_rows: usize,
    block: usize,
)
    requires
        analysis.importance_blocks@.len() == current.importance_blocks@.len(),
        analysis.importance_cols == current.importance_cols,
        analysis.importance_rows == current.importance_rows,
        block < current.importance_blocks@.len() <= usize::MAX,
    ensures
        ({
            let source = analysis.importance_blocks@;
            let grid = BlockGrid {
                cols: current.importance_cols,
                rows: current.importance_rows,
                region_cols,
                region_rows,
            };
            let plain = analysis.contributes(current, share, region_cols, region_rows, false);
            let spread = analysis.contributes(current, share, region_cols, region_rows, true);
            &&& plain.len() == source.len() && spread.len() == source.len()
            &&& plain[block as int] == top_blocks(source, share).contains(block)
            &&& spread[block as int] == is_capped_top(source, share, grid, block)
        }),
{
}

} // verus!
