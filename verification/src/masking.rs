//! Which blocks count when two pictures are compared.
//!
//! The blocks that differ most are masked, so that what moves in a still scene does
//! not make two pictures of it look different.

use vstd::prelude::*;
use vstd::relations::sorted_by;
use crate::blocks::{all_blocks, block_numbers, block_region_index, ceiling, rank, ranked};
use crate::blocks::{ranking_is_total, ranking_keeps_count, ranks_first, region_of, BlockGrid};

verus! {

/// The differences as ranking values.
pub open spec fn keys_of(distances: Seq<u32>) -> Seq<i64> {
    Seq::new(distances.len(), |k: int| distances[k] as i64)
}

/// All blocks, the one that differs most first.
pub open spec fn most_different(distances: Seq<u32>) -> Seq<usize> {
    ranked(keys_of(distances), all_blocks(distances.len()))
}

/// What is kept when the given blocks are masked.
pub open spec fn kept_without(count: nat, masked: Set<usize>) -> Seq<bool> {
    Seq::new(count, |k: int| !masked.contains(k as usize))
}

/// The number of masked blocks in a region.
pub open spec fn masked_in_region(masked: Set<usize>, grid: BlockGrid, region: int) -> nat {
    masked.filter(|block: usize| region_of(block as int, grid) == region).len()
}

/// The blocks that are masked, taken in turn: each one while fewer are masked than
/// wanted, and fewer of its region than the cap.
pub open spec fn masked_in_turn(
    blocks: Seq<usize>,
    grid: BlockGrid,
    wanted: int,
    cap: int,
) -> Set<usize>
    decreases blocks.len(),
{
    if blocks.len() == 0 {
        Set::empty()
    } else {
        let before = masked_in_turn(blocks.drop_last(), grid, wanted, cap);
        let block = blocks.last();
        if before.len() < wanted && masked_in_region(
            before,
            grid,
            region_of(block as int, grid),
        ) < cap {
            before.insert(block)
        } else {
            before
        }
    }
}

/// How many blocks are to be kept, and how many masked, before they are fitted to
/// the number of blocks.
#[derive(Clone, Copy, Debug, PartialEq, Eq, Structural)]
pub struct MaskCounts {
    /// The share that is kept, in blocks, rounded up.
    pub keep: usize,
    /// The share that is masked, in blocks, rounded up.
    pub mask: usize,
}

/// The number of blocks that are kept out of so many: at least one.
pub open spec fn kept_count(counts: MaskCounts, blocks: int) -> int {
    if counts.keep < 1 {
        1
    } else if counts.keep <= blocks {
        counts.keep as int
    } else {
        blocks
    }
}

/// The number of blocks that are masked out of so many: not all of them.
pub open spec fn masked_count(counts: MaskCounts, blocks: int) -> int {
    if counts.mask <= blocks - 1 {
        counts.mask as int
    } else {
        blocks - 1
    }
}

/// The grid with no more regions in a row or column than it has blocks.
pub open spec fn fitted(grid: BlockGrid) -> BlockGrid {
    BlockGrid {
        region_cols: if grid.region_cols < 1 {
            1
        } else if grid.region_cols <= grid.cols {
            grid.region_cols
        } else {
            grid.cols
        },
        region_rows: if grid.region_rows < 1 {
            1
        } else if grid.region_rows <= grid.rows {
            grid.region_rows
        } else {
            grid.rows
        },
        ..grid
    }
}

/// Which blocks are kept: all of them where none is to be masked; else all but those
/// that differ most, which are spread over the regions where there are several.
pub open spec fn kept_blocks(
    distances: Seq<u32>,
    counts: MaskCounts,
    grid: BlockGrid,
) -> Seq<bool> {
    let blocks = distances.len() as int;
    let keep = kept_count(counts, blocks);
    let mask = masked_count(counts, blocks);
    if keep == blocks {
        kept_without(distances.len(), Set::empty())
    } else if grid.region_cols <= 1 && grid.region_rows <= 1 {
        kept_without(distances.len(), most_different(distances).take(blocks - keep).to_set())
    } else {
        let regions = fitted(grid);
        kept_without(
            distances.len(),
            masked_in_turn(
                most_different(distances),
                regions,
                mask,
                (mask + regions.regions() - 1) / regions.regions(),
            ),
        )
    }
}

/// The differences as ranking values.
fn ranking_values(distances: &[u32]) -> (keys: Vec<i64>)
    ensures
        keys@ == keys_of(distances@),
{
    let mut keys: Vec<i64> = Vec::new();
    for index in 0..distances.len()
        invariant
            keys@ == keys_of(distances@).take(index as int),
    {
        keys.push(distances[index] as i64);
        assert(keys@ =~= keys_of(distances@).take(index + 1));
    }
    assert(keys@ =~= keys_of(distances@));
    keys
}

/// All blocks are ranked, each once.
proof fn ranking_is_complete(distances: Seq<u32>)
    requires
        distances.len() <= usize::MAX,
    ensures
        most_different(distances).len() == distances.len(),
        most_different(distances).no_duplicates(),
        forall|k: int|
            0 <= k < distances.len() ==> #[trigger] most_different(distances)[k] < distances.len(),
        forall|block: usize|
            block < distances.len() ==> #[trigger] most_different(distances).contains(block),
        sorted_by(
            most_different(distances),
            |a: usize, b: usize| ranks_first(keys_of(distances), a, b),
        ),
{
    let values = keys_of(distances);
    let blocks = all_blocks(distances.len());
    let order = |a: usize, b: usize| ranks_first(values, a, b);
    ranking_keeps_count(values, blocks);
    ranking_is_total(values);
    blocks.lemma_sort_by_ensures(order);
    let ordered = most_different(distances);
    assert(blocks.no_duplicates());
    broadcast use vstd::seq_lib::group_to_multiset_ensures;

    assert forall|k: int| 0 <= k < ordered.len() implies #[trigger] ordered[k]
        < distances.len() by {
        assert(ordered.contains(ordered[k]));
        assert(blocks.contains(ordered[k]));
    }
    assert forall|block: usize| block < distances.len() implies #[trigger] ordered.contains(
        block,
    ) by {
        assert(blocks[block as int] == block);
        assert(blocks.contains(block));
        assert(blocks.to_multiset().count(block) > 0);
        assert(ordered.to_multiset().count(block) > 0);
    }
    assert(blocks.to_multiset() == ordered.to_multiset());
    blocks.lemma_multiset_has_no_duplicates();
    ordered.lemma_multiset_has_no_duplicates_conv();
}

/// A masked block more is one more in its region.
proof fn region_gains_one(masked: Set<usize>, grid: BlockGrid, block: usize, region: int)
    requires
        masked.finite(),
        !masked.contains(block),
    ensures
        masked_in_region(masked.insert(block), grid, region) == masked_in_region(
            masked,
            grid,
            region,
        ) + if region_of(block as int, grid) == region {
            1nat
        } else {
            0
        },
{
    let in_region = |b: usize| region_of(b as int, grid) == region;
    let before = masked.filter(in_region);
    let after = masked.insert(block).filter(in_region);
    vstd::set_lib::lemma_set_subset_finite(masked, before);
    if region_of(block as int, grid) == region {
        assert(after =~= before.insert(block));
    } else {
        assert(after =~= before);
    }
}

/// What is masked in turn are blocks of the list.
proof fn masked_are_listed(blocks: Seq<usize>, grid: BlockGrid, wanted: int, cap: int)
    ensures
        masked_in_turn(blocks, grid, wanted, cap).finite(),
        forall|block: usize| #[trigger]
            masked_in_turn(blocks, grid, wanted, cap).contains(block) ==> blocks.contains(block),
    decreases blocks.len(),
{
    if blocks.len() > 0 {
        let rest = blocks.drop_last();
        masked_are_listed(rest, grid, wanted, cap);
        let after = masked_in_turn(blocks, grid, wanted, cap);
        assert forall|block: usize| #[trigger] after.contains(block) implies blocks.contains(
            block,
        ) by {
            if rest.contains(block) {
                assert(blocks[rest.index_of(block)] == block);
            } else {
                assert(blocks[blocks.len() - 1] == block);
            }
        }
    }
}

/// Masks the blocks that differ most, in turn, within the cap of each region.
fn mask_in_turn(
    ordered: &Vec<usize>,
    grid: &BlockGrid,
    wanted: usize,
    cap: usize,
    regions: usize,
) -> (kept: Vec<bool>)
    requires
        grid.cols > 0,
        grid.rows > 0,
        grid.region_cols > 0,
        grid.region_rows > 0,
        regions == grid.regions(),
        ordered@.no_duplicates(),
        forall|k: int| 0 <= k < ordered.len() ==> #[trigger] ordered@[k] < ordered.len(),
    ensures
        kept@ == kept_without(
            ordered@.len(),
            masked_in_turn(ordered@, *grid, wanted as int, cap as int),
        ),
{
    let mut kept: Vec<bool> = Vec::new();
    for block in 0..ordered.len()
        invariant
            kept.len() == block,
            forall|k: int| 0 <= k < block ==> #[trigger] kept@[k],
    {
        kept.push(true);
    }
    let mut counts: Vec<usize> = Vec::new();
    for region in 0..regions
        invariant
            counts.len() == region,
            forall|k: int| 0 <= k < region ==> #[trigger] counts@[k] == 0,
    {
        counts.push(0);
    }
    let mut masked: usize = 0;
    let ghost mut set = Set::<usize>::empty();
    proof {
        assert forall|r: int| 0 <= r < regions implies #[trigger] masked_in_region(
            set,
            *grid,
            r,
        ) == 0 by {
            assert(set.filter(|block: usize| region_of(block as int, *grid) == r) =~= Set::empty());
        }
        assert(kept@ =~= kept_without(ordered@.len(), set));
    }
    for index in 0..ordered.len()
        invariant
            grid.cols > 0,
            grid.rows > 0,
            grid.region_cols > 0,
            grid.region_rows > 0,
            regions == grid.regions(),
            ordered@.no_duplicates(),
            forall|k: int| 0 <= k < ordered.len() ==> #[trigger] ordered@[k] < ordered.len(),
            set == masked_in_turn(
                ordered@.take(index as int),
                *grid,
                wanted as int,
                cap as int,
            ),
            set.finite(),
            masked == set.len(),
            masked <= index,
            counts.len() == regions,
            forall|r: int|
                0 <= r < regions ==> #[trigger] counts@[r] == masked_in_region(set, *grid, r)
                    && counts@[r] <= index,
            kept@ == kept_without(ordered@.len(), set),
    {
        let block: usize = ordered[index];
        let region: usize = block_region_index(block, grid);
        proof {
            let rest = ordered@.take(index as int);
            assert(ordered@.take(index + 1).drop_last() =~= rest);
            assert(ordered@.take(index + 1).last() == block);
            masked_are_listed(rest, *grid, wanted as int, cap as int);
            assert(!set.contains(block)) by {
                if set.contains(block) {
                    let k = rest.index_of(block);
                    assert(ordered@[k] == block);
                }
            }
            assert(counts@[region as int] == masked_in_region(set, *grid, region as int));
        }
        if masked < wanted && counts[region] < cap {
            proof {
                assert forall|r: int| 0 <= r < regions implies #[trigger] masked_in_region(
                    set.insert(block),
                    *grid,
                    r,
                ) == masked_in_region(set, *grid, r) + if r == region {
                    1nat
                } else {
                    0
                } by {
                    region_gains_one(set, *grid, block, r);
                }
            }
            kept.set(block, false);
            counts.set(region, counts[region] + 1);
            masked = masked + 1;
            proof {
                set = set.insert(block);
                assert(kept@ =~= kept_without(ordered@.len(), set));
            }
        }
    }
    assert(ordered@.take(ordered.len() as int) =~= ordered@);
    kept
}

/// Which blocks are kept when two pictures are compared by their block differences.
pub fn unmasked_blocks(
    distances: &[u32],
    counts: MaskCounts,
    grid: &BlockGrid,
) -> (kept: Vec<bool>)
    requires
        distances@.len() > 0,
        grid.cols > 0,
        grid.rows > 0,
        fitted(*grid).regions() <= usize::MAX,
    ensures
        kept@ == kept_blocks(distances@, counts, *grid),
{
    let blocks: usize = distances.len();
    let keep: usize = if counts.keep < 1 {
        1
    } else if counts.keep <= blocks {
        counts.keep
    } else {
        blocks
    };
    let keys: Vec<i64> = ranking_values(distances);
    let ordered: Vec<usize> = rank(keys.as_slice(), block_numbers(blocks));
    proof {
        ranking_is_complete(distances@);
    }
    if keep == blocks || (grid.region_cols <= 1 && grid.region_rows <= 1) {
        let mut kept: Vec<bool> = Vec::new();
        for block in 0..blocks
            invariant
                kept.len() == block,
                forall|k: int| 0 <= k < block ==> #[trigger] kept@[k],
        {
            kept.push(true);
        }
        let masked: usize = blocks - keep;
        assert(kept@ =~= kept_without(distances@.len(), ordered@.take(0).to_set()));
        for index in 0..masked
            invariant
                masked <= ordered.len(),
                blocks == distances@.len(),
                forall|k: int| 0 <= k < ordered.len() ==> #[trigger] ordered@[k] < blocks,
                kept@ == kept_without(distances@.len(), ordered@.take(index as int).to_set()),
        {
            kept.set(ordered[index], false);
            proof {
                crate::timeline::prefix_gains_one(ordered@, index as int);
                assert(kept@ =~= kept_without(
                    distances@.len(),
                    ordered@.take(index + 1).to_set(),
                ));
            }
        }
        assert(keep == blocks ==> ordered@.take(masked as int).to_set() =~= Set::empty());
        return kept;
    }
    let wanted: usize = if counts.mask <= blocks - 1 {
        counts.mask
    } else {
        blocks - 1
    };
    let region_cols: usize = if grid.region_cols < 1 {
        1
    } else if grid.region_cols <= grid.cols {
        grid.region_cols
    } else {
        grid.cols
    };
    let region_rows: usize = if grid.region_rows < 1 {
        1
    } else if grid.region_rows <= grid.rows {
        grid.region_rows
    } else {
        grid.rows
    };
    let regions_grid = BlockGrid { cols: grid.cols, rows: grid.rows, region_cols, region_rows };
    assert(regions_grid == fitted(*grid));
    assert(region_cols * region_rows > 0) by (nonlinear_arith)
        requires
            region_cols > 0,
            region_rows > 0,
    ;
    let regions: usize = region_cols * region_rows;
    let cap: usize = ceiling(wanted, regions);
    mask_in_turn(&ordered, &regions_grid, wanted, cap, regions)
}

/// Sum of the values that a mask keeps.
pub open spec fn sum_kept(values: Seq<u32>, kept: Seq<bool>) -> int
    decreases values.len(),
{
    if values.len() == 0 {
        0
    } else {
        sum_kept(values.drop_last(), kept.drop_last()) + if kept.last() {
            values.last() as int
        } else {
            0
        }
    }
}

/// Number of values that a mask keeps.
pub open spec fn count_kept(kept: Seq<bool>) -> int
    decreases kept.len(),
{
    if kept.len() == 0 {
        0
    } else {
        count_kept(kept.drop_last()) + if kept.last() {
            1int
        } else {
            0
        }
    }
}

/// Whether a mask keeps the lowest values.
pub open spec fn keeps_lowest(values: Seq<u32>, kept: Seq<bool>) -> bool {
    forall|i: int, j: int|
        0 <= i < values.len() && 0 <= j < values.len() && kept[i] && !kept[j]
            ==> #[trigger] values[i] <= #[trigger] values[j]
}

/// A value between those that a mask keeps and those that it leaves out.
proof fn border_value(values: Seq<u32>, kept: Seq<bool>, upto: int) -> (border: int)
    requires
        keeps_lowest(values, kept),
        values.len() == kept.len(),
        0 <= upto <= values.len(),
    ensures
        0 <= border,
        forall|k: int| 0 <= k < upto && kept[k] ==> #[trigger] values[k] <= border,
        border == 0 || exists|k: int| 0 <= k < upto && kept[k] && #[trigger] values[k] == border,
    decreases upto,
{
    if upto == 0 {
        0
    } else {
        let before = border_value(values, kept, upto - 1);
        if kept[upto - 1] && values[upto - 1] > before {
            values[upto - 1] as int
        } else {
            before
        }
    }
}

/// Below a border the lowest values sum to no more than any others.
proof fn sums_against_border(
    bounds: Seq<u32>,
    lowest: Seq<bool>,
    values: Seq<u32>,
    kept: Seq<bool>,
    border: int,
)
    requires
        bounds.len() == lowest.len() == values.len() == kept.len(),
        forall|k: int| 0 <= k < bounds.len() ==> #[trigger] bounds[k] <= values[k],
        forall|k: int| 0 <= k < bounds.len() && lowest[k] ==> #[trigger] bounds[k] <= border,
        forall|k: int| 0 <= k < bounds.len() && !lowest[k] ==> border <= #[trigger] bounds[k],
    ensures
        sum_kept(bounds, lowest) - border * count_kept(lowest) <= sum_kept(values, kept) - border
            * count_kept(kept),
    decreases bounds.len(),
{
    if bounds.len() > 0 {
        let last = bounds.len() - 1;
        let (b, l, v, k) = (
            bounds.drop_last(),
            lowest.drop_last(),
            values.drop_last(),
            kept.drop_last(),
        );
        assert forall|i: int| 0 <= i < b.len() implies #[trigger] b[i] <= v[i] by {
            assert(bounds[i] <= values[i]);
        }
        assert forall|i: int| 0 <= i < b.len() && l[i] implies #[trigger] b[i] <= border by {
            assert(bounds[i] <= border);
        }
        assert forall|i: int| 0 <= i < b.len() && !l[i] implies border <= #[trigger] b[i] by {
            assert(border <= bounds[i]);
        }
        sums_against_border(b, l, v, k, border);
        assert(bounds[last] <= values[last]);
        assert(border * (count_kept(l) + 1) == border * count_kept(l) + border) by (nonlinear_arith);
        assert(border * (count_kept(k) + 1) == border * count_kept(k) + border) by (nonlinear_arith);
    }
}

/// Where blocks are not spread over regions, those that are kept differ least.
pub proof fn simple_mask_keeps_lowest(distances: Seq<u32>, counts: MaskCounts, grid: BlockGrid)
    requires
        0 < distances.len() <= usize::MAX,
        grid.region_cols <= 1,
        grid.region_rows <= 1,
    ensures
        keeps_lowest(distances, kept_blocks(distances, counts, grid)),
{
    ranking_is_complete(distances);
    let ordered = most_different(distances);
    let masked = distances.len() - kept_count(counts, distances.len() as int);
    let top = ordered.take(masked);
    let kept = kept_blocks(distances, counts, grid);
    let order = |a: usize, b: usize| ranks_first(keys_of(distances), a, b);
    assert(sorted_by(ordered, order));
    if masked > 0 {
        assert forall|i: int, j: int|
            0 <= i < distances.len() && 0 <= j < distances.len() && kept[i] && !kept[j] implies
        #[trigger] distances[i] <= #[trigger] distances[j] by {
            assert(top.contains(j as usize));
            let at_j = top.index_of(j as usize);
            assert(ordered[at_j] == j as usize);
            assert(ordered.contains(i as usize));
            let at_i = ordered.index_of(i as usize);
            if at_i < masked {
                assert(top[at_i] == i as usize);
                assert(top.contains(i as usize));
            }
            assert(order(ordered[at_j], ordered[at_i]));
        }
    }
}

/// What is kept is at most the border on average.
proof fn kept_below_border(values: Seq<u32>, kept: Seq<bool>, border: int)
    requires
        values.len() == kept.len(),
        forall|k: int| 0 <= k < values.len() && kept[k] ==> #[trigger] values[k] <= border,
    ensures
        sum_kept(values, kept) <= border * count_kept(kept),
        0 <= count_kept(kept),
    decreases values.len(),
{
    if values.len() > 0 {
        let last = values.len() - 1;
        let (v, k) = (values.drop_last(), kept.drop_last());
        assert forall|i: int| 0 <= i < v.len() && k[i] implies #[trigger] v[i] <= border by {
            assert(values[i] <= border);
        }
        kept_below_border(v, k, border);
        assert(kept[last] ==> values[last] <= border);
        assert(border * (count_kept(k) + 1) == border * count_kept(k) + border) by (nonlinear_arith);
    }
}

/// The lowest bounds are on average no more than any values that they bound, as long as
/// there are at least as many of these.
pub proof fn lowest_bounds_have_lowest_mean(
    bounds: Seq<u32>,
    lowest: Seq<bool>,
    values: Seq<u32>,
    kept: Seq<bool>,
)
    requires
        bounds.len() == lowest.len() == values.len() == kept.len(),
        forall|k: int| 0 <= k < bounds.len() ==> #[trigger] bounds[k] <= values[k],
        keeps_lowest(bounds, lowest),
        count_kept(lowest) <= count_kept(kept),
    ensures
        sum_kept(bounds, lowest) * count_kept(kept) <= sum_kept(values, kept) * count_kept(lowest),
{
    let border = border_value(bounds, lowest, bounds.len() as int);
    assert forall|k: int| 0 <= k < bounds.len() && !lowest[k] implies border
        <= #[trigger] bounds[k] by {
        if border > 0 {
            let i = choose|i: int|
                0 <= i < bounds.len() && lowest[i] && #[trigger] bounds[i] == border;
            assert(bounds[i] <= bounds[k]);
        }
    }
    sums_against_border(bounds, lowest, values, kept, border);
    kept_below_border(bounds, lowest, border);
    let (low, all) = (count_kept(lowest), count_kept(kept));
    let (low_sum, all_sum) = (sum_kept(bounds, lowest), sum_kept(values, kept));
    assert(low_sum * all <= all_sum * low) by (nonlinear_arith)
        requires
            low_sum - border * low <= all_sum - border * all,
            low_sum <= border * low,
            0 <= low <= all,
    ;
}

/// What a mask keeps is all but what it leaves out.
proof fn kept_and_masked_are_all(count: nat, masked: Set<usize>)
    requires
        count <= usize::MAX,
        masked.finite(),
        forall|block: usize| #[trigger] masked.contains(block) ==> block < count,
    ensures
        count_kept(kept_without(count, masked)) == count - masked.len(),
    decreases count,
{
    let kept = kept_without(count, masked);
    if count == 0 {
        assert(masked =~= Set::empty());
    } else {
        let last = (count - 1) as usize;
        let rest = masked.remove(last);
        assert(kept.drop_last() =~= kept_without((count - 1) as nat, rest));
        kept_and_masked_are_all((count - 1) as nat, rest);
    }
}

/// No more blocks are masked in turn than wanted.
proof fn masked_in_turn_are_few(blocks: Seq<usize>, grid: BlockGrid, wanted: int, cap: int)
    requires
        0 <= wanted,
    ensures
        masked_in_turn(blocks, grid, wanted, cap).len() <= wanted,
    decreases blocks.len(),
{
    if blocks.len() > 0 {
        masked_in_turn_are_few(blocks.drop_last(), grid, wanted, cap);
        masked_are_listed(blocks.drop_last(), grid, wanted, cap);
    }
}

/// No region loses more blocks than its cap, and all of them together no more than wanted.
pub proof fn regions_keep_their_cap(
    blocks: Seq<usize>,
    grid: BlockGrid,
    wanted: int,
    cap: int,
    region: int,
)
    requires
        blocks.no_duplicates(),
        0 <= wanted,
        0 <= cap,
    ensures
        masked_in_region(masked_in_turn(blocks, grid, wanted, cap), grid, region) <= cap,
        masked_in_turn(blocks, grid, wanted, cap).len() <= wanted,
    decreases blocks.len(),
{
    masked_in_turn_are_few(blocks, grid, wanted, cap);
    let in_region = |block: usize| region_of(block as int, grid) == region;
    if blocks.len() == 0 {
        assert(Set::<usize>::empty().filter(in_region) =~= Set::empty());
    } else {
        let rest = blocks.drop_last();
        let block = blocks.last();
        let before = masked_in_turn(rest, grid, wanted, cap);
        regions_keep_their_cap(rest, grid, wanted, cap, region);
        masked_are_listed(rest, grid, wanted, cap);
        assert(!before.contains(block)) by {
            if before.contains(block) {
                assert(blocks[rest.index_of(block)] == blocks[blocks.len() - 1]);
            }
        }
        region_gains_one(before, grid, block, region);
    }
}

/// However blocks are masked, so many are kept: exactly the share that is kept where
/// they are not spread over regions, and at least what the masked share leaves otherwise.
pub proof fn masks_keep_their_share(distances: Seq<u32>, counts: MaskCounts, grid: BlockGrid)
    requires
        0 < distances.len() <= usize::MAX,
    ensures
        ({
            let blocks = distances.len() as int;
            let kept = count_kept(kept_blocks(distances, counts, grid));
            if kept_count(counts, blocks) == blocks || (grid.region_cols <= 1 && grid.region_rows
                <= 1) {
                kept == kept_count(counts, blocks)
            } else {
                kept >= blocks - masked_count(counts, blocks)
            }
        }),
{
    ranking_is_complete(distances);
    let blocks = distances.len() as int;
    let keep = kept_count(counts, blocks);
    let mask = masked_count(counts, blocks);
    let ordered = most_different(distances);
    if keep == blocks {
        kept_and_masked_are_all(distances.len(), Set::empty());
    } else if grid.region_cols <= 1 && grid.region_rows <= 1 {
        let top = ordered.take(blocks - keep);
        assert(top.no_duplicates());
        top.unique_seq_to_set();
        assert forall|block: usize| #[trigger] top.to_set().contains(block) implies block
            < distances.len() by {
            assert(top.contains(block));
            assert(ordered[top.index_of(block)] == block);
        }
        kept_and_masked_are_all(distances.len(), top.to_set());
    } else {
        let regions = fitted(grid);
        let cap = (mask + regions.regions() - 1) / regions.regions();
        let masked = masked_in_turn(ordered, regions, mask, cap);
        masked_are_listed(ordered, regions, mask, cap);
        masked_in_turn_are_few(ordered, regions, mask, cap);
        assert forall|block: usize| #[trigger] masked.contains(block) implies block
            < distances.len() by {
            assert(ordered.contains(block));
            assert(ordered[ordered.index_of(block)] == block);
        }
        kept_and_masked_are_all(distances.len(), masked);
    }
}

/// Where bounds never exceed the differences of their blocks, the mean of the lowest
/// bounds never exceeds the mean of the differences that a mask keeps, with or without
/// regions. The two shares of the mask leave no block out.
pub proof fn masked_bound_is_below_masked_mean(
    bounds: Seq<u32>,
    distances: Seq<u32>,
    bound_counts: MaskCounts,
    bound_grid: BlockGrid,
    counts: MaskCounts,
    grid: BlockGrid,
)
    requires
        0 < distances.len() <= usize::MAX,
        bounds.len() == distances.len(),
        forall|k: int| 0 <= k < bounds.len() ==> #[trigger] bounds[k] <= distances[k],
        bound_counts.keep == bounds.len() - masked_count(counts, bounds.len() as int),
        bound_grid.region_cols <= 1,
        bound_grid.region_rows <= 1,
        counts.keep + counts.mask >= distances.len(),
    ensures
        ({
            let lowest = kept_blocks(bounds, bound_counts, bound_grid);
            let kept = kept_blocks(distances, counts, grid);
            &&& 0 < count_kept(lowest) <= count_kept(kept)
            &&& sum_kept(bounds, lowest) * count_kept(kept) <= sum_kept(distances, kept)
                * count_kept(lowest)
        }),
{
    simple_mask_keeps_lowest(bounds, bound_counts, bound_grid);
    masks_keep_their_share(bounds, bound_counts, bound_grid);
    masks_keep_their_share(distances, counts, grid);
    lowest_bounds_have_lowest_mean(
        bounds,
        kept_blocks(bounds, bound_counts, bound_grid),
        distances,
        kept_blocks(distances, counts, grid),
    );
}

/// What is masked stays masked while more blocks have their turn.
proof fn masked_only_grows(blocks: Seq<usize>, grid: BlockGrid, wanted: int, cap: int, turns: int)
    requires
        0 <= turns <= blocks.len(),
    ensures
        ({
            let sooner = masked_in_turn(blocks.take(turns), grid, wanted, cap);
            let later = masked_in_turn(blocks, grid, wanted, cap);
            &&& sooner.subset_of(later)
            &&& sooner.len() <= later.len()
            &&& forall|region: int|
                masked_in_region(sooner, grid, region) <= #[trigger] masked_in_region(
                    later,
                    grid,
                    region,
                )
        }),
    decreases blocks.len() - turns,
{
    let sooner = masked_in_turn(blocks.take(turns), grid, wanted, cap);
    masked_are_listed(blocks.take(turns), grid, wanted, cap);
    if turns == blocks.len() {
        assert(blocks.take(turns) =~= blocks);
    } else {
        masked_only_grows(blocks, grid, wanted, cap, turns + 1);
        let next = masked_in_turn(blocks.take(turns + 1), grid, wanted, cap);
        let later = masked_in_turn(blocks, grid, wanted, cap);
        masked_are_listed(blocks.take(turns + 1), grid, wanted, cap);
        assert(blocks.take(turns + 1).drop_last() =~= blocks.take(turns));
        assert(sooner.subset_of(next));
        vstd::set_lib::lemma_len_subset(sooner, next);
        assert forall|region: int| masked_in_region(sooner, grid, region)
            <= #[trigger] masked_in_region(later, grid, region) by {
            let in_region = |block: usize| region_of(block as int, grid) == region;
            vstd::set_lib::lemma_set_subset_finite(next, next.filter(in_region));
            vstd::set_lib::lemma_len_subset(sooner.filter(in_region), next.filter(in_region));
            assert(masked_in_region(next, grid, region) <= masked_in_region(later, grid, region));
        }
    }
}

/// Blocks are masked as far as may be, those that differ most first: a block is spared only
/// where as many as wanted are masked or its region has its fill, and of one region none that
/// is spared differs more than one that is masked.
pub proof fn regions_mask_what_differs_most(
    distances: Seq<u32>,
    grid: BlockGrid,
    wanted: int,
    cap: int,
    spared: usize,
    masked: usize,
)
    requires
        distances.len() <= usize::MAX,
        spared < distances.len(),
        masked < distances.len(),
        !masked_in_turn(most_different(distances), grid, wanted, cap).contains(spared),
    ensures
        ({
            let all = masked_in_turn(most_different(distances), grid, wanted, cap);
            &&& all.len() >= wanted || masked_in_region(
                all,
                grid,
                region_of(spared as int, grid),
            ) >= cap
            &&& all.contains(masked) && region_of(masked as int, grid) == region_of(
                spared as int,
                grid,
            ) ==> distances[spared as int] <= distances[masked as int]
        }),
{
    ranking_is_complete(distances);
    let blocks = most_different(distances);
    let all = masked_in_turn(blocks, grid, wanted, cap);
    let region = region_of(spared as int, grid);
    assert(blocks.contains(spared));
    let p = blocks.index_of(spared);
    assert(blocks[p] == spared);
    masked_only_grows(blocks, grid, wanted, cap, p);
    masked_only_grows(blocks, grid, wanted, cap, p + 1);
    assert(blocks.take(p + 1).drop_last() =~= blocks.take(p));
    assert(blocks.take(p + 1).last() == spared);
    let at_p = masked_in_turn(blocks.take(p), grid, wanted, cap);
    assert(masked_in_region(at_p, grid, region) <= masked_in_region(all, grid, region));
    if all.contains(masked) && region_of(masked as int, grid) == region {
        assert(blocks.contains(masked));
        let q = blocks.index_of(masked);
        assert(blocks[q] == masked);
        let order = |a: usize, b: usize| ranks_first(keys_of(distances), a, b);
        if q < p {
            assert(order(blocks[q], blocks[p]));
        } else {
            let until = blocks.take(q + 1);
            let before = blocks.take(q);
            assert(until.drop_last() =~= before);
            assert(until.last() == masked);
            masked_only_grows(before, grid, wanted, cap, p);
            assert(before.take(p) =~= blocks.take(p));
            let at_q = masked_in_turn(before, grid, wanted, cap);
            assert(masked_in_region(at_p, grid, region) <= masked_in_region(at_q, grid, region));
            masked_is_masked_in_its_turn(blocks, grid, wanted, cap, q);
        }
    }
}

/// A block that is masked was masked when its turn came.
proof fn masked_is_masked_in_its_turn(
    blocks: Seq<usize>,
    grid: BlockGrid,
    wanted: int,
    cap: int,
    place: int,
)
    requires
        blocks.no_duplicates(),
        0 <= place < blocks.len(),
        masked_in_turn(blocks, grid, wanted, cap).contains(blocks[place]),
    ensures
        ({
            let before = masked_in_turn(blocks.take(place), grid, wanted, cap);
            &&& before.len() < wanted
            &&& masked_in_region(before, grid, region_of(blocks[place] as int, grid)) < cap
        }),
    decreases blocks.len(),
{
    let rest = blocks.drop_last();
    let last = blocks.len() - 1;
    if place < last {
        assert(blocks[place] != blocks[last]);
        assert(rest[place] == blocks[place]);
        assert(rest.take(place) =~= blocks.take(place));
        masked_is_masked_in_its_turn(rest, grid, wanted, cap, place);
    } else {
        assert(rest =~= blocks.take(place));
        masked_are_listed(rest, grid, wanted, cap);
        assert(!masked_in_turn(rest, grid, wanted, cap).contains(blocks[last])) by {
            if rest.contains(blocks[last]) {
                let k = rest.index_of(blocks[last]);
                assert(blocks[k] == blocks[last]);
            }
        }
    }
}

/// Where blocks are spread over regions, a block is kept only where as many as are to be
/// masked are masked, or its region has its share of them; and of one region none that is
/// kept differs more than one that is masked.
pub proof fn spread_masks_take_what_differs_most(
    distances: Seq<u32>,
    counts: MaskCounts,
    grid: BlockGrid,
    spared: usize,
    masked: usize,
)
    requires
        0 < distances.len() <= usize::MAX,
        grid.region_cols > 1 || grid.region_rows > 1,
        counts.keep < distances.len(),
        distances.len() > 1,
        spared < distances.len(),
        masked < distances.len(),
        kept_blocks(distances, counts, grid)[spared as int],
    ensures
        ({
            let kept = kept_blocks(distances, counts, grid);
            let blocks = distances.len() as int;
            let regions = fitted(grid);
            let wanted = if counts.mask < blocks {
                counts.mask as int
            } else {
                blocks - 1
            };
            let taken = Set::new(
                |block: usize|
                    block < blocks && !kept[block as int] && region_of(block as int, regions)
                        == region_of(spared as int, regions),
            );
            let share = (wanted + regions.regions() - 1) / regions.regions();
            &&& blocks - count_kept(kept) == wanted || taken.len() >= share
            &&& !kept[masked as int] && region_of(masked as int, regions) == region_of(
                spared as int,
                regions,
            ) ==> distances[spared as int] <= distances[masked as int]
        }),
{
    let blocks = distances.len() as int;
    let kept = kept_blocks(distances, counts, grid);
    let regions = fitted(grid);
    let wanted = masked_count(counts, blocks);
    let cap = (wanted + regions.regions() - 1) / regions.regions();
    let ordered = most_different(distances);
    let all = masked_in_turn(ordered, regions, wanted, cap);
    ranking_is_complete(distances);
    regions_mask_what_differs_most(distances, regions, wanted, cap, spared, masked);
    masked_are_listed(ordered, regions, wanted, cap);
    masked_in_turn_are_few(ordered, regions, wanted, cap);
    assert forall|block: usize| #[trigger] all.contains(block) implies block < distances.len() by {
        assert(ordered.contains(block));
        assert(ordered[ordered.index_of(block)] == block);
    }
    kept_and_masked_are_all(distances.len(), all);
    let region = region_of(spared as int, regions);
    assert(all.filter(|block: usize| region_of(block as int, regions) == region) =~= Set::new(
        |block: usize|
            block < blocks && !kept[block as int] && region_of(block as int, regions) == region_of(
                spared as int,
                regions,
            ),
    ));
}

} // verus!
