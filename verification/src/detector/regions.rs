//! How blocks are shared out over the regions of a picture, and samples over its cells.

use vstd::prelude::*;
use vstd::arithmetic::div_mod::{lemma_div_is_ordered, lemma_fundamental_div_mod, lemma_mod_bound};
use crate::blocks::{is_capped_top, positions, ranked, ranking_is_total, ranks_first, region_cap};
use crate::blocks::{region_of, region_top_blocks, BlockGrid, BlockShare};
use crate::masking::fitted;
use crate::measure::{double, Measure};
use crate::parallel::plan::part_start;
use crate::picture::{cell_edge, cell_sum, pow2_minus_one, sample_position, signature_cell};
use crate::picture::{samples_are_spread_in_order, LumaPlane};
use crate::postprocess::laws::ascending_members;
use crate::postprocess::turns::ascending_holds;
use crate::timeline::ascending;

verus! {

/// A place lies in one part only.
proof fn place_has_one_part(length: int, parts: int, place: int, one: int, other: int)
    requires
        0 <= length,
        0 < parts,
        part_start(length, parts, one) <= place < part_start(length, parts, one + 1),
        part_start(length, parts, other) <= place < part_start(length, parts, other + 1),
    ensures
        one == other,
{
    if one < other {
        assert((one + 1) * length <= other * length) by (nonlinear_arith)
            requires
                one + 1 <= other,
                0 <= length,
        ;
        lemma_div_is_ordered((one + 1) * length, other * length, parts);
    }
    if other < one {
        assert((other + 1) * length <= one * length) by (nonlinear_arith)
            requires
                other + 1 <= one,
                0 <= length,
        ;
        lemma_div_is_ordered((other + 1) * length, one * length, parts);
    }
}

/// A block lies in one region only.
pub proof fn block_has_one_region(grid: BlockGrid, block: usize, one: int, other: int)
    requires
        grid.cols > 0,
        grid.region_cols > 0,
        grid.region_rows > 0,
        grid.lies_in(block, one),
        grid.lies_in(block, other),
    ensures
        one == other,
{
    let across = grid.region_cols as int;
    place_has_one_part(
        grid.cols as int,
        across,
        block as int % grid.cols as int,
        one % across,
        other % across,
    );
    place_has_one_part(
        grid.rows as int,
        grid.region_rows as int,
        block as int / grid.cols as int,
        one / across,
        other / across,
    );
    lemma_fundamental_div_mod(one, across);
    lemma_fundamental_div_mod(other, across);
}

/// Blocks below a number are finitely many.
proof fn blocks_are_finite(set: Set<usize>, count: nat)
    requires
        forall|block: usize| #[trigger] set.contains(block) ==> block < count,
    ensures
        set.finite(),
    decreases count,
{
    if count == 0 {
        assert(set =~= Set::empty());
    } else {
        let last = (count - 1) as usize;
        blocks_are_finite(set.remove(last), (count - 1) as nat);
        if set.contains(last) {
            assert(set =~= set.remove(last).insert(last));
        } else {
            assert(set =~= set.remove(last));
        }
    }
}

/// Of the blocks of one region, none that is left out is stronger than one that is taken; a
/// region with no more blocks than its share gives all of them.
pub proof fn regions_give_their_strongest_blocks(
    source: Seq<Measure>,
    share: BlockShare,
    grid: BlockGrid,
    region: int,
    inside: usize,
    outside: usize,
)
    requires
        source.len() <= usize::MAX,
        forall|i: int| 0 <= i < source.len() ==> !(#[trigger] source[i]).is_nan(),
        grid.cols > 0,
        grid.rows > 0,
        grid.region_cols > 0,
        grid.region_rows > 0,
        0 <= region < grid.region_cols * grid.region_rows,
        inside < source.len(),
        outside < source.len(),
        grid.lies_in(inside, region),
        grid.lies_in(outside, region),
        is_capped_top(source, share, grid, inside),
        !is_capped_top(source, share, grid, outside),
    ensures
        source[outside as int].le(source[inside as int]),
        source[outside as int].same(source[inside as int]) ==> inside < outside,
{
    let cap = region_cap(share, source.len() as int, grid.regions());
    let of = choose|of: int| #[trigger]
        region_top_blocks(source, cap, grid, of).contains(inside) && 0 <= of < grid.regions();
    let values = positions(source);
    let set = Set::new(|block: usize| block < source.len() && grid.lies_in(block, of));
    let blocks = grid.region_blocks(of, source.len() as int);
    blocks_are_finite(set, source.len());
    assert(set =~= Set::new(|block: usize| block < source.len() as int && grid.lies_in(block, of)));
    assert(blocks == ascending(set));
    ascending_members(set);
    let order = |left: usize, right: usize| ranks_first(values, left, right);
    ranking_is_total(values);
    blocks.lemma_sort_by_ensures(order);
    blocks.to_multiset_ensures();
    let all = ranked(values, blocks);
    all.to_multiset_ensures();
    assert(all.len() == blocks.len());
    let top = region_top_blocks(source, cap, grid, of);
    let i = top.index_of(inside);
    assert(all[i] == inside);
    assert(all.contains(inside));
    assert(blocks.contains(inside));
    let place = blocks.index_of(inside);
    assert(set.contains(blocks[place]));
    block_has_one_region(grid, inside, of, region);
    assert(set.contains(outside));
    ascending_holds(set, outside);
    assert(blocks.contains(outside));
    assert(all.contains(outside)) by {
        assert(blocks.to_multiset().count(outside) > 0);
        assert(all.to_multiset().count(outside) > 0);
    }
    let j = all.index_of(outside);
    if j < top.len() {
        assert(top[j] == outside);
        assert(region_top_blocks(source, cap, grid, of).contains(outside));
    }
    assert(i < j);
    assert(order(all[i], all[j]));
    assert(!source[inside as int].is_nan());
    assert(!source[outside as int].is_nan());
}

/// The share of a region is the least that makes up the whole share over all regions.
pub proof fn regions_make_up_the_share(share: BlockShare, blocks: int, regions: int)
    requires
        0 < regions,
        0 < blocks,
    ensures
        ({
            let count = if share.blocks < 1 {
                1
            } else if share.blocks > blocks {
                blocks
            } else {
                share.blocks as int
            };
            let cap = region_cap(share, blocks, regions);
            &&& cap * regions >= count
            &&& (cap - 1) * regions < count
        }),
{
    let count = share.count(blocks);
    let cap = region_cap(share, blocks, regions);
    lemma_fundamental_div_mod(count + regions - 1, regions);
    lemma_mod_bound(count + regions - 1, regions);
    assert((cap - 1) * regions == regions * cap - regions && cap * regions == regions * cap)
        by (nonlinear_arith);
}

/// What a cell adds up lies between sixteen times what each of its samples lies between.
proof fn sum_lies_between(
    plane: LumaPlane,
    across: int,
    down: int,
    samples: nat,
    low: int,
    high: int,
)
    requires
        plane.width >= 8,
        plane.height >= 4,
        0 <= across < 8,
        0 <= down < 4,
        samples <= 16,
        forall|x: int, y: int|
            across * plane.width / 8 <= x < (across + 1) * plane.width / 8 && down * plane.height / 4
                <= y < (down + 1) * plane.height / 4 ==> low <= #[trigger] plane.sample(x, y) <= high,
    ensures
        samples * low <= cell_sum(plane, across, down, samples) <= samples * high,
    decreases samples,
{
    if samples > 0 {
        let at = samples - 1;
        sum_lies_between(plane, across, down, at as nat, low, high);
        let width = plane.width as int;
        let height = plane.height as int;
        let left = cell_edge(across, width, 8);
        let right = cell_edge(across + 1, width, 8);
        let top = cell_edge(down, height, 4);
        let bottom = cell_edge(down + 1, height, 4);
        assert(0 <= left < right <= width) by {
            assert(0 <= across * width && (across + 1) * width == across * width + width && (across
                + 1) * width <= 8 * width) by (nonlinear_arith)
                requires
                    0 <= across < 8,
                    width >= 8,
            ;
        }
        assert(0 <= top < bottom <= height) by {
            assert(0 <= down * height && (down + 1) * height == down * height + height && (down + 1)
                * height <= 4 * height) by (nonlinear_arith)
                requires
                    0 <= down < 4,
                    height >= 4,
            ;
        }
        samples_are_spread_in_order(left, right, width, at % 4, at % 4, 4);
        samples_are_spread_in_order(top, bottom, height, at / 4, at / 4, 4);
        let x = sample_position(left, right, width, at % 4, 4);
        let y = sample_position(top, bottom, height, at / 4, 4);
        assert(low <= plane.sample(x, y) <= high);
        assert(samples * low == at * low + low && samples * high == at * high + high)
            by (nonlinear_arith)
            requires
                samples == at + 1,
        ;
    }
}

/// A cell of a signature shows its own part of the picture: where all samples of that part lie
/// between two values, it lies between what they are in 256 steps, rounded to the nearest. A
/// cell of one value shows that value.
pub proof fn cell_shows_its_part_of_the_picture(
    plane: LumaPlane,
    bit_depth: int,
    cell: int,
    low: int,
    high: int,
)
    requires
        plane.width >= 8,
        plane.height >= 4,
        0 <= cell < 32,
        pow2_minus_one(bit_depth) >= 1,
        0 <= low <= high <= pow2_minus_one(bit_depth),
        forall|x: int, y: int|
            (cell % 8) * plane.width / 8 <= x < (cell % 8 + 1) * plane.width / 8 && (cell / 8)
                * plane.height / 4 <= y < (cell / 8 + 1) * plane.height / 4 ==> low
                <= #[trigger] plane.sample(x, y) <= high,
    ensures
        ({
            let most = pow2_minus_one(bit_depth);
            let shown = signature_cell(plane, bit_depth, cell);
            &&& 0 <= shown <= 255
            &&& 2 * (most * shown) <= 2 * (255 * high) + most
            &&& 2 * (most * (shown + 1)) > 2 * (255 * low) + most
            &&& most == 255 && low == high ==> shown == low
        }),
{
    let most = pow2_minus_one(bit_depth);
    sum_lies_between(plane, cell % 8, cell / 8, 16, low, high);
    let sum = cell_sum(plane, cell % 8, cell / 8, 16);
    let full = most * 16;
    let top = sum * 255 + full / 2;
    let shown = top / full;
    lemma_fundamental_div_mod(top, full);
    lemma_mod_bound(top, full);
    assert(full / 2 == most * 8);
    let rest = top % full;
    assert(full * shown == 16 * (most * shown)) by (nonlinear_arith)
        requires
            full == most * 16,
    ;
    assert(most * (shown + 1) == most * shown + most) by (nonlinear_arith);
    assert(shown <= 255) by (nonlinear_arith)
        requires
            16 * (most * shown) <= sum * 255 + most * 8,
            sum <= 16 * most,
            most >= 1,
    ;
    if most == 255 {
        assert(most * shown == 255 * shown);
    }
    assert(0 <= shown) by (nonlinear_arith)
        requires
            16 * (most * shown) + rest == sum * 255 + most * 8,
            rest < most * 16,
            sum >= 0,
            most >= 1,
    ;
    assert(signature_cell(plane, bit_depth, cell) == shown);
    assert(16 * (most * shown) <= 16 * (255 * high) + 8 * most);
    assert(16 * (most * shown) + 16 * most > 16 * (255 * low) + 8 * most);
}

/// Some part holds a place before its end.
proof fn some_part_holds(length: int, parts: int, place: int, upto: int) -> (part: int)
    requires
        0 <= length,
        0 < parts,
        0 <= upto <= parts,
        0 <= place < part_start(length, parts, upto),
    ensures
        0 <= part < upto,
        part_start(length, parts, part) <= place < part_start(length, parts, part + 1),
    decreases upto,
{
    if upto == 0 {
        assert(0 * length == 0) by (nonlinear_arith);
        vstd::arithmetic::div_mod::lemma_div_basics(parts);
        0
    } else if part_start(length, parts, upto - 1) <= place {
        upto - 1
    } else {
        some_part_holds(length, parts, place, upto - 1)
    }
}

/// Every block lies in some region.
pub proof fn block_has_a_region(grid: BlockGrid, block: usize)
    requires
        grid.cols > 0,
        grid.region_cols > 0,
        grid.region_rows > 0,
        block < grid.cols * grid.rows,
    ensures
        exists|region: int|
            0 <= region < grid.region_cols * grid.region_rows && #[trigger] grid.lies_in(
                block,
                region,
            ),
{
    let cols = grid.cols as int;
    let rows = grid.rows as int;
    let across = grid.region_cols as int;
    let down = grid.region_rows as int;
    let x = block as int % cols;
    let y = block as int / cols;
    lemma_fundamental_div_mod(block as int, cols);
    lemma_mod_bound(block as int, cols);
    assert(0 <= y < rows) by (nonlinear_arith)
        requires
            block == cols * y + x,
            0 <= x < cols,
            0 <= block < cols * rows,
    ;
    vstd::arithmetic::div_mod::lemma_div_multiples_vanish(cols, across);
    vstd::arithmetic::div_mod::lemma_div_multiples_vanish(rows, down);
    assert(part_start(cols, across, across) == cols);
    assert(part_start(rows, down, down) == rows);
    let rx = some_part_holds(cols, across, x, across);
    let ry = some_part_holds(rows, down, y, down);
    let region = ry * across + rx;
    vstd::arithmetic::div_mod::lemma_fundamental_div_mod_converse(region, across, ry, rx);
    assert(0 <= region < across * down) by (nonlinear_arith)
        requires
            region == ry * across + rx,
            0 <= rx < across,
            0 <= ry < down,
    ;
    assert(grid.lies_in(block, region));
}

/// A region that leaves a block out has given its share: one of its blocks at least is taken.
pub proof fn regions_give_before_they_leave_out(
    source: Seq<Measure>,
    share: BlockShare,
    grid: BlockGrid,
    region: int,
    outside: usize,
)
    requires
        0 < source.len() <= usize::MAX,
        double(0).lt(share.percent),
        grid.cols > 0,
        grid.rows > 0,
        grid.region_cols > 0,
        grid.region_rows > 0,
        0 <= region < grid.region_cols * grid.region_rows,
        outside < source.len(),
        grid.lies_in(outside, region),
        !is_capped_top(source, share, grid, outside),
    ensures
        exists|inside: usize| #[trigger]
            is_capped_top(source, share, grid, inside) && inside < source.len() && grid.lies_in(
                inside,
                region,
            ),
{
    let cap = region_cap(share, source.len() as int, grid.regions());
    regions_make_up_the_share(share, source.len() as int, grid.regions());
    assert(cap >= 1) by (nonlinear_arith)
        requires
            cap * grid.regions() >= 1,
            grid.regions() > 0,
    ;
    let values = positions(source);
    let set = Set::new(|block: usize| block < source.len() as int && grid.lies_in(block, region));
    blocks_are_finite(set, source.len());
    let blocks = grid.region_blocks(region, source.len() as int);
    assert(blocks == ascending(set));
    ascending_members(set);
    assert(set.contains(outside));
    ascending_holds(set, outside);
    let order = |left: usize, right: usize| ranks_first(values, left, right);
    ranking_is_total(values);
    blocks.lemma_sort_by_ensures(order);
    blocks.to_multiset_ensures();
    let all = ranked(values, blocks);
    all.to_multiset_ensures();
    assert(all.len() == blocks.len());
    assert(blocks.len() > 0);
    let top = region_top_blocks(source, cap, grid, region);
    let inside = all[0];
    assert(top[0] == inside);
    assert(top.contains(inside));
    assert(all.contains(inside));
    assert(blocks.contains(inside));
    let place = blocks.index_of(inside);
    assert(set.contains(blocks[place]));
    assert(region_top_blocks(source, cap, grid, region).contains(inside) && 0 <= region
        < grid.regions());
    assert(is_capped_top(source, share, grid, inside));
}

/// For masks a block lies in the region that its column and its row fall into, when both are
/// cut into as many equal parts as there are regions across and down.
pub proof fn masked_regions_are_even(grid: BlockGrid, block: int)
    requires
        grid.cols > 0,
        grid.rows > 0,
        grid.region_cols > 0,
        grid.region_rows > 0,
        0 <= block < grid.cols * grid.rows,
    ensures
        ({
            let x = block % grid.cols as int;
            let y = block / grid.cols as int;
            let rx = region_of(block, grid) % grid.region_cols as int;
            let ry = region_of(block, grid) / grid.region_cols as int;
            &&& rx * grid.cols <= x * grid.region_cols < (rx + 1) * grid.cols
            &&& ry * grid.rows <= y * grid.region_rows < (ry + 1) * grid.rows
            &&& 0 <= rx < grid.region_cols
            &&& 0 <= ry < grid.region_rows
        }),
{
    let cols = grid.cols as int;
    let rows = grid.rows as int;
    let across = grid.region_cols as int;
    let down = grid.region_rows as int;
    let x = block % cols;
    let y = block / cols;
    lemma_fundamental_div_mod(block, cols);
    lemma_mod_bound(block, cols);
    assert(0 <= y < rows) by (nonlinear_arith)
        requires
            block == cols * y + x,
            0 <= x < cols,
            0 <= block < cols * rows,
    ;
    let rx = x * across / cols;
    let ry = y * down / rows;
    lemma_fundamental_div_mod(x * across, cols);
    lemma_mod_bound(x * across, cols);
    lemma_fundamental_div_mod(y * down, rows);
    lemma_mod_bound(y * down, rows);
    assert(0 <= rx < across && rx * cols <= x * across < (rx + 1) * cols) by (nonlinear_arith)
        requires
            x * across == cols * rx + (x * across) % cols,
            0 <= (x * across) % cols < cols,
            0 <= x < cols,
            0 < across,
    ;
    assert(0 <= ry < down && ry * rows <= y * down < (ry + 1) * rows) by (nonlinear_arith)
        requires
            y * down == rows * ry + (y * down) % rows,
            0 <= (y * down) % rows < rows,
            0 <= y < rows,
            0 < down,
    ;
    let region = region_of(block, grid);
    assert(region == ry * across + rx);
    vstd::arithmetic::div_mod::lemma_fundamental_div_mod_converse(region, across, ry, rx);
}

/// A mask has at least one region each way, and no more than blocks.
pub proof fn regions_fit_the_blocks(grid: BlockGrid)
    requires
        grid.cols > 0,
        grid.rows > 0,
    ensures
        ({
            let regions = fitted(grid);
            &&& regions.cols == grid.cols && regions.rows == grid.rows
            &&& 1 <= regions.region_cols <= grid.cols
            &&& 1 <= regions.region_rows <= grid.rows
            &&& 1 <= grid.region_cols <= grid.cols ==> regions.region_cols == grid.region_cols
            &&& 1 <= grid.region_rows <= grid.rows ==> regions.region_rows == grid.region_rows
            &&& grid.region_cols > grid.cols ==> regions.region_cols == grid.cols
            &&& grid.region_rows > grid.rows ==> regions.region_rows == grid.rows
        }),
{
}

} // verus!
