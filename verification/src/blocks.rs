//! Which blocks of a picture stand out.

use vstd::prelude::*;
use vstd::relations::{sorted_by, total_ordering};
use vstd::seq_lib::{lemma_multiset_commutative, lemma_sorted_unique};
use vstd::arithmetic::div_mod::{lemma_fundamental_div_mod, lemma_fundamental_div_mod_converse};
use crate::measure::{double, Measure, ZERO};
use crate::parallel::plan::part_start;
use crate::timeline::{ascending, ascending_form_is_unique, increasing, push_gains_one};

verus! {

/// Whether every measurement is a number.
pub open spec fn all_numbers(values: Seq<Measure>) -> bool {
    forall|k: int| 0 <= k < values.len() ==> !(#[trigger] values[k]).is_nan()
}

/// The positions of measurements among all numbers.
pub open spec fn positions(values: Seq<Measure>) -> Seq<i64> {
    Seq::new(values.len(), |k: int| values[k].rank() as i64)
}

/// Which of two blocks goes first: the one with the higher value, then the one with
/// the lower number.
pub open spec fn ranks_first(values: Seq<i64>, left: usize, right: usize) -> bool {
    let l = values[left as int];
    let r = values[right as int];
    l > r || (l == r && left <= right)
}

/// Blocks with the highest value first.
pub open spec fn ranked(values: Seq<i64>, blocks: Seq<usize>) -> Seq<usize> {
    blocks.sort_by(|left: usize, right: usize| ranks_first(values, left, right))
}

/// All blocks, by number.
pub open spec fn all_blocks(count: nat) -> Seq<usize> {
    Seq::new(count, |k: int| k as usize)
}

/// Ranking is a total order.
pub(crate) proof fn ranking_is_total(values: Seq<i64>)
    ensures
        total_ordering(|left: usize, right: usize| ranks_first(values, left, right)),
{
}

/// Merges two ranked lists.
fn merge(values: &[i64], left: &Vec<usize>, right: &Vec<usize>) -> (merged: Vec<usize>)
    requires
        forall|k: int| 0 <= k < left.len() ==> #[trigger] left@[k] < values@.len(),
        forall|k: int| 0 <= k < right.len() ==> #[trigger] right@[k] < values@.len(),
        sorted_by(left@, |a: usize, b: usize| ranks_first(values@, a, b)),
        sorted_by(right@, |a: usize, b: usize| ranks_first(values@, a, b)),
    ensures
        sorted_by(merged@, |a: usize, b: usize| ranks_first(values@, a, b)),
        merged@.to_multiset() == left@.to_multiset().add(right@.to_multiset()),
        forall|k: int| 0 <= k < merged.len() ==> #[trigger] merged@[k] < values@.len(),
{
    let ghost order = |a: usize, b: usize| ranks_first(values@, a, b);
    let mut merged: Vec<usize> = Vec::new();
    let mut i: usize = 0;
    let mut j: usize = 0;
    proof {
        assert(left@.take(0) =~= Seq::<usize>::empty());
        assert(right@.take(0) =~= Seq::<usize>::empty());
        broadcast use vstd::multiset::group_multiset_axioms;
        broadcast use vstd::seq_lib::group_to_multiset_ensures;
        assert(merged@.to_multiset() =~= left@.take(0).to_multiset().add(
            right@.take(0).to_multiset(),
        ));
    }
    while i < left.len() || j < right.len()
        invariant
            i <= left.len(),
            j <= right.len(),
                forall|k: int| 0 <= k < left.len() ==> #[trigger] left@[k] < values@.len(),
            forall|k: int| 0 <= k < right.len() ==> #[trigger] right@[k] < values@.len(),
            order == |a: usize, b: usize| ranks_first(values@, a, b),
            sorted_by(left@, order),
            sorted_by(right@, order),
            sorted_by(merged@, order),
            merged@.to_multiset() == left@.take(i as int).to_multiset().add(
                right@.take(j as int).to_multiset(),
            ),
            forall|k: int| 0 <= k < merged.len() ==> #[trigger] merged@[k] < values@.len(),
            forall|k: int, m: int|
                0 <= k < merged.len() && i <= m < left.len() ==> #[trigger] order(
                    merged@[k],
                    left@[m],
                ),
            forall|k: int, m: int|
                0 <= k < merged.len() && j <= m < right.len() ==> #[trigger] order(
                    merged@[k],
                    right@[m],
                ),
        decreases left.len() - i + right.len() - j,
    {
        let from_left = if i >= left.len() {
            false
        } else if j >= right.len() {
            true
        } else {
            let a: usize = left[i];
            let b: usize = right[j];
            values[a] > values[b] || (values[a] == values[b] && a <= b)
        };
        let ghost before = merged@;
        proof {
            broadcast use vstd::multiset::group_multiset_axioms;
            broadcast use vstd::seq_lib::group_to_multiset_ensures;
            if from_left {
                assert(left@.take(i + 1) =~= left@.take(i as int).push(left@[i as int]));
                assert(before.push(left@[i as int]).to_multiset() =~= left@.take(
                    i + 1,
                ).to_multiset().add(right@.take(j as int).to_multiset()));
            } else {
                assert(right@.take(j + 1) =~= right@.take(j as int).push(right@[j as int]));
                assert(before.push(right@[j as int]).to_multiset() =~= left@.take(
                    i as int,
                ).to_multiset().add(right@.take(j + 1).to_multiset()));
            }
        }
        if from_left {
            proof {
                assert(forall|m: int| i < m < left.len() ==> #[trigger] order(left@[i as int], left@[m]));
                assert forall|m: int| j <= m < right.len() implies #[trigger] order(
                    left@[i as int],
                    right@[m],
                ) by {
                    assert(order(left@[i as int], right@[j as int]));
                    if m > j {
                        assert(order(right@[j as int], right@[m]));
                    }
                }
            }
            merged.push(left[i]);
            i = i + 1;
        } else {
            proof {
                assert(forall|m: int| j < m < right.len() ==> #[trigger] order(right@[j as int], right@[m]));
                assert forall|m: int| i <= m < left.len() implies #[trigger] order(
                    right@[j as int],
                    left@[m],
                ) by {
                    assert(order(right@[j as int], left@[i as int]));
                    if m > i {
                        assert(order(left@[i as int], left@[m]));
                    }
                }
            }
            merged.push(right[j]);
            j = j + 1;
        }
    }
    proof {
        assert(left@.take(left.len() as int) =~= left@);
        assert(right@.take(right.len() as int) =~= right@);
    }
    merged
}

/// Ranks blocks: halves are ranked, then merged.
pub(crate) fn rank(values: &[i64], blocks: Vec<usize>) -> (ordered: Vec<usize>)
    requires
        forall|k: int| 0 <= k < blocks.len() ==> #[trigger] blocks@[k] < values@.len(),
    ensures
        ordered@ == ranked(values@, blocks@),
        forall|k: int| 0 <= k < ordered.len() ==> #[trigger] ordered@[k] < values@.len(),
    decreases blocks.len(),
{
    let ghost order = |a: usize, b: usize| ranks_first(values@, a, b);
    proof {
        ranking_is_total(values@);
        blocks@.lemma_sort_by_ensures(order);
    }
    if blocks.len() <= 1 {
        proof {
            assert(sorted_by(blocks@, order));
            lemma_sorted_unique(blocks@, ranked(values@, blocks@), order);
        }
        return blocks;
    }
    let ghost whole = blocks@;
    let mut left: Vec<usize> = blocks;
    let middle: usize = left.len() / 2;
    let right: Vec<usize> = left.split_off(middle);
    let ghost (left_part, right_part) = (left@, right@);
    proof {
        assert(whole =~= left_part + right_part);
        lemma_multiset_commutative(left_part, right_part);
        left_part.lemma_sort_by_ensures(order);
        right_part.lemma_sort_by_ensures(order);
        assert forall|k: int| 0 <= k < left_part.len() implies #[trigger] left_part[k]
            < values@.len() by {
            assert(left_part[k] == whole[k]);
        }
        assert forall|k: int| 0 <= k < right_part.len() implies #[trigger] right_part[k]
            < values@.len() by {
            assert(right_part[k] == whole[middle + k]);
        }
    }
    let ranked_left: Vec<usize> = rank(values, left);
    let ranked_right: Vec<usize> = rank(values, right);
    let merged: Vec<usize> = merge(values, &ranked_left, &ranked_right);
    proof {
        lemma_sorted_unique(merged@, ranked(values@, whole), order);
    }
    merged
}

/// A share of the blocks: the fraction, and the number of blocks that it amounts to
/// when rounded up.
#[derive(Clone, Copy, Debug, PartialEq, Eq, Structural)]
pub struct BlockShare {
    pub percent: Measure,
    pub blocks: usize,
}

impl BlockShare {
    /// Whether the share is empty.
    pub open spec fn is_empty(self) -> bool {
        self.percent.le(double(ZERO))
    }

    /// The number of blocks out of so many, at least one.
    pub open spec fn count(self, blocks: int) -> int {
        if self.blocks < 1 {
            1
        } else if self.blocks <= blocks {
            self.blocks as int
        } else {
            blocks
        }
    }

    /// The number of blocks out of so many, at least one.
    fn count_of(&self, blocks: usize) -> (count: usize)
        requires
            blocks >= 1,
        ensures
            count == self.count(blocks as int),
    {
        if self.blocks < 1 {
            1
        } else if self.blocks <= blocks {
            self.blocks
        } else {
            blocks
        }
    }
}

/// Marks the given blocks.
pub open spec fn marked(selected: Seq<bool>, blocks: Seq<usize>) -> Seq<bool> {
    Seq::new(selected.len(), |k: int| selected[k] || blocks.contains(k as usize))
}

/// Marks the given blocks. A block past the end is left out.
fn mark(selected: &mut Vec<bool>, blocks: &Vec<usize>, count: usize)
    requires
        count <= blocks.len(),
    ensures
        final(selected)@ == marked(old(selected)@, blocks@.take(count as int)),
{
    let ghost before = selected@;
    assert(selected@ =~= marked(before, blocks@.take(0)));
    for index in 0..count
        invariant
            count <= blocks.len(),
            selected@ == marked(before, blocks@.take(index as int)),
    {
        let block: usize = blocks[index];
        if block < selected.len() {
            selected.set(block, true);
        }
        proof {
            let earlier = blocks@.take(index as int);
            assert(blocks@.take(index + 1) =~= earlier.push(block));
            push_gains_one(earlier, block);
            assert(selected@ =~= marked(before, blocks@.take(index + 1)));
        }
    }
}

/// The blocks that a share marks: those with the highest values.
pub open spec fn top_blocks(source: Seq<Measure>, share: BlockShare) -> Seq<usize> {
    if source.len() == 0 || share.is_empty() {
        Seq::empty()
    } else {
        ranked(positions(source), all_blocks(source.len())).take(share.count(source.len() as int))
    }
}

/// The positions of measurements among all numbers.
fn positions_of(values: &[Measure]) -> (keys: Vec<i64>)
    requires
        all_numbers(values@),
    ensures
        keys@ == positions(values@),
{
    let mut keys: Vec<i64> = Vec::new();
    for index in 0..values.len()
        invariant
            all_numbers(values@),
            keys@ == positions(values@).take(index as int),
    {
        assert(!values@[index as int].is_nan());
        keys.push(values[index].position());
        assert(keys@ =~= positions(values@).take(index + 1));
    }
    assert(keys@ =~= positions(values@));
    keys
}

/// All blocks, by number.
pub(crate) fn block_numbers(count: usize) -> (blocks: Vec<usize>)
    ensures
        blocks@ == all_blocks(count as nat),
{
    let mut blocks: Vec<usize> = Vec::new();
    for block in 0..count
        invariant
            blocks@ == all_blocks(block as nat),
    {
        blocks.push(block);
        assert(blocks@ =~= all_blocks((block + 1) as nat));
    }
    blocks
}

/// As many blocks are ranked as there are.
pub(crate) proof fn ranking_keeps_count(values: Seq<i64>, blocks: Seq<usize>)
    ensures
        ranked(values, blocks).len() == blocks.len(),
{
    let order = |a: usize, b: usize| ranks_first(values, a, b);
    ranking_is_total(values);
    blocks.lemma_sort_by_ensures(order);
    broadcast use vstd::seq_lib::group_to_multiset_ensures;
    assert(ranked(values, blocks).to_multiset().len() == blocks.to_multiset().len());
}

/// Marks the share of blocks with the highest values.
pub fn mark_top_blocks(source: &[Measure], share: BlockShare, selected: &mut Vec<bool>)
    requires
        all_numbers(source@),
    ensures
        final(selected)@ == marked(old(selected)@, top_blocks(source@, share)),
{
    if source.len() == 0 || share.percent.at_most(double(ZERO)) {
        assert(selected@ =~= marked(selected@, Seq::empty()));
        return;
    }
    let take: usize = share.count_of(source.len());
    proof {
        ranking_keeps_count(positions(source@), all_blocks(source@.len()));
    }
    let keys: Vec<i64> = positions_of(source);
    let ordered: Vec<usize> = rank(keys.as_slice(), block_numbers(source.len()));
    mark(selected, &ordered, take);
}

/// Marks what a mask has marked.
pub fn mark_cached_top_blocks(mask: &[bool], selected: &mut Vec<bool>)
    ensures
        final(selected)@ == Seq::new(
            old(selected)@.len(),
            |k: int| old(selected)@[k] || (k < mask@.len() && mask@[k]),
        ),
{
    let ghost before = selected@;
    for block in 0..mask.len()
        invariant
            selected@.len() == before.len(),
            forall|k: int|
                0 <= k < before.len() ==> #[trigger] selected@[k] == (before[k] || (k < block
                    && mask@[k])),
    {
        if mask[block] && block < selected.len() {
            selected.set(block, true);
        }
    }
    assert(selected@ =~= Seq::new(
        before.len(),
        |k: int| before[k] || (k < mask@.len() && mask@[k]),
    ));
}

/// A grid of blocks, cut into regions.
#[derive(Clone, Copy, Debug, PartialEq, Eq, Structural)]
pub struct BlockGrid {
    pub cols: usize,
    pub rows: usize,
    pub region_cols: usize,
    pub region_rows: usize,
}

impl BlockGrid {
    /// Number of regions.
    pub open spec fn regions(self) -> int {
        self.region_cols * self.region_rows
    }

    /// Whether a block lies in a region. Regions are numbered row by row.
    pub open spec fn lies_in(self, block: usize, region: int) -> bool {
        let x = block as int % self.cols as int;
        let y = block as int / self.cols as int;
        let rx = region % self.region_cols as int;
        let ry = region / self.region_cols as int;
        &&& part_start(self.cols as int, self.region_cols as int, rx) <= x < part_start(
            self.cols as int,
            self.region_cols as int,
            rx + 1,
        )
        &&& part_start(self.rows as int, self.region_rows as int, ry) <= y < part_start(
            self.rows as int,
            self.region_rows as int,
            ry + 1,
        )
    }

    /// The blocks of a region, out of so many, by number.
    pub open spec fn region_blocks(self, region: int, blocks: int) -> Seq<usize> {
        ascending(Set::new(|block: usize| block < blocks && self.lies_in(block, region)))
    }
}

/// The blocks of one region that a share marks: those with the highest values, and
/// no more than the region's part of the share.
pub open spec fn region_top_blocks(
    source: Seq<Measure>,
    cap: int,
    grid: BlockGrid,
    region: int,
) -> Seq<usize> {
    let blocks = grid.region_blocks(region, source.len() as int);
    ranked(positions(source), blocks).take(if cap <= blocks.len() {
        cap
    } else {
        blocks.len() as int
    })
}

/// The number of blocks that each region may contribute: the share, spread evenly
/// and rounded up.
pub open spec fn region_cap(share: BlockShare, blocks: int, regions: int) -> int {
    (share.count(blocks) + regions - 1) / regions
}

/// Whether a share that is spread over regions marks a block.
pub open spec fn is_capped_top(
    source: Seq<Measure>,
    share: BlockShare,
    grid: BlockGrid,
    block: usize,
) -> bool {
    &&& source.len() > 0 && !share.is_empty()
    &&& grid.cols > 0 && grid.rows > 0 && grid.region_cols > 0 && grid.region_rows > 0
    &&& exists|region: int| #[trigger]
        region_top_blocks(
            source,
            region_cap(share, source.len() as int, grid.regions()),
            grid,
            region,
        ).contains(block) && 0 <= region < grid.regions()
}

/// Where one of several equal parts of a stretch starts.
fn start_of_part(total: usize, parts: usize, index: usize) -> (start: usize)
    requires
        parts > 0,
        index <= parts,
    ensures
        start == part_start(total as int, parts as int, index as int),
        start <= total,
{
    assert(index * total < 0x1_0000_0000_0000_0000 * 0x1_0000_0000_0000_0000) by (nonlinear_arith)
        requires
            0 <= index < 0x1_0000_0000_0000_0000,
            0 <= total < 0x1_0000_0000_0000_0000,
    ;
    assert(0 <= index * total <= parts * total) by (nonlinear_arith)
        requires
            0 <= index <= parts,
            0 <= total,
    ;
    let product: u128 = index as u128 * total as u128;
    assert(0 <= product as int / parts as int <= total) by (nonlinear_arith)
        requires
            0 <= product as int <= parts * total,
            0 < parts,
    ;
    (product / parts as u128) as usize
}

/// A block's column and row name it.
proof fn block_of_place(x: int, y: int, cols: int)
    requires
        0 <= x < cols,
        0 <= y,
    ensures
        (y * cols + x) % cols == x,
        (y * cols + x) / cols == y,
        0 <= y * cols + x,
{
    lemma_fundamental_div_mod_converse(y * cols + x, cols, y, x);
    assert(0 <= y * cols) by (nonlinear_arith)
        requires
            0 <= y,
            0 <= cols,
    ;
    assert(y * cols == cols * y) by (nonlinear_arith);
}

/// The blocks of a region, by number.
fn blocks_of_region(grid: &BlockGrid, region: usize, blocks: usize) -> (list: Vec<usize>)
    requires
        grid.cols > 0,
        grid.region_cols > 0,
        grid.region_rows > 0,
        region < grid.regions(),
    ensures
        list@ == grid.region_blocks(region as int, blocks as int),
        forall|k: int| 0 <= k < list.len() ==> #[trigger] list@[k] < blocks,
{
    let rx: usize = region % grid.region_cols;
    let ry: usize = region / grid.region_cols;
    assert(ry < grid.region_rows) by (nonlinear_arith)
        requires
            region < grid.region_cols * grid.region_rows,
            ry == region as int / grid.region_cols as int,
            grid.region_cols > 0,
    ;
    let x_start: usize = start_of_part(grid.cols, grid.region_cols, rx);
    let x_end: usize = start_of_part(grid.cols, grid.region_cols, rx + 1);
    let y_start: usize = start_of_part(grid.rows, grid.region_rows, ry);
    let y_end: usize = start_of_part(grid.rows, grid.region_rows, ry + 1);
    let ghost target = Set::new(
        |block: usize| block < blocks && grid.lies_in(block, region as int),
    );
    let ghost cols = grid.cols as int;
    let mut list: Vec<usize> = Vec::new();
    let mut y: usize = y_start;
    while y < y_end
        invariant
            grid.cols > 0,
            cols == grid.cols,
            x_end <= grid.cols,
            y_start <= y,
            target == Set::new(
                |block: usize| block < blocks && grid.lies_in(block, region as int),
            ),
            forall|b: usize|
                grid.lies_in(b, region as int) == (x_start <= b as int % cols < x_end && y_start
                    <= b as int / cols < y_end),
            increasing(list@),
            forall|k: int| 0 <= k < list.len() ==> #[trigger] list@[k] < blocks,
            forall|k: int| 0 <= k < list.len() ==> #[trigger] list@[k] as int / cols < y,
            forall|b: usize| #[trigger] list@.contains(b) ==> target.contains(b),
            forall|b: usize| #[trigger]
                target.contains(b) && b as int / cols < y ==> list@.contains(b),
        decreases y_end - y,
    {
        let mut x: usize = x_start;
        while x < x_end
            invariant
                grid.cols > 0,
                cols == grid.cols,
                x_end <= grid.cols,
                x_start <= x,
                y_start <= y < y_end,
                target == Set::new(
                    |block: usize| block < blocks && grid.lies_in(block, region as int),
                ),
                forall|b: usize|
                    grid.lies_in(b, region as int) == (x_start <= b as int % cols < x_end && y_start
                        <= b as int / cols < y_end),
                increasing(list@),
                forall|k: int| 0 <= k < list.len() ==> #[trigger] list@[k] < blocks,
                forall|k: int|
                    0 <= k < list.len() ==> (#[trigger] list@[k] as int / cols < y || (list@[k]
                        as int / cols == y && list@[k] as int % cols < x)),
                forall|b: usize| #[trigger] list@.contains(b) ==> target.contains(b),
                forall|b: usize| #[trigger]
                    target.contains(b) && (b as int / cols < y || (b as int / cols == y && b as int
                        % cols < x)) ==> list@.contains(b),
            decreases x_end - x,
        {
            proof {
                block_of_place(x as int, y as int, cols);
            }
            let place: Option<usize> = match y.checked_mul(grid.cols) {
                Some(row) => row.checked_add(x),
                None => None,
            };
            let ghost exact = y * cols + x;
            if let Some(block) = place {
                if block < blocks {
                    proof {
                        assert(block == exact);
                        assert(target.contains(block));
                        assert forall|k: int| 0 <= k < list.len() implies list@[k] < block by {
                            let b = list@[k] as int;
                            lemma_fundamental_div_mod(b, cols);
                            assert(b < exact) by (nonlinear_arith)
                                requires
                                    b == cols * (b / cols) + b % cols,
                                    exact == y * cols + x,
                                    0 <= b % cols < cols,
                                    0 <= x < cols,
                                    b / cols < y || (b / cols == y && b % cols < x),
                            ;
                        }
                        push_gains_one(list@, block);
                    }
                    list.push(block);
                }
            }
            proof {
                assert forall|b: usize| #[trigger]
                    target.contains(b) && (b as int / cols < y || (b as int / cols == y && b as int
                        % cols < x + 1)) implies list@.contains(b) by {
                    if b as int / cols == y && b as int % cols == x {
                        lemma_fundamental_div_mod(b as int, cols);
                        assert(b == exact) by (nonlinear_arith)
                            requires
                                b as int == cols * (b as int / cols) + b as int % cols,
                                exact == y * cols + x,
                                b as int / cols == y,
                                b as int % cols == x,
                        ;
                    }
                }
            }
            x = x + 1;
        }
        y = y + 1;
    }
    proof {
        assert(list@.to_set() =~= target);
        ascending_form_is_unique(list@);
    }
    list
}

/// A number divided and rounded up.
pub(crate) fn ceiling(value: usize, parts: usize) -> (quotient: usize)
    requires
        parts > 0,
    ensures
        quotient == (value + parts - 1) / parts as int,
{
    let whole: usize = value / parts;
    let rest: usize = value % parts;
    proof {
        let (v, p) = (value as int, parts as int);
        lemma_fundamental_div_mod(v, p);
        if rest == 0 {
            lemma_fundamental_div_mod_converse(v + p - 1, p, whole as int, p - 1);
        } else {
            assert(p * (whole + 1) == p * whole + p) by (nonlinear_arith);
            lemma_fundamental_div_mod_converse(v + p - 1, p, whole + 1, rest - 1);
        }
        if rest != 0 {
            assert(whole < usize::MAX) by (nonlinear_arith)
                requires
                    v == p * whole + rest,
                    rest > 0,
                    p >= 1,
                    v <= usize::MAX,
            ;
        }
    }
    if rest == 0 {
        whole
    } else {
        whole + 1
    }
}

/// Marks the share of blocks with the highest values, spread over the regions of the
/// grid: each contributes no more than its part.
pub fn mark_top_blocks_spatially_capped(
    source: &[Measure],
    share: BlockShare,
    grid: &BlockGrid,
    selected: &mut Vec<bool>,
)
    requires
        all_numbers(source@),
        grid.regions() <= usize::MAX,
    ensures
        final(selected)@ == Seq::new(
            old(selected)@.len(),
            |k: int| old(selected)@[k] || is_capped_top(source@, share, *grid, k as usize),
        ),
{
    let ghost before = selected@;
    if source.len() == 0 || share.percent.at_most(double(ZERO)) || grid.cols == 0 || grid.rows == 0
        || grid.region_cols == 0 || grid.region_rows == 0 {
        assert(selected@ =~= Seq::new(
            before.len(),
            |k: int| before[k] || is_capped_top(source@, share, *grid, k as usize),
        ));
        return;
    }
    assert(grid.region_cols * grid.region_rows > 0) by (nonlinear_arith)
        requires
            grid.region_cols > 0,
            grid.region_rows > 0,
    ;
    let regions: usize = grid.region_cols * grid.region_rows;
    let cap: usize = ceiling(share.count_of(source.len()), regions);
    let keys: Vec<i64> = positions_of(source);
    for region in 0..regions
        invariant
            keys@ == positions(source@),
            grid.cols > 0,
            grid.region_cols > 0,
            grid.region_rows > 0,
            regions == grid.regions(),
            cap == region_cap(share, source@.len() as int, regions as int),
            selected@.len() == before.len(),
            forall|k: int|
                0 <= k < before.len() ==> #[trigger] selected@[k] == (before[k] || exists|r: int|
                    #[trigger]
                    region_top_blocks(source@, cap as int, *grid, r).contains(k as usize) && 0 <= r
                        < region),
    {
        let ghost earlier = selected@;
        let list: Vec<usize> = blocks_of_region(grid, region, source.len());
        proof {
            ranking_keeps_count(keys@, list@);
        }
        let count: usize = if cap <= list.len() {
            cap
        } else {
            list.len()
        };
        let ordered: Vec<usize> = rank(keys.as_slice(), list);
        mark(selected, &ordered, count);
        proof {
            let top = region_top_blocks(source@, cap as int, *grid, region as int);
            assert forall|k: int| 0 <= k < before.len() implies #[trigger] selected@[k] == (
            before[k] || exists|r: int| #[trigger]
                region_top_blocks(source@, cap as int, *grid, r).contains(k as usize) && 0 <= r
                    < region + 1) by {
                assert(selected@[k] == (earlier[k] || top.contains(k as usize)));
            }
        }
    }
    assert(selected@ =~= Seq::new(
        before.len(),
        |k: int| before[k] || is_capped_top(source@, share, *grid, k as usize),
    ));
}

/// The region of a block, when a grid is cut into equal parts.
pub open spec fn region_of(block: int, grid: BlockGrid) -> int {
    let rx = (block % grid.cols as int) * grid.region_cols / grid.cols as int;
    let ry = (block / grid.cols as int) * grid.region_rows / grid.rows as int;
    let last_x = grid.region_cols - 1;
    let last_y = grid.region_rows - 1;
    (if ry <= last_y {
        ry
    } else {
        last_y
    }) * grid.region_cols + if rx <= last_x {
        rx
    } else {
        last_x
    }
}

/// The part of a stretch in which a place lies, the last one at most.
fn part_of_place(place: usize, total: usize, parts: usize) -> (part: usize)
    requires
        total > 0,
        parts > 0,
    ensures
        part == if place * parts / total as int <= parts - 1 {
            place * parts / total as int
        } else {
            parts - 1
        },
        part < parts,
{
    assert(0 <= place * parts < 0x1_0000_0000_0000_0000 * 0x1_0000_0000_0000_0000)
        by (nonlinear_arith)
        requires
            0 <= place < 0x1_0000_0000_0000_0000,
            0 <= parts < 0x1_0000_0000_0000_0000,
    ;
    let part: u128 = place as u128 * parts as u128 / total as u128;
    if part < parts as u128 {
        part as usize
    } else {
        parts - 1
    }
}

/// The region of a block, when a grid is cut into equal parts.
pub fn block_region_index(block: usize, grid: &BlockGrid) -> (region: usize)
    requires
        grid.cols > 0,
        grid.rows > 0,
        grid.region_cols > 0,
        grid.region_rows > 0,
        grid.regions() <= usize::MAX,
    ensures
        region == region_of(block as int, *grid),
        region < grid.regions(),
{
    let rx: usize = part_of_place(block % grid.cols, grid.cols, grid.region_cols);
    let ry: usize = part_of_place(block / grid.cols, grid.rows, grid.region_rows);
    assert(0 <= ry * grid.region_cols && ry * grid.region_cols + rx < grid.region_cols
        * grid.region_rows) by (nonlinear_arith)
        requires
            0 <= rx < grid.region_cols,
            0 <= ry < grid.region_rows,
    ;
    ry * grid.region_cols + rx
}

} // verus!
