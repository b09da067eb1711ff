//! Black bars: the part of a picture that is not picture.
//!
//! Bars dilute every measure that is taken over blocks, so the blocks inside them
//! are left out.

use vstd::prelude::*;
use vstd::arithmetic::div_mod::lemma_mul_mod_noop_right;
use vstd::arithmetic::power2::{lemma2_to64, lemma2_to64_rest, lemma_pow2_strictly_increases};
use vstd::arithmetic::power2::{lemma_pow2_unfold, pow2};

verus! {

/// Edge of the blocks whose importance is measured.
pub const IMPORTANCE_BLOCK_SIZE: usize = 8;
/// Mean 8-bit luma up to which a block counts as black.
pub const BAR_BLACK_LEVEL_8BIT: u64 = 18;
/// Highest bit depth by which the black level can be shifted.
pub const MAX_BAR_BIT_DEPTH: usize = 71;
/// Blocks in a hundred that may be brighter in a row or column of a bar.
pub const BAR_NONBLACK_TOLERANCE_PERCENT: usize = 3;

/// Active picture region on the importance-block grid, in block coordinates.
/// `top..bottom` x `left..right` are the non-bar blocks; a full-frame region means
/// no bars were detected.
#[derive(Debug, Clone, Copy, PartialEq, Eq, Structural)]
pub struct ActiveRegion {
    pub top: usize,
    pub bottom: usize,
    pub left: usize,
    pub right: usize,
    pub cols: usize,
    pub rows: usize,
}

/// Numbers of blocks in a row-major grid, from one row on.
pub open spec fn indices_from(region: ActiveRegion, rows: nat) -> Seq<usize>
    decreases rows,
{
    if rows == 0 {
        Seq::empty()
    } else {
        let y = region.top + rows - 1;
        indices_from(region, (rows - 1) as nat) + Seq::new(
            (region.right - region.left) as nat,
            |k: int| (y * region.cols + region.left + k) as usize,
        )
    }
}

impl ActiveRegion {
    /// Whether the region lies within its grid.
    pub open spec fn wf(self) -> bool {
        &&& self.top <= self.bottom <= self.rows
        &&& self.left <= self.right <= self.cols
        &&& self.cols * self.rows <= usize::MAX
    }

    /// Whether a block, by its column and row, lies in the region.
    pub open spec fn covers(self, x: int, y: int) -> bool {
        self.left <= x < self.right && self.top <= y < self.bottom
    }

    /// The whole grid.
    pub fn full(cols: usize, rows: usize) -> (region: Self)
        ensures
            region == whole(cols, rows),
    {
        ActiveRegion { top: 0, bottom: rows, left: 0, right: cols, cols, rows }
    }

    /// Whether the region is the whole grid.
    pub fn is_full(&self) -> (full: bool)
        ensures
            full == (*self == whole(self.cols, self.rows)),
    {
        self.top == 0 && self.left == 0 && self.bottom == self.rows && self.right == self.cols
    }

    /// Number of blocks in the region.
    pub fn count(&self) -> (blocks: usize)
        requires
            self.wf(),
        ensures
            blocks == (self.bottom - self.top) * (self.right - self.left),
            blocks <= self.cols * self.rows,
    {
        let height: usize = self.bottom - self.top;
        let width: usize = self.right - self.left;
        assert(0 <= height * width <= self.cols * self.rows) by (nonlinear_arith)
            requires
                0 <= height <= self.rows,
                0 <= width <= self.cols,
        ;
        height * width
    }

    /// The share of the grid that the region takes up, as blocks out of blocks; all of
    /// an empty grid.
    pub fn fraction(&self) -> (share: (usize, usize))
        requires
            self.wf(),
        ensures
            share == if self.cols * self.rows == 0 {
                (1, 1)
            } else {
                (
                    ((self.bottom - self.top) * (self.right - self.left)) as usize,
                    (self.cols * self.rows) as usize,
                )
            },
            0 < share.1,
            share.0 <= share.1,
    {
        assert(self.cols * self.rows >= 0) by (nonlinear_arith)
            requires
                self.cols >= 0,
                self.rows >= 0,
        ;
        let grid: usize = self.cols * self.rows;
        if grid == 0 {
            (1, 1)
        } else {
            (self.count(), grid)
        }
    }

    /// The numbers of the blocks in the region, row by row.
    pub fn indices(&self) -> (blocks: Vec<usize>)
        requires
            self.wf(),
        ensures
            blocks@ == indices_from(*self, (self.bottom - self.top) as nat),
    {
        let mut blocks: Vec<usize> = Vec::new();
        for y in self.top..self.bottom
            invariant
                self.wf(),
                blocks@ == indices_from(*self, (y - self.top) as nat),
        {
            let ghost before = blocks@;
            let ghost row = Seq::new(
                (self.right - self.left) as nat,
                |k: int| (y * self.cols + self.left + k) as usize,
            );
            assert(blocks@ =~= before + row.take(0));
            for x in self.left..self.right
                invariant
                    self.wf(),
                    y < self.bottom,
                    row == Seq::new(
                        (self.right - self.left) as nat,
                        |k: int| (y * self.cols + self.left + k) as usize,
                    ),
                    blocks@ == before + row.take(x - self.left),
            {
                assert(0 <= y * self.cols && y * self.cols + x < self.cols * self.rows)
                    by (nonlinear_arith)
                    requires
                        0 <= y < self.rows,
                        0 <= x < self.cols,
                ;
                blocks.push(y * self.cols + x);
                assert(row.take(x + 1 - self.left) =~= row.take(x - self.left).push(
                    row[x - self.left],
                ));
                assert(blocks@ =~= before + row.take(x + 1 - self.left));
            }
            assert(row.take((self.right - self.left) as int) =~= row);
        }
        blocks
    }
}

/// The whole grid.
pub open spec fn whole(cols: usize, rows: usize) -> ActiveRegion {
    ActiveRegion { top: 0, bottom: rows, left: 0, right: cols, cols, rows }
}

/// Luma sums of the blocks of two frames that are compared.
pub struct BlockSums {
    pub org: Seq<u64>,
    pub reference: Seq<u64>,
    pub cols: int,
    /// The sum up to which a block counts as black.
    pub black: int,
}

/// The sum up to which a block counts as black: that of eight bits, shifted by the further
/// ones. Only its lowest 64 bits count.
pub open spec fn black_sum(bit_depth: int) -> int {
    (BAR_BLACK_LEVEL_8BIT * 64 * pow2((bit_depth - 8) as nat)) % 0x1_0000_0000_0000_0000
}

/// The sum up to which a block counts as black.
fn black_sum_at(bit_depth: usize) -> (black: u64)
    requires
        8 <= bit_depth <= MAX_BAR_BIT_DEPTH,
    ensures
        black == black_sum(bit_depth as int),
{
    let mut black: u64 = BAR_BLACK_LEVEL_8BIT * 64;
    proof {
        lemma2_to64();
    }
    for step in 0..bit_depth - 8
        invariant
            8 <= bit_depth <= MAX_BAR_BIT_DEPTH,
            black == black_sum(8 + step),
    {
        let ghost whole_sum = BAR_BLACK_LEVEL_8BIT * 64 * pow2(step as nat);
        proof {
            lemma_pow2_unfold((step + 1) as nat);
            assert(BAR_BLACK_LEVEL_8BIT * 64 * pow2((step + 1) as nat) == 2 * whole_sum)
                by (nonlinear_arith)
                requires
                    pow2((step + 1) as nat) == 2 * pow2(step as nat),
                    whole_sum == BAR_BLACK_LEVEL_8BIT * 64 * pow2(step as nat),
            ;
            lemma_mul_mod_noop_right(2, whole_sum, 0x1_0000_0000_0000_0000);
        }
        black = if black >= 0x8000_0000_0000_0000 {
            (black - 0x8000_0000_0000_0000) * 2
        } else {
            black * 2
        };
    }
    black
}

impl BlockSums {
    /// Whether a block is black: in both frames.
    pub open spec fn is_black(self, x: int, y: int) -> bool {
        let block = y * self.cols + x;
        self.org[block] <= self.black && self.reference[block] <= self.black
    }

    /// Number of blocks in the first few columns of a row that are not black.
    pub open spec fn bright_in_row(self, y: int, cols: nat) -> int
        decreases cols,
    {
        if cols == 0 {
            0
        } else {
            self.bright_in_row(y, (cols - 1) as nat) + if self.is_black(cols - 1, y) {
                0int
            } else {
                1
            }
        }
    }

    /// Number of blocks of a column, from one row to before another, that are not black.
    pub open spec fn bright_in_col(self, x: int, top: int, bottom: int) -> int
        decreases bottom - top,
    {
        if bottom <= top {
            0
        } else {
            self.bright_in_col(x, top, bottom - 1) + if self.is_black(x, bottom - 1) {
                0int
            } else {
                1
            }
        }
    }

    /// Whether a row belongs to a bar.
    pub open spec fn is_bar_row(self, y: int) -> bool {
        self.bright_in_row(y, self.cols as nat) <= self.cols * BAR_NONBLACK_TOLERANCE_PERCENT / 100
    }

    /// Whether a column belongs to a bar, looked at from one row to before another.
    pub open spec fn is_bar_col(self, x: int, top: int, bottom: int) -> bool {
        self.bright_in_col(x, top, bottom) <= (bottom - top) * BAR_NONBLACK_TOLERANCE_PERCENT / 100
    }

    /// The first row from one on that belongs to no bar.
    pub open spec fn first_row(self, from: int, to: int) -> int
        decreases to - from,
    {
        if from < to && self.is_bar_row(from) {
            self.first_row(from + 1, to)
        } else {
            from
        }
    }

    /// The row after the last one that belongs to no bar.
    pub open spec fn end_row(self, from: int, to: int) -> int
        decreases to - from,
    {
        if from < to && self.is_bar_row(to - 1) {
            self.end_row(from, to - 1)
        } else {
            to
        }
    }

    /// The first column from one on that belongs to no bar.
    pub open spec fn first_col(self, from: int, to: int, top: int, bottom: int) -> int
        decreases to - from,
    {
        if from < to && self.is_bar_col(from, top, bottom) {
            self.first_col(from + 1, to, top, bottom)
        } else {
            from
        }
    }

    /// The column after the last one that belongs to no bar.
    pub open spec fn end_col(self, from: int, to: int, top: int, bottom: int) -> int
        decreases to - from,
    {
        if from < to && self.is_bar_col(to - 1, top, bottom) {
            self.end_col(from, to - 1, top, bottom)
        } else {
            to
        }
    }

    /// The active region: what is left when bars are taken off at the top and bottom,
    /// then at the left and right. Where less than half would be left in a direction,
    /// there are no bars: for rows none at all, for columns none on the sides.
    pub open spec fn active_region(self, rows: int) -> ActiveRegion {
        let top = self.first_row(0, rows);
        let bottom = self.end_row(top, rows);
        if self.cols == 0 || rows == 0 || 2 * (bottom - top) < rows {
            whole(self.cols as usize, rows as usize)
        } else {
            let left = self.first_col(0, self.cols, top, bottom);
            let right = self.end_col(left, self.cols, top, bottom);
            let keeps = 2 * (right - left) >= self.cols;
            ActiveRegion {
                top: top as usize,
                bottom: bottom as usize,
                left: if keeps {
                    left as usize
                } else {
                    0
                },
                right: if keeps {
                    right as usize
                } else {
                    self.cols as usize
                },
                cols: self.cols as usize,
                rows: rows as usize,
            }
        }
    }
}

/// Whether a block is black in both frames.
fn black_in_both(
    org_sums: &[u64],
    ref_sums: &[u64],
    cols: usize,
    rows: usize,
    black: u64,
    x: usize,
    y: usize,
) -> (is_black: bool)
    requires
        x < cols,
        y < rows,
        org_sums@.len() == cols * rows,
        ref_sums@.len() == cols * rows,
    ensures
        is_black == (BlockSums {
            org: org_sums@,
            reference: ref_sums@,
            cols: cols as int,
            black: black as int,
        }).is_black(x as int, y as int),
{
    let held: usize = org_sums.len();
    assert(0 <= y * cols && y * cols + x < cols * rows) by (nonlinear_arith)
        requires
            0 <= y < rows,
            0 <= x < cols,
    ;
    let block: usize = y * cols + x;
    org_sums[block] <= black && ref_sums[block] <= black
}

/// How many out of so many blocks may be brighter in a bar.
fn tolerated(blocks: usize) -> (bright: usize)
    ensures
        bright == blocks * BAR_NONBLACK_TOLERANCE_PERCENT / 100,
{
    (blocks / 100) * BAR_NONBLACK_TOLERANCE_PERCENT + (blocks % 100)
        * BAR_NONBLACK_TOLERANCE_PERCENT / 100
}

/// Whether a row belongs to a bar.
fn row_is_bar(
    org_sums: &[u64],
    ref_sums: &[u64],
    cols: usize,
    rows: usize,
    black: u64,
    y: usize,
) -> (is_bar: bool)
    requires
        y < rows,
        org_sums@.len() == cols * rows,
        ref_sums@.len() == cols * rows,
    ensures
        is_bar == (BlockSums {
            org: org_sums@,
            reference: ref_sums@,
            cols: cols as int,
            black: black as int,
        }).is_bar_row(y as int),
{
    let ghost sums = BlockSums {
        org: org_sums@,
        reference: ref_sums@,
        cols: cols as int,
        black: black as int,
    };
    let mut bright: usize = 0;
    for x in 0..cols
        invariant
            y < rows,
            org_sums@.len() == cols * rows,
            ref_sums@.len() == cols * rows,
            sums == (BlockSums {
                org: org_sums@,
                reference: ref_sums@,
                cols: cols as int,
                black: black as int,
            }),
            bright == sums.bright_in_row(y as int, x as nat),
            bright <= x,
    {
        if !black_in_both(org_sums, ref_sums, cols, rows, black, x, y) {
            bright = bright + 1;
        }
    }
    bright <= tolerated(cols)
}

/// Whether a column belongs to a bar, looked at from one row to before another.
fn col_is_bar(
    org_sums: &[u64],
    ref_sums: &[u64],
    cols: usize,
    rows: usize,
    black: u64,
    x: usize,
    top: usize,
    bottom: usize,
) -> (is_bar: bool)
    requires
        x < cols,
        top <= bottom <= rows,
        org_sums@.len() == cols * rows,
        ref_sums@.len() == cols * rows,
    ensures
        is_bar == (BlockSums {
            org: org_sums@,
            reference: ref_sums@,
            cols: cols as int,
            black: black as int,
        }).is_bar_col(x as int, top as int, bottom as int),
{
    let ghost sums = BlockSums {
        org: org_sums@,
        reference: ref_sums@,
        cols: cols as int,
        black: black as int,
    };
    let mut bright: usize = 0;
    for y in top..bottom
        invariant
            x < cols,
            bottom <= rows,
            org_sums@.len() == cols * rows,
            ref_sums@.len() == cols * rows,
            sums == (BlockSums {
                org: org_sums@,
                reference: ref_sums@,
                cols: cols as int,
                black: black as int,
            }),
            bright == sums.bright_in_col(x as int, top as int, y as int),
            bright <= y - top,
    {
        if !black_in_both(org_sums, ref_sums, cols, rows, black, x, y) {
            bright = bright + 1;
        }
    }
    bright <= tolerated(bottom - top)
}

/// Detects the active region from the luma sums of the blocks of two frames that are
/// compared. A bar has to be black in both, so a cut into or out of a picture with
/// bars still sees the bars as a change.
pub fn detect_active_region(
    org_sums: &[u64],
    ref_sums: &[u64],
    cols: usize,
    rows: usize,
    bit_depth: usize,
) -> (region: ActiveRegion)
    requires
        cols > 0 && rows > 0 ==> {
            &&& 8 <= bit_depth <= MAX_BAR_BIT_DEPTH
            &&& org_sums@.len() == cols * rows
            &&& ref_sums@.len() == cols * rows
        },
    ensures
        region == (BlockSums {
            org: org_sums@,
            reference: ref_sums@,
            cols: cols as int,
            black: black_sum(bit_depth as int),
        }).active_region(rows as int),
        region.wf(),
{
    let held: usize = org_sums.len();
    if cols == 0 || rows == 0 {
        return ActiveRegion::full(cols, rows);
    }
    let black: u64 = black_sum_at(bit_depth);
    let ghost sums = BlockSums {
        org: org_sums@,
        reference: ref_sums@,
        cols: cols as int,
        black: black as int,
    };
    let mut top: usize = 0;
    while top < rows && row_is_bar(org_sums, ref_sums, cols, rows, black, top)
        invariant
            top <= rows,
                org_sums@.len() == cols * rows,
            ref_sums@.len() == cols * rows,
            sums == (BlockSums {
                org: org_sums@,
                reference: ref_sums@,
                cols: cols as int,
                black: black as int,
            }),
            sums.first_row(0, rows as int) == sums.first_row(top as int, rows as int),
        ensures
            top <= rows,
            top == sums.first_row(0, rows as int),
        decreases rows - top,
    {
        top = top + 1;
    }
    let mut bottom: usize = rows;
    while bottom > top && row_is_bar(org_sums, ref_sums, cols, rows, black, bottom - 1)
        invariant
            top <= bottom <= rows,
                org_sums@.len() == cols * rows,
            ref_sums@.len() == cols * rows,
            sums == (BlockSums {
                org: org_sums@,
                reference: ref_sums@,
                cols: cols as int,
                black: black as int,
            }),
            sums.end_row(top as int, rows as int) == sums.end_row(top as int, bottom as int),
        ensures
            top <= bottom <= rows,
            bottom == sums.end_row(top as int, rows as int),
        decreases bottom - top,
    {
        bottom = bottom - 1;
    }
    if bottom - top < rows - (bottom - top) {
        return ActiveRegion::full(cols, rows);
    }
    let mut left: usize = 0;
    while left < cols && col_is_bar(org_sums, ref_sums, cols, rows, black, left, top, bottom)
        invariant
            left <= cols,
            top <= bottom <= rows,
                org_sums@.len() == cols * rows,
            ref_sums@.len() == cols * rows,
            sums == (BlockSums {
                org: org_sums@,
                reference: ref_sums@,
                cols: cols as int,
                black: black as int,
            }),
            sums.first_col(0, cols as int, top as int, bottom as int) == sums.first_col(
                left as int,
                cols as int,
                top as int,
                bottom as int,
            ),
        ensures
            left <= cols,
            left == sums.first_col(0, cols as int, top as int, bottom as int),
        decreases cols - left,
    {
        left = left + 1;
    }
    let mut right: usize = cols;
    while right > left && col_is_bar(
        org_sums,
        ref_sums,
        cols,
        rows,
        black,
        right - 1,
        top,
        bottom,
    )
        invariant
            left <= right <= cols,
            top <= bottom <= rows,
                org_sums@.len() == cols * rows,
            ref_sums@.len() == cols * rows,
            sums == (BlockSums {
                org: org_sums@,
                reference: ref_sums@,
                cols: cols as int,
                black: black as int,
            }),
            sums.end_col(left as int, cols as int, top as int, bottom as int) == sums.end_col(
                left as int,
                right as int,
                top as int,
                bottom as int,
            ),
        ensures
            left <= right <= cols,
            right == sums.end_col(left as int, cols as int, top as int, bottom as int),
        decreases right - left,
    {
        right = right - 1;
    }
    if right - left < cols - (right - left) {
        left = 0;
        right = cols;
    }
    ActiveRegion { top, bottom, left, right, cols, rows }
}

/// Whether a number is that of a block in the first few rows of the region.
pub open spec fn names_covered_block(region: ActiveRegion, block: usize, rows: int) -> bool {
    exists|x: int, y: int| #[trigger]
        region.covers(x, y) && y < region.top + rows && block == y * region.cols + x
}

/// Every block that counts is numbered once, in increasing order, and lies in the
/// region.
pub proof fn indices_are_row_major(region: ActiveRegion, rows: nat)
    requires
        region.wf(),
        rows <= region.bottom - region.top,
    ensures
        indices_from(region, rows).len() == rows * (region.right - region.left),
        forall|i: int, j: int|
            0 <= i < j < indices_from(region, rows).len() ==> indices_from(region, rows)[i]
                < indices_from(region, rows)[j],
        forall|k: int|
            0 <= k < indices_from(region, rows).len() ==> names_covered_block(
                region,
                #[trigger] indices_from(region, rows)[k],
                rows as int,
            ),
    decreases rows,
{
    let width = (region.right - region.left) as nat;
    if rows == 0 {
        assert(0 * width == 0) by (nonlinear_arith);
    } else {
        let rest = (rows - 1) as nat;
        indices_are_row_major(region, rest);
        let before = indices_from(region, rest);
        let all = indices_from(region, rows);
        let y = region.top + rows - 1;
        assert(rows * width == rest * width + width) by (nonlinear_arith)
            requires
                rows == rest + 1,
        ;
        assert forall|k: int| before.len() <= k < all.len() implies #[trigger] all[k] == y
            * region.cols + region.left + (k - before.len()) && region.covers(
            region.left + (k - before.len()),
            y,
        ) by {
            let x = region.left + (k - before.len());
            assert(0 <= y * region.cols + x < region.cols * region.rows) by (nonlinear_arith)
                requires
                    0 <= x < region.cols,
                    0 <= y < region.rows,
            ;
        }
        assert forall|i: int, j: int| 0 <= i < j < all.len() implies all[i] < all[j] by {
            if i < before.len() {
                assert(all[i] == before[i]);
                if j < before.len() {
                    assert(all[j] == before[j]);
                } else {
                    assert(names_covered_block(region, before[i], rest as int));
                    let (bx, by) = choose|bx: int, by: int|
                        #[trigger] region.covers(bx, by) && by < region.top + rest && before[i]
                            == by * region.cols + bx;
                    assert(before[i] == by * region.cols + bx);
                    let x = region.left + (j - before.len());
                    assert(by * region.cols + bx < y * region.cols + x) by (nonlinear_arith)
                        requires
                            0 <= bx < region.cols,
                            0 <= x,
                            by < y,
                    ;
                }
            }
        }
        assert forall|k: int| 0 <= k < all.len() implies names_covered_block(
            region,
            #[trigger] all[k],
            rows as int,
        ) by {
            if k < before.len() {
                assert(all[k] == before[k]);
                assert(names_covered_block(region, before[k], rest as int));
            } else {
                assert(region.covers(region.left + (k - before.len()), y));
            }
        }
    }
}

/// It makes no difference which of the two frames comes first.
pub proof fn bars_are_symmetric(sums: BlockSums, rows: int)
    requires
        0 <= sums.cols,
        0 <= rows,
    ensures
        sums.active_region(rows) == (BlockSums {
            org: sums.reference,
            reference: sums.org,
            ..sums
        }).active_region(rows),
{
    let turned = BlockSums { org: sums.reference, reference: sums.org, ..sums };
    rows_agree(sums, turned, 0, rows);
    let top = sums.first_row(0, rows);
    ends_agree(sums, turned, top, rows);
    let bottom = sums.end_row(top, rows);
    cols_agree(sums, turned, 0, sums.cols, top, bottom);
    col_ends_agree(
        sums,
        turned,
        sums.first_col(0, sums.cols, top, bottom),
        sums.cols,
        top,
        bottom,
    );
}

/// Whether two pairs of frames are black in the same places.
spec fn equally_black(left: BlockSums, right: BlockSums) -> bool {
    &&& left.cols == right.cols
    &&& forall|x: int, y: int| left.is_black(x, y) == #[trigger] right.is_black(x, y)
}

proof fn bright_rows_agree(left: BlockSums, right: BlockSums, y: int, cols: nat)
    requires
        equally_black(left, right),
    ensures
        left.bright_in_row(y, cols) == right.bright_in_row(y, cols),
    decreases cols,
{
    if cols > 0 {
        bright_rows_agree(left, right, y, (cols - 1) as nat);
        assert(left.is_black(cols - 1, y) == right.is_black(cols - 1, y));
    }
}

proof fn bright_cols_agree(left: BlockSums, right: BlockSums, x: int, top: int, bottom: int)
    requires
        equally_black(left, right),
    ensures
        left.bright_in_col(x, top, bottom) == right.bright_in_col(x, top, bottom),
    decreases bottom - top,
{
    if top < bottom {
        bright_cols_agree(left, right, x, top, bottom - 1);
        assert(left.is_black(x, bottom - 1) == right.is_black(x, bottom - 1));
    }
}

proof fn rows_agree(left: BlockSums, right: BlockSums, from: int, to: int)
    requires
        equally_black(left, right),
    ensures
        left.first_row(from, to) == right.first_row(from, to),
    decreases to - from,
{
    if from < to {
        bright_rows_agree(left, right, from, left.cols as nat);
        rows_agree(left, right, from + 1, to);
    }
}

proof fn ends_agree(left: BlockSums, right: BlockSums, from: int, to: int)
    requires
        equally_black(left, right),
    ensures
        left.end_row(from, to) == right.end_row(from, to),
    decreases to - from,
{
    if from < to {
        bright_rows_agree(left, right, to - 1, left.cols as nat);
        ends_agree(left, right, from, to - 1);
    }
}

proof fn cols_agree(
    left: BlockSums,
    right: BlockSums,
    from: int,
    to: int,
    top: int,
    bottom: int,
)
    requires
        equally_black(left, right),
    ensures
        left.first_col(from, to, top, bottom) == right.first_col(from, to, top, bottom),
    decreases to - from,
{
    if from < to {
        bright_cols_agree(left, right, from, top, bottom);
        cols_agree(left, right, from + 1, to, top, bottom);
    }
}

proof fn col_ends_agree(
    left: BlockSums,
    right: BlockSums,
    from: int,
    to: int,
    top: int,
    bottom: int,
)
    requires
        equally_black(left, right),
    ensures
        left.end_col(from, to, top, bottom) == right.end_col(from, to, top, bottom),
    decreases to - from,
{
    if from < to {
        bright_cols_agree(left, right, to - 1, top, bottom);
        col_ends_agree(left, right, from, to - 1, top, bottom);
    }
}

/// The columns in which a row is brighter than black in either frame.
pub open spec fn bright_columns(sums: BlockSums, y: int, cols: int) -> Set<int> {
    Set::new(
        |x: int|
            0 <= x < cols && !(sums.org[y * sums.cols + x] <= sums.black && sums.reference[y
                * sums.cols + x] <= sums.black),
    )
}

/// The rows from one to before another in which a column is brighter than black in either
/// frame.
pub open spec fn bright_rows(sums: BlockSums, x: int, top: int, bottom: int) -> Set<int> {
    Set::new(
        |y: int|
            top <= y < bottom && !(sums.org[y * sums.cols + x] <= sums.black && sums.reference[y
                * sums.cols + x] <= sums.black),
    )
}

/// A row has as many bright blocks as bright columns.
proof fn row_counts_bright_columns(sums: BlockSums, y: int, cols: nat)
    ensures
        bright_columns(sums, y, cols as int).finite(),
        bright_columns(sums, y, cols as int).len() == sums.bright_in_row(y, cols),
    decreases cols,
{
    let all = bright_columns(sums, y, cols as int);
    if cols == 0 {
        assert(all =~= Set::empty());
    } else {
        row_counts_bright_columns(sums, y, (cols - 1) as nat);
        let fewer = bright_columns(sums, y, cols - 1);
        if sums.is_black(cols - 1, y) {
            assert(all =~= fewer);
        } else {
            assert(all =~= fewer.insert(cols - 1));
        }
    }
}

/// A column has as many bright blocks as bright rows.
proof fn col_counts_bright_rows(sums: BlockSums, x: int, top: int, bottom: int)
    requires
        top <= bottom,
    ensures
        bright_rows(sums, x, top, bottom).finite(),
        bright_rows(sums, x, top, bottom).len() == sums.bright_in_col(x, top, bottom),
    decreases bottom - top,
{
    let all = bright_rows(sums, x, top, bottom);
    if bottom == top {
        assert(all =~= Set::empty());
    } else {
        col_counts_bright_rows(sums, x, top, bottom - 1);
        let fewer = bright_rows(sums, x, top, bottom - 1);
        if sums.is_black(x, bottom - 1) {
            assert(all =~= fewer);
        } else {
            assert(all =~= fewer.insert(bottom - 1));
        }
    }
}

/// Where bars end is fixed by the rows around: those before are bars and the next is none.
proof fn rows_end_where_bars_do(sums: BlockSums, from: int, to: int)
    requires
        0 <= from <= to,
        0 <= sums.cols,
    ensures
        from <= sums.first_row(from, to) <= to,
        forall|y: int| from <= y < sums.first_row(from, to) ==> #[trigger] sums.is_bar_row(y),
        sums.first_row(from, to) < to ==> !sums.is_bar_row(sums.first_row(from, to)),
        from <= sums.end_row(from, to) <= to,
        forall|y: int| sums.end_row(from, to) <= y < to ==> #[trigger] sums.is_bar_row(y),
        from < sums.end_row(from, to) ==> !sums.is_bar_row(sums.end_row(from, to) - 1),
    decreases to - from,
{
    if from < to {
        if sums.is_bar_row(from) {
            rows_end_where_bars_do(sums, from + 1, to);
        }
        if sums.is_bar_row(to - 1) {
            rows_end_where_bars_do(sums, from, to - 1);
        }
    }
}

/// Where bars end on the sides is fixed by the columns around.
proof fn cols_end_where_bars_do(sums: BlockSums, from: int, to: int, top: int, bottom: int)
    requires
        0 <= from <= to,
    ensures
        from <= sums.first_col(from, to, top, bottom) <= to,
        forall|x: int|
            from <= x < sums.first_col(from, to, top, bottom) ==> #[trigger] sums.is_bar_col(
                x,
                top,
                bottom,
            ),
        sums.first_col(from, to, top, bottom) < to ==> !sums.is_bar_col(
            sums.first_col(from, to, top, bottom),
            top,
            bottom,
        ),
        from <= sums.end_col(from, to, top, bottom) <= to,
        forall|x: int|
            sums.end_col(from, to, top, bottom) <= x < to ==> #[trigger] sums.is_bar_col(
                x,
                top,
                bottom,
            ),
        from < sums.end_col(from, to, top, bottom) ==> !sums.is_bar_col(
            sums.end_col(from, to, top, bottom) - 1,
            top,
            bottom,
        ),
    decreases to - from,
{
    if from < to {
        if sums.is_bar_col(from, top, bottom) {
            cols_end_where_bars_do(sums, from + 1, to, top, bottom);
        }
        if sums.is_bar_col(to - 1, top, bottom) {
            cols_end_where_bars_do(sums, from, to - 1, top, bottom);
        }
    }
}

/// Every row that is taken off is a bar: at most three in a hundred of its blocks are
/// brighter than black in either frame. The outermost rows that stay, where any are taken
/// off, are none. The same holds of the columns, counted over the rows that stay. And never
/// is more than half taken off in a direction.
pub proof fn only_bars_are_taken_off(sums: BlockSums, rows: int, y: int, x: int)
    requires
        0 < sums.cols <= usize::MAX,
        0 < rows <= usize::MAX,
    ensures
        ({
            let region = sums.active_region(rows);
            let bright = Set::new(
                |i: int|
                    0 <= i < sums.cols && !(sums.org[y * sums.cols + i] <= sums.black
                        && sums.reference[y * sums.cols + i] <= sums.black),
            ).len();
            &&& region.cols == sums.cols && region.rows == rows
            &&& region.top <= region.bottom <= rows
            &&& region.left <= region.right <= sums.cols
            &&& 2 * (region.bottom - region.top) >= rows
            &&& 2 * (region.right - region.left) >= sums.cols
            &&& 0 <= y < region.top || region.bottom <= y < rows ==> bright * 100 <= sums.cols * 3
            &&& (region.top > 0 || region.bottom < rows) && (y == region.top || y
                == region.bottom - 1) ==> bright * 100 > sums.cols * 3
        }),
        ({
            let region = sums.active_region(rows);
            let height = region.bottom - region.top;
            let bright = Set::new(
                |i: int|
                    region.top <= i < region.bottom && !(sums.org[i * sums.cols + x] <= sums.black
                        && sums.reference[i * sums.cols + x] <= sums.black),
            ).len();
            &&& 0 <= x < region.left || region.right <= x < sums.cols ==> bright * 100 <= height * 3
            &&& (region.left > 0 || region.right < sums.cols) && (x == region.left || x
                == region.right - 1) ==> bright * 100 > height * 3
        }),
{
    let region = sums.active_region(rows);
    let top = sums.first_row(0, rows);
    let bottom = sums.end_row(top, rows);
    rows_end_where_bars_do(sums, 0, rows);
    rows_end_where_bars_do(sums, top, rows);
    cols_end_where_bars_do(sums, 0, sums.cols, top, bottom);
    let left = sums.first_col(0, sums.cols, top, bottom);
    cols_end_where_bars_do(sums, left, sums.cols, top, bottom);
    row_counts_bright_columns(sums, y, sums.cols as nat);
    col_counts_bright_rows(sums, x, region.top as int, region.bottom as int);
    assert(bright_columns(sums, y, sums.cols) =~= Set::new(
        |i: int|
            0 <= i < sums.cols && !(sums.org[y * sums.cols + i] <= sums.black && sums.reference[y
                * sums.cols + i] <= sums.black),
    ));
    assert(bright_rows(sums, x, region.top as int, region.bottom as int) =~= Set::new(
        |i: int|
            region.top <= i < region.bottom && !(sums.org[i * sums.cols + x] <= sums.black
                && sums.reference[i * sums.cols + x] <= sums.black),
    ));
    if 0 <= y < region.top || region.bottom <= y < rows {
        assert(sums.is_bar_row(y));
    }
    if 0 <= x < region.left || region.right <= x < sums.cols {
        assert(sums.is_bar_col(x, top, bottom));
    }
}

/// Rows of bars around a stretch whose outermost rows are none are found.
proof fn rows_of_bars_are_found(sums: BlockSums, rows: int, top: int, bottom: int)
    requires
        0 < sums.cols <= usize::MAX,
        0 < rows <= usize::MAX,
        0 <= top < bottom <= rows,
        forall|y: int|
            0 <= y < top || bottom <= y < rows ==> 100 * Set::new(
                |x: int|
                    0 <= x < sums.cols && !(sums.org[#[trigger] (y * sums.cols) + x] <= sums.black
                        && sums.reference[y * sums.cols + x] <= sums.black),
            ).len() <= 3 * sums.cols,
        forall|y: int|
            y == top || y == bottom - 1 ==> 100 * Set::new(
                |x: int|
                    0 <= x < sums.cols && !(sums.org[#[trigger] (y * sums.cols) + x] <= sums.black
                        && sums.reference[y * sums.cols + x] <= sums.black),
            ).len() > 3 * sums.cols,
    ensures
        sums.first_row(0, rows) == top,
        sums.end_row(top, rows) == bottom,
{
    rows_end_where_bars_do(sums, 0, rows);
    let first = sums.first_row(0, rows);
    rows_end_where_bars_do(sums, first, rows);
    assert forall|y: int| 0 <= y < top || bottom <= y < rows implies #[trigger] sums.is_bar_row(y) by {
        row_counts_bright_columns(sums, y, sums.cols as nat);
        assert(y * sums.cols == y * sums.cols);
        assert(bright_columns(sums, y, sums.cols) =~= Set::new(
            |x: int|
                0 <= x < sums.cols && !(sums.org[(y * sums.cols) + x] <= sums.black
                    && sums.reference[y * sums.cols + x] <= sums.black),
        ));
    }
    assert forall|y: int| y == top || y == bottom - 1 implies !#[trigger] sums.is_bar_row(y) by {
        row_counts_bright_columns(sums, y, sums.cols as nat);
        assert(y * sums.cols == y * sums.cols);
        assert(bright_columns(sums, y, sums.cols) =~= Set::new(
            |x: int|
                0 <= x < sums.cols && !(sums.org[(y * sums.cols) + x] <= sums.black
                    && sums.reference[y * sums.cols + x] <= sums.black),
        ));
    }
    assert(!sums.is_bar_row(top));
    assert(!sums.is_bar_row(bottom - 1));
}

/// Bars are taken off wherever they are: with rows of bars around a stretch whose outermost
/// rows are none, the stretch is what stays, if it is half of the rows or more; else nothing
/// is taken off at all.
pub proof fn every_bar_is_taken_off(sums: BlockSums, rows: int, top: int, bottom: int)
    requires
        0 < sums.cols <= usize::MAX,
        0 < rows <= usize::MAX,
        0 <= top < bottom <= rows,
        forall|y: int|
            0 <= y < top || bottom <= y < rows ==> 100 * Set::new(
                |x: int|
                    0 <= x < sums.cols && !(sums.org[#[trigger] (y * sums.cols) + x] <= sums.black
                        && sums.reference[y * sums.cols + x] <= sums.black),
            ).len() <= 3 * sums.cols,
        forall|y: int|
            y == top || y == bottom - 1 ==> 100 * Set::new(
                |x: int|
                    0 <= x < sums.cols && !(sums.org[#[trigger] (y * sums.cols) + x] <= sums.black
                        && sums.reference[y * sums.cols + x] <= sums.black),
            ).len() > 3 * sums.cols,
    ensures
        2 * (bottom - top) >= rows ==> sums.active_region(rows).top == top && sums.active_region(
            rows,
        ).bottom == bottom,
        2 * (bottom - top) < rows ==> sums.active_region(rows) == whole(
            sums.cols as usize,
            rows as usize,
        ),
{
    rows_of_bars_are_found(sums, rows, top, bottom);
}

/// The same of columns, looked at over the rows that stay: with columns of bars around a
/// stretch whose outermost columns are none, the stretch is what stays, if it is half of the
/// columns or more; else no column is taken off.
pub proof fn every_pillar_is_taken_off(
    sums: BlockSums,
    rows: int,
    top: int,
    bottom: int,
    left: int,
    right: int,
)
    requires
        0 < sums.cols <= usize::MAX,
        0 < rows <= usize::MAX,
        0 <= top < bottom <= rows,
        0 <= left < right <= sums.cols,
        2 * (bottom - top) >= rows,
        forall|y: int|
            0 <= y < top || bottom <= y < rows ==> 100 * Set::new(
                |x: int|
                    0 <= x < sums.cols && !(sums.org[#[trigger] (y * sums.cols) + x] <= sums.black
                        && sums.reference[y * sums.cols + x] <= sums.black),
            ).len() <= 3 * sums.cols,
        forall|y: int|
            y == top || y == bottom - 1 ==> 100 * Set::new(
                |x: int|
                    0 <= x < sums.cols && !(sums.org[#[trigger] (y * sums.cols) + x] <= sums.black
                        && sums.reference[y * sums.cols + x] <= sums.black),
            ).len() > 3 * sums.cols,
        forall|x: int|
            0 <= x < left || right <= x < sums.cols ==> 100 * (#[trigger] bright_rows(
                sums,
                x,
                top,
                bottom,
            )).len() <= 3 * (bottom - top),
        forall|x: int|
            x == left || x == right - 1 ==> 100 * (#[trigger] bright_rows(
                sums,
                x,
                top,
                bottom,
            )).len() > 3 * (bottom - top),
    ensures
        2 * (right - left) >= sums.cols ==> sums.active_region(rows).left == left
            && sums.active_region(rows).right == right,
        2 * (right - left) < sums.cols ==> sums.active_region(rows).left == 0
            && sums.active_region(rows).right == sums.cols,
{
    rows_of_bars_are_found(sums, rows, top, bottom);
    cols_end_where_bars_do(sums, 0, sums.cols, top, bottom);
    let start = sums.first_col(0, sums.cols, top, bottom);
    cols_end_where_bars_do(sums, start, sums.cols, top, bottom);
    assert forall|x: int| 0 <= x < left || right <= x < sums.cols implies #[trigger] sums.is_bar_col(
        x,
        top,
        bottom,
    ) by {
        col_counts_bright_rows(sums, x, top, bottom);
    }
    assert forall|x: int| x == left || x == right - 1 implies !#[trigger] sums.is_bar_col(
        x,
        top,
        bottom,
    ) by {
        col_counts_bright_rows(sums, x, top, bottom);
    }
    assert(!sums.is_bar_col(left, top, bottom));
    assert(!sums.is_bar_col(right - 1, top, bottom));
}

/// The black level of eight bits is 18 for each of the 64 samples of a block, and each
/// further bit doubles it.
pub proof fn black_level_doubles_with_each_bit(bit_depth: int)
    requires
        8 <= bit_depth < 61,
    ensures
        black_sum(8) == 18 * 64,
        black_sum(bit_depth + 1) == 2 * black_sum(bit_depth),
{
    lemma2_to64();
    lemma2_to64_rest();
    lemma_pow2_unfold((bit_depth - 7) as nat);
    if bit_depth - 8 < 52 {
        lemma_pow2_strictly_increases((bit_depth - 8) as nat, 52);
    }
    assert(pow2((bit_depth - 8) as nat) <= 0x10_0000_0000_0000);
}

} // verus!
