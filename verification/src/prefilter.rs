//! Comparing pictures block by block, and a cheap bound on the outcome.
//!
//! Blocks are compared by samples on a lattice. The sums of the samples in each
//! quarter of a block, once taken, bound the difference to any other block from
//! below without looking at its samples again.

use vstd::prelude::*;
use crate::parallel::plan::smaller;
use crate::picture::{LumaPlane, FORWARD_PREFILTER_BLOCK_SIZE, FORWARD_PREFILTER_SUBAREAS};
use crate::picture::SAMPLES_PER_BLOCK;
use crate::postprocess::common::gap;

verus! {

/// Where a sample of a block lies within it, from left to right.
pub open spec fn lattice_x(at: int) -> int {
    (at % 8) * 4
}

/// Where a sample of a block lies within it, from top to bottom.
pub open spec fn lattice_y(at: int) -> int {
    (at / 8) * 4
}

/// The quarter of a block in which a sample lies.
pub open spec fn quarter_of(at: int) -> int {
    (lattice_y(at) / 16) * 2 + lattice_x(at) / 16
}

/// A sample of a block.
pub open spec fn block_sample(plane: LumaPlane, bx: int, by: int, at: int) -> int {
    plane.sample(bx * 32 + lattice_x(at), by * 32 + lattice_y(at))
}

/// Sum of those of the first few samples of a block that lie in one quarter.
pub open spec fn quarter_sum(plane: LumaPlane, bx: int, by: int, quarter: int, samples: nat) -> int
    decreases samples,
{
    if samples == 0 {
        0
    } else {
        let at = samples - 1;
        quarter_sum(plane, bx, by, quarter, at as nat) + if quarter_of(at) == quarter {
            block_sample(plane, bx, by, at)
        } else {
            0
        }
    }
}

/// Sum of the differences of the first few samples of two blocks.
pub open spec fn block_distance(
    left: LumaPlane,
    right: LumaPlane,
    bx: int,
    by: int,
    samples: nat,
) -> int
    decreases samples,
{
    if samples == 0 {
        0
    } else {
        let at = samples - 1;
        block_distance(left, right, bx, by, at as nat) + gap(
            block_sample(left, bx, by, at),
            block_sample(right, bx, by, at),
        )
    }
}

/// Sum of the differences between the quarters of two blocks.
pub open spec fn quarter_distance(
    left: LumaPlane,
    right: LumaPlane,
    bx: int,
    by: int,
    samples: nat,
) -> int {
    gap(quarter_sum(left, bx, by, 0, samples), quarter_sum(right, bx, by, 0, samples)) + gap(
        quarter_sum(left, bx, by, 1, samples),
        quarter_sum(right, bx, by, 1, samples),
    ) + gap(quarter_sum(left, bx, by, 2, samples), quarter_sum(right, bx, by, 2, samples)) + gap(
        quarter_sum(left, bx, by, 3, samples),
        quarter_sum(right, bx, by, 3, samples),
    )
}

/// The sums of the quarters never differ by more than the samples do.
pub proof fn quarters_bound_block(left: LumaPlane, right: LumaPlane, bx: int, by: int, samples: nat)
    requires
        samples <= 64,
    ensures
        quarter_distance(left, right, bx, by, samples) <= block_distance(
            left,
            right,
            bx,
            by,
            samples,
        ),
    decreases samples,
{
    if samples > 0 {
        quarters_bound_block(left, right, bx, by, (samples - 1) as nat);
        let quarter = quarter_of(samples - 1);
        assert(quarter == 0 || quarter == 1 || quarter == 2 || quarter == 3);
    }
}

/// The quarter sums of every full block of a picture.
#[derive(Debug)]
pub struct ForwardPrefilterSignature {
    pub cols: usize,
    pub rows: usize,
    /// The sums of each block, row by row.
    pub sub_sums: Vec<[u32; FORWARD_PREFILTER_SUBAREAS]>,
}

impl ForwardPrefilterSignature {
    /// Whether there is one entry per block, and no sum exceeds that of the brightest
    /// block.
    pub open spec fn wf(self) -> bool {
        &&& self.sub_sums@.len() == self.cols * self.rows
        &&& forall|block: int, quarter: int|
            0 <= block < self.sub_sums@.len() && 0 <= quarter < 4
                ==> #[trigger] self.sub_sums@[block]@[quarter] <= 64 * 0xFFFF
    }

    /// Whether these are the quarter sums of a picture.
    pub open spec fn describes(self, plane: LumaPlane) -> bool {
        &&& self.cols == plane.width / 32
        &&& self.rows == plane.height / 32
        &&& self.sub_sums@.len() == self.cols * self.rows
        &&& forall|bx: int, by: int, quarter: int|
            0 <= bx < self.cols && 0 <= by < self.rows && 0 <= quarter < 4
                ==> #[trigger] self.sub_sums@[by * self.cols + bx]@[quarter] == quarter_sum(
                plane,
                bx,
                by,
                quarter,
                64,
            )
    }
}

/// A block index lies within the grid.
proof fn block_index_is_bounded(bx: int, by: int, cols: int, rows: int)
    requires
        0 <= bx < cols,
        0 <= by < rows,
    ensures
        0 <= by * cols + bx < cols * rows,
        by * cols <= (rows - 1) * cols,
{
    assert(0 <= by * cols + bx < cols * rows && by * cols <= (rows - 1) * cols) by (nonlinear_arith)
        requires
            0 <= bx < cols,
            0 <= by < rows,
    ;
}

/// The quarter sums of one block.
fn quarter_sums_of_block(plane: &LumaPlane, bx: usize, by: usize) -> (sums: [u32; 4])
    requires
        plane.wf(),
        bx < plane.width / 32,
        by < plane.height / 32,
    ensures
        forall|quarter: int|
            0 <= quarter < 4 ==> #[trigger] sums@[quarter] == quarter_sum(
                *plane,
                bx as int,
                by as int,
                quarter,
                64,
            ) && sums@[quarter] <= 64 * 0xFFFF,
{
    let mut sums: [u32; 4] = [0; 4];
    for at in 0..SAMPLES_PER_BLOCK
        invariant
            plane.wf(),
            bx < plane.width / 32,
            by < plane.height / 32,
            forall|quarter: int|
                0 <= quarter < 4 ==> #[trigger] sums@[quarter] == quarter_sum(
                    *plane,
                    bx as int,
                    by as int,
                    quarter,
                    at as nat,
                ) && sums@[quarter] <= at * 0xFFFF,
    {
        let dx: usize = (at % 8) * 4;
        let dy: usize = (at / 8) * 4;
        let quarter: usize = (dy / 16) * 2 + dx / 16;
        let sample: u32 = plane.at(bx * 32 + dx, by * 32 + dy) as u32;
        assert(sums@[quarter as int] == quarter_sum(
            *plane,
            bx as int,
            by as int,
            quarter as int,
            at as nat,
        ));
        sums[quarter] = sums[quarter] + sample;
    }
    sums
}

/// Takes the quarter sums of every full block of a picture.
pub fn build_forward_prefilter_signature(plane: &LumaPlane) -> (signature: ForwardPrefilterSignature)
    requires
        plane.wf(),
    ensures
        signature.wf(),
        signature.describes(*plane),
{
    let cols: usize = plane.width / FORWARD_PREFILTER_BLOCK_SIZE;
    let rows: usize = plane.height / FORWARD_PREFILTER_BLOCK_SIZE;
    let mut sub_sums: Vec<[u32; FORWARD_PREFILTER_SUBAREAS]> = Vec::new();
    proof {
        assert(0 * cols == 0) by (nonlinear_arith);
    }
    for by in 0..rows
        invariant
            plane.wf(),
            cols == plane.width / 32,
            rows == plane.height / 32,
            sub_sums@.len() == by * cols,
            forall|block: int, quarter: int|
                0 <= block < sub_sums@.len() && 0 <= quarter < 4
                    ==> #[trigger] sub_sums@[block]@[quarter] <= 64 * 0xFFFF,
            forall|x: int, y: int, quarter: int|
                0 <= x < cols && 0 <= y < by && 0 <= quarter < 4 ==> #[trigger] sub_sums@[y * cols
                    + x]@[quarter] == quarter_sum(*plane, x, y, quarter, 64),
    {
        proof {
            assert(0 <= by * cols) by (nonlinear_arith)
                requires
                    by >= 0,
                    cols >= 0,
            ;
        }
        for bx in 0..cols
            invariant
                plane.wf(),
                cols == plane.width / 32,
                rows == plane.height / 32,
                by < rows,
                0 <= by * cols,
                sub_sums@.len() == by * cols + bx,
                forall|block: int, quarter: int|
                    0 <= block < sub_sums@.len() && 0 <= quarter < 4
                        ==> #[trigger] sub_sums@[block]@[quarter] <= 64 * 0xFFFF,
                forall|x: int, y: int, quarter: int|
                    0 <= x < cols && 0 <= y <= by && (y < by || x < bx) && 0 <= quarter < 4
                        ==> #[trigger] sub_sums@[y * cols + x]@[quarter] == quarter_sum(
                        *plane,
                        x,
                        y,
                        quarter,
                        64,
                    ),
        {
            let sums = quarter_sums_of_block(plane, bx, by);
            let ghost before = sub_sums@;
            sub_sums.push(sums);
            proof {
                assert forall|x: int, y: int, quarter: int|
                    0 <= x < cols && 0 <= y <= by && (y < by || x < bx + 1) && 0 <= quarter
                        < 4 implies #[trigger] sub_sums@[y * cols + x]@[quarter] == quarter_sum(
                    *plane,
                    x,
                    y,
                    quarter,
                    64,
                ) by {
                    if y == by && x == bx {
                        assert(sub_sums@[y * cols + x] == sums);
                    } else {
                        assert(0 <= y * cols + x < by * cols + bx) by (nonlinear_arith)
                            requires
                                0 <= x < cols,
                                0 <= y <= by,
                                y < by || x < bx,
                                0 <= bx < cols,
                        ;
                        assert(sub_sums@[y * cols + x] == before[y * cols + x]);
                    }
                }
            }
        }
        proof {
            assert((by + 1) * cols == by * cols + cols) by (nonlinear_arith);
        }
    }
    proof {
        assert(rows * cols == cols * rows) by (nonlinear_arith);
    }
    ForwardPrefilterSignature { cols, rows, sub_sums }
}

/// The difference between the quarters of two summed blocks.
pub open spec fn sums_distance(left: Seq<u32>, right: Seq<u32>) -> int {
    gap(left[0] as int, right[0] as int) + gap(left[1] as int, right[1] as int) + gap(
        left[2] as int,
        right[2] as int,
    ) + gap(left[3] as int, right[3] as int)
}

/// How many columns or rows two grids have in common.
pub open spec fn shared(left: usize, right: usize) -> int {
    smaller(left as int, right as int)
}

/// The difference of two numbers.
fn distance_of(left: u32, right: u32) -> (distance: u32)
    ensures
        distance == gap(left as int, right as int),
{
    if left >= right {
        left - right
    } else {
        right - left
    }
}

/// The difference between the quarters of two summed blocks.
fn distance_of_sums(left: &[u32; 4], right: &[u32; 4]) -> (distance: u32)
    requires
        forall|quarter: int| 0 <= quarter < 4 ==> #[trigger] left@[quarter] <= 64 * 0xFFFF,
        forall|quarter: int| 0 <= quarter < 4 ==> #[trigger] right@[quarter] <= 64 * 0xFFFF,
    ensures
        distance == sums_distance(left@, right@),
{
    assert(left@[0] <= 64 * 0xFFFF && left@[1] <= 64 * 0xFFFF && left@[2] <= 64 * 0xFFFF && left@[3]
        <= 64 * 0xFFFF);
    assert(right@[0] <= 64 * 0xFFFF && right@[1] <= 64 * 0xFFFF && right@[2] <= 64 * 0xFFFF
        && right@[3] <= 64 * 0xFFFF);
    distance_of(left[0], right[0]) + distance_of(left[1], right[1]) + distance_of(left[2], right[2])
        + distance_of(left[3], right[3])
}

/// The smaller of two machine numbers.
fn shared_edge(left: usize, right: usize) -> (edge: usize)
    ensures
        edge == shared(left, right),
{
    if left <= right {
        left
    } else {
        right
    }
}

/// A bound on the difference of each block that two pictures have in common, row by
/// row: the difference between the quarters. Nothing where they have no block in
/// common.
pub fn block_bounds(
    reference: &ForwardPrefilterSignature,
    post: &ForwardPrefilterSignature,
) -> (bounds: Option<Vec<u32>>)
    requires
        reference.wf(),
        post.wf(),
    ensures
        bounds is None <==> shared(reference.cols, post.cols) == 0 || shared(
            reference.rows,
            post.rows,
        ) == 0,
        bounds matches Some(found) ==> {
            let cols = shared(reference.cols, post.cols);
            let rows = shared(reference.rows, post.rows);
            &&& found@.len() == cols * rows
            &&& forall|bx: int, by: int|
                0 <= bx < cols && 0 <= by < rows ==> #[trigger] found@[by * cols + bx]
                    == sums_distance(
                    reference.sub_sums@[by * reference.cols + bx]@,
                    post.sub_sums@[by * post.cols + bx]@,
                )
        },
{
    let cols: usize = shared_edge(reference.cols, post.cols);
    let rows: usize = shared_edge(reference.rows, post.rows);
    if cols == 0 || rows == 0 {
        return None;
    }
    let held: usize = reference.sub_sums.len();
    let held_post: usize = post.sub_sums.len();
    let mut bounds: Vec<u32> = Vec::new();
    proof {
        assert(0 * cols == 0) by (nonlinear_arith);
    }
    for by in 0..rows
        invariant
            reference.wf(),
            post.wf(),
            held == reference.sub_sums@.len(),
            held_post == post.sub_sums@.len(),
            cols == shared(reference.cols, post.cols),
            rows == shared(reference.rows, post.rows),
            bounds@.len() == by * cols,
            forall|x: int, y: int|
                0 <= x < cols && 0 <= y < by ==> #[trigger] bounds@[y * cols + x] == sums_distance(
                    reference.sub_sums@[y * reference.cols + x]@,
                    post.sub_sums@[y * post.cols + x]@,
                ),
    {
        proof {
            assert(0 <= by * cols) by (nonlinear_arith)
                requires
                    by >= 0,
                    cols >= 0,
            ;
        }
        for bx in 0..cols
            invariant
                reference.wf(),
                post.wf(),
                held == reference.sub_sums@.len(),
                held_post == post.sub_sums@.len(),
                cols == shared(reference.cols, post.cols),
                rows == shared(reference.rows, post.rows),
                by < rows,
                0 <= by * cols,
                bounds@.len() == by * cols + bx,
                forall|x: int, y: int|
                    0 <= x < cols && 0 <= y <= by && (y < by || x < bx) ==> #[trigger] bounds@[y
                        * cols + x] == sums_distance(
                        reference.sub_sums@[y * reference.cols + x]@,
                        post.sub_sums@[y * post.cols + x]@,
                    ),
        {
            proof {
                block_index_is_bounded(
                    bx as int,
                    by as int,
                    reference.cols as int,
                    reference.rows as int,
                );
                block_index_is_bounded(bx as int, by as int, post.cols as int, post.rows as int);
            }
            let left_at: usize = by * reference.cols + bx;
            let right_at: usize = by * post.cols + bx;
            let bound: u32 = distance_of_sums(
                &reference.sub_sums[left_at],
                &post.sub_sums[right_at],
            );
            let ghost before = bounds@;
            bounds.push(bound);
            proof {
                assert forall|x: int, y: int|
                    0 <= x < cols && 0 <= y <= by && (y < by || x < bx
                        + 1) implies #[trigger] bounds@[y * cols + x] == sums_distance(
                    reference.sub_sums@[y * reference.cols + x]@,
                    post.sub_sums@[y * post.cols + x]@,
                ) by {
                    if !(y == by && x == bx) {
                        assert(0 <= y * cols + x < by * cols + bx) by (nonlinear_arith)
                            requires
                                0 <= x < cols,
                                0 <= y <= by,
                                y < by || x < bx,
                                0 <= bx < cols,
                        ;
                        assert(bounds@[y * cols + x] == before[y * cols + x]);
                    }
                }
            }
        }
        proof {
            assert((by + 1) * cols == by * cols + cols) by (nonlinear_arith);
        }
    }
    proof {
        assert(rows * cols == cols * rows) by (nonlinear_arith);
    }
    Some(bounds)
}

/// The difference of one block of two pictures.
fn distance_of_block(left: &LumaPlane, right: &LumaPlane, bx: usize, by: usize) -> (distance: u32)
    requires
        left.wf(),
        right.wf(),
        bx < left.width / 32,
        by < left.height / 32,
        bx < right.width / 32,
        by < right.height / 32,
    ensures
        distance == block_distance(*left, *right, bx as int, by as int, 64),
{
    let mut distance: u32 = 0;
    for at in 0..SAMPLES_PER_BLOCK
        invariant
            left.wf(),
            right.wf(),
            bx < left.width / 32,
            by < left.height / 32,
            bx < right.width / 32,
            by < right.height / 32,
            distance == block_distance(*left, *right, bx as int, by as int, at as nat),
            distance <= at * 0xFFFF,
    {
        let dx: usize = (at % 8) * 4;
        let dy: usize = (at / 8) * 4;
        let a: u32 = left.at(bx * 32 + dx, by * 32 + dy) as u32;
        let b: u32 = right.at(bx * 32 + dx, by * 32 + dy) as u32;
        distance = distance + distance_of(a, b);
    }
    distance
}

/// The blocks that two pictures have in common: how many in a row, and how many rows.
pub open spec fn block_grid(left: LumaPlane, right: LumaPlane) -> (int, int) {
    (
        smaller(left.width as int, right.width as int) / 32,
        smaller(left.height as int, right.height as int) / 32,
    )
}

/// The difference of each block that two pictures have in common, row by row: the
/// sum over 64 samples.
pub fn block_distances(left: &LumaPlane, right: &LumaPlane) -> (distances: Vec<u32>)
    requires
        left.wf(),
        right.wf(),
    ensures
        ({
            let (cols, rows) = block_grid(*left, *right);
            &&& distances@.len() == cols * rows
            &&& forall|bx: int, by: int|
                0 <= bx < cols && 0 <= by < rows ==> #[trigger] distances@[by * cols + bx]
                    == block_distance(*left, *right, bx, by, 64)
        }),
{
    let cols: usize = shared_edge(left.width, right.width) / FORWARD_PREFILTER_BLOCK_SIZE;
    let rows: usize = shared_edge(left.height, right.height) / FORWARD_PREFILTER_BLOCK_SIZE;
    let mut distances: Vec<u32> = Vec::new();
    proof {
        assert(0 * cols == 0) by (nonlinear_arith);
    }
    for by in 0..rows
        invariant
            left.wf(),
            right.wf(),
            cols == block_grid(*left, *right).0,
            rows == block_grid(*left, *right).1,
            distances@.len() == by * cols,
            forall|x: int, y: int|
                0 <= x < cols && 0 <= y < by ==> #[trigger] distances@[y * cols + x]
                    == block_distance(*left, *right, x, y, 64),
    {
        proof {
            assert(0 <= by * cols) by (nonlinear_arith)
                requires
                    by >= 0,
                    cols >= 0,
            ;
        }
        for bx in 0..cols
            invariant
                left.wf(),
                right.wf(),
                cols == block_grid(*left, *right).0,
                rows == block_grid(*left, *right).1,
                by < rows,
                0 <= by * cols,
                distances@.len() == by * cols + bx,
                forall|x: int, y: int|
                    0 <= x < cols && 0 <= y <= by && (y < by || x < bx) ==> #[trigger] distances@[y
                        * cols + x] == block_distance(*left, *right, x, y, 64),
        {
            let distance: u32 = distance_of_block(left, right, bx, by);
            let ghost before = distances@;
            distances.push(distance);
            proof {
                assert forall|x: int, y: int|
                    0 <= x < cols && 0 <= y <= by && (y < by || x < bx
                        + 1) implies #[trigger] distances@[y * cols + x] == block_distance(
                    *left,
                    *right,
                    x,
                    y,
                    64,
                ) by {
                    if !(y == by && x == bx) {
                        assert(0 <= y * cols + x < by * cols + bx) by (nonlinear_arith)
                            requires
                                0 <= x < cols,
                                0 <= y <= by,
                                y < by || x < bx,
                                0 <= bx < cols,
                        ;
                        assert(distances@[y * cols + x] == before[y * cols + x]);
                    }
                }
            }
        }
        proof {
            assert((by + 1) * cols == by * cols + cols) by (nonlinear_arith);
        }
    }
    proof {
        assert(rows * cols == cols * rows) by (nonlinear_arith);
    }
    distances
}

/// No block of two pictures differs by less than the bound that their quarter sums
/// give.
pub proof fn bound_never_exceeds_distance(
    reference: ForwardPrefilterSignature,
    post: ForwardPrefilterSignature,
    left: LumaPlane,
    right: LumaPlane,
    bx: int,
    by: int,
)
    requires
        reference.describes(left),
        post.describes(right),
        0 <= bx < shared(reference.cols, post.cols),
        0 <= by < shared(reference.rows, post.rows),
    ensures
        sums_distance(
            reference.sub_sums@[by * reference.cols + bx]@,
            post.sub_sums@[by * post.cols + bx]@,
        ) <= block_distance(left, right, bx, by, 64),
        block_grid(left, right) == (
            shared(reference.cols, post.cols),
            shared(reference.rows, post.rows),
        ),
{
    quarters_bound_block(left, right, bx, by, 64);
    let a = reference.sub_sums@[by * reference.cols + bx]@;
    let b = post.sub_sums@[by * post.cols + bx]@;
    assert(a[0] == quarter_sum(left, bx, by, 0, 64));
    assert(a[1] == quarter_sum(left, bx, by, 1, 64));
    assert(a[2] == quarter_sum(left, bx, by, 2, 64));
    assert(a[3] == quarter_sum(left, bx, by, 3, 64));
    assert(b[0] == quarter_sum(right, bx, by, 0, 64));
    assert(b[1] == quarter_sum(right, bx, by, 1, 64));
    assert(b[2] == quarter_sum(right, bx, by, 2, 64));
    assert(b[3] == quarter_sum(right, bx, by, 3, 64));
}

/// Sum of the differences of the first few samples of a row.
pub open spec fn row_distance(left: LumaPlane, right: LumaPlane, y: int, samples: nat) -> int
    decreases samples,
{
    if samples == 0 {
        0
    } else {
        let x = samples - 1;
        row_distance(left, right, y, x as nat) + gap(left.sample(x, y), right.sample(x, y))
    }
}

/// Sum of the differences of all samples of the first few rows.
pub open spec fn rows_distance(left: LumaPlane, right: LumaPlane, width: nat, rows: nat) -> int
    decreases rows,
{
    if rows == 0 {
        0
    } else {
        let y = rows - 1;
        rows_distance(left, right, width, y as nat) + row_distance(left, right, y, width)
    }
}

/// The difference of two planes, summed over the samples that they have in common,
/// and the number of these samples.
pub fn plane_distance(left: &LumaPlane, right: &LumaPlane) -> (distance: (u128, u64))
    requires
        left.wf(),
        right.wf(),
    ensures
        ({
            let width = smaller(left.width as int, right.width as int);
            let height = smaller(left.height as int, right.height as int);
            &&& distance.0 == rows_distance(*left, *right, width as nat, height as nat)
            &&& distance.1 == width * height
        }),
{
    let width: usize = shared_edge(left.width, right.width);
    let height: usize = shared_edge(left.height, right.height);
    let mut sum: u128 = 0;
    for y in 0..height
        invariant
            left.wf(),
            right.wf(),
            width == shared(left.width, right.width),
            height == shared(left.height, right.height),
            sum == rows_distance(*left, *right, width as nat, y as nat),
            sum <= y * 0x1_0000_0000_0000,
    {
        let mut row: u64 = 0;
        for x in 0..width
            invariant
                left.wf(),
                right.wf(),
                y < height,
                width == shared(left.width, right.width),
                height == shared(left.height, right.height),
                row == row_distance(*left, *right, y as int, x as nat),
                row <= x * 0xFFFF,
        {
            let a: u32 = left.at(x, y) as u32;
            let b: u32 = right.at(x, y) as u32;
            row = row + distance_of(a, b) as u64;
        }
        sum = sum + row as u128;
    }
    assert(width * height <= 0x0FFF_FFFF * 0x0FFF_FFFF) by (nonlinear_arith)
        requires
            0 <= width <= 0x0FFF_FFFF,
            0 <= height <= 0x0FFF_FFFF,
    ;
    (sum, width as u64 * height as u64)
}

} // verus!
