//! Luma planes, and what is sampled from them.

use vstd::prelude::*;
use vstd::arithmetic::div_mod::{lemma_div_is_ordered, lemma_div_multiples_vanish};
use vstd::arithmetic::div_mod::{lemma_div_pos_is_pos, lemma_multiply_divide_lt};
use vstd::arithmetic::power2::{lemma2_to64, lemma2_to64_rest, lemma_pow2_strictly_increases};
use vstd::arithmetic::power2::{lemma_pow2_unfold, pow2};
use crate::options::larger;
use crate::parallel::plan::smaller;
use crate::score::FRAME_LUMA_SIGNATURE_CELLS;

verus! {

/// Columns of a luma signature.
pub const FRAME_LUMA_SIGNATURE_COLS: usize = 8;
/// Rows of a luma signature.
pub const FRAME_LUMA_SIGNATURE_ROWS: usize = 4;
/// Highest bit depth for which sample sums fit machine numbers.
pub const MAX_BIT_DEPTH: usize = 60;
/// Largest width or height of a plane.
pub const MAX_EDGE: usize = 0x0FFF_FFFF;
/// Edge of a block in which planes are compared.
pub const FORWARD_PREFILTER_BLOCK_SIZE: usize = 32;
/// Samples of a block.
pub const SAMPLES_PER_BLOCK: usize = 64;
/// Quarters of a block that are summed separately.
pub const FORWARD_PREFILTER_SUBAREAS: usize = 4;

/// A plane of samples, row by row, with room around the picture.
#[derive(Debug)]
pub struct LumaPlane {
    pub width: usize,
    pub height: usize,
    /// Distance from a sample to the one below it.
    pub stride: usize,
    /// Index of the first sample of the picture.
    pub origin: usize,
    pub data: Vec<u16>,
}

impl LumaPlane {
    /// Whether every sample of the picture is in the data.
    pub open spec fn wf(self) -> bool {
        &&& 0 < self.width <= MAX_EDGE
        &&& 0 < self.height <= MAX_EDGE
        &&& self.origin + (self.height - 1) * self.stride + self.width <= self.data@.len()
    }

    /// The sample at a place of the picture.
    pub open spec fn sample(self, x: int, y: int) -> int {
        self.data@[self.origin + y * self.stride + x] as int
    }

    /// Whether every sample of the picture is in the data.
    pub fn is_sound(&self) -> (sound: bool)
        ensures
            sound == self.wf(),
    {
        let held: usize = self.data.len();
        if self.width == 0 || self.width > MAX_EDGE || self.height == 0 || self.height > MAX_EDGE {
            return false;
        }
        match (self.height - 1).checked_mul(self.stride) {
            Some(rows) => match rows.checked_add(self.width) {
                Some(end) => match end.checked_add(self.origin) {
                    Some(end) => end <= held,
                    None => false,
                },
                None => false,
            },
            None => false,
        }
    }

    /// The sample at a place of the picture.
    pub(crate) fn at(&self, x: usize, y: usize) -> (sample: u16)
        requires
            self.wf(),
            x < self.width,
            y < self.height,
        ensures
            sample == self.sample(x as int, y as int),
    {
        let held: usize = self.data.len();
        assert(y * self.stride <= (self.height - 1) * self.stride) by (nonlinear_arith)
            requires
                y <= self.height - 1,
                self.stride >= 0,
        ;
        assert(0 <= y * self.stride) by (nonlinear_arith)
            requires
                y >= 0,
                self.stride >= 0,
        ;
        self.data[self.origin + y * self.stride + x]
    }

    /// The part of the picture from `left` to before `right`, and from `top` to before
    /// `bottom`.
    pub fn part(&self, left: usize, right: usize, top: usize, bottom: usize) -> (part: LumaPlane)
        requires
            self.wf(),
            left < right <= self.width,
            top < bottom <= self.height,
        ensures
            part.wf(),
            part.width == right - left,
            part.height == bottom - top,
            forall|x: int, y: int|
                0 <= x < part.width && 0 <= y < part.height ==> #[trigger] part.sample(x, y)
                    == self.sample(left + x, top + y),
    {
        let width: usize = right - left;
        let height: usize = bottom - top;
        let mut data: Vec<u16> = Vec::new();
        assert(0 * width == 0) by (nonlinear_arith);
        for y in 0..height
            invariant
                self.wf(),
                left < right <= self.width,
                top < bottom <= self.height,
                width == right - left,
                height == bottom - top,
                data.len() == y * width,
                forall|i: int, j: int|
                    0 <= i < width && 0 <= j < y ==> #[trigger] data@[j * width + i]
                        == self.sample(left + i, top + j),
        {
            for x in 0..width
                invariant
                    self.wf(),
                    left < right <= self.width,
                    top < bottom <= self.height,
                    width == right - left,
                    height == bottom - top,
                    0 <= y < height,
                    data.len() == y * width + x,
                    forall|i: int, j: int|
                        0 <= i < width && 0 <= j < y ==> #[trigger] data@[j * width + i]
                            == self.sample(left + i, top + j),
                    forall|i: int|
                        0 <= i < x ==> #[trigger] data@[y * width + i] == self.sample(
                            left + i,
                            top + y,
                        ),
            {
                let ghost before = data@;
                data.push(self.at(left + x, top + y));
                assert forall|i: int, j: int|
                    0 <= i < width && 0 <= j < y implies #[trigger] data@[j * width + i]
                    == self.sample(left + i, top + j) by {
                    row_starts_are_spread(i, j, width as int, y as int);
                    assert(before[j * width + i] == self.sample(left + i, top + j));
                }
            }
            assert((y + 1) * width == y * width + width) by (nonlinear_arith);
            assert forall|i: int, j: int| 0 <= i < width && 0 <= j < y + 1 implies #[trigger] data@[j
                * width + i] == self.sample(left + i, top + j) by {
                if j == y {
                    assert(data@[y * width + i] == self.sample(left + i, top + y));
                }
            }
        }
        assert((height - 1) * width + width == height * width) by (nonlinear_arith);
        LumaPlane { width, height, stride: width, origin: 0, data }
    }
}

/// In a picture without gaps, a place of an earlier row comes before the rows after it.
proof fn row_starts_are_spread(x: int, y: int, width: int, rows: int)
    requires
        0 <= x < width,
        0 <= y < rows,
    ensures
        0 <= y * width + x < rows * width,
{
    assert(0 <= y * width + x < rows * width) by (nonlinear_arith)
        requires
            0 <= x < width,
            0 <= y < rows,
    ;
}

/// Where one of several evenly spread samples of a stretch lies, within a limit.
pub open spec fn sample_position(start: int, end: int, limit: int, sample: int, samples: int) -> int {
    smaller(
        start + ((2 * sample + 1) * stretch_of(start, end)) / (2 * samples),
        larger(limit - 1, 0),
    )
}

/// The length of a stretch, at least one.
pub open spec fn stretch_of(start: int, end: int) -> int {
    larger(larger(end - start, 0), 1)
}

/// Whether the place of a sample can be computed in machine numbers. It can for a sample of
/// the stretch where twice the samples times the length can.
pub open spec fn position_fits(start: int, end: int, sample: int, samples: int) -> bool {
    ||| sample < samples && 2 * samples * stretch_of(start, end) <= usize::MAX
    ||| {
        &&& 2 * samples <= usize::MAX
        &&& 2 * sample + 1 <= usize::MAX
        &&& (2 * sample + 1) * stretch_of(start, end) <= usize::MAX
        &&& start + ((2 * sample + 1) * stretch_of(start, end)) / (2 * samples) <= usize::MAX
    }
}

/// A sample of a stretch lies in it.
proof fn sample_lies_in_stretch(length: int, sample: int, samples: int)
    requires
        0 < length,
        0 <= sample < samples,
    ensures
        0 <= ((2 * sample + 1) * length) / (2 * samples) < length,
        (2 * sample + 1) * length < 2 * samples * length,
        2 * samples <= 2 * samples * length,
{
    let product = (2 * sample + 1) * length;
    assert(0 <= product < length * (2 * samples)) by (nonlinear_arith)
        requires
            product == (2 * sample + 1) * length,
            0 < length,
            0 <= sample < samples,
    ;
    assert(length * (2 * samples) == 2 * samples * length) by (nonlinear_arith);
    assert(2 * samples <= 2 * samples * length) by (nonlinear_arith)
        requires
            0 < length,
            0 < samples,
    ;
    lemma_div_pos_is_pos(product, 2 * samples);
    lemma_multiply_divide_lt(product, 2 * samples, length);
}

/// Where one of several evenly spread samples of a stretch lies, within a limit.
pub fn sampled_cell_position(
    start: usize,
    end: usize,
    limit: usize,
    sample: usize,
    samples: usize,
) -> (position: usize)
    requires
        0 < samples,
        position_fits(start as int, end as int, sample as int, samples as int),
    ensures
        position == sample_position(
            start as int,
            end as int,
            limit as int,
            sample as int,
            samples as int,
        ),
        limit > 0 ==> position < limit,
        start < end <= limit && sample < samples ==> start <= position < end,
{
    let stretch: usize = end.saturating_sub(start);
    let len: usize = if stretch > 1 {
        stretch
    } else {
        1
    };
    proof {
        assert(len == stretch_of(start as int, end as int));
        if sample < samples {
            sample_lies_in_stretch(len as int, sample as int, samples as int);
        }
        assert(0 <= (2 * sample + 1) * len) by (nonlinear_arith)
            requires
                sample >= 0,
                len >= 0,
        ;
        lemma_div_pos_is_pos((2 * sample + 1) * len, 2 * samples as int);
    }
    let product: usize = (2 * sample + 1) * len;
    let parts: usize = 2 * samples;
    let place: usize = start + product / parts;
    let last: usize = limit.saturating_sub(1);
    if place <= last {
        place
    } else {
        last
    }
}

/// The samples of a stretch lie in it, one after another.
pub proof fn samples_are_spread_in_order(
    start: int,
    end: int,
    limit: int,
    sample: int,
    later: int,
    samples: int,
)
    requires
        0 <= sample <= later < samples,
    ensures
        sample_position(start, end, limit, sample, samples) <= sample_position(
            start,
            end,
            limit,
            later,
            samples,
        ),
        0 <= start < end <= limit ==> {
            &&& start <= sample_position(start, end, limit, sample, samples)
            &&& sample_position(start, end, limit, later, samples) < end
        },
{
    let len = stretch_of(start, end);
    sample_lies_in_stretch(len, sample, samples);
    sample_lies_in_stretch(len, later, samples);
    assert((2 * sample + 1) * len <= (2 * later + 1) * len) by (nonlinear_arith)
        requires
            sample <= later,
            0 < len,
    ;
    lemma_div_is_ordered((2 * sample + 1) * len, (2 * later + 1) * len, 2 * samples);
}

/// Where a cell begins along an edge that is cut into equal parts.
pub open spec fn cell_edge(cell: int, length: int, cells: int) -> int {
    cell * length / cells
}

/// Sum of the first few samples of a cell, row by row.
pub open spec fn cell_sum(plane: LumaPlane, cell_x: int, cell_y: int, samples: nat) -> int
    decreases samples,
{
    if samples == 0 {
        0
    } else {
        let at = samples - 1;
        let x = sample_position(
            cell_edge(cell_x, plane.width as int, 8),
            cell_edge(cell_x + 1, plane.width as int, 8),
            plane.width as int,
            at % 4,
            4,
        );
        let y = sample_position(
            cell_edge(cell_y, plane.height as int, 4),
            cell_edge(cell_y + 1, plane.height as int, 4),
            plane.height as int,
            at / 4,
            4,
        );
        cell_sum(plane, cell_x, cell_y, at as nat) + plane.sample(x, y)
    }
}

/// The highest sample at a bit depth.
pub open spec fn sample_max(bit_depth: int) -> int {
    larger(pow2_minus_one(bit_depth), 1)
}

/// One less than a power of two.
pub open spec fn pow2_minus_one(exponent: int) -> int {
    pow2(exponent as nat) - 1
}

/// A cell of the luma signature: the mean of its 16 samples on an 8-bit scale,
/// rounded, and no more than 255.
pub open spec fn signature_cell(plane: LumaPlane, bit_depth: int, cell: int) -> int {
    let full = sample_max(bit_depth) * 16;
    smaller((cell_sum(plane, cell % 8, cell / 8, 16) * 255 + full / 2) / full, 255)
}

/// A power of two.
fn power_of_two(exponent: usize) -> (power: u64)
    requires
        exponent <= MAX_BIT_DEPTH,
    ensures
        power == pow2(exponent as nat),
        1 <= power <= 0x1000_0000_0000_0000,
{
    let mut power: u64 = 1;
    proof {
        lemma2_to64();
    }
    for step in 0..exponent
        invariant
            exponent <= MAX_BIT_DEPTH,
            power == pow2(step as nat),
            1 <= power <= 0x1000_0000_0000_0000,
            step < exponent ==> power <= 0x0800_0000_0000_0000,
    {
        proof {
            lemma_pow2_unfold((step + 1) as nat);
            lemma2_to64();
            lemma2_to64_rest();
            if step + 1 < exponent {
                if step + 1 < 59 {
                    lemma_pow2_strictly_increases((step + 1) as nat, 59);
                }
            }
        }
        power = power * 2;
    }
    power
}

/// The highest sample at a bit depth.
fn highest_sample(bit_depth: usize) -> (highest: u64)
    requires
        bit_depth <= MAX_BIT_DEPTH,
    ensures
        highest == sample_max(bit_depth as int),
        highest <= 0x0FFF_FFFF_FFFF_FFFF,
{
    let highest: u64 = power_of_two(bit_depth) - 1;
    if highest > 1 {
        highest
    } else {
        1
    }
}

/// A cell begins within its edge, and ends no earlier.
proof fn cell_edges_are_ordered(cell: int, length: int, cells: int)
    requires
        0 <= cell < cells,
        0 < length,
    ensures
        0 <= cell_edge(cell, length, cells) <= cell_edge(cell + 1, length, cells) <= length,
{
    assert(0 <= cell * length <= (cell + 1) * length <= cells * length) by (nonlinear_arith)
        requires
            0 <= cell,
            cell + 1 <= cells,
            0 < length,
    ;
    lemma_div_is_ordered(cell * length, (cell + 1) * length, cells);
    lemma_div_is_ordered((cell + 1) * length, cells * length, cells);
    lemma_div_multiples_vanish(length, cells);
    lemma_div_pos_is_pos(cell * length, cells);
    assert(cells * length == length * cells) by (nonlinear_arith);
}

/// Sum of the 16 samples of a cell.
fn sum_of_cell(plane: &LumaPlane, cell_x: usize, cell_y: usize) -> (sum: u64)
    requires
        plane.wf(),
        cell_x < FRAME_LUMA_SIGNATURE_COLS,
        cell_y < FRAME_LUMA_SIGNATURE_ROWS,
    ensures
        sum == cell_sum(*plane, cell_x as int, cell_y as int, 16),
        sum <= 16 * 0xFFFF,
{
    proof {
        cell_edges_are_ordered(cell_x as int, plane.width as int, 8);
        cell_edges_are_ordered(cell_y as int, plane.height as int, 4);
    }
    assert(0 <= cell_x * plane.width <= 8 * plane.width && (cell_x + 1) * plane.width <= 8
        * plane.width) by (nonlinear_arith)
        requires
            0 <= cell_x,
            cell_x + 1 <= 8,
            0 < plane.width,
    ;
    assert(0 <= cell_y * plane.height <= 4 * plane.height && (cell_y + 1) * plane.height <= 4
        * plane.height) by (nonlinear_arith)
        requires
            0 <= cell_y,
            cell_y + 1 <= 4,
            0 < plane.height,
    ;
    let x0: usize = cell_x * plane.width / 8;
    let x1: usize = (cell_x + 1) * plane.width / 8;
    let y0: usize = cell_y * plane.height / 4;
    let y1: usize = (cell_y + 1) * plane.height / 4;
    let mut sum: u64 = 0;
    for at in 0usize..16
        invariant
            plane.wf(),
            x0 <= MAX_EDGE,
            x1 <= MAX_EDGE,
            y0 <= MAX_EDGE,
            y1 <= MAX_EDGE,
            x0 == cell_edge(cell_x as int, plane.width as int, 8),
            x1 == cell_edge(cell_x + 1, plane.width as int, 8),
            y0 == cell_edge(cell_y as int, plane.height as int, 4),
            y1 == cell_edge(cell_y + 1, plane.height as int, 4),
            sum == cell_sum(*plane, cell_x as int, cell_y as int, at as nat),
            sum <= at * 0xFFFF,
    {
        let x: usize = sampled_cell_position(x0, x1, plane.width, at % 4, 4);
        let y: usize = sampled_cell_position(y0, y1, plane.height, at / 4, 4);
        sum = sum + plane.at(x, y) as u64;
    }
    sum
}

/// A coarse signature of a picture: the mean luma of each of 8 by 4 cells on an
/// 8-bit scale.
pub fn frame_luma_signature_8bit(
    plane: &LumaPlane,
    bit_depth: usize,
) -> (signature: [u8; FRAME_LUMA_SIGNATURE_CELLS])
    requires
        plane.wf(),
        bit_depth <= MAX_BIT_DEPTH,
    ensures
        forall|cell: int|
            0 <= cell < FRAME_LUMA_SIGNATURE_CELLS ==> #[trigger] signature@[cell] == signature_cell(
                *plane,
                bit_depth as int,
                cell,
            ),
{
    let full: u64 = highest_sample(bit_depth) * 16;
    let mut signature: [u8; FRAME_LUMA_SIGNATURE_CELLS] = [0; FRAME_LUMA_SIGNATURE_CELLS];
    for cell in 0..FRAME_LUMA_SIGNATURE_CELLS
        invariant
            plane.wf(),
            full == sample_max(bit_depth as int) * 16,
            full > 0,
            forall|earlier: int|
                0 <= earlier < cell ==> #[trigger] signature@[earlier] == signature_cell(
                    *plane,
                    bit_depth as int,
                    earlier,
                ),
    {
        let sum: u64 = sum_of_cell(plane, cell % 8, cell / 8);
        let scaled: u64 = (sum * 255 + full / 2) / full;
        let value: u8 = if scaled < 255 {
            scaled as u8
        } else {
            255
        };
        signature[cell] = value;
    }
    signature
}

} // verus!
