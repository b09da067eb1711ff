//! The scores of a pair of frames that are compared by cost.

use vstd::prelude::*;
use crate::active::{indices_are_row_major, indices_from, names_covered_block, whole, ActiveRegion};
use crate::active::IMPORTANCE_BLOCK_SIZE;
use crate::blocks::all_numbers;
use crate::detector::analysis::ScenecutAnalysis;
use crate::measure::{double, Measure, ZERO};
use crate::options::SceneDetectionSpeed;
use crate::parallel::plan::{min, smaller};
use crate::picture::{frame_luma_signature_8bit, signature_cell, LumaPlane, MAX_BIT_DEPTH};
use crate::score::{fresh_record, ratio_or_zero, ScenecutResult, FRAME_LUMA_SIGNATURE_CELLS};

verus! {

/// Most blocks whose costs can be summed.
pub const MAX_COST_BLOCKS: usize = 0xFFFF_FFFF;

/// What is estimated of a pair of frames apart from its brightness.
#[derive(Clone, Copy, Debug, PartialEq, Eq, Structural)]
pub struct StructureEstimates {
    /// Share of the blocks that match once their mean is taken out.
    pub dc_free_good_block_ratio: Measure,
    /// The same with motion.
    pub me_dc_free_good_block_ratio: Measure,
    /// Mean cost of the blocks with motion, once their mean is taken out.
    pub me_dc_free_cost: Measure,
    /// Share of the blocks with structure whose structure matches.
    pub structure_match_ratio: Measure,
    /// Share of the blocks with structure.
    pub structure_coverage: Measure,
}

/// What is estimated of a pair of frames.
#[derive(Clone, Copy, Debug, PartialEq, Eq, Structural)]
pub struct CostEstimates {
    /// Mean cost of the blocks, without motion.
    pub inter_mean: Measure,
    /// Mean cost of the blocks, with motion.
    pub motion_mean: Measure,
    pub motion_cost_computed: bool,
    pub static_bad_block_ratio: Measure,
    pub static_good_block_ratio: Measure,
    pub me_bad_block_ratio: Measure,
    pub me_good_block_ratio: Measure,
    /// Mean importance of the blocks.
    pub importance_mean: Measure,
    /// Mean luma on an 8-bit scale.
    pub avg_luma_8bit: Measure,
    pub structure: StructureEstimates,
}

/// The thresholds that a pair of frames is held to.
#[derive(Clone, Copy, Debug, PartialEq, Eq, Structural)]
pub struct CostThresholds {
    /// A share of the mean intra cost.
    pub cost: Measure,
    /// The importance threshold at the frame's luma.
    pub importance: Measure,
    /// The mean importance over its threshold.
    pub importance_quotient: Measure,
}

/// Sum of the costs of the given blocks, the first few of them.
pub open spec fn listed_cost(costs: Seq<u32>, blocks: Seq<usize>) -> int
    decreases blocks.len(),
{
    if blocks.len() == 0 {
        0
    } else {
        listed_cost(costs, blocks.drop_last()) + costs[blocks.last() as int]
    }
}

/// Sum of the first few costs.
pub open spec fn total_cost(costs: Seq<u32>) -> int
    decreases costs.len(),
{
    if costs.len() == 0 {
        0
    } else {
        total_cost(costs.drop_last()) + costs.last()
    }
}

/// The intra costs of the active blocks, and their number. Without bars all blocks
/// count.
pub fn active_intra_cost(region: &ActiveRegion, intra_costs: &[u32]) -> (cost: (u64, usize))
    requires
        region.wf(),
        region.cols * region.rows <= intra_costs@.len() <= MAX_COST_BLOCKS,
    ensures
        cost == if *region == whole(region.cols, region.rows) {
            (total_cost(intra_costs@) as u64, intra_costs@.len() as usize)
        } else {
            (
                listed_cost(
                    intra_costs@,
                    indices_from(*region, (region.bottom - region.top) as nat),
                ) as u64,
                ((region.bottom - region.top) * (region.right - region.left)) as usize,
            )
        },
{
    let mut sum: u64 = 0;
    if region.is_full() {
        for block in 0..intra_costs.len()
            invariant
                intra_costs@.len() <= MAX_COST_BLOCKS,
                sum == total_cost(intra_costs@.take(block as int)),
                sum <= block * 0xFFFF_FFFF,
        {
            assert(intra_costs@.take(block + 1).drop_last() =~= intra_costs@.take(block as int));
            sum = sum + intra_costs[block] as u64;
        }
        assert(intra_costs@.take(intra_costs.len() as int) =~= intra_costs@);
        (sum, intra_costs.len())
    } else {
        let blocks: Vec<usize> = region.indices();
        let count: usize = region.count();
        proof {
            indices_are_row_major(*region, (region.bottom - region.top) as nat);
        }
        for index in 0..blocks.len()
            invariant
                region.wf(),
                region.cols * region.rows <= intra_costs@.len() <= MAX_COST_BLOCKS,
                blocks@ == indices_from(*region, (region.bottom - region.top) as nat),
                blocks@.len() <= region.cols * region.rows,
                forall|k: int|
                    0 <= k < blocks@.len() ==> names_covered_block(
                        *region,
                        #[trigger] blocks@[k],
                        region.bottom - region.top,
                    ),
                sum == listed_cost(intra_costs@, blocks@.take(index as int)),
                sum <= index * 0xFFFF_FFFF,
        {
            assert(blocks@.take(index + 1).drop_last() =~= blocks@.take(index as int));
            proof {
                covered_block_is_held(*region, blocks@[index as int]);
            }
            sum = sum + intra_costs[blocks[index]] as u64;
        }
        assert(blocks@.take(blocks.len() as int) =~= blocks@);
        (sum, count)
    }
}

/// A block of the region is one of the grid.
proof fn covered_block_is_held(region: ActiveRegion, block: usize)
    requires
        region.wf(),
        names_covered_block(region, block, region.bottom - region.top),
    ensures
        block < region.cols * region.rows,
{
    let (x, y) = choose|x: int, y: int| #[trigger]
        region.covers(x, y) && y < region.top + (region.bottom - region.top) && block == y
            * region.cols + x;
    assert(y * region.cols + x < region.cols * region.rows) by (nonlinear_arith)
        requires
            0 <= x < region.cols,
            0 <= y < region.rows,
    ;
}

/// How many blocks are cut off at the top, bottom, left and right; nothing without
/// bars.
pub fn active_crop(region: &ActiveRegion) -> (crop: Option<[usize; 4]>)
    requires
        region.wf(),
    ensures
        match crop {
            None => *region == whole(region.cols, region.rows),
            Some(edges) => {
                &&& *region != whole(region.cols, region.rows)
                &&& edges@ == seq![
                    region.top,
                    (region.rows - region.bottom) as usize,
                    region.left,
                    (region.cols - region.right) as usize,
                ]
            },
        },
{
    if region.is_full() {
        None
    } else {
        let edges: [usize; 4] = [
            region.top,
            region.rows - region.bottom,
            region.left,
            region.cols - region.right,
        ];
        assert(edges@ =~= seq![
            region.top,
            (region.rows - region.bottom) as usize,
            region.left,
            (region.cols - region.right) as usize,
        ]);
        Some(edges)
    }
}

/// A part of a picture, in samples: from `left` to before `right`, and from `top` to
/// before `bottom`.
#[derive(Clone, Copy, Debug, PartialEq, Eq, Structural)]
pub struct SampleRect {
    pub left: usize,
    pub right: usize,
    pub top: usize,
    pub bottom: usize,
}

/// The samples of a picture that are not part of bars; nothing where there are none.
pub open spec fn rect_of(region: ActiveRegion) -> Option<SampleRect> {
    if region == whole(region.cols, region.rows) {
        None
    } else {
        Some(
            SampleRect {
                left: (region.left * 8) as usize,
                right: (region.right * 8) as usize,
                top: (region.top * 8) as usize,
                bottom: (region.bottom * 8) as usize,
            },
        )
    }
}

/// The active part of a picture, in samples; nothing without bars.
pub fn active_rect(region: &ActiveRegion) -> (rect: Option<SampleRect>)
    requires
        region.wf(),
        region.cols * 8 <= usize::MAX,
        region.rows * 8 <= usize::MAX,
    ensures
        rect == rect_of(*region),
{
    if region.is_full() {
        None
    } else {
        Some(
            SampleRect {
                left: region.left * IMPORTANCE_BLOCK_SIZE,
                right: region.right * IMPORTANCE_BLOCK_SIZE,
                top: region.top * IMPORTANCE_BLOCK_SIZE,
                bottom: region.bottom * IMPORTANCE_BLOCK_SIZE,
            },
        )
    }
}

/// Whether a block that matches well has enough detail for that to mean anything.
pub open spec fn is_textured_match(
    inter_cost: Measure,
    intra_cost: Measure,
    good_threshold: Measure,
    intra_floor: Measure,
) -> bool {
    inter_cost.le(good_threshold) && intra_floor.le(intra_cost)
}

/// Number of the given blocks that match well and have detail.
pub open spec fn count_textured(
    inter_costs: Seq<Measure>,
    intra_costs: Seq<Measure>,
    blocks: Seq<usize>,
    good_threshold: Measure,
    intra_floor: Measure,
) -> int
    decreases blocks.len(),
{
    if blocks.len() == 0 {
        0
    } else {
        let block = blocks.last() as int;
        count_textured(
            inter_costs,
            intra_costs,
            blocks.drop_last(),
            good_threshold,
            intra_floor,
        ) + if is_textured_match(
            inter_costs[block],
            intra_costs[block],
            good_threshold,
            intra_floor,
        ) {
            1int
        } else {
            0
        }
    }
}

/// Number of active blocks that match well and have detail. Flat blocks match across
/// any cut, so they are no evidence of tracking.
pub fn textured_good_blocks(
    region: &ActiveRegion,
    inter_costs: &[Measure],
    intra_costs: &[Measure],
    good_threshold: Measure,
    intra_floor: Measure,
) -> (count: usize)
    requires
        region.wf(),
        region.cols * region.rows <= inter_costs@.len(),
        region.cols * region.rows <= intra_costs@.len(),
    ensures
        count == count_textured(
            inter_costs@,
            intra_costs@,
            indices_from(*region, (region.bottom - region.top) as nat),
            good_threshold,
            intra_floor,
        ),
{
    let blocks: Vec<usize> = region.indices();
    proof {
        indices_are_row_major(*region, (region.bottom - region.top) as nat);
    }
    let mut count: usize = 0;
    for index in 0..blocks.len()
        invariant
            region.wf(),
            region.cols * region.rows <= inter_costs@.len(),
            region.cols * region.rows <= intra_costs@.len(),
            forall|k: int|
                0 <= k < blocks@.len() ==> names_covered_block(
                    *region,
                    #[trigger] blocks@[k],
                    region.bottom - region.top,
                ),
            count == count_textured(
                inter_costs@,
                intra_costs@,
                blocks@.take(index as int),
                good_threshold,
                intra_floor,
            ),
            count <= index,
    {
        assert(blocks@.take(index + 1).drop_last() =~= blocks@.take(index as int));
        proof {
            covered_block_is_held(*region, blocks@[index as int]);
        }
        let block: usize = blocks[index];
        if inter_costs[block].at_most(good_threshold) && intra_costs[block].at_least(intra_floor) {
            count = count + 1;
        }
    }
    assert(blocks@.take(blocks.len() as int) =~= blocks@);
    count
}

/// Whether the textured blocks are counted: where a floor is set, some block is
/// active, and both costs are known of each block. Elsewhere all blocks that match
/// well count.
pub fn counts_textured_blocks(
    region: &ActiveRegion,
    min_intra_ratio: Measure,
    inter_blocks: usize,
    intra_blocks: usize,
) -> (counts: bool)
    requires
        region.wf(),
    ensures
        counts == (double(ZERO).lt(min_intra_ratio) && (region.bottom - region.top) * (region.right
            - region.left) > 0 && inter_blocks == intra_blocks),
{
    min_intra_ratio.above(double(ZERO)) && region.count() > 0 && inter_blocks == intra_blocks
}

/// The record of a pair of frames that were compared by cost.
pub open spec fn cost_record(
    estimates: CostEstimates,
    thresholds: CostThresholds,
    signature: Option<[u8; FRAME_LUMA_SIGNATURE_CELLS]>,
) -> ScenecutResult {
    ScenecutResult {
        motion_inter_cost: estimates.motion_mean,
        motion_cost_computed: estimates.motion_cost_computed,
        static_bad_block_ratio: estimates.static_bad_block_ratio,
        static_good_block_ratio: estimates.static_good_block_ratio,
        me_bad_block_ratio: estimates.me_bad_block_ratio,
        me_good_block_ratio: estimates.me_good_block_ratio,
        frame_luma_signature: signature,
        ..fresh_record(
            estimates.inter_mean,
            estimates.importance_mean,
            thresholds.importance,
            thresholds.cost,
            estimates.avg_luma_8bit,
            ratio_or_zero(thresholds.importance, thresholds.importance_quotient),
        )
    }
}

/// Whether the signature of a picture is needed: only corrections at the highest
/// quality look at it.
pub fn needs_signature(mode: SceneDetectionSpeed) -> (needed: bool)
    ensures
        needed == (mode == SceneDetectionSpeed::High),
{
    mode == SceneDetectionSpeed::High
}

/// The blocks of a pair of frames that were compared by cost.
#[derive(Debug)]
pub struct CostBlocks {
    /// The blocks that are not part of bars.
    pub region: ActiveRegion,
    /// The cost of each block, predicted from the earlier frame.
    pub inter_costs: Vec<Measure>,
    /// The cost of each block, predicted from the frame itself.
    pub intra_costs: Vec<Measure>,
    /// The share of the mean intra cost that a block with detail has; not positive where
    /// detail does not matter.
    pub min_intra_ratio: Measure,
    /// The highest inter cost of a block that matches.
    pub good_threshold: Measure,
    /// The lowest intra cost of a block with detail.
    pub intra_floor: Measure,
}

impl CostBlocks {
    /// Whether there are costs for every block of the region.
    pub open spec fn wf(self) -> bool {
        &&& self.region.wf()
        &&& self.region.cols * 8 <= usize::MAX
        &&& self.region.rows * 8 <= usize::MAX
        &&& self.region.cols * self.region.rows <= self.inter_costs@.len()
        &&& self.region.cols * self.region.rows <= self.intra_costs@.len()
    }
}

/// What shows that a picture goes on: the blocks that match.
#[derive(Clone, Copy, Debug, PartialEq, Eq, Structural)]
pub enum MatchingBlocks {
    /// So many blocks with detail match, out of those that are not part of bars.
    Textured { good: usize, active: usize },
    /// Detail does not matter: the share of all blocks that match.
    Any { ratio: Measure },
}

/// What else is found out about a pair of frames that is compared by cost.
#[derive(Clone, Copy, Debug)]
pub struct CostDetails {
    /// The blocks that are not part of bars, out of all.
    pub active_blocks: (usize, usize),
    /// The blocks that are part of bars: above, below, left and right.
    pub active_crop: Option<[usize; 4]>,
    pub matching: MatchingBlocks,
    pub structure: StructureEstimates,
}

/// The part of a picture that is not bars, as far as it lies in the picture.
pub open spec fn clipped(rect: SampleRect, plane: LumaPlane) -> SampleRect {
    SampleRect {
        left: rect.left,
        right: smaller(rect.right as int, plane.width as int) as usize,
        top: rect.top,
        bottom: smaller(rect.bottom as int, plane.height as int) as usize,
    }
}

/// Whether a signature is that of the part of the picture that is not bars, or of all of
/// it where there are none or nothing would be left.
pub open spec fn is_active_signature(
    signature: Seq<u8>,
    rect: Option<SampleRect>,
    plane: LumaPlane,
    bit_depth: int,
) -> bool {
    match rect {
        Some(area) if clipped(area, plane).left < clipped(area, plane).right && clipped(
            area,
            plane,
        ).top < clipped(area, plane).bottom => exists|part: LumaPlane|
            {
                &&& #[trigger] shows_part(part, plane, clipped(area, plane))
                &&& forall|cell: int|
                    0 <= cell < FRAME_LUMA_SIGNATURE_CELLS ==> #[trigger] signature[cell]
                        == signature_cell(part, bit_depth, cell)
            },
        _ => forall|cell: int|
            0 <= cell < FRAME_LUMA_SIGNATURE_CELLS ==> #[trigger] signature[cell]
                == signature_cell(plane, bit_depth, cell),
    }
}

/// Whether a picture is a part of another.
pub open spec fn shows_part(part: LumaPlane, plane: LumaPlane, rect: SampleRect) -> bool {
    &&& part.wf()
    &&& part.width == rect.right - rect.left
    &&& part.height == rect.bottom - rect.top
    &&& forall|x: int, y: int|
        0 <= x < part.width && 0 <= y < part.height ==> #[trigger] part.sample(x, y)
            == plane.sample(rect.left + x, rect.top + y)
}

/// The signature of the part of a picture that is not bars.
pub fn active_signature(
    region: &ActiveRegion,
    plane: &LumaPlane,
    bit_depth: usize,
) -> (signature: [u8; FRAME_LUMA_SIGNATURE_CELLS])
    requires
        region.wf(),
        region.cols * 8 <= usize::MAX,
        region.rows * 8 <= usize::MAX,
        plane.wf(),
        bit_depth <= MAX_BIT_DEPTH,
    ensures
        is_active_signature(signature@, rect_of(*region), *plane, bit_depth as int),
{
    match active_rect(region) {
        Some(rect) => {
            let right: usize = min(rect.right, plane.width);
            let bottom: usize = min(rect.bottom, plane.height);
            if rect.left < right && rect.top < bottom {
                let part = plane.part(rect.left, right, rect.top, bottom);
                assert(shows_part(part, *plane, clipped(rect, *plane)));
                frame_luma_signature_8bit(&part, bit_depth)
            } else {
                frame_luma_signature_8bit(plane, bit_depth)
            }
        },
        None => frame_luma_signature_8bit(plane, bit_depth),
    }
}

/// The analysis of a pair of frames that were compared by cost. Only corrections at the
/// highest quality look at the signature of the later picture, `plane`.
pub fn cost_scenecut(
    mode: SceneDetectionSpeed,
    estimates: &CostEstimates,
    thresholds: &CostThresholds,
    blocks: &CostBlocks,
    plane: &LumaPlane,
    bit_depth: usize,
    importance_blocks: Vec<Measure>,
    importance_cols: usize,
    importance_rows: usize,
) -> (compared: (ScenecutAnalysis, CostDetails))
    requires
        blocks.wf(),
        plane.wf(),
        bit_depth <= MAX_BIT_DEPTH,
        all_numbers(importance_blocks@),
    ensures
        ({
            let (analysis, details) = compared;
            let region = blocks.region;
            let active = (region.bottom - region.top) * (region.right - region.left);
            &&& analysis.wf()
            &&& analysis.result == cost_record(
                *estimates,
                *thresholds,
                analysis.result.frame_luma_signature,
            )
            &&& match analysis.result.frame_luma_signature {
                Some(signature) => mode == SceneDetectionSpeed::High && is_active_signature(
                    signature@,
                    rect_of(region),
                    *plane,
                    bit_depth as int,
                ),
                None => mode != SceneDetectionSpeed::High,
            }
            &&& analysis.importance_blocks == importance_blocks
            &&& analysis.importance_cols == importance_cols
            &&& analysis.importance_rows == importance_rows
            &&& analysis.masks().len() == 0
            &&& analysis.neighbors() is None
            &&& details.structure == estimates.structure
            &&& details.active_blocks == if region.cols * region.rows == 0 {
                (1usize, 1usize)
            } else {
                (active as usize, (region.cols * region.rows) as usize)
            }
            &&& match details.active_crop {
                None => region == whole(region.cols, region.rows),
                Some(edges) => region != whole(region.cols, region.rows) && edges@ == seq![
                    region.top,
                    (region.rows - region.bottom) as usize,
                    region.left,
                    (region.cols - region.right) as usize,
                ],
            }
            &&& details.matching == if double(ZERO).lt(blocks.min_intra_ratio) && active > 0
                && blocks.inter_costs@.len() == blocks.intra_costs@.len() {
                MatchingBlocks::Textured {
                    good: count_textured(
                        blocks.inter_costs@,
                        blocks.intra_costs@,
                        indices_from(region, (region.bottom - region.top) as nat),
                        blocks.good_threshold,
                        blocks.intra_floor,
                    ) as usize,
                    active: active as usize,
                }
            } else {
                MatchingBlocks::Any { ratio: estimates.static_good_block_ratio }
            }
        }),
{
    let region = &blocks.region;
    let mut result = ScenecutResult::new(
        estimates.inter_mean,
        estimates.importance_mean,
        thresholds.importance,
        thresholds.cost,
        estimates.avg_luma_8bit,
        thresholds.importance_quotient,
    );
    let matching = if counts_textured_blocks(
        region,
        blocks.min_intra_ratio,
        blocks.inter_costs.len(),
        blocks.intra_costs.len(),
    ) {
        MatchingBlocks::Textured {
            good: textured_good_blocks(
                region,
                blocks.inter_costs.as_slice(),
                blocks.intra_costs.as_slice(),
                blocks.good_threshold,
                blocks.intra_floor,
            ),
            active: region.count(),
        }
    } else {
        MatchingBlocks::Any { ratio: estimates.static_good_block_ratio }
    };
    let details = CostDetails {
        active_blocks: region.fraction(),
        active_crop: active_crop(region),
        matching,
        structure: estimates.structure,
    };
    result.motion_inter_cost = estimates.motion_mean;
    result.motion_cost_computed = estimates.motion_cost_computed;
    result.static_bad_block_ratio = estimates.static_bad_block_ratio;
    result.static_good_block_ratio = estimates.static_good_block_ratio;
    result.me_bad_block_ratio = estimates.me_bad_block_ratio;
    result.me_good_block_ratio = estimates.me_good_block_ratio;
    if needs_signature(mode) {
        result.frame_luma_signature = Some(active_signature(region, plane, bit_depth));
    }
    let analysis = ScenecutAnalysis::with_blocks(
        result,
        importance_blocks,
        importance_cols,
        importance_rows,
    );
    (analysis, details)
}

} // verus!
