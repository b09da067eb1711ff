//! What is held of each frame within the window of the detector.

use vstd::prelude::*;
use crate::blocks::{all_numbers, is_capped_top, mark_cached_top_blocks, mark_top_blocks};
use crate::blocks::{mark_top_blocks_spatially_capped, top_blocks, BlockGrid, BlockShare};
use crate::detector::mask_list::{masks_of, MaskList, TopBlockMask};
use crate::measure::{double, Measure, ZERO};
use crate::score::ScenecutResult;

verus! {

/// An analysed frame: its scores, and the importance of each block.
#[derive(Debug)]
pub struct ScenecutAnalysis {
    pub result: ScenecutResult,
    pub importance_blocks: Vec<Measure>,
    pub importance_cols: usize,
    pub importance_rows: usize,
    pub top_block_masks: MaskList,
    pub importance_neighbor_state: Option<NeighborState>,
}

/// Which neighbours an importance score was computed with.
#[derive(Clone, Copy, Debug, PartialEq, Eq, Structural)]
pub struct NeighborState {
    pub previous: bool,
    pub next: bool,
}

/// The blocks that a rule selects out of so many.
pub open spec fn selected_by(
    blocks: Seq<Measure>,
    share: BlockShare,
    grid: BlockGrid,
    spatially_capped: bool,
    block: usize,
) -> bool {
    if spatially_capped {
        is_capped_top(blocks, share, grid, block)
    } else {
        top_blocks(blocks, share).contains(block)
    }
}

/// The mask of a rule, over so many blocks.
pub open spec fn rule_mask(
    blocks: Seq<Measure>,
    share: BlockShare,
    grid: BlockGrid,
    spatially_capped: bool,
    count: nat,
) -> Seq<bool> {
    Seq::new(count, |k: int| selected_by(blocks, share, grid, spatially_capped, k as usize))
}

/// Two masks together.
pub open spec fn either(left: Seq<bool>, right: Seq<bool>) -> Seq<bool> {
    Seq::new(left.len(), |k: int| left[k] || (k < right.len() && right[k]))
}

/// Whether a mask is the one of the given rule.
pub open spec fn is_mask_of(
    mask: TopBlockMask,
    share: BlockShare,
    region_cols: usize,
    region_rows: usize,
    spatially_capped: bool,
) -> bool {
    &&& mask.share == share
    &&& mask.region_cols == region_cols
    &&& mask.region_rows == region_rows
    &&& mask.spatially_capped == spatially_capped
}

impl ScenecutAnalysis {
    /// The masks that are carried along.
    pub open spec fn masks(self) -> Seq<TopBlockMask> {
        masks_of(self.top_block_masks)
    }

    /// Which neighbours the importance scores were computed with.
    pub open spec fn neighbors(self) -> Option<NeighborState> {
        self.importance_neighbor_state
    }

    /// The grid of the blocks, cut into regions.
    pub open spec fn grid(self, region_cols: usize, region_rows: usize) -> BlockGrid {
        BlockGrid {
            cols: self.importance_cols,
            rows: self.importance_rows,
            region_cols,
            region_rows,
        }
    }

    /// Whether the importance of every block is a number, and every mask is the one
    /// that its rule gives.
    pub open spec fn wf(self) -> bool {
        &&& all_numbers(self.importance_blocks@)
        &&& forall|k: int|
            0 <= k < self.masks().len() ==> {
                let mask = #[trigger] self.masks()[k];
                mask.selected@ == rule_mask(
                    self.importance_blocks@,
                    mask.share,
                    self.grid(mask.region_cols, mask.region_rows),
                    mask.spatially_capped,
                    self.importance_blocks@.len(),
                )
            }
    }

    /// Whether a mask of the given rule is carried along.
    pub open spec fn carries(
        self,
        share: BlockShare,
        region_cols: usize,
        region_rows: usize,
        spatially_capped: bool,
    ) -> bool {
        exists|k: int|
            0 <= k < self.masks().len() && is_mask_of(
                #[trigger] self.masks()[k],
                share,
                region_cols,
                region_rows,
                spatially_capped,
            )
    }

    /// A frame with scores alone.
    pub fn from_result(result: ScenecutResult) -> (analysis: Self)
        ensures
            analysis.wf(),
            analysis.result == result,
            analysis.importance_blocks@ == Seq::<Measure>::empty(),
            analysis.importance_cols == 0,
            analysis.importance_rows == 0,
            analysis.masks() == Seq::<TopBlockMask>::empty(),
            analysis.neighbors() is None,
    {
        ScenecutAnalysis {
            result,
            importance_blocks: Vec::new(),
            importance_cols: 0,
            importance_rows: 0,
            top_block_masks: MaskList::empty(),
            importance_neighbor_state: None,
        }
    }

    /// A frame with scores and the importance of each block.
    pub fn with_blocks(
        result: ScenecutResult,
        importance_blocks: Vec<Measure>,
        importance_cols: usize,
        importance_rows: usize,
    ) -> (analysis: Self)
        requires
            all_numbers(importance_blocks@),
        ensures
            analysis.wf(),
            analysis.result == result,
            analysis.importance_blocks == importance_blocks,
            analysis.importance_cols == importance_cols,
            analysis.importance_rows == importance_rows,
            analysis.masks() == Seq::<TopBlockMask>::empty(),
            analysis.neighbors() is None,
    {
        ScenecutAnalysis {
            result,
            importance_blocks,
            importance_cols,
            importance_rows,
            top_block_masks: MaskList::empty(),
            importance_neighbor_state: None,
        }
    }

    /// Whether the importance scores were computed with these neighbours.
    pub fn is_current_with(&self, state: NeighborState) -> (current: bool)
        ensures
            current == (self.neighbors() == Some(state)),
    {
        match self.importance_neighbor_state {
            Some(held) => held == state,
            None => false,
        }
    }

    /// Index of the first mask of the given rule that is carried along.
    fn mask_index(
        &self,
        share: BlockShare,
        region_cols: usize,
        region_rows: usize,
        spatially_capped: bool,
    ) -> (index: Option<usize>)
        ensures
            match index {
                Some(k) => k < self.masks().len() && is_mask_of(
                    self.masks()[k as int],
                    share,
                    region_cols,
                    region_rows,
                    spatially_capped,
                ),
                None => !self.carries(share, region_cols, region_rows, spatially_capped),
            },
    {
        let masks: &[TopBlockMask] = self.top_block_masks.slice();
        for index in 0..masks.len()
            invariant
                masks@ == self.masks(),
                forall|k: int|
                    0 <= k < index ==> !is_mask_of(
                        #[trigger] self.masks()[k],
                        share,
                        region_cols,
                        region_rows,
                        spatially_capped,
                    ),
        {
            let mask: &TopBlockMask = &masks[index];
            if mask.share == share && mask.region_cols == region_cols && mask.region_rows
                == region_rows && mask.spatially_capped == spatially_capped {
                return Some(index);
            }
        }
        None
    }

    /// Computes the mask of a rule and carries it along, unless it is carried along
    /// already or the rule selects nothing.
    pub fn cache_top_block_mask(
        &mut self,
        share: BlockShare,
        region_cols: usize,
        region_rows: usize,
        spatially_capped: bool,
    )
        requires
            old(self).wf(),
            region_cols * region_rows <= usize::MAX,
        ensures
            final(self).wf(),
            final(self).result == old(self).result,
            final(self).importance_blocks == old(self).importance_blocks,
            final(self).importance_cols == old(self).importance_cols,
            final(self).importance_rows == old(self).importance_rows,
            final(self).neighbors() == old(self).neighbors(),
            if old(self).importance_blocks@.len() == 0 || share.is_empty() || old(self).carries(
                share,
                region_cols,
                region_rows,
                spatially_capped,
            ) {
                final(self).masks() == old(self).masks()
            } else {
                &&& final(self).masks().len() == old(self).masks().len() + 1
                &&& final(self).masks().drop_last() == old(self).masks()
                &&& is_mask_of(
                    final(self).masks().last(),
                    share,
                    region_cols,
                    region_rows,
                    spatially_capped,
                )
            },
            old(self).importance_blocks@.len() > 0 && !share.is_empty() ==> final(self).carries(
                share,
                region_cols,
                region_rows,
                spatially_capped,
            ),
            forall|other: BlockShare, cols: usize, rows: usize, capped: bool| #[trigger]
                old(self).carries(other, cols, rows, capped) ==> final(self).carries(
                    other,
                    cols,
                    rows,
                    capped,
                ),
    {
        let ghost before = *self;
        if self.importance_blocks.len() == 0 || share.percent.at_most(double(ZERO)) {
            return;
        }
        if self.mask_index(share, region_cols, region_rows, spatially_capped).is_some() {
            return;
        }
        let mut selected: Vec<bool> = Vec::new();
        for block in 0..self.importance_blocks.len()
            invariant
                selected.len() == block,
                forall|k: int| 0 <= k < block ==> !#[trigger] selected@[k],
        {
            selected.push(false);
        }
        let grid = BlockGrid {
            cols: self.importance_cols,
            rows: self.importance_rows,
            region_cols,
            region_rows,
        };
        if spatially_capped {
            mark_top_blocks_spatially_capped(
                self.importance_blocks.as_slice(),
                share,
                &grid,
                &mut selected,
            );
        } else {
            mark_top_blocks(self.importance_blocks.as_slice(), share, &mut selected);
        }
        assert(selected@ =~= rule_mask(
            self.importance_blocks@,
            share,
            grid,
            spatially_capped,
            self.importance_blocks@.len(),
        ));
        let mask = TopBlockMask { share, region_cols, region_rows, spatially_capped, selected };
        self.top_block_masks.append(mask);
        proof {
            assert(self.masks().drop_last() =~= before.masks());
            assert(is_mask_of(
                self.masks()[before.masks().len() as int],
                share,
                region_cols,
                region_rows,
                spatially_capped,
            ));
            assert forall|other: BlockShare, cols: usize, rows: usize, capped: bool| #[trigger]
                before.carries(other, cols, rows, capped) implies self.carries(
                other,
                cols,
                rows,
                capped,
            ) by {
                let k = choose|k: int|
                    0 <= k < before.masks().len() && is_mask_of(
                        #[trigger] before.masks()[k],
                        other,
                        cols,
                        rows,
                        capped,
                    );
                assert(self.masks()[k] == before.masks()[k]);
            }
            assert forall|k: int| 0 <= k < self.masks().len() implies ({
                let mask = #[trigger] self.masks()[k];
                mask.selected@ == rule_mask(
                    self.importance_blocks@,
                    mask.share,
                    self.grid(mask.region_cols, mask.region_rows),
                    mask.spatially_capped,
                    self.importance_blocks@.len(),
                )
            }) by {
                if k < before.masks().len() {
                    assert(self.masks()[k] == before.masks()[k]);
                }
            }
        }
    }

    /// The mask of a rule, if it is carried along: it is the one that computing it
    /// again would give.
    pub fn cached_top_block_mask(
        &self,
        share: BlockShare,
        region_cols: usize,
        region_rows: usize,
        spatially_capped: bool,
    ) -> (mask: Option<&[bool]>)
        requires
            self.wf(),
        ensures
            match mask {
                Some(selected) => self.carries(share, region_cols, region_rows, spatially_capped)
                    && selected@ == rule_mask(
                    self.importance_blocks@,
                    share,
                    self.grid(region_cols, region_rows),
                    spatially_capped,
                    self.importance_blocks@.len(),
                ),
                None => !self.carries(share, region_cols, region_rows, spatially_capped),
            },
    {
        match self.mask_index(share, region_cols, region_rows, spatially_capped) {
            Some(index) => {
                let masks: &[TopBlockMask] = self.top_block_masks.slice();
                assert(masks@[index as int] == self.masks()[index as int]);
                Some(masks[index].selected.as_slice())
            },
            None => None,
        }
    }

    /// Adds the blocks that a rule selects in this frame to those of the current
    /// one. Where the mask is not carried along, the current frame's grid is used.
    pub open spec fn contributes(
        self,
        current: ScenecutAnalysis,
        share: BlockShare,
        region_cols: usize,
        region_rows: usize,
        spatially_capped: bool,
    ) -> Seq<bool> {
        if self.carries(share, region_cols, region_rows, spatially_capped) {
            rule_mask(
                self.importance_blocks@,
                share,
                self.grid(region_cols, region_rows),
                spatially_capped,
                self.importance_blocks@.len(),
            )
        } else {
            rule_mask(
                self.importance_blocks@,
                share,
                current.grid(region_cols, region_rows),
                spatially_capped,
                current.importance_blocks@.len(),
            )
        }
    }

    /// Adds the blocks that a rule selects in this frame to those of the current one.
    pub fn add_selection(
        &self,
        current: &ScenecutAnalysis,
        share: BlockShare,
        region_cols: usize,
        region_rows: usize,
        spatially_capped: bool,
        selected: &mut Vec<bool>,
    )
        requires
            self.wf(),
            region_cols * region_rows <= usize::MAX,
            old(selected)@.len() == current.importance_blocks@.len(),
        ensures
            final(selected)@ == either(
                old(selected)@,
                self.contributes(*current, share, region_cols, region_rows, spatially_capped),
            ),
    {
        let ghost before = selected@;
        match self.cached_top_block_mask(share, region_cols, region_rows, spatially_capped) {
            Some(mask) => {
                mark_cached_top_blocks(mask, selected);
            },
            None => {
                let grid = BlockGrid {
                    cols: current.importance_cols,
                    rows: current.importance_rows,
                    region_cols,
                    region_rows,
                };
                if spatially_capped {
                    mark_top_blocks_spatially_capped(
                        self.importance_blocks.as_slice(),
                        share,
                        &grid,
                        selected,
                    );
                } else {
                    mark_top_blocks(self.importance_blocks.as_slice(), share, selected);
                }
            },
        }
        assert(selected@ =~= either(
            before,
            self.contributes(*current, share, region_cols, region_rows, spatially_capped),
        ));
    }
}

/// Masks that are carried along change nothing: between frames of the same grid, a frame
/// selects the blocks that its rule gives, whether or not it carries the mask.
pub proof fn carried_masks_change_nothing(
    analysis: ScenecutAnalysis,
    current: ScenecutAnalysis,
    share: BlockShare,
    region_cols: usize,
    region_rows: usize,
    spatially_capped: bool,
)
    requires
        analysis.importance_cols == current.importance_cols,
        analysis.importance_rows == current.importance_rows,
        analysis.importance_blocks@.len() == current.importance_blocks@.len(),
    ensures
        analysis.contributes(current, share, region_cols, region_rows, spatially_capped)
            == rule_mask(
            analysis.importance_blocks@,
            share,
            current.grid(region_cols, region_rows),
            spatially_capped,
            current.importance_blocks@.len(),
        ),
{
}

} // verus!
