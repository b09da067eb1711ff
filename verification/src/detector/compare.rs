//! Taking a compared pair of frames into the window.

use vstd::prelude::*;
use crate::blocks::BlockShare;
use crate::detector::analysis::ScenecutAnalysis;
use crate::detector::state::SceneChangeDetector;
use crate::measure::{double, Measure, ZERO};
use crate::options::{ImportanceAggregation, SceneDetectionSpeed};
use crate::parallel::plan::smaller;
use crate::score::{RatioQuotients, ScenecutResult};

verus! {

/// The differences between the costs of a new frame and those of the latest frames
/// of the window, the latest first.
#[derive(Debug)]
pub struct CostDifferences {
    /// The new frame's cost less that of the window's frame.
    pub above: Vec<Measure>,
    /// The cost of the window's frame less that of the new frame.
    pub below: Vec<Measure>,
    /// The same with motion compensation.
    pub motion_above: Vec<Measure>,
    /// The same with motion compensation.
    pub motion_below: Vec<Measure>,
}

/// The smaller of two measurements. One that is no number gives way to the other.
pub open spec fn lower(left: Measure, right: Measure) -> Measure {
    if right.is_nan() {
        left
    } else if left.is_nan() || right.lt(left) {
        right
    } else {
        left
    }
}

/// The smallest of the first few measurements.
pub open spec fn lowest(values: Seq<Measure>) -> Measure
    decreases values.len(),
{
    if values.len() == 0 {
        double(ZERO)
    } else if values.len() == 1 {
        values[0]
    } else {
        lower(lowest(values.drop_last()), values.last())
    }
}

/// By how much a cost exceeds all costs around it: 0 where it does not, or where
/// there are none.
pub open spec fn peak_height(above: Seq<Measure>) -> Measure {
    if exists|k: int| 0 <= k < above.len() && (#[trigger] above[k]).lt(double(ZERO)) {
        double(ZERO)
    } else {
        lowest(above)
    }
}

/// By how much a cost exceeds all costs around it.
pub fn adjusted_peak_cost(above: &[Measure]) -> (height: Measure)
    ensures
        height == peak_height(above@),
{
    let mut height: Option<Measure> = None;
    for index in 0..above.len()
        invariant
            forall|k: int| 0 <= k < index ==> !(#[trigger] above@[k]).lt(double(ZERO)),
            height is None <==> index == 0,
            height matches Some(h) ==> h == lowest(above@.take(index as int)),
    {
        let cost: Measure = above[index];
        assert(above@.take(index + 1).drop_last() =~= above@.take(index as int));
        if cost.below(double(ZERO)) {
            assert(above@[index as int].lt(double(ZERO)));
            return double(ZERO);
        }
        height = Some(
            match height {
                None => cost,
                Some(current) => current.lower_of(cost),
            },
        );
    }
    assert(above@.take(above.len() as int) =~= above@);
    match height {
        Some(lowest) => lowest,
        None => double(ZERO),
    }
}

/// A forward adjusted cost after one more frame: the smallest difference so far, and
/// no less than 0.
pub open spec fn adjusted_forward(current: Measure, difference: Measure, latest: bool) -> Measure {
    let taken = if latest || difference.lt(current) {
        difference
    } else {
        current
    };
    if taken.lt(double(ZERO)) {
        double(ZERO)
    } else {
        taken
    }
}

/// A forward adjusted cost after one more frame.
fn forward_cost(current: Measure, difference: Measure, latest: bool) -> (adjusted: Measure)
    ensures
        adjusted == adjusted_forward(current, difference, latest),
{
    let taken = if latest || difference.below(current) {
        difference
    } else {
        current
    };
    if taken.below(double(ZERO)) {
        double(ZERO)
    } else {
        taken
    }
}

/// The shares of blocks that an importance score takes from the frames around.
#[derive(Clone, Copy, Debug, PartialEq, Eq, Structural)]
pub struct ImportanceShares {
    pub previous: BlockShare,
    pub current: BlockShare,
    pub next: BlockShare,
}

/// Whether shares are those that the tuning names.
pub open spec fn shares_fit(aggregation: ImportanceAggregation, shares: ImportanceShares) -> bool {
    match aggregation {
        ImportanceAggregation::Mean => true,
        ImportanceAggregation::TemporalTopBlocks {
            previous_percent,
            current_percent,
            next_percent,
        } => {
            &&& shares.previous.percent == previous_percent
            &&& shares.current.percent == current_percent
            &&& shares.next.percent == next_percent
        },
        ImportanceAggregation::SpatialTemporalTopBlocks {
            previous_percent,
            current_percent,
            next_percent,
            region_cols,
            region_rows,
        } => {
            &&& shares.previous.percent == previous_percent
            &&& shares.current.percent == current_percent
            &&& shares.next.percent == next_percent
            &&& region_cols * region_rows <= usize::MAX
        },
    }
}

/// Whether the mask of a rule is carried along, where the rule selects anything.
pub open spec fn carries_rule(
    analysis: ScenecutAnalysis,
    share: BlockShare,
    region_cols: usize,
    region_rows: usize,
    spatially_capped: bool,
) -> bool {
    share.is_empty() || analysis.carries(share, region_cols, region_rows, spatially_capped)
}

/// Whether every mask is carried along that the importance scores look up.
pub open spec fn carries_all(
    analysis: ScenecutAnalysis,
    aggregation: ImportanceAggregation,
    shares: ImportanceShares,
) -> bool {
    match aggregation {
        ImportanceAggregation::Mean => true,
        ImportanceAggregation::TemporalTopBlocks { .. } => {
            &&& carries_rule(analysis, shares.previous, 1, 1, false)
            &&& carries_rule(analysis, shares.current, 1, 1, false)
            &&& carries_rule(analysis, shares.next, 1, 1, false)
        },
        ImportanceAggregation::SpatialTemporalTopBlocks { region_cols, region_rows, .. } => {
            &&& carries_rule(analysis, shares.previous, region_cols, region_rows, true)
            &&& carries_rule(analysis, shares.current, region_cols, region_rows, true)
            &&& carries_rule(analysis, shares.next, region_cols, region_rows, true)
            &&& carries_rule(analysis, shares.previous, 1, 1, false)
            &&& carries_rule(analysis, shares.current, 1, 1, false)
            &&& carries_rule(analysis, shares.next, 1, 1, false)
        },
    }
}

impl SceneChangeDetector {
    /// Whether costs are adjusted by those around: for cost-based algorithms with
    /// some lookahead.
    pub open spec fn adjusts_costs(self) -> bool {
        &&& self.scene_detection_mode == SceneDetectionSpeed::Standard || self.scene_detection_mode
            == SceneDetectionSpeed::High
        &&& self.deque_offset > 0
    }

    /// How many of the latest frames a new one is held against.
    pub open spec fn held_against(self) -> int {
        smaller(self.deque_offset as int, self.score_deque@.len() as int)
    }

    /// Whether the differences are those to the frames that a new one is held
    /// against.
    pub open spec fn differences_fit(self, differences: CostDifferences) -> bool {
        &&& differences.above@.len() == self.held_against()
        &&& differences.below@.len() == self.held_against()
        &&& differences.motion_above@.len() == self.held_against()
        &&& differences.motion_below@.len() == self.held_against()
    }

    /// The scores of a new frame, adjusted by those before it. The second frame of
    /// the video has none before it to be adjusted by.
    pub open spec fn adjusted_new(
        self,
        result: ScenecutResult,
        differences: CostDifferences,
        frame: int,
    ) -> ScenecutResult {
        if !self.adjusts_costs() {
            result
        } else if frame == 1 {
            ScenecutResult {
                backward_adjusted_cost: double(ZERO),
                motion_backward_adjusted_cost: double(ZERO),
                ..result
            }
        } else {
            ScenecutResult {
                backward_adjusted_cost: peak_height(differences.above@),
                motion_backward_adjusted_cost: peak_height(differences.motion_above@),
                ..result
            }
        }
    }

    /// The scores of a frame of the window, adjusted by a new frame after it.
    pub open spec fn adjusted_old(
        self,
        result: ScenecutResult,
        differences: CostDifferences,
        index: int,
    ) -> ScenecutResult {
        ScenecutResult {
            forward_adjusted_cost: adjusted_forward(
                result.forward_adjusted_cost,
                differences.below@[index],
                index == 0,
            ),
            motion_forward_adjusted_cost: adjusted_forward(
                result.motion_forward_adjusted_cost,
                differences.motion_below@[index],
                index == 0,
            ),
            ..result
        }
    }

    /// Adjusts the costs of a new frame and of the latest frames of the window by one
    /// another. Tells how many frames of the window need their ratios refreshed.
    pub fn adjust_costs(
        &mut self,
        analysis: &mut ScenecutAnalysis,
        differences: &CostDifferences,
        frame: usize,
    ) -> (changed: usize)
        requires
            old(self).wf(),
            old(analysis).wf(),
            old(self).differences_fit(*differences),
        ensures
            final(self).wf(),
            final(analysis).wf(),
            *final(analysis) == (ScenecutAnalysis {
                result: old(self).adjusted_new(old(analysis).result, *differences, frame as int),
                ..*old(analysis)
            }),
            *final(self) == (SceneChangeDetector {
                score_deque: final(self).score_deque,
                ..*old(self)
            }),
            final(self).score_deque@.len() == old(self).score_deque@.len(),
            forall|k: int|
                0 <= k < old(self).score_deque@.len() ==> #[trigger] final(self).score_deque@[k] == (
                ScenecutAnalysis {
                    result: if old(self).adjusts_costs() && k < old(self).held_against() {
                        old(self).adjusted_old(old(self).score_deque@[k].result, *differences, k)
                    } else {
                        old(self).score_deque@[k].result
                    },
                    ..old(self).score_deque@[k]
                }),
            changed == if old(self).adjusts_costs() {
                old(self).held_against()
            } else {
                0
            },
    {
        let ghost before = *self;
        let ghost given = *analysis;
        let cost_based = match self.scene_detection_mode {
            SceneDetectionSpeed::Standard => true,
            SceneDetectionSpeed::High => true,
            _ => false,
        };
        if !cost_based || self.deque_offset == 0 {
            return 0;
        }
        if frame == 1 {
            analysis.result.backward_adjusted_cost = double(ZERO);
            analysis.result.motion_backward_adjusted_cost = double(ZERO);
        } else {
            analysis.result.backward_adjusted_cost = adjusted_peak_cost(
                differences.above.as_slice(),
            );
            analysis.result.motion_backward_adjusted_cost = adjusted_peak_cost(
                differences.motion_above.as_slice(),
            );
        }
        let count: usize = if self.deque_offset <= self.score_deque.len() {
            self.deque_offset
        } else {
            self.score_deque.len()
        };
        for index in 0..count
            invariant
                before.wf(),
                before.differences_fit(*differences),
                count == before.held_against(),
                self.score_deque@.len() == before.score_deque@.len(),
                *self == (SceneChangeDetector { score_deque: self.score_deque, ..before }),
                forall|k: int|
                    0 <= k < before.score_deque@.len() ==> #[trigger] self.score_deque@[k] == (
                    ScenecutAnalysis {
                        result: if k < index {
                            before.adjusted_old(before.score_deque@[k].result, *differences, k)
                        } else {
                            before.score_deque@[k].result
                        },
                        ..before.score_deque@[k]
                    }),
        {
            let mut result: ScenecutResult = self.score_deque[index].result;
            result.forward_adjusted_cost = forward_cost(
                result.forward_adjusted_cost,
                differences.below[index],
                index == 0,
            );
            result.motion_forward_adjusted_cost = forward_cost(
                result.motion_forward_adjusted_cost,
                differences.motion_below[index],
                index == 0,
            );
            self.score_deque[index].result = result;
        }
        proof {
            assert(analysis.masks() == given.masks());
            assert forall|k: int| 0 <= k < self.score_deque@.len() implies (
            #[trigger] self.score_deque@[k]).wf() by {
                assert(before.score_deque@[k].wf());
                assert(self.score_deque@[k].masks() == before.score_deque@[k].masks());
            }
        }
        count
    }

    /// Takes over ratios of a frame of the window that were computed anew.
    pub fn refresh_entry(&mut self, index: usize, quotients: &RatioQuotients)
        requires
            old(self).wf(),
            index < old(self).score_deque@.len(),
        ensures
            final(self).wf(),
            *final(self) == (SceneChangeDetector {
                score_deque: final(self).score_deque,
                ..*old(self)
            }),
            final(self).score_deque@ == old(self).score_deque@.update(
                index as int,
                ScenecutAnalysis {
                    result: old(self).score_deque@[index as int].result.with_ratios(*quotients),
                    ..old(self).score_deque@[index as int]
                },
            ),
    {
        let ghost before = *self;
        let mut result: ScenecutResult = self.score_deque[index].result;
        result.refresh_ratios(quotients);
        self.score_deque[index].result = result;
        proof {
            assert forall|k: int| 0 <= k < self.score_deque@.len() implies (
            #[trigger] self.score_deque@[k]).wf() by {
                assert(before.score_deque@[k].wf());
                assert(self.score_deque@[k].masks() == before.score_deque@[k].masks());
            }
        }
    }

    /// Computes the masks that the importance scores look up, once for all.
    pub fn prepare_importance_top_block_masks(
        &self,
        analysis: &mut ScenecutAnalysis,
        shares: &ImportanceShares,
    )
        requires
            old(analysis).wf(),
            shares_fit(self.tuning.importance_aggregation, *shares),
        ensures
            final(analysis).wf(),
            final(analysis).result == old(analysis).result,
            final(analysis).importance_blocks == old(analysis).importance_blocks,
            final(analysis).importance_cols == old(analysis).importance_cols,
            final(analysis).importance_rows == old(analysis).importance_rows,
            final(analysis).neighbors() == old(analysis).neighbors(),
            old(analysis).importance_blocks@.len() > 0 ==> carries_all(
                *final(analysis),
                self.tuning.importance_aggregation,
                *shares,
            ),
            self.tuning.importance_aggregation is Mean ==> *final(analysis) == *old(analysis),
    {
        match self.tuning.importance_aggregation {
            ImportanceAggregation::Mean => {},
            ImportanceAggregation::TemporalTopBlocks { .. } => {
                analysis.cache_top_block_mask(shares.previous, 1, 1, false);
                analysis.cache_top_block_mask(shares.current, 1, 1, false);
                analysis.cache_top_block_mask(shares.next, 1, 1, false);
            },
            ImportanceAggregation::SpatialTemporalTopBlocks { region_cols, region_rows, .. } => {
                analysis.cache_top_block_mask(shares.previous, region_cols, region_rows, true);
                analysis.cache_top_block_mask(shares.current, region_cols, region_rows, true);
                analysis.cache_top_block_mask(shares.next, region_cols, region_rows, true);
                analysis.cache_top_block_mask(shares.previous, 1, 1, false);
                analysis.cache_top_block_mask(shares.current, 1, 1, false);
                analysis.cache_top_block_mask(shares.next, 1, 1, false);
            },
        }
    }

    /// Puts a compared frame at the front of the window.
    pub fn insert_comparison(&mut self, analysis: ScenecutAnalysis)
        requires
            old(self).wf(),
            analysis.wf(),
        ensures
            final(self).wf(),
            *final(self) == (SceneChangeDetector {
                score_deque: final(self).score_deque,
                ..*old(self)
            }),
            final(self).score_deque@ == seq![analysis] + old(self).score_deque@,
    {
        let ghost before = self.score_deque@;
        self.score_deque.insert(0, analysis);
        proof {
            assert(self.score_deque@ =~= seq![analysis] + before);
            assert forall|k: int| 0 <= k < self.score_deque@.len() implies (
            #[trigger] self.score_deque@[k]).wf() by {
                if k > 0 {
                    assert(before[k - 1].wf());
                }
            }
        }
    }
}

} // verus!
