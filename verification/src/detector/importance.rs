//! Importance scores: how much the blocks that stand out differ.

use vstd::prelude::*;
use crate::detector::analysis::{either, NeighborState, ScenecutAnalysis};
use crate::detector::compare::ImportanceShares;
use crate::detector::state::SceneChangeDetector;
use crate::measure::Measure;
use crate::options::ImportanceAggregation;
use crate::score::{RatioQuotients, ScenecutResult};

verus! {

/// The rule by which blocks are selected.
#[derive(Clone, Copy, Debug, PartialEq, Eq, Structural)]
pub struct SelectionRule {
    pub shares: ImportanceShares,
    pub region_cols: usize,
    pub region_rows: usize,
    pub spatially_capped: bool,
}

/// The blocks of the current frame that count: those that stand out in it, in the
/// frame before it or in the frame after it.
pub open spec fn selection(
    previous: Option<ScenecutAnalysis>,
    current: ScenecutAnalysis,
    next: Option<ScenecutAnalysis>,
    rule: SelectionRule,
) -> Seq<bool> {
    let none = Seq::new(current.importance_blocks@.len(), |k: int| false);
    let first = match previous {
        Some(before) => either(
            none,
            before.contributes(
                current,
                rule.shares.previous,
                rule.region_cols,
                rule.region_rows,
                rule.spatially_capped,
            ),
        ),
        None => none,
    };
    let second = either(
        first,
        current.contributes(
            current,
            rule.shares.current,
            rule.region_cols,
            rule.region_rows,
            rule.spatially_capped,
        ),
    );
    match next {
        Some(after) => either(
            second,
            after.contributes(
                current,
                rule.shares.next,
                rule.region_cols,
                rule.region_rows,
                rule.spatially_capped,
            ),
        ),
        None => second,
    }
}

/// The frame before one of the window, which stands after it.
pub open spec fn previous_of(deque: Seq<ScenecutAnalysis>, index: int) -> Option<ScenecutAnalysis> {
    if index + 1 < deque.len() {
        Some(deque[index + 1])
    } else {
        None
    }
}

/// The frame after one of the window, which stands before it.
pub open spec fn next_of(deque: Seq<ScenecutAnalysis>, index: int) -> Option<ScenecutAnalysis> {
    if index > 0 {
        Some(deque[index - 1])
    } else {
        None
    }
}

/// The importance scores of a frame, out of the means over its selected blocks.
pub open spec fn with_importance(
    result: ScenecutResult,
    aggregation: ImportanceAggregation,
    global_mean: Option<Measure>,
    spatial_mean: Option<Measure>,
    threshold: Measure,
) -> ScenecutResult {
    let raw = result.imp_block_cost_raw;
    let global = match global_mean {
        Some(mean) => mean,
        None => raw,
    };
    let spatial = match spatial_mean {
        Some(mean) => mean,
        None => raw,
    };
    ScenecutResult {
        global_imp_block_cost: if aggregation is Mean {
            raw
        } else {
            global
        },
        imp_block_cost: match aggregation {
            ImportanceAggregation::Mean => raw,
            ImportanceAggregation::TemporalTopBlocks { .. } => global,
            ImportanceAggregation::SpatialTemporalTopBlocks { .. } => spatial,
        },
        imp_block_threshold: threshold,
        ..result
    }
}

impl SceneChangeDetector {
    /// The neighbours that the importance scores of a frame are computed with. A plain
    /// mean needs none.
    pub open spec fn neighbors_of(self, index: int) -> NeighborState {
        let temporal = !(self.tuning.importance_aggregation is Mean);
        NeighborState {
            previous: temporal && index + 1 < self.score_deque@.len(),
            next: temporal && index > 0,
        }
    }

    /// The rules by which blocks are selected for the importance over the whole picture,
    /// and for that with regions, as far as the aggregation uses them.
    pub fn importance_rules(&self, shares: &ImportanceShares) -> (rules: (
        Option<SelectionRule>,
        Option<SelectionRule>,
    ))
        ensures
            rules.0 == if self.tuning.importance_aggregation is Mean {
                None
            } else {
                Some(
                    SelectionRule {
                        shares: *shares,
                        region_cols: 1,
                        region_rows: 1,
                        spatially_capped: false,
                    },
                )
            },
            rules.1 == match self.tuning.importance_aggregation {
                ImportanceAggregation::SpatialTemporalTopBlocks {
                    region_cols,
                    region_rows,
                    ..
                } => Some(
                    SelectionRule {
                        shares: *shares,
                        region_cols,
                        region_rows,
                        spatially_capped: true,
                    },
                ),
                _ => None,
            },
    {
        let global = SelectionRule {
            shares: *shares,
            region_cols: 1,
            region_rows: 1,
            spatially_capped: false,
        };
        match self.tuning.importance_aggregation {
            ImportanceAggregation::Mean => (None, None),
            ImportanceAggregation::TemporalTopBlocks { .. } => (Some(global), None),
            ImportanceAggregation::SpatialTemporalTopBlocks { region_cols, region_rows, .. } => (
                Some(global),
                Some(
                    SelectionRule {
                        shares: *shares,
                        region_cols,
                        region_rows,
                        spatially_capped: true,
                    },
                ),
            ),
        }
    }

    /// The neighbours with which the importance scores of a frame are to be computed
    /// anew, if they are: only where a neighbour has come or gone.
    pub fn stale_importance(&self, index: usize) -> (state: Option<NeighborState>)
        requires
            index < self.score_deque@.len(),
        ensures
            state == if self.score_deque@[index as int].neighbors() == Some(
                self.neighbors_of(index as int),
            ) {
                None
            } else {
                Some(self.neighbors_of(index as int))
            },
    {
        let temporal = match self.tuning.importance_aggregation {
            ImportanceAggregation::Mean => false,
            _ => true,
        };
        let state = NeighborState {
            previous: temporal && self.score_deque.len() - index > 1,
            next: temporal && index > 0,
        };
        if self.score_deque[index].is_current_with(state) {
            None
        } else {
            Some(state)
        }
    }

    /// The blocks of a frame that count by a rule; nothing where the frame has none, or
    /// no grid of them that regions need.
    pub fn selected_blocks(&self, index: usize, rule: &SelectionRule) -> (selected: Option<
        Vec<bool>,
    >)
        requires
            self.wf(),
            index < self.score_deque@.len(),
            rule.region_cols * rule.region_rows <= usize::MAX,
        ensures
            ({
                let current = self.score_deque@[index as int];
                match selected {
                    None => current.importance_blocks@.len() == 0 || (rule.spatially_capped && (
                    current.importance_cols == 0 || current.importance_rows == 0)),
                    Some(blocks) => {
                        &&& current.importance_blocks@.len() > 0
                        &&& !(rule.spatially_capped && (current.importance_cols == 0
                            || current.importance_rows == 0))
                        &&& blocks@ == selection(
                            previous_of(self.score_deque@, index as int),
                            current,
                            next_of(self.score_deque@, index as int),
                            *rule,
                        )
                    },
                }
            }),
    {
        let current: &ScenecutAnalysis = &self.score_deque[index];
        if current.importance_blocks.len() == 0 || (rule.spatially_capped && (
        current.importance_cols == 0 || current.importance_rows == 0)) {
            return None;
        }
        let mut selected: Vec<bool> = Vec::new();
        for block in 0..current.importance_blocks.len()
            invariant
                selected.len() == block,
                forall|k: int| 0 <= k < block ==> !#[trigger] selected@[k],
        {
            selected.push(false);
        }
        assert(selected@ =~= Seq::new(current.importance_blocks@.len(), |k: int| false));
        if self.score_deque.len() - index > 1 {
            let previous: &ScenecutAnalysis = &self.score_deque[index + 1];
            assert(self.score_deque@[index + 1].wf());
            previous.add_selection(
                current,
                rule.shares.previous,
                rule.region_cols,
                rule.region_rows,
                rule.spatially_capped,
                &mut selected,
            );
        }
        assert(self.score_deque@[index as int].wf());
        current.add_selection(
            current,
            rule.shares.current,
            rule.region_cols,
            rule.region_rows,
            rule.spatially_capped,
            &mut selected,
        );
        if index > 0 {
            let next: &ScenecutAnalysis = &self.score_deque[index - 1];
            assert(self.score_deque@[index - 1].wf());
            next.add_selection(
                current,
                rule.shares.next,
                rule.region_cols,
                rule.region_rows,
                rule.spatially_capped,
                &mut selected,
            );
        }
        Some(selected)
    }

    /// Takes over the importance scores of a frame that were computed anew: the mean
    /// over the blocks that stand out, the mean over those spread over regions, where
    /// there are any, the threshold, and the ratios that follow.
    pub fn refresh_importance_metrics(
        &mut self,
        index: usize,
        state: NeighborState,
        global_mean: Option<Measure>,
        spatial_mean: Option<Measure>,
        threshold: Measure,
        quotients: &RatioQuotients,
    )
        requires
            old(self).wf(),
            index < old(self).score_deque@.len(),
        ensures
            final(self).wf(),
            *final(self) == (SceneChangeDetector {
                score_deque: final(self).score_deque,
                ..*old(self)
            }),
            final(self).score_deque@ == old(self).score_deque@.update(
                index as int,
                ScenecutAnalysis {
                    result: with_importance(
                        old(self).score_deque@[index as int].result,
                        old(self).tuning.importance_aggregation,
                        global_mean,
                        spatial_mean,
                        threshold,
                    ).with_ratios(*quotients),
                    importance_neighbor_state: Some(state),
                    ..old(self).score_deque@[index as int]
                },
            ),
    {
        let ghost before = *self;
        let mut result: ScenecutResult = self.score_deque[index].result;
        let raw: Measure = result.imp_block_cost_raw;
        let global: Measure = match global_mean {
            Some(mean) => mean,
            None => raw,
        };
        let spatial: Measure = match spatial_mean {
            Some(mean) => mean,
            None => raw,
        };
        match self.tuning.importance_aggregation {
            ImportanceAggregation::Mean => {
                result.global_imp_block_cost = raw;
                result.imp_block_cost = raw;
            },
            ImportanceAggregation::TemporalTopBlocks { .. } => {
                result.global_imp_block_cost = global;
                result.imp_block_cost = global;
            },
            ImportanceAggregation::SpatialTemporalTopBlocks { .. } => {
                result.global_imp_block_cost = global;
                result.imp_block_cost = spatial;
            },
        }
        result.imp_block_threshold = threshold;
        result.refresh_ratios(quotients);
        self.score_deque[index].result = result;
        self.score_deque[index].importance_neighbor_state = Some(state);
        proof {
            assert forall|k: int| 0 <= k < self.score_deque@.len() implies (
            #[trigger] self.score_deque@[k]).wf() by {
                assert(before.score_deque@[k].wf());
                assert(self.score_deque@[k].masks() == before.score_deque@[k].masks());
            }
        }
    }
}

/// A new frame at the front of the window changes the selection of no frame but the
/// one that it follows: all others keep both their neighbours.
pub proof fn new_frame_keeps_older_selections(
    deque: Seq<ScenecutAnalysis>,
    new: ScenecutAnalysis,
    index: int,
    rule: SelectionRule,
)
    requires
        0 < index < deque.len(),
    ensures
        ({
            let longer = seq![new] + deque;
            selection(
                previous_of(longer, index + 1),
                longer[index + 1],
                next_of(longer, index + 1),
                rule,
            ) == selection(previous_of(deque, index), deque[index], next_of(deque, index), rule)
        }),
{
    let longer = seq![new] + deque;
    assert(longer[index + 1] == deque[index]);
    assert(longer[index] == deque[index - 1]);
    if index + 1 < deque.len() {
        assert(longer[index + 2] == deque[index + 1]);
    }
}

/// Letting go of the oldest frame changes the selection of no frame but the one that
/// followed it.
pub proof fn oldest_frame_is_needed_by_one(
    deque: Seq<ScenecutAnalysis>,
    index: int,
    rule: SelectionRule,
)
    requires
        0 <= index < deque.len() - 2,
    ensures
        ({
            let shorter = deque.drop_last();
            selection(
                previous_of(shorter, index),
                shorter[index],
                next_of(shorter, index),
                rule,
            ) == selection(previous_of(deque, index), deque[index], next_of(deque, index), rule)
        }),
{
}

} // verus!
