//! One frame from its comparisons to its verdict.
//!
//! A frame takes these steps: the pairs of frames that are still missing from the
//! window are compared ([`SceneChangeDetector::plan_frame`],
//! [`SceneChangeDetector::adjust_costs`], [`SceneChangeDetector::finish_comparison`] and
//! [`SceneChangeDetector::move_on`]), importance is brought up to date
//! ([`SceneChangeDetector::refresh_importance_metrics`]), and the frame is judged
//! ([`SceneChangeDetector::first_verdict`], [`SceneChangeDetector::open_search`] and
//! [`SceneChangeDetector::final_verdict`]).

use vstd::prelude::*;
use crate::detector::analysis::ScenecutAnalysis;
use crate::detector::compare::{carries_all, shares_fit, ImportanceShares};
use crate::detector::search::{slots_hold, ForwardSearch};
use crate::detector::segments::{compared_frames, transient_frames, TransientFrames};
use crate::detector::state::{interval_verdict, FramePlan, SceneChangeDetector};
use crate::detector::state::{BACKWARD_FRAMES, LOOKAHEAD_OFFSET};
use crate::detector::verdict::{after_interval, after_suppression, after_transient};
use crate::detector::verdict::{first_decision, is_cut_so_far, judge_transient};
use crate::detector::verdict::{RelaxedRatios, Verdict};
use crate::measure::Measure;
use crate::score::{RatioQuotients, ScenecutDecision, ScenecutResult};

verus! {

/// A verdict by costs and importance, and the frames whose likeness may still overturn it.
#[derive(Clone, Copy, Debug)]
pub struct FirstVerdict {
    pub verdict: Verdict,
    pub transient: Option<TransientFrames>,
}

/// A verdict that a returning scene may still overturn.
#[derive(Debug)]
pub struct OpenVerdict {
    pub verdict: Verdict,
    pub search: Option<ForwardSearch>,
}

/// A verdict after the search for a returning scene.
pub open spec fn after_search(verdict: Verdict, search: ForwardSearch) -> Verdict {
    let noted = ScenecutResult {
        forward_similarity_rejected_candidates: search.rejected_candidates,
        ..verdict.score
    };
    match search.accepted {
        Some(found) => Verdict {
            cut: false,
            score: ScenecutResult {
                decision: ScenecutDecision::SuppressedForwardSimilarity,
                forward_return_frame: Some(found.frame),
                forward_similarity_score: Some(found.delta),
                ..noted
            },
        },
        None => Verdict { cut: verdict.cut, score: noted },
    }
}

/// A verdict with other search diagnostics.
pub open spec fn with_slots_of(verdict: Verdict, other: Verdict) -> Verdict {
    Verdict {
        cut: verdict.cut,
        score: ScenecutResult {
            forward_similarity_candidates: other.score.forward_similarity_candidates,
            ..verdict.score
        },
    }
}

impl SceneChangeDetector {
    /// Whether the window is empty and its place for the current frame is the first one,
    /// or the current frame has its place in it.
    pub open spec fn is_seated(self) -> bool {
        if self.score_deque@.len() == 0 {
            self.deque_offset == self.lookahead_offset
        } else {
            self.has_current()
        }
    }

    /// The current frame by costs and importance alone.
    pub open spec fn verdict_by_cost(self, relaxed: RelaxedRatios) -> Verdict {
        let decision = first_decision(
            self.score_deque@,
            self.deque_offset as int,
            self.scene_detection_mode,
            self.tuning,
            relaxed,
        );
        Verdict {
            cut: is_cut_so_far(decision),
            score: self.score_deque@[self.deque_offset as int].result.decided(decision),
        }
    }

    /// Puts a comparison in front of the window, after its costs were adjusted. The
    /// ratios of the latest frames, whose costs were adjusted too, are renewed by the
    /// given quotients.
    pub fn finish_comparison(
        &mut self,
        analysis: ScenecutAnalysis,
        quotients: &Vec<RatioQuotients>,
        shares: &ImportanceShares,
    )
        requires
            old(self).wf(),
            analysis.wf(),
            quotients@.len() <= old(self).score_deque@.len(),
            shares_fit(old(self).tuning.importance_aggregation, *shares),
        ensures
            final(self).wf(),
            *final(self) == (SceneChangeDetector {
                score_deque: final(self).score_deque,
                ..*old(self)
            }),
            final(self).score_deque@.len() == old(self).score_deque@.len() + 1,
            final(self).score_deque@[0].result == analysis.result,
            final(self).score_deque@[0].importance_blocks == analysis.importance_blocks,
            final(self).score_deque@[0].importance_cols == analysis.importance_cols,
            final(self).score_deque@[0].importance_rows == analysis.importance_rows,
            final(self).score_deque@[0].neighbors() == analysis.neighbors(),
            analysis.importance_blocks@.len() > 0 ==> carries_all(
                final(self).score_deque@[0],
                old(self).tuning.importance_aggregation,
                *shares,
            ),
            forall|k: int|
                0 <= k < old(self).score_deque@.len() ==> #[trigger] final(self).score_deque@[k + 1]
                    == (ScenecutAnalysis {
                    result: if k < quotients@.len() {
                        old(self).score_deque@[k].result.with_ratios(quotients@[k])
                    } else {
                        old(self).score_deque@[k].result
                    },
                    ..old(self).score_deque@[k]
                }),
    {
        for index in 0..quotients.len()
            invariant
                self.wf(),
                *self == (SceneChangeDetector { score_deque: self.score_deque, ..*old(self) }),
                quotients@.len() <= old(self).score_deque@.len(),
                self.score_deque@.len() == old(self).score_deque@.len(),
                forall|k: int|
                    0 <= k < old(self).score_deque@.len() ==> #[trigger] self.score_deque@[k] == (
                    ScenecutAnalysis {
                        result: if k < index {
                            old(self).score_deque@[k].result.with_ratios(quotients@[k])
                        } else {
                            old(self).score_deque@[k].result
                        },
                        ..old(self).score_deque@[k]
                    }),
        {
            self.refresh_entry(index, &quotients[index]);
        }
        let mut prepared = analysis;
        self.prepare_importance_top_block_masks(&mut prepared, shares);
        self.insert_comparison(prepared);
    }

    /// Judges the current frame by costs and importance. `relaxed` holds the relaxed
    /// ratios of every frame of the window.
    pub fn first_verdict(
        &self,
        relaxed: &Vec<RelaxedRatios>,
        previous_frames: usize,
        frames: usize,
    ) -> (first: FirstVerdict)
        requires
            self.has_current(),
            relaxed@.len() == self.score_deque@.len(),
        ensures
            first.verdict == self.verdict_by_cost(relaxed@[self.deque_offset as int]),
            first.transient == if first.verdict.score.decision == ScenecutDecision::CutImportance {
                compared_frames(
                    self.tuning.transient_similarity,
                    previous_frames as int,
                    frames as int,
                )
            } else {
                None
            },
    {
        let verdict = self.judge_frame(&relaxed[self.deque_offset]);
        let transient = if verdict.score.decision == ScenecutDecision::CutImportance {
            transient_frames(&self.tuning.transient_similarity, previous_frames, frames)
        } else {
            None
        };
        FirstVerdict { verdict, transient }
    }

    /// Takes in how alike the frames on both sides are, `delta` with its threshold, and
    /// begins the search for a returning scene where one is due.
    pub fn open_search(
        &mut self,
        first: &FirstVerdict,
        delta: Measure,
        threshold: Measure,
        frame: usize,
        previous_scene_len: usize,
        frames: usize,
        previous_frames: usize,
    ) -> (open: OpenVerdict)
        requires
            frame + frames <= usize::MAX,
        ensures
            ({
                let alike = after_transient(
                    first.verdict,
                    if first.transient is Some {
                        Some(delta)
                    } else {
                        None
                    },
                    threshold,
                );
                let options = old(self).tuning.forward_similarity;
                &&& open.verdict == after_suppression(
                    alike,
                    old(self).forward_suppress_until,
                    frame as int,
                )
                &&& *final(self) == (SceneChangeDetector {
                    forward_suppress_until: if alike.cut && (old(
                        self,
                    ).forward_suppress_until matches Some(until) && until < frame) {
                        None
                    } else {
                        old(self).forward_suppress_until
                    },
                    ..*old(self)
                })
                &&& open.search is Some <==> open.verdict.cut && previous_scene_len
                    >= options.min_previous_scene_len && options.min_cut_cost_ratio.le(
                    open.verdict.score.cost_ratio,
                ) && options.enabled && options.frames > 0 && frames >= 3
                &&& open.search matches Some(search) ==> search.begins(
                    options,
                    open.verdict.score,
                    frame as int,
                    frames as int,
                    previous_frames as int,
                )
            }),
    {
        let found = if first.transient.is_some() {
            Some(delta)
        } else {
            None
        };
        let alike = judge_transient(first.verdict, found, threshold);
        let verdict = self.judge_suppression(alike, frame);
        let search = if self.begins_search(&verdict, previous_scene_len) {
            ForwardSearch::start(
                &self.tuning.forward_similarity,
                verdict.score,
                frame,
                frames,
                previous_frames,
            )
        } else {
            None
        };
        OpenVerdict { verdict, search }
    }

    /// Closes the search and lets the distance from the last cut decide where it does.
    /// The verdict is noted in the window, which lets go of its oldest frame where it
    /// is full.
    pub fn final_verdict(&mut self, open: OpenVerdict, distance: usize) -> (judged: Verdict)
        requires
            old(self).wf(),
            old(self).has_current(),
            old(self).lookahead_offset <= LOOKAHEAD_OFFSET,
        ensures
            final(self).wf(),
            ({
                let decided = interval_verdict(
                    distance as int,
                    old(self).min_key_frame_interval as int,
                    old(self).max_key_frame_interval as int,
                );
                match open.search {
                    None => judged == after_interval(open.verdict, decided),
                    Some(search) => {
                        &&& judged == after_interval(
                            with_slots_of(after_search(open.verdict, search), judged),
                            decided,
                        )
                        &&& slots_hold(
                            judged.score.forward_similarity_candidates@,
                            search.candidates@,
                        )
                    },
                }
            }),
            *final(self) == (SceneChangeDetector {
                score_deque: final(self).score_deque,
                forward_suppress_until: match open.search {
                    Some(search) => match search.accepted {
                        Some(found) if old(self).tuning.forward_similarity.suppress_inside => Some(
                            found.frame,
                        ),
                        _ => old(self).forward_suppress_until,
                    },
                    None => old(self).forward_suppress_until,
                },
                ..*old(self)
            }),
            ({
                let noted = old(self).score_deque@.update(
                    old(self).deque_offset as int,
                    ScenecutAnalysis {
                        result: judged.score,
                        ..old(self).score_deque@[old(self).deque_offset as int]
                    },
                );
                final(self).score_deque@ == if noted.len() > BACKWARD_FRAMES
                    + old(self).lookahead_offset {
                    noted.drop_last()
                } else {
                    noted
                }
            }),
    {
        let verdict = match &open.search {
            Some(search) => self.judge_search(open.verdict, search),
            None => open.verdict,
        };
        self.conclude(verdict, distance)
    }
}

/// The current frame always has its place in the window: once the planned pairs are
/// compared and the window has moved on, it can be judged, and after the window has let
/// go of its oldest frame the next one can be planned.
pub proof fn current_frame_is_seated(
    before: SceneChangeDetector,
    moved: SceneChangeDetector,
    after: SceneChangeDetector,
    frames: usize,
    distance: usize,
)
    requires
        before.is_seated(),
        before.can_plan(frames as int),
        before.plan_of(frames as int, distance as int) matches FramePlan::Compare { initial, offset } && {
            let more = frames > offset + 1;
            &&& moved.score_deque@.len() == before.score_deque@.len() + initial + if more {
                1int
            } else {
                0
            }
            &&& moved.deque_offset == if more {
                offset as int
            } else {
                offset - 1
            }
            &&& moved.lookahead_offset == before.lookahead_offset
        },
        after.score_deque@.len() == if moved.score_deque@.len() > BACKWARD_FRAMES
            + moved.lookahead_offset {
            moved.score_deque@.len() - 1
        } else {
            moved.score_deque@.len() as int
        },
        after.deque_offset == moved.deque_offset,
        after.lookahead_offset == moved.lookahead_offset,
    ensures
        moved.has_current(),
        after.is_seated(),
        after.has_current(),
{
}

} // verus!
