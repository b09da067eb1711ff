//! Whether the current frame is a cut.

use vstd::prelude::*;
use crate::detector::analysis::ScenecutAnalysis;
use crate::detector::state::{interval_verdict, SceneChangeDetector};
use crate::measure::{double, Measure, ZERO};
use crate::options::{DetectionTuning, SceneDetectionSpeed};
use crate::postprocess::common::gap;
use crate::score::{ScenecutDecision, ScenecutResult};

verus! {

/// A judgement on a frame.
#[derive(Clone, Copy, Debug)]
pub struct Verdict {
    pub cut: bool,
    pub score: ScenecutResult,
}

/// The importance ratios that a relaxed cut needs, adapted to how dark a frame is.
#[derive(Clone, Copy, Debug, PartialEq, Eq, Structural)]
pub struct RelaxedRatios {
    /// The ratio itself.
    pub ratio: Measure,
    /// The ratio plus 0.35.
    pub raised: Measure,
    /// Three quarters of the ratio.
    pub lowered: Measure,
}

/// Whether the importance of a frame reaches its threshold.
pub open spec fn is_important(result: ScenecutResult) -> bool {
    result.imp_block_threshold.le(result.imp_block_cost) || result.imp_block_threshold.le(
        result.global_imp_block_cost,
    )
}

/// Whether the importance of some frame from a place on reaches its threshold.
pub open spec fn importance_gate(deque: Seq<ScenecutAnalysis>, from: int) -> bool {
    exists|k: int| from <= k < deque.len() && is_important((#[trigger] deque[k]).result)
}

/// Whether the cost of a frame, adjusted by those before it, reaches its threshold.
pub open spec fn over_backward(result: ScenecutResult) -> bool {
    result.threshold.le(result.backward_adjusted_cost)
}

/// Whether the cost of a frame, adjusted by those after it, reaches its threshold.
pub open spec fn over_forward(result: ScenecutResult) -> bool {
    result.threshold.le(result.forward_adjusted_cost)
}

/// Number of frames from one place to before another whose cost reaches its threshold.
pub open spec fn count_over(
    deque: Seq<ScenecutAnalysis>,
    from: int,
    to: int,
    backward: bool,
) -> int
    decreases to - from,
{
    if to <= from {
        0
    } else {
        let result = deque[to - 1].result;
        count_over(deque, from, to - 1, backward) + if (backward && over_backward(result)) || (
        !backward && over_forward(result)) {
            1int
        } else {
            0
        }
    }
}

/// The verdict by cost alone. A cost over its threshold is a cut, unless frames around
/// make it look like a flash.
pub open spec fn cost_decision(
    deque: Seq<ScenecutAnalysis>,
    at: int,
    mode: SceneDetectionSpeed,
) -> ScenecutDecision {
    if !over_forward(deque[at].result) {
        ScenecutDecision::NoCut
    } else {
        let back = count_over(deque, at + 1, deque.len() as int, true);
        let forward = count_over(deque, 0, at, false);
        let needed = if mode == SceneDetectionSpeed::Fast {
            2int
        } else {
            1
        };
        let after_flash = forward == 0 && back >= needed;
        let before_flash = back == 0 && forward == 1 && over_forward(deque[0].result);
        if after_flash || before_flash || (back == 0 && forward == 0) {
            ScenecutDecision::Cut
        } else {
            ScenecutDecision::SuppressedFlash
        }
    }
}

/// The importance ratio of the frame before, 0 where there is none.
pub open spec fn previous_importance(deque: Seq<ScenecutAnalysis>, index: int) -> Measure {
    if index + 1 < deque.len() {
        deque[index + 1].result.imp_block_ratio
    } else {
        double(ZERO)
    }
}

/// Whether importance alone makes a frame a cut.
pub open spec fn is_importance_cut(
    deque: Seq<ScenecutAnalysis>,
    index: int,
    tuning: DetectionTuning,
    relaxed: RelaxedRatios,
) -> bool {
    let current = deque[index].result;
    &&& 0 <= index < deque.len()
    &&& tuning.importance_cut_ratio is Some
    &&& !(current.imp_block_cost.lt(current.imp_block_threshold)
        && current.global_imp_block_cost.lt(current.imp_block_threshold))
    &&& !(tuning.importance_cut_max_luma_8bit matches Some(limit) && limit.lt(
        current.avg_luma_8bit,
    ))
    &&& !(double(ZERO).lt(tuning.importance_cut_max_me_good_ratio)
        && tuning.importance_cut_max_me_good_ratio.lt(current.static_good_block_ratio))
    &&& !(double(ZERO).lt(tuning.importance_cut_bright_max_cost_ratio)
        && tuning.importance_cut_dark_luma_high_8bit.lt(current.avg_luma_8bit)
        && tuning.importance_cut_bright_max_cost_ratio.lt(current.cost_ratio))
    &&& passes_strictly(current, tuning) || passes_relaxed(
        current,
        previous_importance(deque, index),
        tuning,
        relaxed,
    )
    &&& forall|k: int|
        0 <= k < deque.len() && k != index && gap(k, index) <= 2
            ==> (#[trigger] deque[k]).result.imp_block_cost.le(current.imp_block_cost)
}

/// Whether importance and cost reach the strict ratios.
pub open spec fn passes_strictly(current: ScenecutResult, tuning: DetectionTuning) -> bool {
    &&& tuning.importance_cut_ratio matches Some(ratio) && ratio.le(current.imp_block_ratio)
    &&& tuning.importance_cut_min_cost_ratio.le(current.cost_ratio)
}

/// Whether importance rises abruptly, in a frame that changes in many places.
pub open spec fn passes_relaxed(
    current: ScenecutResult,
    previous_ratio: Measure,
    tuning: DetectionTuning,
    relaxed: RelaxedRatios,
) -> bool {
    &&& tuning.importance_cut_relaxed_ratio is Some
    &&& relaxed.ratio.le(current.imp_block_ratio) || (relaxed.raised.le(
        current.global_imp_block_ratio,
    ) && relaxed.lowered.le(current.imp_block_ratio))
    &&& tuning.importance_cut_relaxed_min_cost_ratio.le(current.cost_ratio)
    &&& previous_ratio.le(tuning.importance_cut_relaxed_max_previous_ratio)
    &&& tuning.importance_cut_min_me_bad_ratio.le(current.static_bad_block_ratio)
}

/// The first verdict on a frame, before similarity is looked at.
pub open spec fn first_decision(
    deque: Seq<ScenecutAnalysis>,
    at: int,
    mode: SceneDetectionSpeed,
    tuning: DetectionTuning,
    relaxed: RelaxedRatios,
) -> ScenecutDecision {
    let strong = tuning.strong_cut_ratio matches Some(ratio) && ratio.le(
        deque[at].result.cost_ratio,
    );
    if !importance_gate(deque, at) && !strong {
        ScenecutDecision::SuppressedImportance
    } else {
        let by_cost = cost_decision(deque, at, mode);
        if by_cost != ScenecutDecision::Cut && mode == SceneDetectionSpeed::High
            && is_importance_cut(deque, at, tuning, relaxed) {
            ScenecutDecision::CutImportance
        } else {
            by_cost
        }
    }
}

/// Whether a first verdict is a cut.
pub open spec fn is_cut_so_far(decision: ScenecutDecision) -> bool {
    decision == ScenecutDecision::Cut || decision == ScenecutDecision::CutImportance
}

/// A verdict after the frames on both sides were compared: a cut by importance goes
/// where they are alike.
pub open spec fn after_transient(
    verdict: Verdict,
    delta: Option<Measure>,
    threshold: Measure,
) -> Verdict {
    if verdict.cut && verdict.score.decision == ScenecutDecision::CutImportance && delta is Some {
        let seen = ScenecutResult { transient_similarity_score: delta, ..verdict.score };
        if delta.unwrap().le(threshold) {
            Verdict {
                cut: false,
                score: seen.decided(ScenecutDecision::SuppressedTransientSimilarity),
            }
        } else {
            Verdict { cut: true, score: seen }
        }
    } else {
        verdict
    }
}

/// A verdict where cuts may be suppressed up to a frame.
pub open spec fn after_suppression(verdict: Verdict, until: Option<usize>, frame: int) -> Verdict {
    if verdict.cut && (until matches Some(last) && frame <= last) {
        Verdict {
            cut: false,
            score: verdict.score.decided(ScenecutDecision::SuppressedForwardSimilarity),
        }
    } else {
        verdict
    }
}

/// A verdict after the distance from the last cut was looked at.
pub open spec fn after_interval(verdict: Verdict, decided: Option<bool>) -> Verdict {
    match decided {
        None => verdict,
        Some(cut) => Verdict {
            cut,
            score: verdict.score.decided(
                if cut {
                    ScenecutDecision::ForcedMaxDistance
                } else {
                    ScenecutDecision::SuppressedMinDistance
                },
            ),
        },
    }
}

/// A verdict after the frames on both sides were compared.
pub fn judge_transient(verdict: Verdict, delta: Option<Measure>, threshold: Measure) -> (judged:
    Verdict)
    ensures
        judged == after_transient(verdict, delta, threshold),
{
    let mut judged = verdict;
    if verdict.cut && verdict.score.decision == ScenecutDecision::CutImportance {
        if let Some(difference) = delta {
            judged.score.transient_similarity_score = delta;
            if difference.at_most(threshold) {
                judged.score.decision = ScenecutDecision::SuppressedTransientSimilarity;
                judged.cut = false;
            }
        }
    }
    judged
}

impl SceneChangeDetector {
    /// Whether the importance of some frame from the current one on reaches its
    /// threshold.
    fn importance_gate_passed(&self) -> (passed: bool)
        requires
            self.has_current(),
        ensures
            passed == importance_gate(self.score_deque@, self.deque_offset as int),
    {
        let mut index: usize = self.deque_offset;
        while index < self.score_deque.len()
            invariant
                self.deque_offset <= index <= self.score_deque@.len(),
                forall|k: int|
                    self.deque_offset <= k < index ==> !is_important(
                        (#[trigger] self.score_deque@[k]).result,
                    ),
            decreases self.score_deque@.len() - index,
        {
            let result: ScenecutResult = self.score_deque[index].result;
            if result.imp_block_cost.at_least(result.imp_block_threshold)
                || result.global_imp_block_cost.at_least(result.imp_block_threshold) {
                assert(is_important(self.score_deque@[index as int].result));
                return true;
            }
            index = index + 1;
        }
        false
    }

    /// Number of frames from one place to before another whose cost reaches its
    /// threshold.
    fn count_over_threshold(&self, from: usize, to: usize, backward: bool) -> (count: usize)
        requires
            from <= to <= self.score_deque@.len(),
        ensures
            count == count_over(self.score_deque@, from as int, to as int, backward),
    {
        let mut count: usize = 0;
        for index in from..to
            invariant
                to <= self.score_deque@.len(),
                count == count_over(self.score_deque@, from as int, index as int, backward),
                count <= index - from,
        {
            let result: ScenecutResult = self.score_deque[index].result;
            let cost: Measure = if backward {
                result.backward_adjusted_cost
            } else {
                result.forward_adjusted_cost
            };
            if cost.at_least(result.threshold) {
                count = count + 1;
            }
        }
        count
    }

    /// The verdict by cost alone.
    fn judge_cost(&self) -> (decision: ScenecutDecision)
        requires
            self.has_current(),
        ensures
            decision == cost_decision(
                self.score_deque@,
                self.deque_offset as int,
                self.scene_detection_mode,
            ),
    {
        let at: usize = self.deque_offset;
        let current: ScenecutResult = self.score_deque[at].result;
        if !current.forward_adjusted_cost.at_least(current.threshold) {
            return ScenecutDecision::NoCut;
        }
        let held: usize = self.score_deque.len();
        let back: usize = self.count_over_threshold(at + 1, held, true);
        let forward: usize = self.count_over_threshold(0, at, false);
        let needed: usize = if self.scene_detection_mode == SceneDetectionSpeed::Fast {
            2
        } else {
            1
        };
        if forward == 0 && back >= needed {
            ScenecutDecision::Cut
        } else if back == 0 && forward == 1
            && self.score_deque[0].result.forward_adjusted_cost.at_least(
            self.score_deque[0].result.threshold,
        ) {
            ScenecutDecision::Cut
        } else if back != 0 || forward != 0 {
            ScenecutDecision::SuppressedFlash
        } else {
            ScenecutDecision::Cut
        }
    }

    /// Whether importance and cost reach the strict ratios.
    fn strict_ratios_passed(&self, current: &ScenecutResult) -> (passed: bool)
        ensures
            passed == passes_strictly(*current, self.tuning),
    {
        match self.tuning.importance_cut_ratio {
            Some(ratio) => current.imp_block_ratio.at_least(ratio) && current.cost_ratio.at_least(
                self.tuning.importance_cut_min_cost_ratio,
            ),
            None => false,
        }
    }

    /// Whether importance rises abruptly, in a frame that changes in many places.
    fn relaxed_ratios_passed(
        &self,
        current: &ScenecutResult,
        previous_ratio: Measure,
        relaxed: &RelaxedRatios,
    ) -> (passed: bool)
        ensures
            passed == passes_relaxed(*current, previous_ratio, self.tuning, *relaxed),
    {
        if self.tuning.importance_cut_relaxed_ratio.is_none() {
            return false;
        }
        let spatial = current.imp_block_ratio.at_least(relaxed.ratio);
        let global = current.global_imp_block_ratio.at_least(relaxed.raised)
            && current.imp_block_ratio.at_least(relaxed.lowered);
        (spatial || global) && current.cost_ratio.at_least(
            self.tuning.importance_cut_relaxed_min_cost_ratio,
        ) && previous_ratio.at_most(self.tuning.importance_cut_relaxed_max_previous_ratio)
            && current.static_bad_block_ratio.at_least(self.tuning.importance_cut_min_me_bad_ratio)
    }

    /// Whether importance alone makes a frame of the window a cut.
    pub fn importance_cut_passed(&self, index: usize, relaxed: &RelaxedRatios) -> (passed: bool)
        ensures
            passed == is_importance_cut(self.score_deque@, index as int, self.tuning, *relaxed),
    {
        if index >= self.score_deque.len() || self.tuning.importance_cut_ratio.is_none() {
            return false;
        }
        let current: ScenecutResult = self.score_deque[index].result;
        if current.imp_block_cost.below(current.imp_block_threshold)
            && current.global_imp_block_cost.below(current.imp_block_threshold) {
            return false;
        }
        if let Some(limit) = self.tuning.importance_cut_max_luma_8bit {
            if current.avg_luma_8bit.above(limit) {
                return false;
            }
        }
        if self.tuning.importance_cut_max_me_good_ratio.above(double(ZERO))
            && current.static_good_block_ratio.above(self.tuning.importance_cut_max_me_good_ratio) {
            return false;
        }
        if self.tuning.importance_cut_bright_max_cost_ratio.above(double(ZERO))
            && current.avg_luma_8bit.above(self.tuning.importance_cut_dark_luma_high_8bit)
            && current.cost_ratio.above(self.tuning.importance_cut_bright_max_cost_ratio) {
            return false;
        }
        let previous_ratio: Measure = if self.score_deque.len() - index > 1 {
            self.score_deque[index + 1].result.imp_block_ratio
        } else {
            double(ZERO)
        };
        if !self.strict_ratios_passed(&current) && !self.relaxed_ratios_passed(
            &current,
            previous_ratio,
            relaxed,
        ) {
            return false;
        }
        for other in 0..self.score_deque.len()
            invariant
                index < self.score_deque@.len(),
                current == self.score_deque@[index as int].result,
                forall|k: int|
                    0 <= k < other && k != index && gap(k, index as int) <= 2 ==> (
                    #[trigger] self.score_deque@[k]).result.imp_block_cost.le(
                        current.imp_block_cost,
                    ),
        {
            let distance: usize = if other >= index {
                other - index
            } else {
                index - other
            };
            if other != index && distance <= 2
                && !self.score_deque[other].result.imp_block_cost.at_most(current.imp_block_cost) {
                assert(!self.score_deque@[other as int].result.imp_block_cost.le(
                    current.imp_block_cost,
                ));
                return false;
            }
        }
        true
    }

    /// The first verdict on the current frame, before similarity is looked at.
    pub fn judge_frame(&self, relaxed: &RelaxedRatios) -> (verdict: Verdict)
        requires
            self.has_current(),
        ensures
            ({
                let decision = first_decision(
                    self.score_deque@,
                    self.deque_offset as int,
                    self.scene_detection_mode,
                    self.tuning,
                    *relaxed,
                );
                verdict == (Verdict {
                    cut: is_cut_so_far(decision),
                    score: self.score_deque@[self.deque_offset as int].result.decided(decision),
                })
            }),
    {
        let mut score: ScenecutResult = self.score_deque[self.deque_offset].result;
        let strong = match self.tuning.strong_cut_ratio {
            Some(ratio) => score.cost_ratio.at_least(ratio),
            None => false,
        };
        if !strong && !self.importance_gate_passed() {
            score.decision = ScenecutDecision::SuppressedImportance;
            return Verdict { cut: false, score };
        }
        let mut decision: ScenecutDecision = self.judge_cost();
        if decision != ScenecutDecision::Cut && self.scene_detection_mode
            == SceneDetectionSpeed::High && self.importance_cut_passed(self.deque_offset, relaxed) {
            decision = ScenecutDecision::CutImportance;
        }
        score.decision = decision;
        Verdict {
            cut: decision == ScenecutDecision::Cut || decision == ScenecutDecision::CutImportance,
            score,
        }
    }

    /// Suppresses a cut inside a scene that returns. Past the end of that scene there is
    /// nothing left to suppress.
    pub fn judge_suppression(&mut self, verdict: Verdict, frame: usize) -> (judged: Verdict)
        ensures
            judged == after_suppression(verdict, old(self).forward_suppress_until, frame as int),
            *final(self) == (SceneChangeDetector {
                forward_suppress_until: if verdict.cut && (old(
                    self,
                ).forward_suppress_until matches Some(until) && until < frame) {
                    None
                } else {
                    old(self).forward_suppress_until
                },
                ..*old(self)
            }),
    {
        let mut judged = verdict;
        if verdict.cut {
            if let Some(until) = self.forward_suppress_until {
                if frame <= until {
                    judged.score.decision = ScenecutDecision::SuppressedForwardSimilarity;
                    judged.cut = false;
                } else {
                    self.forward_suppress_until = None;
                }
            }
        }
        judged
    }

    /// The final verdict, with the distance from the last cut taken into account, and
    /// recorded in the window.
    pub fn conclude(&mut self, verdict: Verdict, distance: usize) -> (judged: Verdict)
        requires
            old(self).wf(),
            old(self).has_current(),
            old(self).lookahead_offset <= 5,
        ensures
            final(self).wf(),
            judged == after_interval(
                verdict,
                interval_verdict(
                    distance as int,
                    old(self).min_key_frame_interval as int,
                    old(self).max_key_frame_interval as int,
                ),
            ),
            *final(self) == (SceneChangeDetector {
                score_deque: final(self).score_deque,
                ..*old(self)
            }),
            ({
                let recorded = old(self).score_deque@.update(
                    old(self).deque_offset as int,
                    ScenecutAnalysis {
                        result: judged.score,
                        ..old(self).score_deque@[old(self).deque_offset as int]
                    },
                );
                final(self).score_deque@ == if recorded.len() > 5 + old(self).lookahead_offset {
                    recorded.drop_last()
                } else {
                    recorded
                }
            }),
    {
        let ghost before = *self;
        let mut judged = verdict;
        if let Some(cut) = self.handle_min_max_intervals(distance) {
            judged.cut = cut;
            judged.score.decision = if cut {
                ScenecutDecision::ForcedMaxDistance
            } else {
                ScenecutDecision::SuppressedMinDistance
            };
        }
        let at: usize = self.deque_offset;
        self.score_deque[at].result = judged.score;
        proof {
            assert forall|k: int| 0 <= k < self.score_deque@.len() implies (
            #[trigger] self.score_deque@[k]).wf() by {
                assert(before.score_deque@[k].wf());
                assert(self.score_deque@[k].masks() == before.score_deque@[k].masks());
            }
            assert(self.score_deque@ =~= before.score_deque@.update(
                at as int,
                ScenecutAnalysis { result: judged.score, ..before.score_deque@[at as int] },
            ));
        }
        self.trim();
        judged
    }
}

/// The configured distances have the last word: no cut comes closer to the last one than
/// the smallest distance, and from the largest on every frame is a cut.
pub proof fn distance_has_last_word(verdict: Verdict, distance: int, min: int, max: int)
    ensures
        ({
            let judged = after_interval(verdict, interval_verdict(distance, min, max));
            &&& judged.cut ==> distance >= min
            &&& distance >= min && distance >= max ==> judged.cut
            &&& min <= distance < max ==> judged == verdict
        }),
{
}

} // verus!
