//! What is recorded of each analysed frame.

use vstd::prelude::*;
use crate::measure::{double, Measure, ZERO};

verus! {

/// Most forward-similarity candidates that one frame's record keeps.
pub const FORWARD_SIMILARITY_DIAGNOSTIC_SLOTS: usize = 8;

/// Cells of a frame's coarse luma signature.
pub const FRAME_LUMA_SIGNATURE_CELLS: usize = 32;

/// What became of one forward-similarity candidate.
#[derive(Clone, Copy, Debug, PartialEq, Eq, Structural)]
pub enum ForwardSimilarityCandidateDecision {
    Accepted,
    MissingReturnCandidate,
    DominantReturnCandidate,
    DeltaAboveThreshold,
}

/// A later frame that was compared with the frames before a cut.
#[derive(Clone, Copy, Debug, PartialEq, Eq, Structural)]
pub struct ForwardSimilarityCandidate {
    pub frame: usize,
    pub offset: usize,
    pub delta: Measure,
    pub threshold: Measure,
    pub candidate_frame: Option<usize>,
    pub candidate_offset: Option<usize>,
    pub decision: ForwardSimilarityCandidateDecision,
}

/// The verdict on one frame, and the rule that gave it.
#[derive(Clone, Copy, Debug, PartialEq, Eq, Structural)]
pub enum ScenecutDecision {
    NotEvaluated,
    NoCut,
    Cut,
    CutImportance,
    SuppressedImportance,
    SuppressedFlash,
    SuppressedMinDistance,
    ForcedMaxDistance,
    SuppressedForwardSimilarity,
    SuppressedTransientSimilarity,
    SuppressedTextCardCluster,
    SuppressedFastMotion,
    SuppressedStaticCredits,
    SuppressedDarkOcclusion,
    CutDarkScenePeak,
    CutSparseScenePeak,
    CutRefinedSparsePeak,
    SuppressedRefinedSparsePeak,
    CutShiftedBoundary,
    SuppressedShiftedBoundary,
    CutAbaReturn,
    SuppressedAbaChain,
    CutForwardSimilarityRecovery,
}

/// Contains the scores for scenecut analysis on a single frame.
#[derive(Debug, Clone, Copy)]
pub struct ScenecutResult {
    pub inter_cost: Measure,
    pub motion_inter_cost: Measure,
    pub motion_cost_computed: bool,
    pub imp_block_cost_raw: Measure,
    pub imp_block_cost: Measure,
    pub global_imp_block_cost: Measure,
    pub imp_block_threshold: Measure,
    pub imp_block_ratio: Measure,
    pub global_imp_block_ratio: Measure,
    pub backward_adjusted_cost: Measure,
    pub forward_adjusted_cost: Measure,
    pub motion_backward_adjusted_cost: Measure,
    pub motion_forward_adjusted_cost: Measure,
    pub threshold: Measure,
    pub cost_ratio: Measure,
    pub motion_cost_ratio: Measure,
    pub avg_luma_8bit: Measure,
    pub static_bad_block_ratio: Measure,
    pub static_good_block_ratio: Measure,
    pub me_bad_block_ratio: Measure,
    pub me_good_block_ratio: Measure,
    pub frame_luma_signature: Option<[u8; FRAME_LUMA_SIGNATURE_CELLS]>,
    pub transient_similarity_score: Option<Measure>,
    pub forward_similarity_score: Option<Measure>,
    pub forward_similarity_candidates: [Option<
        ForwardSimilarityCandidate,
    >; FORWARD_SIMILARITY_DIAGNOSTIC_SLOTS],
    pub forward_similarity_rejected_candidates: usize,
    pub decision: ScenecutDecision,
    pub forward_return_frame: Option<usize>,
    /// `cost_ratio` times the configured multiplier for return candidates, as of the last
    /// time that the ratios were refreshed; 0 before that.
    pub return_cost_ceiling: Measure,
    /// `cost_ratio + 0.05 * imp_block_ratio + 0.03 * global_imp_block_ratio`, as of the last
    /// time that the ratios were refreshed; 0 before that.
    pub refined_peak_rank: Measure,
    /// Least value that exceeds `global_imp_block_ratio` by 1.0 or more, as of the last time
    /// that the ratios were refreshed; 0 before that.
    pub shift_margin_floor: Measure,
}

/// Whether two optional measurements are both absent or equal.
pub open spec fn same_optional(left: Option<Measure>, right: Option<Measure>) -> bool {
    match (left, right) {
        (Some(l), Some(r)) => l.same(r),
        (None, None) => true,
        _ => false,
    }
}

/// Whether two candidates are equal, with measurements compared as numbers.
pub open spec fn same_candidate(
    left: Option<ForwardSimilarityCandidate>,
    right: Option<ForwardSimilarityCandidate>,
) -> bool {
    match (left, right) {
        (Some(l), Some(r)) => {
            &&& l.frame == r.frame
            &&& l.offset == r.offset
            &&& l.delta.same(r.delta)
            &&& l.threshold.same(r.threshold)
            &&& l.candidate_frame == r.candidate_frame
            &&& l.candidate_offset == r.candidate_offset
            &&& l.decision == r.decision
        },
        (None, None) => true,
        _ => false,
    }
}

/// Whether two signatures are both absent or equal.
pub open spec fn same_signature(
    left: Option<[u8; FRAME_LUMA_SIGNATURE_CELLS]>,
    right: Option<[u8; FRAME_LUMA_SIGNATURE_CELLS]>,
) -> bool {
    match (left, right) {
        (Some(l), Some(r)) => l@ == r@,
        (None, None) => true,
        _ => false,
    }
}

/// Whether two records are equal, with measurements compared as numbers. What is
/// derived from the ratios is not compared again.
pub open spec fn same_record(left: ScenecutResult, right: ScenecutResult) -> bool {
    &&& left.inter_cost.same(right.inter_cost)
    &&& left.motion_inter_cost.same(right.motion_inter_cost)
    &&& left.imp_block_cost_raw.same(right.imp_block_cost_raw)
    &&& left.imp_block_cost.same(right.imp_block_cost)
    &&& left.global_imp_block_cost.same(right.global_imp_block_cost)
    &&& left.imp_block_threshold.same(right.imp_block_threshold)
    &&& left.imp_block_ratio.same(right.imp_block_ratio)
    &&& left.global_imp_block_ratio.same(right.global_imp_block_ratio)
    &&& left.backward_adjusted_cost.same(right.backward_adjusted_cost)
    &&& left.forward_adjusted_cost.same(right.forward_adjusted_cost)
    &&& left.motion_backward_adjusted_cost.same(right.motion_backward_adjusted_cost)
    &&& left.motion_forward_adjusted_cost.same(right.motion_forward_adjusted_cost)
    &&& left.threshold.same(right.threshold)
    &&& left.cost_ratio.same(right.cost_ratio)
    &&& left.motion_cost_ratio.same(right.motion_cost_ratio)
    &&& left.avg_luma_8bit.same(right.avg_luma_8bit)
    &&& left.static_bad_block_ratio.same(right.static_bad_block_ratio)
    &&& left.static_good_block_ratio.same(right.static_good_block_ratio)
    &&& left.me_bad_block_ratio.same(right.me_bad_block_ratio)
    &&& left.me_good_block_ratio.same(right.me_good_block_ratio)
    &&& left.motion_cost_computed == right.motion_cost_computed
    &&& same_signature(left.frame_luma_signature, right.frame_luma_signature)
    &&& same_optional(left.transient_similarity_score, right.transient_similarity_score)
    &&& same_optional(left.forward_similarity_score, right.forward_similarity_score)
    &&& forall|slot: int|
        0 <= slot < FORWARD_SIMILARITY_DIAGNOSTIC_SLOTS ==> same_candidate(
            #[trigger] left.forward_similarity_candidates@[slot],
            right.forward_similarity_candidates@[slot],
        )
    &&& left.forward_similarity_rejected_candidates == right.forward_similarity_rejected_candidates
    &&& left.decision == right.decision
    &&& left.forward_return_frame == right.forward_return_frame
}

/// Whether two optional numbers are equal.
fn equal_numbers(left: Option<usize>, right: Option<usize>) -> (equal: bool)
    ensures
        equal == (left == right),
{
    match (left, right) {
        (Some(l), Some(r)) => l == r,
        (None, None) => true,
        _ => false,
    }
}

/// Whether two optional measurements are both absent or equal.
fn equal_optional(left: Option<Measure>, right: Option<Measure>) -> (equal: bool)
    ensures
        equal == same_optional(left, right),
{
    match (left, right) {
        (Some(l), Some(r)) => l.equals(r),
        (None, None) => true,
        _ => false,
    }
}

/// Whether two candidates are equal, with measurements compared as numbers.
fn equal_candidates(
    left: Option<ForwardSimilarityCandidate>,
    right: Option<ForwardSimilarityCandidate>,
) -> (equal: bool)
    ensures
        equal == same_candidate(left, right),
{
    match (left, right) {
        (Some(l), Some(r)) => l.frame == r.frame && l.offset == r.offset && l.delta.equals(r.delta)
            && l.threshold.equals(r.threshold) && equal_numbers(
            l.candidate_frame,
            r.candidate_frame,
        ) && equal_numbers(l.candidate_offset, r.candidate_offset) && l.decision == r.decision,
        (None, None) => true,
        _ => false,
    }
}

/// Whether two signatures are equal.
fn equal_cells(
    left: &[u8; FRAME_LUMA_SIGNATURE_CELLS],
    right: &[u8; FRAME_LUMA_SIGNATURE_CELLS],
) -> (equal: bool)
    ensures
        equal == (left@ == right@),
{
    for cell in 0..FRAME_LUMA_SIGNATURE_CELLS
        invariant
            forall|k: int| 0 <= k < cell ==> left@[k] == right@[k],
    {
        if left[cell] != right[cell] {
            assert(left@[cell as int] != right@[cell as int]);
            return false;
        }
    }
    assert(left@ =~= right@);
    true
}

/// Whether two signatures are both absent or equal.
fn equal_signatures(
    left: &Option<[u8; FRAME_LUMA_SIGNATURE_CELLS]>,
    right: &Option<[u8; FRAME_LUMA_SIGNATURE_CELLS]>,
) -> (equal: bool)
    ensures
        equal == same_signature(*left, *right),
{
    match (left, right) {
        (Some(l), Some(r)) => equal_cells(l, r),
        (None, None) => true,
        _ => false,
    }
}

/// Costs over their thresholds, and what follows from them.
#[derive(Debug, Clone, Copy, PartialEq, Eq, Structural)]
pub struct RatioQuotients {
    /// The forward adjusted cost over the cost threshold.
    pub cost: Measure,
    /// The same with motion compensation.
    pub motion_cost: Measure,
    /// The importance cost over the importance threshold.
    pub imp_block: Measure,
    /// The same without regions.
    pub global_imp_block: Measure,
    /// What the ratios give for `return_cost_ceiling`.
    pub return_cost_ceiling: Measure,
    /// What the ratios give for `refined_peak_rank`.
    pub refined_peak_rank: Measure,
    /// What the ratios give for `shift_margin_floor`.
    pub shift_margin_floor: Measure,
}

/// A ratio to a threshold, 0 where that is not positive.
pub open spec fn ratio_or_zero(threshold: Measure, quotient: Measure) -> Measure {
    if double(ZERO).lt(threshold) {
        quotient
    } else {
        double(ZERO)
    }
}

/// A record with nothing but costs.
pub open spec fn fresh_record(
    inter_cost: Measure,
    imp_block_cost: Measure,
    imp_block_threshold: Measure,
    threshold: Measure,
    avg_luma_8bit: Measure,
    imp_block_ratio: Measure,
) -> ScenecutResult {
    ScenecutResult {
        inter_cost,
        motion_inter_cost: inter_cost,
        motion_cost_computed: false,
        imp_block_cost_raw: imp_block_cost,
        imp_block_cost,
        global_imp_block_cost: imp_block_cost,
        imp_block_threshold,
        imp_block_ratio,
        global_imp_block_ratio: imp_block_ratio,
        backward_adjusted_cost: double(ZERO),
        forward_adjusted_cost: double(ZERO),
        motion_backward_adjusted_cost: double(ZERO),
        motion_forward_adjusted_cost: double(ZERO),
        threshold,
        cost_ratio: double(ZERO),
        motion_cost_ratio: double(ZERO),
        avg_luma_8bit,
        static_bad_block_ratio: double(ZERO),
        static_good_block_ratio: double(ZERO),
        me_bad_block_ratio: double(ZERO),
        me_good_block_ratio: double(ZERO),
        frame_luma_signature: None,
        transient_similarity_score: None,
        forward_similarity_score: None,
        forward_similarity_candidates: [None; FORWARD_SIMILARITY_DIAGNOSTIC_SLOTS],
        forward_similarity_rejected_candidates: 0,
        decision: ScenecutDecision::NotEvaluated,
        forward_return_frame: None,
        return_cost_ceiling: double(ZERO),
        refined_peak_rank: double(ZERO),
        shift_margin_floor: double(ZERO),
    }
}

impl ScenecutResult {
    /// The record with another verdict.
    pub open spec fn decided(self, decision: ScenecutDecision) -> ScenecutResult {
        ScenecutResult { decision, ..self }
    }

    /// A record with the given costs. `imp_block_quotient` is the importance cost over
    /// its threshold. Every other ratio, count and diagnostic is empty, and the
    /// verdict is still open. `return_cost_ceiling`, `refined_peak_rank` and
    /// `shift_margin_floor` are 0 until the ratios are refreshed.
    pub fn new(
        inter_cost: Measure,
        imp_block_cost: Measure,
        imp_block_threshold: Measure,
        threshold: Measure,
        avg_luma_8bit: Measure,
        imp_block_quotient: Measure,
    ) -> (result: Self)
        ensures
            result == fresh_record(
                inter_cost,
                imp_block_cost,
                imp_block_threshold,
                threshold,
                avg_luma_8bit,
                ratio_or_zero(imp_block_threshold, imp_block_quotient),
            ),
    {
        let zero = double(ZERO);
        let mut result = ScenecutResult {
            inter_cost,
            motion_inter_cost: inter_cost,
            motion_cost_computed: false,
            imp_block_cost_raw: imp_block_cost,
            imp_block_cost,
            global_imp_block_cost: imp_block_cost,
            imp_block_threshold,
            imp_block_ratio: zero,
            global_imp_block_ratio: zero,
            backward_adjusted_cost: zero,
            forward_adjusted_cost: zero,
            motion_backward_adjusted_cost: zero,
            motion_forward_adjusted_cost: zero,
            threshold,
            cost_ratio: zero,
            motion_cost_ratio: zero,
            avg_luma_8bit,
            static_bad_block_ratio: zero,
            static_good_block_ratio: zero,
            me_bad_block_ratio: zero,
            me_good_block_ratio: zero,
            frame_luma_signature: None,
            transient_similarity_score: None,
            forward_similarity_score: None,
            forward_similarity_candidates: [None; FORWARD_SIMILARITY_DIAGNOSTIC_SLOTS],
            forward_similarity_rejected_candidates: 0,
            decision: ScenecutDecision::NotEvaluated,
            forward_return_frame: None,
            return_cost_ceiling: zero,
            refined_peak_rank: zero,
            shift_margin_floor: zero,
        };
        result.refresh_ratios(
            &RatioQuotients {
                cost: zero,
                motion_cost: zero,
                imp_block: imp_block_quotient,
                global_imp_block: imp_block_quotient,
                return_cost_ceiling: zero,
                refined_peak_rank: zero,
                shift_margin_floor: zero,
            },
        );
        result
    }

    /// Takes over ratios that were computed anew. A ratio to a threshold that is not
    /// positive is 0.
    pub fn refresh_ratios(&mut self, quotients: &RatioQuotients)
        ensures
            *final(self) == old(self).with_ratios(*quotients),
    {
        let zero = double(ZERO);
        let has_cost = self.threshold.above(zero);
        let has_importance = self.imp_block_threshold.above(zero);
        self.cost_ratio = if has_cost {
            quotients.cost
        } else {
            zero
        };
        self.motion_cost_ratio = if has_cost {
            quotients.motion_cost
        } else {
            zero
        };
        self.imp_block_ratio = if has_importance {
            quotients.imp_block
        } else {
            zero
        };
        self.global_imp_block_ratio = if has_importance {
            quotients.global_imp_block
        } else {
            zero
        };
        self.return_cost_ceiling = quotients.return_cost_ceiling;
        self.refined_peak_rank = quotients.refined_peak_rank;
        self.shift_margin_floor = quotients.shift_margin_floor;
    }

    /// The record with ratios that were computed anew.
    pub open spec fn with_ratios(self, quotients: RatioQuotients) -> ScenecutResult {
        ScenecutResult {
            cost_ratio: ratio_or_zero(self.threshold, quotients.cost),
            motion_cost_ratio: ratio_or_zero(self.threshold, quotients.motion_cost),
            imp_block_ratio: ratio_or_zero(self.imp_block_threshold, quotients.imp_block),
            global_imp_block_ratio: ratio_or_zero(
                self.imp_block_threshold,
                quotients.global_imp_block,
            ),
            return_cost_ceiling: quotients.return_cost_ceiling,
            refined_peak_rank: quotients.refined_peak_rank,
            shift_margin_floor: quotients.shift_margin_floor,
            ..self
        }
    }

    /// Whether two records are equal, with measurements compared as numbers.
    pub fn matches(&self, other: &ScenecutResult) -> (equal: bool)
        ensures
            equal == same_record(*self, *other),
    {
        for slot in 0..FORWARD_SIMILARITY_DIAGNOSTIC_SLOTS
            invariant
                forall|k: int|
                    0 <= k < slot ==> same_candidate(
                        #[trigger] self.forward_similarity_candidates@[k],
                        other.forward_similarity_candidates@[k],
                    ),
        {
            if !equal_candidates(
                self.forward_similarity_candidates[slot],
                other.forward_similarity_candidates[slot],
            ) {
                return false;
            }
        }
        let costs = self.inter_cost.equals(other.inter_cost) && self.motion_inter_cost.equals(other.motion_inter_cost)
            && self.imp_block_cost_raw.equals(other.imp_block_cost_raw)
            && self.imp_block_cost.equals(other.imp_block_cost)
            && self.global_imp_block_cost.equals(other.global_imp_block_cost)
            && self.imp_block_threshold.equals(other.imp_block_threshold)
            && self.imp_block_ratio.equals(other.imp_block_ratio)
            && self.global_imp_block_ratio.equals(other.global_imp_block_ratio)
            && self.backward_adjusted_cost.equals(other.backward_adjusted_cost)
            && self.forward_adjusted_cost.equals(other.forward_adjusted_cost);
        let ratios = self.motion_backward_adjusted_cost.equals(other.motion_backward_adjusted_cost)
            && self.motion_forward_adjusted_cost.equals(other.motion_forward_adjusted_cost)
            && self.threshold.equals(other.threshold)
            && self.cost_ratio.equals(other.cost_ratio)
            && self.motion_cost_ratio.equals(other.motion_cost_ratio)
            && self.avg_luma_8bit.equals(other.avg_luma_8bit)
            && self.static_bad_block_ratio.equals(other.static_bad_block_ratio)
            && self.static_good_block_ratio.equals(other.static_good_block_ratio)
            && self.me_bad_block_ratio.equals(other.me_bad_block_ratio)
            && self.me_good_block_ratio.equals(other.me_good_block_ratio);
        costs && ratios && self.motion_cost_computed == other.motion_cost_computed
            && equal_signatures(&self.frame_luma_signature, &other.frame_luma_signature)
            && equal_optional(self.transient_similarity_score, other.transient_similarity_score)
            && equal_optional(self.forward_similarity_score, other.forward_similarity_score)
            && self.forward_similarity_rejected_candidates
            == other.forward_similarity_rejected_candidates && self.decision == other.decision
            && equal_numbers(self.forward_return_frame, other.forward_return_frame)
    }
}

/// Two records are equal exactly where each of their fields is: measurements as numbers,
/// all else by value.
pub proof fn equal_records_agree_in_every_field(left: ScenecutResult, right: ScenecutResult)
    ensures
        same_record(left, right) <==> {
            &&& left.inter_cost.le(right.inter_cost) && right.inter_cost.le(left.inter_cost)
            &&& left.motion_inter_cost.le(right.motion_inter_cost) && right.motion_inter_cost.le(left.motion_inter_cost)
            &&& left.imp_block_cost_raw.le(right.imp_block_cost_raw) && right.imp_block_cost_raw.le(left.imp_block_cost_raw)
            &&& left.imp_block_cost.le(right.imp_block_cost) && right.imp_block_cost.le(left.imp_block_cost)
            &&& left.global_imp_block_cost.le(right.global_imp_block_cost) && right.global_imp_block_cost.le(left.global_imp_block_cost)
            &&& left.imp_block_threshold.le(right.imp_block_threshold) && right.imp_block_threshold.le(left.imp_block_threshold)
            &&& left.imp_block_ratio.le(right.imp_block_ratio) && right.imp_block_ratio.le(left.imp_block_ratio)
            &&& left.global_imp_block_ratio.le(right.global_imp_block_ratio) && right.global_imp_block_ratio.le(left.global_imp_block_ratio)
            &&& left.backward_adjusted_cost.le(right.backward_adjusted_cost) && right.backward_adjusted_cost.le(left.backward_adjusted_cost)
            &&& left.forward_adjusted_cost.le(right.forward_adjusted_cost) && right.forward_adjusted_cost.le(left.forward_adjusted_cost)
            &&& left.motion_backward_adjusted_cost.le(right.motion_backward_adjusted_cost) && right.motion_backward_adjusted_cost.le(left.motion_backward_adjusted_cost)
            &&& left.motion_forward_adjusted_cost.le(right.motion_forward_adjusted_cost) && right.motion_forward_adjusted_cost.le(left.motion_forward_adjusted_cost)
            &&& left.threshold.le(right.threshold) && right.threshold.le(left.threshold)
            &&& left.cost_ratio.le(right.cost_ratio) && right.cost_ratio.le(left.cost_ratio)
            &&& left.motion_cost_ratio.le(right.motion_cost_ratio) && right.motion_cost_ratio.le(left.motion_cost_ratio)
            &&& left.avg_luma_8bit.le(right.avg_luma_8bit) && right.avg_luma_8bit.le(left.avg_luma_8bit)
            &&& left.static_bad_block_ratio.le(right.static_bad_block_ratio) && right.static_bad_block_ratio.le(left.static_bad_block_ratio)
            &&& left.static_good_block_ratio.le(right.static_good_block_ratio) && right.static_good_block_ratio.le(left.static_good_block_ratio)
            &&& left.me_bad_block_ratio.le(right.me_bad_block_ratio) && right.me_bad_block_ratio.le(left.me_bad_block_ratio)
            &&& left.me_good_block_ratio.le(right.me_good_block_ratio) && right.me_good_block_ratio.le(left.me_good_block_ratio)
            &&& left.motion_cost_computed == right.motion_cost_computed
            &&& left.decision == right.decision
            &&& left.forward_return_frame == right.forward_return_frame
            &&& left.forward_similarity_rejected_candidates
                == right.forward_similarity_rejected_candidates
            &&& left.frame_luma_signature is Some == right.frame_luma_signature is Some
            &&& left.frame_luma_signature is Some ==> left.frame_luma_signature.unwrap()@
                == right.frame_luma_signature.unwrap()@
            &&& left.transient_similarity_score is Some == right.transient_similarity_score is Some
            &&& left.transient_similarity_score is Some
                ==> left.transient_similarity_score.unwrap().le(
                right.transient_similarity_score.unwrap(),
            ) && right.transient_similarity_score.unwrap().le(
                left.transient_similarity_score.unwrap(),
            )
            &&& left.forward_similarity_score is Some == right.forward_similarity_score is Some
            &&& left.forward_similarity_score is Some ==> left.forward_similarity_score.unwrap().le(
                right.forward_similarity_score.unwrap(),
            ) && right.forward_similarity_score.unwrap().le(left.forward_similarity_score.unwrap())
            &&& forall|slot: int|
                0 <= slot < 8 ==> match (
                    #[trigger] left.forward_similarity_candidates@[slot],
                    right.forward_similarity_candidates@[slot],
                ) {
                    (Some(l), Some(r)) => {
                        &&& l.frame == r.frame
                        &&& l.offset == r.offset
                        &&& l.delta.le(r.delta) && r.delta.le(l.delta)
                        &&& l.threshold.le(r.threshold) && r.threshold.le(l.threshold)
                        &&& l.candidate_frame == r.candidate_frame
                        &&& l.candidate_offset == r.candidate_offset
                        &&& l.decision == r.decision
                    },
                    (None, None) => true,
                    _ => false,
                }
        },
{
}

/// A ratio to a threshold is the quotient where the threshold is above zero, and else zero;
/// each ratio goes by its own threshold, and nothing that was measured changes.
pub proof fn ratios_go_by_their_thresholds(score: ScenecutResult, quotients: RatioQuotients)
    ensures
        ({
            let after = score.with_ratios(quotients);
            let zero = double(ZERO);
            &&& zero.lt(score.threshold) ==> after.cost_ratio == quotients.cost
                && after.motion_cost_ratio == quotients.motion_cost
            &&& !zero.lt(score.threshold) ==> after.cost_ratio == zero && after.motion_cost_ratio
                == zero
            &&& zero.lt(score.imp_block_threshold) ==> after.imp_block_ratio == quotients.imp_block
                && after.global_imp_block_ratio == quotients.global_imp_block
            &&& !zero.lt(score.imp_block_threshold) ==> after.imp_block_ratio == zero
                && after.global_imp_block_ratio == zero
            &&& after.decision == score.decision
            &&& after.inter_cost == score.inter_cost
            &&& after.imp_block_cost == score.imp_block_cost
            &&& after.forward_adjusted_cost == score.forward_adjusted_cost
            &&& after.backward_adjusted_cost == score.backward_adjusted_cost
            &&& after.return_cost_ceiling == quotients.return_cost_ceiling
            &&& after.refined_peak_rank == quotients.refined_peak_rank
            &&& after.shift_margin_floor == quotients.shift_margin_floor
        }),
{
}

} // verus!
