//! When a cut may be suppressed because the earlier scene returns.

use vstd::prelude::*;
use crate::measure::{double, Measure, ZERO};
use crate::options::ForwardSimilarityOptions;
use crate::score::ScenecutResult;

verus! {

/// Whether a rule with this limit is switched on.
pub open spec fn switched_on(limit: Measure) -> bool {
    double(ZERO).lt(limit)
}

/// Whether the cut is confident enough for the relaxed threshold.
pub open spec fn confident_cut(options: ForwardSimilarityOptions, score: ScenecutResult) -> bool {
    let within_limit = !(switched_on(options.relaxed_max_cost_ratio)
        && options.relaxed_max_cost_ratio.lt(score.cost_ratio));
    let hard_cut = switched_on(options.relaxed_min_cost_ratio)
        && options.relaxed_min_cost_ratio.le(score.cost_ratio);
    let strong_importance_cut = switched_on(options.relaxed_importance_min_cost_ratio)
        && switched_on(options.relaxed_min_imp_block_ratio)
        && options.relaxed_importance_min_cost_ratio.le(score.cost_ratio)
        && options.relaxed_min_imp_block_ratio.le(score.imp_block_ratio);
    within_limit && (hard_cut || strong_importance_cut)
}

/// The highest difference at which a later frame counts as a return. A relaxed threshold of
/// 0 is none.
pub open spec fn return_threshold(
    options: ForwardSimilarityOptions,
    score: ScenecutResult,
) -> Measure {
    if !options.relaxed_threshold_8bit.same(double(ZERO)) && !options.relaxed_threshold_8bit.le(
        options.threshold_8bit,
    ) && confident_cut(options, score) {
        options.relaxed_threshold_8bit
    } else {
        options.threshold_8bit
    }
}

/// Whether the cut candidate at the return is weak enough to be one.
pub open spec fn return_candidate_fits(
    options: ForwardSimilarityOptions,
    score: ScenecutResult,
    return_candidate_score: ScenecutResult,
    delta: Measure,
) -> bool {
    ||| delta.le(options.threshold_8bit)
    ||| return_threshold(options, score).le(options.threshold_8bit)
    ||| options.relaxed_max_return_cost_ratio.le(double(ZERO))
    ||| options.relaxed_max_return_cost_ratio_multiplier.le(double(ZERO))
    ||| return_candidate_score.cost_ratio.le(options.relaxed_max_return_cost_ratio)
    ||| return_candidate_score.cost_ratio.le(score.return_cost_ceiling)
}

/// Whether a cut may be suppressed at all: the scene before it is long enough
/// and the cut itself costs enough.
pub fn forward_similarity_start_allowed(
    options: ForwardSimilarityOptions,
    score: ScenecutResult,
    previous_scene_len: usize,
) -> (allowed: bool)
    ensures
        allowed == (previous_scene_len >= options.min_previous_scene_len
            && options.min_cut_cost_ratio.le(score.cost_ratio)),
{
    previous_scene_len >= options.min_previous_scene_len && score.cost_ratio.at_least(
        options.min_cut_cost_ratio,
    )
}

/// The highest difference at which a later frame counts as a return: the relaxed
/// threshold for confident cuts where it is the higher one, else the strict one.
pub fn forward_similarity_threshold_8bit(
    options: ForwardSimilarityOptions,
    score: ScenecutResult,
) -> (threshold: Measure)
    ensures
        threshold == return_threshold(options, score),
{
    let strict = options.threshold_8bit;
    let relaxed = options.relaxed_threshold_8bit;
    if relaxed.equals(double(ZERO)) || relaxed.at_most(strict) {
        return strict;
    }
    if options.relaxed_max_cost_ratio.above(double(ZERO)) && score.cost_ratio.above(
        options.relaxed_max_cost_ratio,
    ) {
        return strict;
    }
    let hard_cut = options.relaxed_min_cost_ratio.above(double(ZERO)) && score.cost_ratio.at_least(
        options.relaxed_min_cost_ratio,
    );
    let strong_importance_cut = options.relaxed_importance_min_cost_ratio.above(double(ZERO))
        && options.relaxed_min_imp_block_ratio.above(double(ZERO)) && score.cost_ratio.at_least(
        options.relaxed_importance_min_cost_ratio,
    ) && score.imp_block_ratio.at_least(options.relaxed_min_imp_block_ratio);
    if hard_cut || strong_importance_cut {
        relaxed
    } else {
        strict
    }
}

/// Whether the cut candidate at the return is weak enough to be one: always for
/// a difference within the strict threshold, else only if its cost ratio stays
/// within the configured limit or within a multiple of the cut's own.
pub fn forward_similarity_return_candidate_allowed(
    options: ForwardSimilarityOptions,
    score: ScenecutResult,
    return_candidate_score: ScenecutResult,
    delta: Measure,
) -> (allowed: bool)
    ensures
        allowed == return_candidate_fits(options, score, return_candidate_score, delta),
{
    if delta.at_most(options.threshold_8bit) {
        return true;
    }
    if forward_similarity_threshold_8bit(options, score).at_most(options.threshold_8bit) {
        return true;
    }
    if options.relaxed_max_return_cost_ratio.at_most(double(ZERO))
        || options.relaxed_max_return_cost_ratio_multiplier.at_most(double(ZERO)) {
        return true;
    }
    return_candidate_score.cost_ratio.at_most(options.relaxed_max_return_cost_ratio)
        || return_candidate_score.cost_ratio.at_most(score.return_cost_ceiling)
}

/// Whether a return needs no cut candidate of its own: a short, hard flash that
/// meets the strict threshold.
pub fn forward_similarity_flash_return_without_candidate_allowed(
    options: ForwardSimilarityOptions,
    score: ScenecutResult,
    offset: usize,
    delta: Measure,
) -> (allowed: bool)
    ensures
        allowed == flash_needs_no_candidate(options, score, offset as int, delta),
{
    options.flash_return_without_candidate && options.flash_return_frames > 0 && offset
        <= options.flash_return_frames && score.cost_ratio.at_least(
        options.flash_return_min_cost_ratio,
    ) && delta.at_most(options.threshold_8bit)
}

/// Whether a return needs no cut candidate of its own.
pub open spec fn flash_needs_no_candidate(
    options: ForwardSimilarityOptions,
    score: ScenecutResult,
    offset: int,
    delta: Measure,
) -> bool {
    &&& options.flash_return_without_candidate
    &&& 0 < options.flash_return_frames
    &&& offset <= options.flash_return_frames
    &&& options.flash_return_min_cost_ratio.le(score.cost_ratio)
    &&& delta.le(options.threshold_8bit)
}

/// The threshold is one of the two that are configured, and never below the
/// strict one.
pub proof fn threshold_is_strict_or_relaxed(
    options: ForwardSimilarityOptions,
    score: ScenecutResult,
)
    requires
        !options.threshold_8bit.is_nan(),
        !options.relaxed_threshold_8bit.is_nan(),
    ensures
        ({
            let threshold = return_threshold(options, score);
            &&& threshold == options.threshold_8bit || threshold == options.relaxed_threshold_8bit
            &&& options.threshold_8bit.le(threshold)
        }),
{
}

/// Whatever the candidate at the return costs, a difference within the strict
/// threshold is accepted.
pub proof fn strict_match_accepts_every_return_candidate(
    options: ForwardSimilarityOptions,
    score: ScenecutResult,
    return_candidate_score: ScenecutResult,
    delta: Measure,
)
    requires
        delta.le(options.threshold_8bit),
    ensures
        return_candidate_fits(options, score, return_candidate_score, delta),
{
}

} // verus!
