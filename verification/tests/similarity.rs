//! When scenes count as returning, and how numbers compare.

use av_scenechange::measure::{double, Measure};
use av_scenechange::options::ForwardSimilarityOptions;
use av_scenechange::score::ScenecutResult;
use av_scenechange::similarity::{
    forward_similarity_flash_return_without_candidate_allowed,
    forward_similarity_return_candidate_allowed, forward_similarity_start_allowed,
    forward_similarity_threshold_8bit,
};

fn num(value: f64) -> Measure {
    Measure { bits: value.to_bits() }
}

fn value(measure: Measure) -> f64 {
    f64::from_bits(measure.bits)
}

fn score_with_ratios(
    options: &ForwardSimilarityOptions,
    cost_ratio: f64,
    imp_block_ratio: f64,
) -> ScenecutResult {
    let mut score =
        ScenecutResult::new(num(0.0), num(0.0), num(1.0), num(1.0), num(0.0), num(0.0));
    score.cost_ratio = num(cost_ratio);
    score.imp_block_ratio = num(imp_block_ratio);
    score.return_cost_ceiling =
        num(cost_ratio * value(options.relaxed_max_return_cost_ratio_multiplier));
    score
}

#[test]
fn forward_similarity_start_gate_checks_previous_scene_and_cut_strength() {
    let options = ForwardSimilarityOptions {
        min_previous_scene_len: 18,
        min_cut_cost_ratio: num(0.12),
        ..ForwardSimilarityOptions::default()
    };
    assert!(!forward_similarity_start_allowed(
        options,
        score_with_ratios(&options, 0.30, 3.0),
        17
    ));
    assert!(!forward_similarity_start_allowed(
        options,
        score_with_ratios(&options, 0.10, 3.0),
        30
    ));
    assert!(forward_similarity_start_allowed(
        options,
        score_with_ratios(&options, 0.30, 3.0),
        30
    ));
}

#[test]
fn forward_similarity_relaxes_threshold_only_for_confident_cuts() {
    let options = ForwardSimilarityOptions {
        threshold_8bit: num(6.0),
        relaxed_threshold_8bit: num(7.5),
        relaxed_min_cost_ratio: num(1.0),
        relaxed_max_cost_ratio: num(3.0),
        relaxed_importance_min_cost_ratio: num(0.45),
        relaxed_min_imp_block_ratio: num(3.6),
        ..ForwardSimilarityOptions::default()
    };
    assert_eq!(
        value(forward_similarity_threshold_8bit(options, score_with_ratios(&options, 0.43, 3.2))),
        6.0
    );
    assert_eq!(
        value(forward_similarity_threshold_8bit(options, score_with_ratios(&options, 1.05, 3.2))),
        7.5
    );
    assert_eq!(
        value(forward_similarity_threshold_8bit(options, score_with_ratios(&options, 0.49, 3.7))),
        7.5
    );
    assert_eq!(
        value(forward_similarity_threshold_8bit(options, score_with_ratios(&options, 3.1, 5.0))),
        6.0
    );
}

#[test]
fn relaxed_threshold_of_zero_is_none() {
    let options = ForwardSimilarityOptions {
        threshold_8bit: num(-1.0),
        relaxed_threshold_8bit: num(0.0),
        relaxed_min_cost_ratio: num(1.0),
        ..ForwardSimilarityOptions::default()
    };
    assert_eq!(
        value(forward_similarity_threshold_8bit(options, score_with_ratios(&options, 2.0, 5.0))),
        -1.0
    );
}

#[test]
fn forward_similarity_rejects_dominant_return_candidate_for_relaxed_match() {
    let options = ForwardSimilarityOptions {
        threshold_8bit: num(6.0),
        relaxed_threshold_8bit: num(7.5),
        relaxed_min_cost_ratio: num(1.0),
        relaxed_max_cost_ratio: num(3.0),
        relaxed_importance_min_cost_ratio: num(0.45),
        relaxed_min_imp_block_ratio: num(3.6),
        relaxed_max_return_cost_ratio: num(2.5),
        relaxed_max_return_cost_ratio_multiplier: num(4.0),
        ..ForwardSimilarityOptions::default()
    };
    assert!(forward_similarity_return_candidate_allowed(
        options,
        score_with_ratios(&options, 1.1, 3.0),
        score_with_ratios(&options, 2.4, 3.0),
        num(7.1)
    ));
    assert!(!forward_similarity_return_candidate_allowed(
        options,
        score_with_ratios(&options, 0.9, 4.0),
        score_with_ratios(&options, 9.0, 3.0),
        num(7.1)
    ));
    assert!(forward_similarity_return_candidate_allowed(
        options,
        score_with_ratios(&options, 0.9, 4.0),
        score_with_ratios(&options, 9.0, 3.0),
        num(5.9)
    ));
}

#[test]
fn forward_similarity_allows_strict_hard_flash_without_return_candidate() {
    let options = ForwardSimilarityOptions {
        flash_return_without_candidate: true,
        flash_return_frames: 40,
        flash_return_min_cost_ratio: num(1.0),
        threshold_8bit: num(6.0),
        ..ForwardSimilarityOptions::default()
    };
    assert!(forward_similarity_flash_return_without_candidate_allowed(
        options,
        score_with_ratios(&options, 1.2, 3.0),
        30,
        num(5.9)
    ));
    assert!(!forward_similarity_flash_return_without_candidate_allowed(
        options,
        score_with_ratios(&options, 0.9, 3.0),
        30,
        num(5.9)
    ));
    assert!(!forward_similarity_flash_return_without_candidate_allowed(
        options,
        score_with_ratios(&options, 1.2, 3.0),
        41,
        num(5.9)
    ));
    assert!(!forward_similarity_flash_return_without_candidate_allowed(
        options,
        score_with_ratios(&options, 1.2, 3.0),
        30,
        num(6.1)
    ));
}

#[test]
fn measures_compare_as_numbers() {
    let values = [
        f64::NEG_INFINITY,
        -2.5,
        -f64::MIN_POSITIVE,
        -0.0,
        0.0,
        5e-324,
        1.0,
        1.0 + f64::EPSILON,
        f64::MAX,
        f64::INFINITY,
        f64::NAN,
    ];
    for a in values {
        for b in values {
            assert_eq!(num(a).at_most(num(b)), a <= b);
            assert_eq!(num(a).at_least(num(b)), a >= b);
            assert_eq!(num(a).below(num(b)), a < b);
            assert_eq!(num(a).above(num(b)), a > b);
            assert_eq!(num(a).equals(num(b)), a == b);
            assert!(
                value(num(a).lower_of(num(b))) == a.min(b) || (a.is_nan() && b.is_nan())
            );
            if !a.is_nan() && !b.is_nan() {
                assert_eq!(num(a).position() < num(b).position(), a < b);
            }
        }
    }
    assert_eq!(double(1.5_f64.to_bits()), num(1.5));
}
