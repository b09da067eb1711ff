//! The corrections of a whole run, on hand-made records.

use av_scenechange::frame_map::FrameMap;
use av_scenechange::measure::Measure;
use av_scenechange::options::{DetectionOptions, ForwardSimilarityOptions};
use av_scenechange::postprocess::aba_chain::apply_aba_chain_compaction_postprocess;
use av_scenechange::postprocess::aba_return::apply_aba_return_recovery_postprocess;
use av_scenechange::postprocess::forward_similarity::apply_forward_similarity_postprocess;
use av_scenechange::postprocess::peaks::{
    apply_dark_scene_peak_recovery_postprocess, apply_sparse_scene_peak_recovery_postprocess,
};
use av_scenechange::postprocess::recovery::apply_forward_similarity_recovery_postprocess;
use av_scenechange::postprocess::refined::apply_refined_sparse_peak_postprocess;
use av_scenechange::postprocess::runs::{
    apply_static_credits_postprocess, apply_text_card_cluster_postprocess,
};
use av_scenechange::postprocess::text_boundary::apply_text_boundary_shift_postprocess;
use av_scenechange::postprocess::weak_cuts::{
    apply_dark_occlusion_postprocess, apply_fast_motion_micro_split_postprocess,
};
use av_scenechange::score::{
    ForwardSimilarityCandidate, ForwardSimilarityCandidateDecision, ScenecutDecision,
    ScenecutResult, FRAME_LUMA_SIGNATURE_CELLS,
};
use av_scenechange::timeline::FrameSet;

fn num(value: f64) -> Measure {
    Measure { bits: value.to_bits() }
}

fn value(measure: Measure) -> f64 {
    f64::from_bits(measure.bits)
}

/// The least value that exceeds `base` by at least one, as the difference rounds.
fn one_above(base: f64) -> f64 {
    let mut floor = base + 1.0;
    while floor - base < 1.0 {
        floor = f64::from_bits(floor.to_bits() + 1);
    }
    while f64::from_bits(floor.to_bits() - 1) - base >= 1.0 {
        floor = f64::from_bits(floor.to_bits() - 1);
    }
    floor
}

/// Fills in what follows from the other numbers of a record.
fn settled(mut score: ScenecutResult) -> ScenecutResult {
    let multiplier =
        value(ForwardSimilarityOptions::default().relaxed_max_return_cost_ratio_multiplier);
    let cost = value(score.cost_ratio);
    let importance = value(score.imp_block_ratio);
    let global = value(score.global_imp_block_ratio);
    score.return_cost_ceiling = num(cost * multiplier);
    score.refined_peak_rank = num(cost + importance * 0.05 + global * 0.03);
    score.shift_margin_floor = num(one_above(global));
    score
}

fn scored(records: Vec<(usize, ScenecutResult)>) -> FrameMap<ScenecutResult> {
    let mut scores = FrameMap::new();
    for (frame, score) in records {
        scores.insert(frame, settled(score));
    }
    scores
}

fn score(
    decision: ScenecutDecision,
    cost_ratio: f64,
    imp_block_ratio: f64,
    global_imp_block_ratio: f64,
    avg_luma_8bit: f64,
    transient_similarity_score: Option<f64>,
) -> ScenecutResult {
    let mut score = ScenecutResult::new(
        num(0.0),
        num(0.0),
        num(1.0),
        num(1.0),
        num(avg_luma_8bit),
        num(0.0),
    );
    score.decision = decision;
    score.cost_ratio = num(cost_ratio);
    score.imp_block_ratio = num(imp_block_ratio);
    score.global_imp_block_ratio = num(global_imp_block_ratio);
    score.transient_similarity_score = transient_similarity_score.map(num);
    score
}

fn static_credit_score() -> ScenecutResult {
    let mut score = score(ScenecutDecision::Cut, 2.0, 9.0, 10.0, 28.0, None);
    score.static_good_block_ratio = num(0.6);
    score.static_bad_block_ratio = num(0.35);
    score
}

fn dark_occlusion_score(with_forward_candidate: bool) -> ScenecutResult {
    let mut score = score(
        ScenecutDecision::CutImportance,
        0.18,
        3.7,
        4.7,
        24.0,
        Some(3.5),
    );
    score.static_bad_block_ratio = num(0.75);
    score.static_good_block_ratio = num(0.0);
    if with_forward_candidate {
        score.forward_similarity_candidates[0] = Some(ForwardSimilarityCandidate {
            frame: 110,
            offset: 10,
            delta: num(4.1),
            threshold: num(6.0),
            candidate_frame: None,
            candidate_offset: None,
            decision: ForwardSimilarityCandidateDecision::MissingReturnCandidate,
        });
    }
    score
}

fn dark_scene_peak_score_for_test(cost_ratio: f64) -> ScenecutResult {
    let mut score = score(ScenecutDecision::NoCut, cost_ratio, 1.8, 1.9, 43.0, None);
    score.static_bad_block_ratio = num(0.72);
    score.static_good_block_ratio = num(0.001);
    score
}

fn sparse_scene_peak_score_for_test(cost_ratio: f64) -> ScenecutResult {
    let mut score = score(ScenecutDecision::NoCut, cost_ratio, 3.2, 3.8, 72.0, None);
    score.static_bad_block_ratio = num(0.62);
    score.static_good_block_ratio = num(0.02);
    score
}

fn refined_sparse_peak_score_for_test(
    decision: ScenecutDecision,
    signature_value: u8,
    cost_ratio: f64,
) -> ScenecutResult {
    let mut score = score_with_signature(decision, signature_value);
    score.cost_ratio = num(cost_ratio);
    score.imp_block_ratio = num(4.2);
    score.global_imp_block_ratio = num(4.8);
    score.avg_luma_8bit = num(70.0);
    score.static_bad_block_ratio = num(0.56);
    score.static_good_block_ratio = num(0.03);
    score
}

fn forward_recovery_score_for_test(
    signature_value: u8,
    forward_score: Option<f64>,
    return_frame: Option<usize>,
) -> ScenecutResult {
    let mut score = score_with_signature(
        ScenecutDecision::SuppressedForwardSimilarity,
        signature_value,
    );
    score.cost_ratio = num(1.5);
    score.imp_block_ratio = num(5.5);
    score.global_imp_block_ratio = num(6.5);
    score.forward_similarity_score = forward_score.map(num);
    score.forward_return_frame = return_frame;
    score
}

fn score_with_signature(decision: ScenecutDecision, signature_value: u8) -> ScenecutResult {
    let mut score = score(decision, 0.7, 4.0, 5.0, 50.0, None);
    score.static_good_block_ratio = num(0.05);
    score.frame_luma_signature = Some([signature_value; FRAME_LUMA_SIGNATURE_CELLS]);
    score
}

#[test]
fn text_card_postprocess_suppresses_only_weak_runs() {
    let mut keyframes = FrameSet::of(&[0, 100, 220, 244, 340, 520, 650]);
    let mut scores = scored(vec![
        (
            100,
            score(ScenecutDecision::Cut, 1.1, 9.0, 10.0, 18.0, None),
        ),
        (
            220,
            score(
                ScenecutDecision::CutImportance,
                0.14,
                2.9,
                4.5,
                28.0,
                Some(2.1),
            ),
        ),
        (
            244,
            score(
                ScenecutDecision::CutImportance,
                0.17,
                2.8,
                3.9,
                31.0,
                Some(2.0),
            ),
        ),
        (
            340,
            score(
                ScenecutDecision::CutImportance,
                0.37,
                2.6,
                4.5,
                29.0,
                Some(1.7),
            ),
        ),
        (520, score(ScenecutDecision::Cut, 1.2, 6.0, 7.0, 50.0, None)),
        (
            650,
            score(
                ScenecutDecision::CutImportance,
                0.18,
                3.7,
                4.7,
                24.0,
                Some(3.5),
            ),
        ),
    ]);

    apply_text_card_cluster_postprocess(&mut keyframes, &mut scores);

    assert_eq!(keyframes.to_vec(), vec![0, 100, 520, 650]);
    for frame in [220, 244, 340] {
        assert_eq!(
            scores.get(frame).expect("score should exist").decision,
            ScenecutDecision::SuppressedTextCardCluster
        );
    }
    assert_eq!(
        scores.get(650).expect("score should exist").decision,
        ScenecutDecision::CutImportance
    );
}

#[test]
fn fast_motion_postprocess_suppresses_micro_split_pair() {
    let mut keyframes = FrameSet::of(&[0, 1000, 2259, 2276, 2326, 2600]);
    let mut scores = scored(vec![
        (
            1000,
            score(ScenecutDecision::Cut, 1.5, 5.0, 5.0, 55.0, None),
        ),
        (
            2259,
            score(
                ScenecutDecision::CutImportance,
                0.19,
                3.1,
                4.5,
                57.0,
                Some(6.8),
            ),
        ),
        (
            2276,
            score(
                ScenecutDecision::CutImportance,
                0.28,
                3.5,
                4.9,
                63.0,
                Some(6.6),
            ),
        ),
        (
            2326,
            score(ScenecutDecision::Cut, 3.1, 2.9, 3.0, 64.0, None),
        ),
        (
            2600,
            score(
                ScenecutDecision::CutImportance,
                0.20,
                3.2,
                4.3,
                58.0,
                Some(6.4),
            ),
        ),
    ]);

    apply_fast_motion_micro_split_postprocess(&mut keyframes, &mut scores);

    assert_eq!(keyframes.to_vec(), vec![0, 1000, 2326, 2600]);
    for frame in [2259, 2276] {
        assert_eq!(
            scores.get(frame).expect("score should exist").decision,
            ScenecutDecision::SuppressedFastMotion
        );
    }
}

#[test]
fn forward_similarity_postprocess_uses_already_suppressed_starts() {
    let mut keyframes = FrameSet::of(&[0, 150, 300]);
    let mut start = score(
        ScenecutDecision::SuppressedForwardSimilarity,
        0.7,
        4.2,
        5.0,
        50.0,
        None,
    );
    start.forward_similarity_candidates[0] = Some(ForwardSimilarityCandidate {
        frame: 220,
        offset: 101,
        delta: num(2.0),
        threshold: num(6.0),
        candidate_frame: Some(150),
        candidate_offset: Some(31),
        decision: ForwardSimilarityCandidateDecision::Accepted,
    });
    let mut scores = scored(vec![
        (120, start),
        (150, score(ScenecutDecision::Cut, 0.8, 4.2, 5.0, 50.0, None)),
        (
            220,
            score(ScenecutDecision::NoCut, 0.1, 1.0, 1.0, 50.0, None),
        ),
        (300, score(ScenecutDecision::Cut, 1.2, 4.2, 5.0, 50.0, None)),
    ]);
    let options = ForwardSimilarityOptions {
        enabled: true,
        frames: 120,
        min_offset: 4,
        threshold_8bit: num(6.0),
        require_return_candidate: true,
        suppress_inside: true,
        ..ForwardSimilarityOptions::default()
    };

    apply_forward_similarity_postprocess(&options, &mut keyframes, &mut scores);

    assert_eq!(keyframes.to_vec(), vec![0, 300]);
    assert_eq!(
        scores.get(150).expect("score should exist").decision,
        ScenecutDecision::SuppressedForwardSimilarity
    );
    assert_eq!(
        scores
            .get(150)
            .expect("score should exist")
            .forward_return_frame,
        Some(220)
    );
}

#[test]
fn forward_similarity_recovery_restores_relaxed_false_positive_pair() {
    let mut keyframes = FrameSet::of(&[0, 220]);
    let mut scores = scored(vec![
        (79, score_with_signature(ScenecutDecision::NoCut, 10)),
        (
            80,
            forward_recovery_score_for_test(40, Some(8.1), Some(170)),
        ),
        (119, score_with_signature(ScenecutDecision::NoCut, 40)),
        (120, forward_recovery_score_for_test(80, None, Some(170))),
        (220, score_with_signature(ScenecutDecision::Cut, 120)),
    ]);
    let mut opts = DetectionOptions::high_quality();
    opts.min_scenecut_distance = Some(17);

    apply_forward_similarity_recovery_postprocess(&opts, &mut keyframes, &mut scores);

    assert_eq!(keyframes.to_vec(), vec![0, 80, 120, 220]);
    for frame in [80, 120] {
        assert_eq!(
            scores.get(frame).expect("score should exist").decision,
            ScenecutDecision::CutForwardSimilarityRecovery
        );
    }
}

#[test]
fn forward_similarity_recovery_keeps_strict_match_suppressed() {
    let mut keyframes = FrameSet::of(&[0, 220]);
    let mut scores = scored(vec![
        (79, score_with_signature(ScenecutDecision::NoCut, 10)),
        (
            80,
            forward_recovery_score_for_test(40, Some(5.9), Some(170)),
        ),
        (119, score_with_signature(ScenecutDecision::NoCut, 40)),
        (120, forward_recovery_score_for_test(80, None, Some(170))),
        (220, score_with_signature(ScenecutDecision::Cut, 120)),
    ]);
    let mut opts = DetectionOptions::high_quality();
    opts.min_scenecut_distance = Some(17);

    apply_forward_similarity_recovery_postprocess(&opts, &mut keyframes, &mut scores);

    assert_eq!(keyframes.to_vec(), vec![0, 220]);
    assert_eq!(
        scores.get(80).expect("score should exist").decision,
        ScenecutDecision::SuppressedForwardSimilarity
    );
}

#[test]
fn dark_occlusion_postprocess_requires_forward_similarity_evidence() {
    let mut keyframes = FrameSet::of(&[0, 100, 200]);
    let mut scores = scored(vec![
        (100, dark_occlusion_score(true)),
        (200, dark_occlusion_score(false)),
    ]);

    apply_dark_occlusion_postprocess(&mut keyframes, &mut scores);

    assert_eq!(keyframes.to_vec(), vec![0, 200]);
    assert_eq!(
        scores.get(100).expect("score should exist").decision,
        ScenecutDecision::SuppressedDarkOcclusion
    );
    assert_eq!(
        scores.get(200).expect("score should exist").decision,
        ScenecutDecision::CutImportance
    );
}

#[test]
fn dark_scene_peak_recovery_promotes_sparse_dark_local_peak() {
    let mut keyframes = FrameSet::of(&[0, 100, 700]);
    let mut scores = scored(vec![
        (
            100,
            score(ScenecutDecision::CutImportance, 0.6, 3.0, 3.5, 48.0, None),
        ),
        (390, dark_scene_peak_score_for_test(0.33)),
        (391, dark_scene_peak_score_for_test(0.25)),
        (700, score(ScenecutDecision::Cut, 3.0, 3.0, 3.5, 80.0, None)),
    ]);
    let mut opts = DetectionOptions::high_quality();
    opts.min_scenecut_distance = Some(17);

    apply_dark_scene_peak_recovery_postprocess(&opts, &mut keyframes, &mut scores);

    assert!(keyframes.contains(390));
    assert_eq!(
        scores.get(390).expect("score should exist").decision,
        ScenecutDecision::CutDarkScenePeak
    );
    assert_eq!(
        scores.get(391).expect("score should exist").decision,
        ScenecutDecision::NoCut
    );
}

#[test]
fn dark_scene_peak_recovery_rejects_dense_cut_regions() {
    let mut keyframes = FrameSet::of(&[0, 100, 160, 220, 280, 340, 400, 460, 520, 580, 640]);
    let mut scores = FrameMap::new();
    for frame in keyframes.to_vec() {
        if frame != 0 {
            scores.insert(frame, settled(score(ScenecutDecision::Cut, 1.0, 3.0, 3.5, 50.0, None)));
        }
    }
    scores.insert(370, settled(dark_scene_peak_score_for_test(0.35)));
    let mut opts = DetectionOptions::high_quality();
    opts.min_scenecut_distance = Some(17);

    apply_dark_scene_peak_recovery_postprocess(&opts, &mut keyframes, &mut scores);

    assert!(!keyframes.contains(370));
    assert_eq!(
        scores.get(370).expect("score should exist").decision,
        ScenecutDecision::NoCut
    );
}

#[test]
fn sparse_scene_peak_recovery_promotes_local_peak() {
    let mut keyframes = FrameSet::of(&[0, 100, 360]);
    let mut scores = scored(vec![
        (100, score(ScenecutDecision::Cut, 1.4, 4.0, 4.5, 70.0, None)),
        (220, sparse_scene_peak_score_for_test(0.82)),
        (221, sparse_scene_peak_score_for_test(0.70)),
        (360, score(ScenecutDecision::Cut, 1.3, 4.0, 4.5, 70.0, None)),
    ]);
    let mut opts = DetectionOptions::high_quality();
    opts.min_scenecut_distance = Some(17);

    apply_sparse_scene_peak_recovery_postprocess(&opts, &mut keyframes, &mut scores);

    assert!(keyframes.contains(220));
    assert_eq!(
        scores.get(220).expect("score should exist").decision,
        ScenecutDecision::CutSparseScenePeak
    );
    assert_eq!(
        scores.get(221).expect("score should exist").decision,
        ScenecutDecision::NoCut
    );
}

#[test]
fn sparse_scene_peak_recovery_rejects_extreme_adjacent_cut() {
    let mut keyframes = FrameSet::of(&[0, 100, 360]);
    let mut scores = scored(vec![
        (
            100,
            score(ScenecutDecision::Cut, 20.0, 8.0, 8.0, 80.0, None),
        ),
        (220, sparse_scene_peak_score_for_test(0.82)),
        (360, score(ScenecutDecision::Cut, 1.3, 4.0, 4.5, 70.0, None)),
    ]);
    let mut opts = DetectionOptions::high_quality();
    opts.min_scenecut_distance = Some(17);

    apply_sparse_scene_peak_recovery_postprocess(&opts, &mut keyframes, &mut scores);

    assert!(!keyframes.contains(220));
    assert_eq!(
        scores.get(220).expect("score should exist").decision,
        ScenecutDecision::NoCut
    );
}

#[test]
fn refined_sparse_peak_shifts_return_boundary_to_exit_boundary() {
    let mut keyframes = FrameSet::of(&[0, 100, 160, 260, 340]);
    let mut scores = scored(vec![
        (
            100,
            refined_sparse_peak_score_for_test(ScenecutDecision::Cut, 70, 1.2),
        ),
        (
            160,
            refined_sparse_peak_score_for_test(ScenecutDecision::CutSparseScenePeak, 10, 0.9),
        ),
        (
            177,
            refined_sparse_peak_score_for_test(ScenecutDecision::NoCut, 10, 0.1),
        ),
        (
            178,
            refined_sparse_peak_score_for_test(ScenecutDecision::NoCut, 40, 0.8),
        ),
        (
            260,
            refined_sparse_peak_score_for_test(ScenecutDecision::Cut, 80, 1.1),
        ),
        (
            340,
            refined_sparse_peak_score_for_test(ScenecutDecision::Cut, 10, 1.1),
        ),
    ]);
    let mut opts = DetectionOptions::high_quality();
    opts.min_scenecut_distance = Some(17);

    apply_refined_sparse_peak_postprocess(&opts, &mut keyframes, &mut scores);

    assert_eq!(keyframes.to_vec(), vec![0, 100, 178, 260, 340]);
    assert_eq!(
        scores.get(160).expect("score should exist").decision,
        ScenecutDecision::SuppressedRefinedSparsePeak
    );
    assert_eq!(
        scores.get(178).expect("score should exist").decision,
        ScenecutDecision::CutRefinedSparsePeak
    );
}

#[test]
fn refined_sparse_peak_suppresses_short_aba_sparse_cut() {
    let mut keyframes = FrameSet::of(&[0, 220, 310, 500]);
    let mut scores = scored(vec![
        (
            149,
            refined_sparse_peak_score_for_test(ScenecutDecision::NoCut, 20, 0.1),
        ),
        (
            150,
            refined_sparse_peak_score_for_test(ScenecutDecision::NoCut, 50, 0.8),
        ),
        (
            220,
            refined_sparse_peak_score_for_test(ScenecutDecision::CutSparseScenePeak, 80, 0.9),
        ),
        (
            244,
            refined_sparse_peak_score_for_test(ScenecutDecision::NoCut, 80, 0.1),
        ),
        (
            245,
            refined_sparse_peak_score_for_test(ScenecutDecision::NoCut, 30, 0.85),
        ),
        (
            310,
            refined_sparse_peak_score_for_test(ScenecutDecision::Cut, 60, 1.2),
        ),
        (
            500,
            refined_sparse_peak_score_for_test(ScenecutDecision::Cut, 90, 1.2),
        ),
    ]);
    let mut opts = DetectionOptions::high_quality();
    opts.min_scenecut_distance = Some(17);

    apply_refined_sparse_peak_postprocess(&opts, &mut keyframes, &mut scores);

    assert_eq!(keyframes.to_vec(), vec![0, 150, 310, 500]);
    assert_eq!(
        scores.get(150).expect("score should exist").decision,
        ScenecutDecision::CutRefinedSparsePeak
    );
    assert_eq!(
        scores.get(220).expect("score should exist").decision,
        ScenecutDecision::SuppressedRefinedSparsePeak
    );
    assert_eq!(
        scores.get(245).expect("score should exist").decision,
        ScenecutDecision::NoCut
    );
}

#[test]
fn refined_sparse_peak_rejects_low_cost_motion_peak() {
    let mut keyframes = FrameSet::of(&[0, 100, 300]);
    let mut candidate = refined_sparse_peak_score_for_test(ScenecutDecision::NoCut, 80, 0.41);
    candidate.imp_block_ratio = num(3.4);
    candidate.global_imp_block_ratio = num(4.1);
    let mut scores = scored(vec![
        (
            199,
            refined_sparse_peak_score_for_test(ScenecutDecision::NoCut, 40, 0.1),
        ),
        (200, candidate),
        (
            300,
            refined_sparse_peak_score_for_test(ScenecutDecision::Cut, 120, 1.2),
        ),
    ]);
    let mut opts = DetectionOptions::high_quality();
    opts.min_scenecut_distance = Some(17);

    apply_refined_sparse_peak_postprocess(&opts, &mut keyframes, &mut scores);

    assert_eq!(keyframes.to_vec(), vec![0, 100, 300]);
    assert_eq!(
        scores.get(200).expect("score should exist").decision,
        ScenecutDecision::NoCut
    );
}

#[test]
fn aba_return_recovery_promotes_signature_match() {
    let mut keyframes = FrameSet::of(&[0, 100, 300]);
    let mut scores = scored(vec![
        (99, score_with_signature(ScenecutDecision::NoCut, 10)),
        (100, score_with_signature(ScenecutDecision::Cut, 40)),
        (199, score_with_signature(ScenecutDecision::NoCut, 40)),
        (
            200,
            score_with_signature(ScenecutDecision::SuppressedTransientSimilarity, 10),
        ),
        (300, score_with_signature(ScenecutDecision::Cut, 80)),
    ]);
    let mut opts = DetectionOptions::high_quality();
    opts.min_scenecut_distance = Some(17);

    apply_aba_return_recovery_postprocess(&opts, &mut keyframes, &mut scores);

    assert!(keyframes.contains(200));
    assert_eq!(
        scores.get(200).expect("score should exist").decision,
        ScenecutDecision::CutAbaReturn
    );
}

#[test]
fn aba_return_recovery_keeps_one_candidate_per_interval() {
    let mut keyframes = FrameSet::of(&[0, 100, 400]);
    let mut scores = scored(vec![
        (99, score_with_signature(ScenecutDecision::NoCut, 10)),
        (100, score_with_signature(ScenecutDecision::Cut, 40)),
        (199, score_with_signature(ScenecutDecision::NoCut, 40)),
        (200, score_with_signature(ScenecutDecision::NoCut, 11)),
        (259, score_with_signature(ScenecutDecision::NoCut, 40)),
        (260, score_with_signature(ScenecutDecision::NoCut, 13)),
        (400, score_with_signature(ScenecutDecision::Cut, 80)),
    ]);
    let mut opts = DetectionOptions::high_quality();
    opts.min_scenecut_distance = Some(17);

    apply_aba_return_recovery_postprocess(&opts, &mut keyframes, &mut scores);

    assert_eq!(keyframes.to_vec(), vec![0, 100, 200, 400]);
    assert_eq!(
        scores.get(200).expect("score should exist").decision,
        ScenecutDecision::CutAbaReturn
    );
    assert_eq!(
        scores.get(260).expect("score should exist").decision,
        ScenecutDecision::NoCut
    );
}

#[test]
fn aba_chain_compaction_splits_after_long_segment() {
    let mut keyframes = FrameSet::of(&[0, 100, 190, 285, 410, 470, 560]);
    let mut scores = scored(vec![
        (100, score_with_signature(ScenecutDecision::Cut, 10)),
        (129, score_with_signature(ScenecutDecision::NoCut, 10)),
        (130, score_with_signature(ScenecutDecision::NoCut, 40)),
        (159, score_with_signature(ScenecutDecision::NoCut, 40)),
        (160, score_with_signature(ScenecutDecision::NoCut, 10)),
        (
            190,
            score_with_signature(ScenecutDecision::CutImportance, 40),
        ),
        (285, score_with_signature(ScenecutDecision::Cut, 10)),
        (
            410,
            score_with_signature(ScenecutDecision::CutAbaReturn, 40),
        ),
        (429, score_with_signature(ScenecutDecision::NoCut, 40)),
        (430, score_with_signature(ScenecutDecision::NoCut, 10)),
        (449, score_with_signature(ScenecutDecision::NoCut, 10)),
        (450, score_with_signature(ScenecutDecision::NoCut, 40)),
        (470, score_with_signature(ScenecutDecision::Cut, 10)),
        (560, score_with_signature(ScenecutDecision::Cut, 80)),
    ]);
    let mut opts = DetectionOptions::high_quality();
    opts.tuning.forward_similarity.frames = 80;

    apply_aba_chain_compaction_postprocess(&opts, &mut keyframes, &mut scores);

    assert_eq!(keyframes.to_vec(), vec![0, 100, 285, 470, 560]);
    for frame in [190, 410] {
        assert_eq!(
            scores.get(frame).expect("score should exist").decision,
            ScenecutDecision::SuppressedAbaChain
        );
    }
    assert_eq!(
        scores.get(285).expect("score should exist").decision,
        ScenecutDecision::Cut
    );
    assert_eq!(
        scores.get(470).expect("score should exist").decision,
        ScenecutDecision::Cut
    );
}

#[test]
fn text_boundary_shift_moves_late_boundary_back() {
    let mut keyframes = FrameSet::of(&[0, 100, 316, 380]);
    let mut candidate = score(ScenecutDecision::NoCut, 0.0, 5.1, 8.9, 29.0, None);
    candidate.static_bad_block_ratio = num(0.35);
    candidate.static_good_block_ratio = num(0.03);
    let mut late_cut = score(
        ScenecutDecision::CutImportance,
        0.65,
        6.3,
        7.2,
        50.0,
        Some(15.0),
    );
    late_cut.static_bad_block_ratio = num(0.65);
    late_cut.static_good_block_ratio = num(0.02);
    let mut scores = scored(vec![
        (100, score(ScenecutDecision::Cut, 1.4, 4.0, 4.5, 70.0, None)),
        (300, candidate),
        (316, late_cut),
        (380, score(ScenecutDecision::Cut, 1.4, 4.0, 4.5, 70.0, None)),
    ]);
    let mut opts = DetectionOptions::high_quality();
    opts.min_scenecut_distance = Some(17);

    apply_text_boundary_shift_postprocess(&opts, &mut keyframes, &mut scores);

    assert_eq!(keyframes.to_vec(), vec![0, 100, 300, 380]);
    assert_eq!(
        scores.get(300).expect("score should exist").decision,
        ScenecutDecision::CutShiftedBoundary
    );
    assert_eq!(
        scores.get(316).expect("score should exist").decision,
        ScenecutDecision::SuppressedShiftedBoundary
    );
}

#[test]
fn text_boundary_shift_moves_early_boundary_forward() {
    let mut keyframes = FrameSet::of(&[0, 100, 115, 240]);
    let mut candidate = score(
        ScenecutDecision::SuppressedMinDistance,
        1.3,
        13.8,
        14.2,
        28.0,
        None,
    );
    candidate.static_bad_block_ratio = num(0.88);
    candidate.static_good_block_ratio = num(0.001);
    let mut scores = scored(vec![
        (100, score(ScenecutDecision::Cut, 1.4, 4.0, 4.5, 70.0, None)),
        (115, score(ScenecutDecision::Cut, 2.0, 4.5, 4.8, 83.0, None)),
        (130, candidate),
        (240, score(ScenecutDecision::Cut, 1.4, 4.0, 4.5, 70.0, None)),
    ]);
    let mut opts = DetectionOptions::high_quality();
    opts.min_scenecut_distance = Some(17);

    apply_text_boundary_shift_postprocess(&opts, &mut keyframes, &mut scores);

    assert_eq!(keyframes.to_vec(), vec![0, 100, 130, 240]);
    assert_eq!(
        scores.get(130).expect("score should exist").decision,
        ScenecutDecision::CutShiftedBoundary
    );
    assert_eq!(
        scores.get(115).expect("score should exist").decision,
        ScenecutDecision::SuppressedShiftedBoundary
    );
}

#[test]
fn static_credits_postprocess_keeps_first_cut_in_long_run() {
    let mut keyframes = FrameSet::of(&[0, 100, 197, 294, 391, 488, 700, 797, 900]);
    let mut scores = scored(vec![
        (100, static_credit_score()),
        (197, static_credit_score()),
        (294, static_credit_score()),
        (391, static_credit_score()),
        (488, static_credit_score()),
        (700, static_credit_score()),
        (797, static_credit_score()),
        (900, score(ScenecutDecision::Cut, 2.0, 8.0, 8.5, 70.0, None)),
    ]);

    apply_static_credits_postprocess(&mut keyframes, &mut scores);

    assert_eq!(keyframes.to_vec(), vec![0, 100, 700, 797, 900]);
    for frame in [197, 294, 391, 488] {
        assert_eq!(
            scores.get(frame).expect("score should exist").decision,
            ScenecutDecision::SuppressedStaticCredits
        );
    }
    assert_eq!(
        scores.get(797).expect("score should exist").decision,
        ScenecutDecision::Cut
    );
}
