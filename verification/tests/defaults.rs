//! The values that are used where none are set.

use av_scenechange::measure::Measure;
use av_scenechange::options::{
    DetectionOptions, DetectionTuning, FastThresholdScale, ForwardSimilarityOptions,
    ImportanceAggregation, ImportanceThresholdMode, ParallelDetectionOptions,
    SceneDetectionSpeed, TransientSimilarityOptions,
};
use av_scenechange::postprocess::{
    aba_chain,
    aba_return,
    peaks,
    recovery,
    refined,
    runs,
    text_boundary,
    weak_cuts,
};
use av_scenechange::tuning::{
    AbaChainTuning,
    AbaReturnTuning,
    DarkOcclusionTuning,
    DarkScenePeakTuning,
    FastMotionTuning,
    ForwardSimilarityRecoveryTuning,
    LocalPeakRecoveryTuning,
    MicroSceneTuning,
    PostprocessTuning,
    RefinedSparsePeakTuning,
    ScenePeakGeometryTuning,
    SignatureRescueTuning,
    SparseScenePeakTuning,
    StaticCreditsTuning,
    TextBoundaryShiftTuning,
    TextCardClusterTuning,
};

fn num(value: f64) -> Measure {
    Measure { bits: value.to_bits() }
}

fn same(bits: u64, value: f64) -> bool {
    bits == value.to_bits()
}

#[test]
fn detection_defaults() {
    assert_eq!(
        DetectionTuning::default(),
        DetectionTuning {
            fast_threshold_scale: FastThresholdScale::Legacy,
            fast_threshold_8bit: num(18.0),
            importance_mode: ImportanceThresholdMode::Fixed,
            importance_threshold_8bit: num(7.0),
            importance_min_factor: num(1.0),
            importance_luma_ref_8bit: num(64.0),
            importance_aggregation: ImportanceAggregation::Mean,
            strong_cut_ratio: None,
            importance_cut_ratio: None,
            importance_cut_min_cost_ratio: num(0.0),
            importance_cut_max_luma_8bit: None,
            importance_cut_bright_max_cost_ratio: num(0.0),
            importance_cut_relaxed_ratio: None,
            importance_cut_dark_ratio_boost: num(0.0),
            importance_cut_dark_min_ratio: num(0.0),
            importance_cut_dark_luma_low_8bit: num(25.0),
            importance_cut_dark_luma_high_8bit: num(60.0),
            importance_cut_relaxed_min_cost_ratio: num(0.0),
            importance_cut_relaxed_max_previous_ratio: num(2.2),
            importance_cut_min_me_bad_ratio: num(0.0),
            importance_cut_max_me_good_ratio: num(0.0),
            forward_similarity: ForwardSimilarityOptions::default(),
            transient_similarity: TransientSimilarityOptions::default(),
            motion_cost_diagnostics: false,
        }
    );
    assert_eq!(
        ForwardSimilarityOptions::default(),
        ForwardSimilarityOptions {
            enabled: false,
            frames: 0,
            window_frames: 1,
            min_offset: 2,
            threshold_8bit: num(6.0),
            min_previous_scene_len: 0,
            min_cut_cost_ratio: num(0.0),
            relaxed_threshold_8bit: num(0.0),
            relaxed_min_cost_ratio: num(0.0),
            relaxed_max_cost_ratio: num(0.0),
            relaxed_importance_min_cost_ratio: num(0.0),
            relaxed_min_imp_block_ratio: num(0.0),
            relaxed_max_return_cost_ratio: num(0.0),
            relaxed_max_return_cost_ratio_multiplier: num(0.0),
            flash_return_without_candidate: false,
            flash_return_frames: 0,
            flash_return_min_cost_ratio: num(0.0),
            mask_percent: num(0.0),
            mask_region_cols: 1,
            mask_region_rows: 1,
            chroma_weight: num(0.0),
            require_return_candidate: false,
            suppress_inside: false,
        }
    );
    assert_eq!(
        TransientSimilarityOptions::default(),
        TransientSimilarityOptions {
            enabled: false,
            frames: 0,
            threshold_8bit: num(6.0),
            dark_threshold_8bit: num(6.0),
            dark_luma_low_8bit: num(25.0),
            dark_luma_high_8bit: num(60.0),
            mask_percent: num(0.20),
        }
    );
    assert_eq!(
        DetectionTuning::high_quality(),
        DetectionTuning {
            fast_threshold_scale: FastThresholdScale::SampleRange,
            importance_mode: ImportanceThresholdMode::AdaptiveLuma,
            importance_min_factor: num(0.35),
            importance_aggregation: ImportanceAggregation::SpatialTemporalTopBlocks {
                previous_percent: num(0.10),
                current_percent: num(0.15),
                next_percent: num(0.10),
                region_cols: 8,
                region_rows: 4,
            },
            strong_cut_ratio: Some(num(2.5)),
            importance_cut_ratio: Some(num(3.2)),
            importance_cut_min_cost_ratio: num(0.20),
            importance_cut_max_luma_8bit: Some(num(64.0)),
            importance_cut_bright_max_cost_ratio: num(0.9),
            importance_cut_relaxed_ratio: Some(num(3.0)),
            importance_cut_dark_ratio_boost: num(0.65),
            importance_cut_dark_min_ratio: num(2.35),
            importance_cut_dark_luma_low_8bit: num(25.0),
            importance_cut_dark_luma_high_8bit: num(60.0),
            importance_cut_relaxed_min_cost_ratio: num(0.08),
            importance_cut_relaxed_max_previous_ratio: num(2.2),
            importance_cut_min_me_bad_ratio: num(0.15),
            importance_cut_max_me_good_ratio: num(0.05),
            forward_similarity: ForwardSimilarityOptions {
                enabled: true,
                frames: 80,
                window_frames: 3,
                min_offset: 4,
                threshold_8bit: num(6.0),
                min_previous_scene_len: 24,
                min_cut_cost_ratio: num(0.12),
                relaxed_threshold_8bit: num(8.5),
                relaxed_min_cost_ratio: num(1.0),
                relaxed_max_cost_ratio: num(3.0),
                relaxed_importance_min_cost_ratio: num(0.45),
                relaxed_min_imp_block_ratio: num(3.6),
                relaxed_max_return_cost_ratio: num(2.5),
                relaxed_max_return_cost_ratio_multiplier: num(4.0),
                flash_return_without_candidate: true,
                flash_return_frames: 40,
                flash_return_min_cost_ratio: num(1.0),
                mask_percent: num(0.20),
                mask_region_cols: 8,
                mask_region_rows: 4,
                chroma_weight: num(0.25),
                require_return_candidate: true,
                suppress_inside: true,
            },
            transient_similarity: TransientSimilarityOptions {
                enabled: true,
                frames: 10,
                threshold_8bit: num(6.0),
                dark_threshold_8bit: num(4.0),
                dark_luma_low_8bit: num(25.0),
                dark_luma_high_8bit: num(60.0),
                mask_percent: num(0.20),
            },
            ..DetectionTuning::default()
        }
    );
    let options = DetectionOptions::default();
    assert_eq!(options.analysis_speed, SceneDetectionSpeed::Standard);
    assert!(options.detect_flashes);
    assert_eq!(options.lookahead_distance, 5);
    assert_eq!(options.min_scenecut_distance, None);
    assert_eq!(options.max_scenecut_distance, None);
    assert_eq!(options.tuning, DetectionTuning::default());
    assert_eq!(options.disable_rayon_on_workers, 0);
    let high = DetectionOptions::high_quality();
    assert_eq!(high.analysis_speed, SceneDetectionSpeed::High);
    assert!(high.detect_flashes);
    assert_eq!(high.lookahead_distance, 24);
    assert_eq!(high.tuning, DetectionTuning::high_quality());
    assert_eq!(ParallelDetectionOptions::default().workers, 0);
}

#[test]
fn correction_defaults() {
    assert_eq!(
        TextCardClusterTuning::default(),
        TextCardClusterTuning {
            min_cuts: 3,
            max_gap: 130,
            max_cost_ratio: num(0.40),
            max_luma_8bit: num(35.0),
            max_imp_ratio: num(4.0),
            min_global_imp_ratio: num(3.8),
            max_transient_delta_8bit: num(3.0),
        }
    );
    assert_eq!(
        FastMotionTuning::default(),
        FastMotionTuning {
            pair_max_gap: 24,
            pair_max_exit_gap: 80,
            pair_min_previous_gap: 80,
            max_cost_ratio: num(0.35),
            min_global_imp_ratio: num(4.0),
            min_imp_ratio: num(2.7),
            min_luma_8bit: num(45.0),
            min_transient_delta_8bit: num(6.0),
            exit_min_cost_ratio: num(1.2),
        }
    );
    assert_eq!(
        DarkOcclusionTuning::default(),
        DarkOcclusionTuning {
            max_cost_ratio: num(0.25),
            max_luma_8bit: num(25.0),
            min_imp_ratio: num(3.5),
            min_global_imp_ratio: num(4.5),
            min_bad_block_ratio: num(0.70),
            max_good_block_ratio: num(0.002),
            max_transient_delta_8bit: num(4.0),
        }
    );
    assert_eq!(
        ScenePeakGeometryTuning::default(),
        ScenePeakGeometryTuning {
            min_scene_len: 120,
            local_radius: 5,
            density_radius: 500,
            wide_density_radius: 2000,
            max_local_cuts: 10,
            max_wide_cuts: 35,
            max_adjacent_cost_ratio: num(5.0),
        }
    );
    assert_eq!(
        DarkScenePeakTuning::default(),
        DarkScenePeakTuning {
            geometry: ScenePeakGeometryTuning::default(),
            min_cost_ratio: num(0.25),
            max_cost_ratio: num(0.45),
            max_luma_8bit: num(50.0),
            min_imp_ratio: num(1.3),
            min_global_imp_ratio: num(1.4),
            min_bad_block_ratio: num(0.62),
            max_good_block_ratio: num(0.005),
        }
    );
    assert_eq!(
        SparseScenePeakTuning::default(),
        SparseScenePeakTuning {
            geometry: ScenePeakGeometryTuning::default(),
            min_cost_ratio: num(0.25),
            max_cost_ratio: num(1.0),
            max_luma_8bit: num(90.0),
            min_imp_ratio: num(1.5),
            min_global_imp_ratio: num(1.8),
            min_bad_block_ratio: num(0.60),
            max_good_block_ratio: num(0.10),
        }
    );
    assert_eq!(
        RefinedSparsePeakTuning::default(),
        RefinedSparsePeakTuning {
            min_distance: 40,
            shift_max_distance: 40,
            min_cost_ratio: num(0.65),
            max_cost_ratio: num(1.05),
            min_imp_ratio: num(3.0),
            min_global_imp_ratio: num(3.5),
            min_luma_8bit: num(55.0),
            max_luma_8bit: num(90.0),
            min_bad_block_ratio: num(0.50),
            max_good_block_ratio: num(0.09),
            min_edge_delta_8bit: num(10.0),
            max_repeat_delta_8bit: num(5.0),
            min_distinct_delta_8bit: num(8.0),
            density_radius: 500,
            wide_density_radius: 2000,
            max_local_cuts: 12,
            max_wide_cuts: 40,
            max_adjacent_cost_ratio: num(5.0),
            aba_max_segment_len: 130,
        }
    );
    assert_eq!(
        AbaReturnTuning::default(),
        AbaReturnTuning {
            min_cost_ratio: num(0.25),
            max_cost_ratio: num(1.05),
            min_imp_ratio: num(2.0),
            min_global_imp_ratio: num(3.0),
            max_luma_8bit: num(90.0),
            max_good_block_ratio: num(0.10),
            max_signature_delta_8bit: num(4.0),
            min_edge_delta_8bit: num(5.0),
            min_edge_ratio: num(2.0),
        }
    );
    assert_eq!(
        AbaChainTuning::default(),
        AbaChainTuning {
            min_segments: 4,
            max_signature_delta_8bit: num(5.0),
            min_different_delta_8bit: num(8.0),
            max_segment_extra: 50,
            min_hidden_cost_ratio: num(0.25),
            max_hidden_cost_ratio: num(1.2),
            min_hidden_imp_ratio: num(2.0),
            min_hidden_global_imp_ratio: num(3.0),
            max_hidden_luma_8bit: num(95.0),
            max_hidden_good_block_ratio: num(0.12),
            min_hidden_edge_delta_8bit: num(5.0),
        }
    );
    assert_eq!(
        ForwardSimilarityRecoveryTuning::default(),
        ForwardSimilarityRecoveryTuning {
            min_match_delta_8bit: num(8.0),
            min_cost_ratio: num(1.2),
            min_imp_ratio: num(5.0),
            min_global_imp_ratio: num(6.0),
            min_edge_delta_8bit: num(20.0),
            max_frames: 3,
        }
    );
    assert_eq!(
        TextBoundaryShiftTuning::default(),
        TextBoundaryShiftTuning {
            min_forward_cost_ratio: num(1.0),
            min_forward_imp_ratio: num(8.0),
            min_forward_global_imp_ratio: num(8.0),
            max_forward_luma_8bit: num(40.0),
            min_forward_bad_block_ratio: num(0.75),
            max_forward_good_block_ratio: num(0.02),
            min_backward_imp_ratio: num(4.5),
            min_backward_global_imp_ratio: num(8.0),
            max_backward_luma_8bit: num(35.0),
            max_next_cost_ratio: num(1.0),
            min_next_luma_8bit: num(45.0),
            min_global_imp_margin: num(1.0),
        }
    );
    assert_eq!(
        StaticCreditsTuning::default(),
        StaticCreditsTuning {
            min_run_cuts: 5,
            max_gap: 210,
            max_luma_8bit: num(45.0),
            min_imp_ratio: num(6.0),
            min_global_imp_ratio: num(8.0),
            min_good_block_ratio: num(0.35),
            max_bad_block_ratio: num(0.65),
        }
    );
    assert_eq!(
        MicroSceneTuning::default(),
        MicroSceneTuning { min_scene_len: 4 }
    );
    assert_eq!(
        LocalPeakRecoveryTuning::default(),
        LocalPeakRecoveryTuning {
            min_imp_ratio: num(0.8),
            min_cost_ratio: num(0.08),
            min_backward_cost_ratio: num(0.15),
            max_good_block_ratio: num(0.10),
            max_luma_delta_8bit: num(8.0),
            min_peak_over_neighbors: num(2.0),
            min_peak_over_median: num(3.0),
            median_window_radius: 20,
            min_median_samples: 8,
            min_distance_to_cut: 25,
            strobe_radius: 24,
            strobe_trigger_ratio: num(0.6),
            strobe_merge_gap: 3,
            max_strobe_events: 1,
            density_radius: 500,
            wide_density_radius: 2000,
            max_local_cuts: 20,
            max_wide_cuts: 70,
        }
    );
    assert_eq!(
        SignatureRescueTuning::default(),
        SignatureRescueTuning {
            min_imp_ratio: num(2.9),
            min_cost_ratio: num(0.2),
            max_cost_ratio: num(0.55),
            min_good_block_ratio: num(0.05),
            max_good_block_ratio: num(0.20),
            min_norm_signature_delta: num(0.15),
            max_structure_match_ratio: num(0.7),
            min_structure_coverage: num(0.01),
            strobe_radius: 24,
            strobe_trigger_ratio: num(0.6),
            strobe_merge_gap: 3,
            max_strobe_events: 1,
            min_distance_to_cut: 25,
            density_radius: 500,
            wide_density_radius: 2000,
            max_local_cuts: 20,
            max_wide_cuts: 75,
        }
    );
    let all = PostprocessTuning::default();
    assert_eq!(all.text_card, TextCardClusterTuning::default());
    assert_eq!(all.local_peak, LocalPeakRecoveryTuning::default());
    assert_eq!(all.micro_scene, MicroSceneTuning::default());
}

#[test]
fn thresholds_of_the_corrections() {
    assert!(same(aba_chain::ABA_CHAIN_MIN_HIDDEN_COST_RATIO, 0.25));
    assert!(same(aba_chain::ABA_CHAIN_MAX_HIDDEN_COST_RATIO, 1.2));
    assert!(same(aba_chain::ABA_CHAIN_MIN_HIDDEN_IMP_RATIO, 2.0));
    assert!(same(aba_chain::ABA_CHAIN_MIN_HIDDEN_GLOBAL_IMP_RATIO, 3.0));
    assert!(same(aba_chain::ABA_CHAIN_MAX_HIDDEN_LUMA_8BIT, 95.0));
    assert!(same(aba_chain::ABA_CHAIN_MAX_HIDDEN_GOOD_BLOCK_RATIO, 0.12));
    assert_eq!(aba_chain::ABA_CHAIN_MIN_SEGMENTS, 4);
    assert_eq!(aba_chain::ABA_CHAIN_MAX_SIGNATURE_DELTA_8BIT as f64, 5.0);
    assert_eq!(aba_chain::ABA_CHAIN_MIN_DIFFERENT_DELTA_8BIT as f64, 8.0);
    assert_eq!(aba_chain::ABA_CHAIN_MAX_SEGMENT_EXTRA, 50);
    assert_eq!(aba_chain::ABA_CHAIN_MIN_HIDDEN_EDGE_DELTA_8BIT as f64, 5.0);
    assert!(same(aba_return::ABA_RETURN_MIN_COST_RATIO, 0.25));
    assert!(same(aba_return::ABA_RETURN_MAX_COST_RATIO, 1.05));
    assert!(same(aba_return::ABA_RETURN_MIN_IMP_RATIO, 2.0));
    assert!(same(aba_return::ABA_RETURN_MIN_GLOBAL_IMP_RATIO, 3.0));
    assert!(same(aba_return::ABA_RETURN_MAX_LUMA_8BIT, 90.0));
    assert!(same(aba_return::ABA_RETURN_MAX_GOOD_BLOCK_RATIO, 0.10));
    assert_eq!(aba_return::ABA_RETURN_MAX_SIGNATURE_DELTA_8BIT as f64, 4.0);
    assert_eq!(aba_return::ABA_RETURN_MIN_EDGE_DELTA_8BIT as f64, 5.0);
    assert_eq!(aba_return::ABA_RETURN_MIN_EDGE_RATIO as f64, 2.0);
    assert!(same(peaks::DARK_SCENE_PEAK_MIN_COST_RATIO, 0.25));
    assert!(same(peaks::DARK_SCENE_PEAK_MAX_COST_RATIO, 0.45));
    assert!(same(peaks::DARK_SCENE_PEAK_MAX_LUMA_8BIT, 50.0));
    assert!(same(peaks::DARK_SCENE_PEAK_MIN_IMP_RATIO, 1.3));
    assert!(same(peaks::DARK_SCENE_PEAK_MIN_GLOBAL_IMP_RATIO, 1.4));
    assert!(same(peaks::DARK_SCENE_PEAK_MIN_BAD_BLOCK_RATIO, 0.62));
    assert!(same(peaks::DARK_SCENE_PEAK_MAX_GOOD_BLOCK_RATIO, 0.005));
    assert!(same(peaks::SPARSE_SCENE_PEAK_MIN_COST_RATIO, 0.25));
    assert!(same(peaks::SPARSE_SCENE_PEAK_MAX_COST_RATIO, 1.0));
    assert!(same(peaks::SPARSE_SCENE_PEAK_MIN_IMP_RATIO, 1.5));
    assert!(same(peaks::SPARSE_SCENE_PEAK_MIN_GLOBAL_IMP_RATIO, 1.8));
    assert!(same(peaks::SPARSE_SCENE_PEAK_MAX_LUMA_8BIT, 90.0));
    assert!(same(peaks::SPARSE_SCENE_PEAK_MIN_BAD_BLOCK_RATIO, 0.60));
    assert!(same(peaks::SPARSE_SCENE_PEAK_MAX_GOOD_BLOCK_RATIO, 0.10));
    assert!(same(peaks::REFINED_SPARSE_PEAK_MIN_COST_RATIO, 0.65));
    assert!(same(peaks::REFINED_SPARSE_PEAK_MAX_COST_RATIO, 1.05));
    assert!(same(peaks::REFINED_SPARSE_PEAK_MIN_IMP_RATIO, 3.0));
    assert!(same(peaks::REFINED_SPARSE_PEAK_MIN_GLOBAL_IMP_RATIO, 3.5));
    assert!(same(peaks::REFINED_SPARSE_PEAK_MIN_LUMA_8BIT, 55.0));
    assert!(same(peaks::REFINED_SPARSE_PEAK_MAX_LUMA_8BIT, 90.0));
    assert!(same(peaks::REFINED_SPARSE_PEAK_MIN_BAD_BLOCK_RATIO, 0.50));
    assert!(same(peaks::REFINED_SPARSE_PEAK_MAX_GOOD_BLOCK_RATIO, 0.09));
    assert_eq!(peaks::REFINED_SPARSE_PEAK_MAX_LOCAL_CUTS, 12);
    assert_eq!(peaks::REFINED_SPARSE_PEAK_MAX_WIDE_CUTS, 40);
    assert_eq!(peaks::REFINED_SPARSE_PEAK_MIN_EDGE_DELTA_8BIT as f64, 10.0);
    assert_eq!(peaks::REFINED_SPARSE_PEAK_MAX_REPEAT_DELTA_8BIT as f64, 5.0);
    assert!(same(recovery::FORWARD_SIMILARITY_RECOVERY_MIN_MATCH_DELTA_8BIT, 8.0));
    assert!(same(recovery::FORWARD_SIMILARITY_RECOVERY_MIN_COST_RATIO, 1.2));
    assert!(same(recovery::FORWARD_SIMILARITY_RECOVERY_MIN_IMP_RATIO, 5.0));
    assert!(same(recovery::FORWARD_SIMILARITY_RECOVERY_MIN_GLOBAL_IMP_RATIO, 6.0));
    assert_eq!(recovery::FORWARD_SIMILARITY_RECOVERY_MIN_EDGE_DELTA_8BIT as f64, 20.0);
    assert_eq!(recovery::FORWARD_SIMILARITY_RECOVERY_MAX_FRAMES, 3);
    assert_eq!(refined::REFINED_SPARSE_PEAK_MIN_DISTANCE, 40);
    assert_eq!(refined::REFINED_SPARSE_PEAK_SHIFT_MAX_DISTANCE, 40);
    assert_eq!(refined::REFINED_SPARSE_PEAK_MIN_DISTINCT_DELTA_8BIT as f64, 8.0);
    assert_eq!(refined::REFINED_SPARSE_PEAK_ABA_MAX_SEGMENT_LEN, 130);
    assert!(same(runs::TEXT_CARD_MAX_COST_RATIO, 0.40));
    assert!(same(runs::TEXT_CARD_MAX_LUMA_8BIT, 35.0));
    assert!(same(runs::TEXT_CARD_MAX_IMP_RATIO, 4.0));
    assert!(same(runs::TEXT_CARD_MIN_GLOBAL_IMP_RATIO, 3.8));
    assert!(same(runs::TEXT_CARD_MAX_SIMILARITY_DELTA_8BIT, 6.0));
    assert!(same(runs::TEXT_CARD_MAX_TRANSIENT_DELTA_8BIT, 3.0));
    assert!(same(runs::STATIC_CREDITS_MAX_LUMA_8BIT, 45.0));
    assert!(same(runs::STATIC_CREDITS_MIN_IMP_RATIO, 6.0));
    assert!(same(runs::STATIC_CREDITS_MIN_GLOBAL_IMP_RATIO, 8.0));
    assert!(same(runs::STATIC_CREDITS_MIN_GOOD_BLOCK_RATIO, 0.35));
    assert!(same(runs::STATIC_CREDITS_MAX_BAD_BLOCK_RATIO, 0.65));
    assert_eq!(runs::TEXT_CARD_CLUSTER_MIN_CUTS, 3);
    assert_eq!(runs::TEXT_CARD_CLUSTER_MAX_GAP, 130);
    assert_eq!(runs::STATIC_CREDITS_MIN_RUN_CUTS, 5);
    assert_eq!(runs::STATIC_CREDITS_MAX_GAP, 210);
    assert!(same(text_boundary::TEXT_BOUNDARY_SHIFT_MIN_FORWARD_COST_RATIO, 1.0));
    assert!(same(text_boundary::TEXT_BOUNDARY_SHIFT_MIN_FORWARD_IMP_RATIO, 8.0));
    assert!(same(text_boundary::TEXT_BOUNDARY_SHIFT_MIN_FORWARD_GLOBAL_IMP_RATIO, 8.0));
    assert!(same(text_boundary::TEXT_BOUNDARY_SHIFT_MAX_FORWARD_LUMA_8BIT, 40.0));
    assert!(same(text_boundary::TEXT_BOUNDARY_SHIFT_MIN_FORWARD_BAD_BLOCK_RATIO, 0.75));
    assert!(same(text_boundary::TEXT_BOUNDARY_SHIFT_MAX_FORWARD_GOOD_BLOCK_RATIO, 0.02));
    assert!(same(text_boundary::TEXT_BOUNDARY_SHIFT_MIN_BACKWARD_IMP_RATIO, 4.5));
    assert!(same(text_boundary::TEXT_BOUNDARY_SHIFT_MIN_BACKWARD_GLOBAL_IMP_RATIO, 8.0));
    assert!(same(text_boundary::TEXT_BOUNDARY_SHIFT_MAX_BACKWARD_LUMA_8BIT, 35.0));
    assert!(same(text_boundary::TEXT_BOUNDARY_SHIFT_MAX_NEXT_COST_RATIO, 1.0));
    assert!(same(text_boundary::TEXT_BOUNDARY_SHIFT_MIN_NEXT_LUMA_8BIT, 45.0));
    assert!(same(weak_cuts::FAST_MOTION_MAX_COST_RATIO, 0.35));
    assert!(same(weak_cuts::FAST_MOTION_MIN_GLOBAL_IMP_RATIO, 4.0));
    assert!(same(weak_cuts::FAST_MOTION_MIN_IMP_RATIO, 2.7));
    assert!(same(weak_cuts::FAST_MOTION_MIN_LUMA_8BIT, 45.0));
    assert!(same(weak_cuts::FAST_MOTION_MIN_TRANSIENT_DELTA_8BIT, 6.0));
    assert!(same(weak_cuts::FAST_MOTION_EXIT_MIN_COST_RATIO, 1.2));
    assert!(same(weak_cuts::DARK_OCCLUSION_MAX_COST_RATIO, 0.25));
    assert!(same(weak_cuts::DARK_OCCLUSION_MAX_LUMA_8BIT, 25.0));
    assert!(same(weak_cuts::DARK_OCCLUSION_MIN_IMP_RATIO, 3.5));
    assert!(same(weak_cuts::DARK_OCCLUSION_MIN_GLOBAL_IMP_RATIO, 4.5));
    assert!(same(weak_cuts::DARK_OCCLUSION_MIN_BAD_BLOCK_RATIO, 0.70));
    assert!(same(weak_cuts::DARK_OCCLUSION_MAX_GOOD_BLOCK_RATIO, 0.002));
    assert!(same(weak_cuts::DARK_OCCLUSION_MAX_TRANSIENT_DELTA_8BIT, 4.0));
    assert!(same(weak_cuts::DARK_OCCLUSION_MAX_FORWARD_DELTA_8BIT, 5.0));
    assert_eq!(weak_cuts::FAST_MOTION_PAIR_MAX_GAP, 24);
    assert_eq!(weak_cuts::FAST_MOTION_PAIR_MAX_EXIT_GAP, 80);
    assert_eq!(weak_cuts::FAST_MOTION_PAIR_MIN_PREVIOUS_GAP, 80);
}
