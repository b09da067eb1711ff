//! The thresholds of the corrections, as values with names and defaults.
//!
//! The corrections do not read these values: they go by constants of their own, which
//! [`defaults_are_what_corrections_use`] holds the defaults to. The values for micro scenes,
//! local peaks and signature rescue belong to no correction of this library.

use vstd::prelude::*;
use crate::measure::{double, Measure};

verus! {

/// Tuning for `apply_text_card_cluster_postprocess`: suppresses runs of weak
/// importance cuts produced by static text cards / title sequences.
#[derive(Debug, Clone, Copy, PartialEq, Eq, Structural)]
pub struct TextCardClusterTuning {
    /// Minimum cuts in a run before the run is suppressed.
    pub min_cuts: usize,
    /// Maximum frame gap that keeps consecutive weak cuts in one run.
    pub max_gap: usize,
    /// Maximum cost ratio a cut may have and still count as "weak".
    pub max_cost_ratio: Measure,
    /// Maximum average luma of a weak text-card cut.
    pub max_luma_8bit: Measure,
    /// Maximum spatial importance ratio of a weak text-card cut.
    pub max_imp_ratio: Measure,
    /// Minimum global importance ratio of a weak text-card cut.
    pub min_global_imp_ratio: Measure,
    /// Maximum transient-similarity delta that marks the cut as a repeat.
    pub max_transient_delta_8bit: Measure,
}

/// The values of [`TextCardClusterTuning`] that are used where none are set.
pub open spec fn default_text_card_cluster_tuning() -> TextCardClusterTuning {
    TextCardClusterTuning {
        min_cuts: 3,
        max_gap: 130,
        max_cost_ratio: double(0x3FD9_9999_9999_999A),
        max_luma_8bit: double(0x4041_8000_0000_0000),
        max_imp_ratio: double(0x4010_0000_0000_0000),
        min_global_imp_ratio: double(0x400E_6666_6666_6666),
        max_transient_delta_8bit: double(0x4008_0000_0000_0000),
    }
}

impl Default for TextCardClusterTuning {
    fn default() -> (tuning: Self)
        ensures
            tuning == default_text_card_cluster_tuning(),
    {
        TextCardClusterTuning {
            min_cuts: 3,
            max_gap: 130,
            max_cost_ratio: double(0x3FD9_9999_9999_999A),
            max_luma_8bit: double(0x4041_8000_0000_0000),
            max_imp_ratio: double(0x4010_0000_0000_0000),
            min_global_imp_ratio: double(0x400E_6666_6666_6666),
            max_transient_delta_8bit: double(0x4008_0000_0000_0000),
        }
    }
}

/// Tuning for `apply_fast_motion_micro_split_postprocess`: removes pairs of
/// spurious splits inside fast-motion passages that end in a strong real cut.
#[derive(Debug, Clone, Copy, PartialEq, Eq, Structural)]
pub struct FastMotionTuning {
    /// Maximum frames between the two suppressed micro-splits.
    pub pair_max_gap: usize,
    /// Maximum frames between the second split and the strong exit cut.
    pub pair_max_exit_gap: usize,
    /// Minimum frames between the preceding cut and the first split.
    pub pair_min_previous_gap: usize,
    /// Maximum cost ratio of a suppressible micro-split.
    pub max_cost_ratio: Measure,
    /// Minimum global importance ratio of a suppressible micro-split.
    pub min_global_imp_ratio: Measure,
    /// Minimum spatial importance ratio of a suppressible micro-split.
    pub min_imp_ratio: Measure,
    /// Minimum average luma of a suppressible micro-split.
    pub min_luma_8bit: Measure,
    /// Minimum transient-similarity delta of a suppressible micro-split.
    pub min_transient_delta_8bit: Measure,
    /// Minimum cost ratio of the strong exit cut that anchors the pattern.
    pub exit_min_cost_ratio: Measure,
}

/// The values of [`FastMotionTuning`] that are used where none are set.
pub open spec fn default_fast_motion_tuning() -> FastMotionTuning {
    FastMotionTuning {
        pair_max_gap: 24,
        pair_max_exit_gap: 80,
        pair_min_previous_gap: 80,
        max_cost_ratio: double(0x3FD6_6666_6666_6666),
        min_global_imp_ratio: double(0x4010_0000_0000_0000),
        min_imp_ratio: double(0x4005_9999_9999_999A),
        min_luma_8bit: double(0x4046_8000_0000_0000),
        min_transient_delta_8bit: double(0x4018_0000_0000_0000),
        exit_min_cost_ratio: double(0x3FF3_3333_3333_3333),
    }
}

impl Default for FastMotionTuning {
    fn default() -> (tuning: Self)
        ensures
            tuning == default_fast_motion_tuning(),
    {
        FastMotionTuning {
            pair_max_gap: 24,
            pair_max_exit_gap: 80,
            pair_min_previous_gap: 80,
            max_cost_ratio: double(0x3FD6_6666_6666_6666),
            min_global_imp_ratio: double(0x4010_0000_0000_0000),
            min_imp_ratio: double(0x4005_9999_9999_999A),
            min_luma_8bit: double(0x4046_8000_0000_0000),
            min_transient_delta_8bit: double(0x4018_0000_0000_0000),
            exit_min_cost_ratio: double(0x3FF3_3333_3333_3333),
        }
    }
}

/// Tuning for `apply_dark_occlusion_postprocess`: drops importance cuts caused
/// by objects briefly occluding dark scenes.
#[derive(Debug, Clone, Copy, PartialEq, Eq, Structural)]
pub struct DarkOcclusionTuning {
    /// Maximum cost ratio of a suppressible occlusion cut.
    pub max_cost_ratio: Measure,
    /// Maximum average luma of a suppressible occlusion cut.
    pub max_luma_8bit: Measure,
    /// Minimum spatial importance ratio of a suppressible occlusion cut.
    pub min_imp_ratio: Measure,
    /// Minimum global importance ratio of a suppressible occlusion cut.
    pub min_global_imp_ratio: Measure,
    /// Minimum static bad-block coverage of a suppressible occlusion cut.
    pub min_bad_block_ratio: Measure,
    /// Maximum static good-block coverage of a suppressible occlusion cut.
    pub max_good_block_ratio: Measure,
    /// Maximum transient-similarity delta marking the frames as a repeat.
    pub max_transient_delta_8bit: Measure,
}

/// The values of [`DarkOcclusionTuning`] that are used where none are set.
pub open spec fn default_dark_occlusion_tuning() -> DarkOcclusionTuning {
    DarkOcclusionTuning {
        max_cost_ratio: double(0x3FD0_0000_0000_0000),
        max_luma_8bit: double(0x4039_0000_0000_0000),
        min_imp_ratio: double(0x400C_0000_0000_0000),
        min_global_imp_ratio: double(0x4012_0000_0000_0000),
        min_bad_block_ratio: double(0x3FE6_6666_6666_6666),
        max_good_block_ratio: double(0x3F60_624D_D2F1_A9FC),
        max_transient_delta_8bit: double(0x4010_0000_0000_0000),
    }
}

impl Default for DarkOcclusionTuning {
    fn default() -> (tuning: Self)
        ensures
            tuning == default_dark_occlusion_tuning(),
    {
        DarkOcclusionTuning {
            max_cost_ratio: double(0x3FD0_0000_0000_0000),
            max_luma_8bit: double(0x4039_0000_0000_0000),
            min_imp_ratio: double(0x400C_0000_0000_0000),
            min_global_imp_ratio: double(0x4012_0000_0000_0000),
            min_bad_block_ratio: double(0x3FE6_6666_6666_6666),
            max_good_block_ratio: double(0x3F60_624D_D2F1_A9FC),
            max_transient_delta_8bit: double(0x4010_0000_0000_0000),
        }
    }
}

/// Shared geometry/density gates for the dark and sparse scene-peak recovery
/// passes (`apply_dark_scene_peak_recovery_postprocess` /
/// `apply_sparse_scene_peak_recovery_postprocess`).
#[derive(Debug, Clone, Copy, PartialEq, Eq, Structural)]
pub struct ScenePeakGeometryTuning {
    /// Minimum surrounding scene length that may receive a recovered cut.
    pub min_scene_len: usize,
    /// Radius over which the frame must be the local cost-ratio peak.
    pub local_radius: usize,
    /// Radius of the near cut-density window.
    pub density_radius: usize,
    /// Radius of the wide cut-density window.
    pub wide_density_radius: usize,
    /// Maximum cuts allowed inside the near density window.
    pub max_local_cuts: usize,
    /// Maximum cuts allowed inside the wide density window.
    pub max_wide_cuts: usize,
    /// Maximum cost ratio of the neighbouring cuts.
    pub max_adjacent_cost_ratio: Measure,
}

/// The values of [`ScenePeakGeometryTuning`] that are used where none are set.
pub open spec fn default_scene_peak_geometry_tuning() -> ScenePeakGeometryTuning {
    ScenePeakGeometryTuning {
        min_scene_len: 120,
        local_radius: 5,
        density_radius: 500,
        wide_density_radius: 2000,
        max_local_cuts: 10,
        max_wide_cuts: 35,
        max_adjacent_cost_ratio: double(0x4014_0000_0000_0000),
    }
}

impl Default for ScenePeakGeometryTuning {
    fn default() -> (tuning: Self)
        ensures
            tuning == default_scene_peak_geometry_tuning(),
    {
        ScenePeakGeometryTuning {
            min_scene_len: 120,
            local_radius: 5,
            density_radius: 500,
            wide_density_radius: 2000,
            max_local_cuts: 10,
            max_wide_cuts: 35,
            max_adjacent_cost_ratio: double(0x4014_0000_0000_0000),
        }
    }
}

/// Score gates for the dark scene-peak recovery pass.
#[derive(Debug, Clone, Copy, PartialEq, Eq, Structural)]
pub struct DarkScenePeakTuning {
    /// Shared geometry/density gates.
    pub geometry: ScenePeakGeometryTuning,
    /// Minimum cost ratio of a recoverable dark peak.
    pub min_cost_ratio: Measure,
    /// Maximum cost ratio of a recoverable dark peak.
    pub max_cost_ratio: Measure,
    /// Maximum average luma of a recoverable dark peak.
    pub max_luma_8bit: Measure,
    /// Minimum spatial importance ratio of a recoverable dark peak.
    pub min_imp_ratio: Measure,
    /// Minimum global importance ratio of a recoverable dark peak.
    pub min_global_imp_ratio: Measure,
    /// Minimum static bad-block coverage of a recoverable dark peak.
    pub min_bad_block_ratio: Measure,
    /// Maximum static good-block coverage of a recoverable dark peak.
    pub max_good_block_ratio: Measure,
}

/// The values of [`DarkScenePeakTuning`] that are used where none are set.
pub open spec fn default_dark_scene_peak_tuning() -> DarkScenePeakTuning {
    DarkScenePeakTuning {
        geometry: default_scene_peak_geometry_tuning(),
        min_cost_ratio: double(0x3FD0_0000_0000_0000),
        max_cost_ratio: double(0x3FDC_CCCC_CCCC_CCCD),
        max_luma_8bit: double(0x4049_0000_0000_0000),
        min_imp_ratio: double(0x3FF4_CCCC_CCCC_CCCD),
        min_global_imp_ratio: double(0x3FF6_6666_6666_6666),
        min_bad_block_ratio: double(0x3FE3_D70A_3D70_A3D7),
        max_good_block_ratio: double(0x3F74_7AE1_47AE_147B),
    }
}

impl Default for DarkScenePeakTuning {
    fn default() -> (tuning: Self)
        ensures
            tuning == default_dark_scene_peak_tuning(),
    {
        DarkScenePeakTuning {
            geometry: ScenePeakGeometryTuning::default(),
            min_cost_ratio: double(0x3FD0_0000_0000_0000),
            max_cost_ratio: double(0x3FDC_CCCC_CCCC_CCCD),
            max_luma_8bit: double(0x4049_0000_0000_0000),
            min_imp_ratio: double(0x3FF4_CCCC_CCCC_CCCD),
            min_global_imp_ratio: double(0x3FF6_6666_6666_6666),
            min_bad_block_ratio: double(0x3FE3_D70A_3D70_A3D7),
            max_good_block_ratio: double(0x3F74_7AE1_47AE_147B),
        }
    }
}

/// Score gates for the sparse scene-peak recovery pass.
#[derive(Debug, Clone, Copy, PartialEq, Eq, Structural)]
pub struct SparseScenePeakTuning {
    /// Shared geometry/density gates.
    pub geometry: ScenePeakGeometryTuning,
    /// Minimum cost ratio of a recoverable sparse peak.
    pub min_cost_ratio: Measure,
    /// Maximum cost ratio of a recoverable sparse peak.
    pub max_cost_ratio: Measure,
    /// Maximum average luma of a recoverable sparse peak.
    pub max_luma_8bit: Measure,
    /// Minimum spatial importance ratio of a recoverable sparse peak.
    pub min_imp_ratio: Measure,
    /// Minimum global importance ratio of a recoverable sparse peak.
    pub min_global_imp_ratio: Measure,
    /// Minimum static bad-block coverage of a recoverable sparse peak.
    pub min_bad_block_ratio: Measure,
    /// Maximum static good-block coverage of a recoverable sparse peak.
    pub max_good_block_ratio: Measure,
}

/// The values of [`SparseScenePeakTuning`] that are used where none are set.
pub open spec fn default_sparse_scene_peak_tuning() -> SparseScenePeakTuning {
    SparseScenePeakTuning {
        geometry: default_scene_peak_geometry_tuning(),
        min_cost_ratio: double(0x3FD0_0000_0000_0000),
        max_cost_ratio: double(0x3FF0_0000_0000_0000),
        max_luma_8bit: double(0x4056_8000_0000_0000),
        min_imp_ratio: double(0x3FF8_0000_0000_0000),
        min_global_imp_ratio: double(0x3FFC_CCCC_CCCC_CCCD),
        min_bad_block_ratio: double(0x3FE3_3333_3333_3333),
        max_good_block_ratio: double(0x3FB9_9999_9999_999A),
    }
}

impl Default for SparseScenePeakTuning {
    fn default() -> (tuning: Self)
        ensures
            tuning == default_sparse_scene_peak_tuning(),
    {
        SparseScenePeakTuning {
            geometry: ScenePeakGeometryTuning::default(),
            min_cost_ratio: double(0x3FD0_0000_0000_0000),
            max_cost_ratio: double(0x3FF0_0000_0000_0000),
            max_luma_8bit: double(0x4056_8000_0000_0000),
            min_imp_ratio: double(0x3FF8_0000_0000_0000),
            min_global_imp_ratio: double(0x3FFC_CCCC_CCCC_CCCD),
            min_bad_block_ratio: double(0x3FE3_3333_3333_3333),
            max_good_block_ratio: double(0x3FB9_9999_9999_999A),
        }
    }
}

/// Tuning for `apply_refined_sparse_peak_postprocess`: shifts/recovers sparse
/// peaks using frame-signature evidence and prunes short A-B-A echoes.
#[derive(Debug, Clone, Copy, PartialEq, Eq, Structural)]
pub struct RefinedSparsePeakTuning {
    /// Minimum distance enforced between refined cuts.
    pub min_distance: usize,
    /// Maximum forward shift applied to a sparse-peak boundary.
    pub shift_max_distance: usize,
    /// Minimum cost ratio of a refined peak.
    pub min_cost_ratio: Measure,
    /// Maximum cost ratio of a refined peak.
    pub max_cost_ratio: Measure,
    /// Minimum spatial importance ratio of a refined peak.
    pub min_imp_ratio: Measure,
    /// Minimum global importance ratio of a refined peak.
    pub min_global_imp_ratio: Measure,
    /// Minimum average luma of a refined peak.
    pub min_luma_8bit: Measure,
    /// Maximum average luma of a refined peak.
    pub max_luma_8bit: Measure,
    /// Minimum static bad-block coverage of a refined peak.
    pub min_bad_block_ratio: Measure,
    /// Maximum static good-block coverage of a refined peak.
    pub max_good_block_ratio: Measure,
    /// Minimum signature delta against the previous frame (a real edge).
    pub min_edge_delta_8bit: Measure,
    /// Maximum signature delta that still counts as a repeated composition.
    pub max_repeat_delta_8bit: Measure,
    /// Minimum signature delta that counts as a distinct composition.
    pub min_distinct_delta_8bit: Measure,
    /// Radius of the near cut-density window.
    pub density_radius: usize,
    /// Radius of the wide cut-density window.
    pub wide_density_radius: usize,
    /// Maximum cuts allowed inside the near density window.
    pub max_local_cuts: usize,
    /// Maximum cuts allowed inside the wide density window.
    pub max_wide_cuts: usize,
    /// Maximum cost ratio of the neighbouring cuts.
    pub max_adjacent_cost_ratio: Measure,
    /// Maximum A-B-A segment length eligible for echo suppression.
    pub aba_max_segment_len: usize,
}

/// The values of [`RefinedSparsePeakTuning`] that are used where none are set.
pub open spec fn default_refined_sparse_peak_tuning() -> RefinedSparsePeakTuning {
    RefinedSparsePeakTuning {
        min_distance: 40,
        shift_max_distance: 40,
        min_cost_ratio: double(0x3FE4_CCCC_CCCC_CCCD),
        max_cost_ratio: double(0x3FF0_CCCC_CCCC_CCCD),
        min_imp_ratio: double(0x4008_0000_0000_0000),
        min_global_imp_ratio: double(0x400C_0000_0000_0000),
        min_luma_8bit: double(0x404B_8000_0000_0000),
        max_luma_8bit: double(0x4056_8000_0000_0000),
        min_bad_block_ratio: double(0x3FE0_0000_0000_0000),
        max_good_block_ratio: double(0x3FB7_0A3D_70A3_D70A),
        min_edge_delta_8bit: double(0x4024_0000_0000_0000),
        max_repeat_delta_8bit: double(0x4014_0000_0000_0000),
        min_distinct_delta_8bit: double(0x4020_0000_0000_0000),
        density_radius: 500,
        wide_density_radius: 2000,
        max_local_cuts: 12,
        max_wide_cuts: 40,
        max_adjacent_cost_ratio: double(0x4014_0000_0000_0000),
        aba_max_segment_len: 130,
    }
}

impl Default for RefinedSparsePeakTuning {
    fn default() -> (tuning: Self)
        ensures
            tuning == default_refined_sparse_peak_tuning(),
    {
        RefinedSparsePeakTuning {
            min_distance: 40,
            shift_max_distance: 40,
            min_cost_ratio: double(0x3FE4_CCCC_CCCC_CCCD),
            max_cost_ratio: double(0x3FF0_CCCC_CCCC_CCCD),
            min_imp_ratio: double(0x4008_0000_0000_0000),
            min_global_imp_ratio: double(0x400C_0000_0000_0000),
            min_luma_8bit: double(0x404B_8000_0000_0000),
            max_luma_8bit: double(0x4056_8000_0000_0000),
            min_bad_block_ratio: double(0x3FE0_0000_0000_0000),
            max_good_block_ratio: double(0x3FB7_0A3D_70A3_D70A),
            min_edge_delta_8bit: double(0x4024_0000_0000_0000),
            max_repeat_delta_8bit: double(0x4014_0000_0000_0000),
            min_distinct_delta_8bit: double(0x4020_0000_0000_0000),
            density_radius: 500,
            wide_density_radius: 2000,
            max_local_cuts: 12,
            max_wide_cuts: 40,
            max_adjacent_cost_ratio: double(0x4014_0000_0000_0000),
            aba_max_segment_len: 130,
        }
    }
}

/// Tuning for `apply_aba_return_recovery_postprocess`: re-inserts the missing
/// return boundary of an A-B-A pattern using frame signatures.
#[derive(Debug, Clone, Copy, PartialEq, Eq, Structural)]
pub struct AbaReturnTuning {
    /// Minimum cost ratio of a recoverable return frame.
    pub min_cost_ratio: Measure,
    /// Maximum cost ratio of a recoverable return frame.
    pub max_cost_ratio: Measure,
    /// Minimum spatial importance ratio of a recoverable return frame.
    pub min_imp_ratio: Measure,
    /// Minimum global importance ratio of a recoverable return frame.
    pub min_global_imp_ratio: Measure,
    /// Maximum average luma of a recoverable return frame.
    pub max_luma_8bit: Measure,
    /// Maximum static good-block coverage of a recoverable return frame.
    pub max_good_block_ratio: Measure,
    /// Maximum signature delta between the return frame and the pre-B frame.
    pub max_signature_delta_8bit: Measure,
    /// Minimum signature delta across each claimed boundary edge.
    pub min_edge_delta_8bit: Measure,
    /// Minimum ratio of edge deltas to the return (repeat) delta.
    pub min_edge_ratio: Measure,
}

/// The values of [`AbaReturnTuning`] that are used where none are set.
pub open spec fn default_aba_return_tuning() -> AbaReturnTuning {
    AbaReturnTuning {
        min_cost_ratio: double(0x3FD0_0000_0000_0000),
        max_cost_ratio: double(0x3FF0_CCCC_CCCC_CCCD),
        min_imp_ratio: double(0x4000_0000_0000_0000),
        min_global_imp_ratio: double(0x4008_0000_0000_0000),
        max_luma_8bit: double(0x4056_8000_0000_0000),
        max_good_block_ratio: double(0x3FB9_9999_9999_999A),
        max_signature_delta_8bit: double(0x4010_0000_0000_0000),
        min_edge_delta_8bit: double(0x4014_0000_0000_0000),
        min_edge_ratio: double(0x4000_0000_0000_0000),
    }
}

impl Default for AbaReturnTuning {
    fn default() -> (tuning: Self)
        ensures
            tuning == default_aba_return_tuning(),
    {
        AbaReturnTuning {
            min_cost_ratio: double(0x3FD0_0000_0000_0000),
            max_cost_ratio: double(0x3FF0_CCCC_CCCC_CCCD),
            min_imp_ratio: double(0x4000_0000_0000_0000),
            min_global_imp_ratio: double(0x4008_0000_0000_0000),
            max_luma_8bit: double(0x4056_8000_0000_0000),
            max_good_block_ratio: double(0x3FB9_9999_9999_999A),
            max_signature_delta_8bit: double(0x4010_0000_0000_0000),
            min_edge_delta_8bit: double(0x4014_0000_0000_0000),
            min_edge_ratio: double(0x4000_0000_0000_0000),
        }
    }
}

/// Tuning for `apply_aba_chain_compaction_postprocess`: merges long A-B-A-B
/// alternation chains back into two scenes.
#[derive(Debug, Clone, Copy, PartialEq, Eq, Structural)]
pub struct AbaChainTuning {
    /// Minimum alternating segments before a chain is compacted.
    pub min_segments: usize,
    /// Maximum signature delta for "same shot as two segments ago".
    pub max_signature_delta_8bit: Measure,
    /// Minimum signature delta for "different shot than previous segment".
    pub min_different_delta_8bit: Measure,
    /// Extra frames added on top of the forward-similarity window when
    /// deriving the maximum chain segment length.
    pub max_segment_extra: usize,
    /// Minimum cost ratio of a hidden (non-keyframe) chain boundary.
    pub min_hidden_cost_ratio: Measure,
    /// Maximum cost ratio of a hidden chain boundary.
    pub max_hidden_cost_ratio: Measure,
    /// Minimum spatial importance ratio of a hidden chain boundary.
    pub min_hidden_imp_ratio: Measure,
    /// Minimum global importance ratio of a hidden chain boundary.
    pub min_hidden_global_imp_ratio: Measure,
    /// Maximum average luma of a hidden chain boundary.
    pub max_hidden_luma_8bit: Measure,
    /// Maximum static good-block coverage of a hidden chain boundary.
    pub max_hidden_good_block_ratio: Measure,
    /// Minimum edge signature delta of a hidden chain boundary.
    pub min_hidden_edge_delta_8bit: Measure,
}

/// The values of [`AbaChainTuning`] that are used where none are set.
pub open spec fn default_aba_chain_tuning() -> AbaChainTuning {
    AbaChainTuning {
        min_segments: 4,
        max_signature_delta_8bit: double(0x4014_0000_0000_0000),
        min_different_delta_8bit: double(0x4020_0000_0000_0000),
        max_segment_extra: 50,
        min_hidden_cost_ratio: double(0x3FD0_0000_0000_0000),
        max_hidden_cost_ratio: double(0x3FF3_3333_3333_3333),
        min_hidden_imp_ratio: double(0x4000_0000_0000_0000),
        min_hidden_global_imp_ratio: double(0x4008_0000_0000_0000),
        max_hidden_luma_8bit: double(0x4057_C000_0000_0000),
        max_hidden_good_block_ratio: double(0x3FBE_B851_EB85_1EB8),
        min_hidden_edge_delta_8bit: double(0x4014_0000_0000_0000),
    }
}

impl Default for AbaChainTuning {
    fn default() -> (tuning: Self)
        ensures
            tuning == default_aba_chain_tuning(),
    {
        AbaChainTuning {
            min_segments: 4,
            max_signature_delta_8bit: double(0x4014_0000_0000_0000),
            min_different_delta_8bit: double(0x4020_0000_0000_0000),
            max_segment_extra: 50,
            min_hidden_cost_ratio: double(0x3FD0_0000_0000_0000),
            max_hidden_cost_ratio: double(0x3FF3_3333_3333_3333),
            min_hidden_imp_ratio: double(0x4000_0000_0000_0000),
            min_hidden_global_imp_ratio: double(0x4008_0000_0000_0000),
            max_hidden_luma_8bit: double(0x4057_C000_0000_0000),
            max_hidden_good_block_ratio: double(0x3FBE_B851_EB85_1EB8),
            min_hidden_edge_delta_8bit: double(0x4014_0000_0000_0000),
        }
    }
}

/// Tuning for `apply_forward_similarity_recovery_postprocess`: restores cuts
/// wrongly swallowed by forward-similarity suppression.
#[derive(Debug, Clone, Copy, PartialEq, Eq, Structural)]
pub struct ForwardSimilarityRecoveryTuning {
    /// Minimum accepted-match delta before suppression looks doubtful.
    pub min_match_delta_8bit: Measure,
    /// Minimum cost ratio of a recoverable suppressed cut.
    pub min_cost_ratio: Measure,
    /// Minimum spatial importance ratio of a recoverable suppressed cut.
    pub min_imp_ratio: Measure,
    /// Minimum global importance ratio of a recoverable suppressed cut.
    pub min_global_imp_ratio: Measure,
    /// Minimum edge signature delta of a recoverable suppressed cut.
    pub min_edge_delta_8bit: Measure,
    /// Maximum cuts restored per suppressed interval.
    pub max_frames: usize,
}

/// The values of [`ForwardSimilarityRecoveryTuning`] that are used where none are set.
pub open spec fn default_forward_similarity_recovery_tuning() -> ForwardSimilarityRecoveryTuning {
    ForwardSimilarityRecoveryTuning {
        min_match_delta_8bit: double(0x4020_0000_0000_0000),
        min_cost_ratio: double(0x3FF3_3333_3333_3333),
        min_imp_ratio: double(0x4014_0000_0000_0000),
        min_global_imp_ratio: double(0x4018_0000_0000_0000),
        min_edge_delta_8bit: double(0x4034_0000_0000_0000),
        max_frames: 3,
    }
}

impl Default for ForwardSimilarityRecoveryTuning {
    fn default() -> (tuning: Self)
        ensures
            tuning == default_forward_similarity_recovery_tuning(),
    {
        ForwardSimilarityRecoveryTuning {
            min_match_delta_8bit: double(0x4020_0000_0000_0000),
            min_cost_ratio: double(0x3FF3_3333_3333_3333),
            min_imp_ratio: double(0x4014_0000_0000_0000),
            min_global_imp_ratio: double(0x4018_0000_0000_0000),
            min_edge_delta_8bit: double(0x4034_0000_0000_0000),
            max_frames: 3,
        }
    }
}

/// Tuning for `apply_text_boundary_shift_postprocess`: moves boundaries that
/// min-distance pinned a few frames away from the true text-card change.
#[derive(Debug, Clone, Copy, PartialEq, Eq, Structural)]
pub struct TextBoundaryShiftTuning {
    /// Minimum cost ratio of a forward-shift candidate.
    pub min_forward_cost_ratio: Measure,
    /// Minimum spatial importance ratio of a forward-shift candidate.
    pub min_forward_imp_ratio: Measure,
    /// Minimum global importance ratio of a forward-shift candidate.
    pub min_forward_global_imp_ratio: Measure,
    /// Maximum average luma of a forward-shift candidate.
    pub max_forward_luma_8bit: Measure,
    /// Minimum static bad-block coverage of a forward-shift candidate.
    pub min_forward_bad_block_ratio: Measure,
    /// Maximum static good-block coverage of a forward-shift candidate.
    pub max_forward_good_block_ratio: Measure,
    /// Minimum spatial importance ratio of a backward-shift candidate.
    pub min_backward_imp_ratio: Measure,
    /// Minimum global importance ratio of a backward-shift candidate.
    pub min_backward_global_imp_ratio: Measure,
    /// Maximum average luma of a backward-shift candidate.
    pub max_backward_luma_8bit: Measure,
    /// Maximum cost ratio of the displaced next cut.
    pub max_next_cost_ratio: Measure,
    /// Minimum average luma of the displaced next cut.
    pub min_next_luma_8bit: Measure,
    /// Minimum global-importance margin over the displaced next cut.
    pub min_global_imp_margin: Measure,
}

/// The values of [`TextBoundaryShiftTuning`] that are used where none are set.
pub open spec fn default_text_boundary_shift_tuning() -> TextBoundaryShiftTuning {
    TextBoundaryShiftTuning {
        min_forward_cost_ratio: double(0x3FF0_0000_0000_0000),
        min_forward_imp_ratio: double(0x4020_0000_0000_0000),
        min_forward_global_imp_ratio: double(0x4020_0000_0000_0000),
        max_forward_luma_8bit: double(0x4044_0000_0000_0000),
        min_forward_bad_block_ratio: double(0x3FE8_0000_0000_0000),
        max_forward_good_block_ratio: double(0x3F94_7AE1_47AE_147B),
        min_backward_imp_ratio: double(0x4012_0000_0000_0000),
        min_backward_global_imp_ratio: double(0x4020_0000_0000_0000),
        max_backward_luma_8bit: double(0x4041_8000_0000_0000),
        max_next_cost_ratio: double(0x3FF0_0000_0000_0000),
        min_next_luma_8bit: double(0x4046_8000_0000_0000),
        min_global_imp_margin: double(0x3FF0_0000_0000_0000),
    }
}

impl Default for TextBoundaryShiftTuning {
    fn default() -> (tuning: Self)
        ensures
            tuning == default_text_boundary_shift_tuning(),
    {
        TextBoundaryShiftTuning {
            min_forward_cost_ratio: double(0x3FF0_0000_0000_0000),
            min_forward_imp_ratio: double(0x4020_0000_0000_0000),
            min_forward_global_imp_ratio: double(0x4020_0000_0000_0000),
            max_forward_luma_8bit: double(0x4044_0000_0000_0000),
            min_forward_bad_block_ratio: double(0x3FE8_0000_0000_0000),
            max_forward_good_block_ratio: double(0x3F94_7AE1_47AE_147B),
            min_backward_imp_ratio: double(0x4012_0000_0000_0000),
            min_backward_global_imp_ratio: double(0x4020_0000_0000_0000),
            max_backward_luma_8bit: double(0x4041_8000_0000_0000),
            max_next_cost_ratio: double(0x3FF0_0000_0000_0000),
            min_next_luma_8bit: double(0x4046_8000_0000_0000),
            min_global_imp_margin: double(0x3FF0_0000_0000_0000),
        }
    }
}

/// Tuning for `apply_static_credits_postprocess`: keeps only the first cut of
/// long runs of mostly-static credit-roll cuts.
#[derive(Debug, Clone, Copy, PartialEq, Eq, Structural)]
pub struct StaticCreditsTuning {
    /// Minimum cuts in a run before the run is compacted.
    pub min_run_cuts: usize,
    /// Maximum frame gap that keeps consecutive cuts in one run.
    pub max_gap: usize,
    /// Maximum average luma of a credits cut.
    pub max_luma_8bit: Measure,
    /// Minimum spatial importance ratio of a credits cut.
    pub min_imp_ratio: Measure,
    /// Minimum global importance ratio of a credits cut.
    pub min_global_imp_ratio: Measure,
    /// Minimum static good-block coverage of a credits cut.
    pub min_good_block_ratio: Measure,
    /// Maximum static bad-block coverage of a credits cut.
    pub max_bad_block_ratio: Measure,
}

/// The values of [`StaticCreditsTuning`] that are used where none are set.
pub open spec fn default_static_credits_tuning() -> StaticCreditsTuning {
    StaticCreditsTuning {
        min_run_cuts: 5,
        max_gap: 210,
        max_luma_8bit: double(0x4046_8000_0000_0000),
        min_imp_ratio: double(0x4018_0000_0000_0000),
        min_global_imp_ratio: double(0x4020_0000_0000_0000),
        min_good_block_ratio: double(0x3FD6_6666_6666_6666),
        max_bad_block_ratio: double(0x3FE4_CCCC_CCCC_CCCD),
    }
}

impl Default for StaticCreditsTuning {
    fn default() -> (tuning: Self)
        ensures
            tuning == default_static_credits_tuning(),
    {
        StaticCreditsTuning {
            min_run_cuts: 5,
            max_gap: 210,
            max_luma_8bit: double(0x4046_8000_0000_0000),
            min_imp_ratio: double(0x4018_0000_0000_0000),
            min_global_imp_ratio: double(0x4020_0000_0000_0000),
            min_good_block_ratio: double(0x3FD6_6666_6666_6666),
            max_bad_block_ratio: double(0x3FE4_CCCC_CCCC_CCCD),
        }
    }
}

/// Tuning for micro-scene compaction, which collapses scenes the
/// detector produced that are too short to be real scenes.
#[derive(Debug, Clone, Copy, PartialEq, Eq, Structural)]
pub struct MicroSceneTuning {
    /// Scenes shorter than this many frames lose their weaker boundary
    /// (`<= 1` disables the pass).
    pub min_scene_len: usize,
}

/// The values of [`MicroSceneTuning`] that are used where none are set.
pub open spec fn default_micro_scene_tuning() -> MicroSceneTuning {
    MicroSceneTuning {
        min_scene_len: 4,
    }
}

impl Default for MicroSceneTuning {
    fn default() -> (tuning: Self)
        ensures
            tuning == default_micro_scene_tuning(),
    {
        MicroSceneTuning {
            min_scene_len: 4,
        }
    }
}

/// Tuning for local-peak recovery, which recovers cuts in
/// smooth low-texture scenes (fog, haze, gradients) where the absolute
/// importance metric stays far below the cut thresholds, but the cut frame is
/// a sharp outlier against its local neighborhood.
///
/// In-scene fog frames sit at an importance cost baseline with
/// `cost_ratio == 0` and zero backward cost, while the true cuts spike the
/// importance cost 3-13x above the local median with nonzero forward and
/// backward cost. Global flashes also spike, but shift the average luma by
/// 12+ (8-bit) versus at most ~4 across a fog cut, hence the luma-delta gate.
#[derive(Debug, Clone, Copy, PartialEq, Eq, Structural)]
pub struct LocalPeakRecoveryTuning {
    /// Minimum spatial importance ratio of a recoverable peak (noise floor).
    pub min_imp_ratio: Measure,
    /// Minimum cost ratio of a recoverable peak.
    pub min_cost_ratio: Measure,
    /// Minimum backward-adjusted cost as a fraction of the frame threshold.
    pub min_backward_cost_ratio: Measure,
    /// Maximum static good-block coverage of a recoverable peak.
    pub max_good_block_ratio: Measure,
    /// Maximum average-luma change against the previous frame (flash guard).
    pub max_luma_delta_8bit: Measure,
    /// Minimum importance-cost multiple over both immediate neighbors.
    pub min_peak_over_neighbors: Measure,
    /// Minimum importance-cost multiple over the local window median.
    pub min_peak_over_median: Measure,
    /// Radius of the local median window (the peak and its immediate
    /// neighbors are excluded from the median).
    pub median_window_radius: usize,
    /// Minimum number of frames required in the median window.
    pub min_median_samples: usize,
    /// Minimum distance kept from existing cuts; also collapses candidate
    /// runs to their earliest frame (echoes trail the true peak).
    pub min_distance_to_cut: usize,
    /// Radius of the anti-strobe window. Rhythmic content (letter morphs,
    /// lightning shimmer) shows several distinct comparable peaks around the
    /// candidate; a fog cut is a lone outlier with at most one echo or
    /// motion swell nearby.
    pub strobe_radius: usize,
    /// Fraction of the candidate's importance cost a nearby frame must reach
    /// to count as a comparable peak.
    pub strobe_trigger_ratio: Measure,
    /// Consecutive triggering frames closer than this merge into one event
    /// (a broad motion swell is one event, not many).
    pub strobe_merge_gap: usize,
    /// Maximum number of comparable peak events tolerated in the window.
    pub max_strobe_events: usize,
    /// Radius of the near cut-density window.
    pub density_radius: usize,
    /// Radius of the wide cut-density window.
    pub wide_density_radius: usize,
    /// Maximum cuts allowed inside the near density window.
    pub max_local_cuts: usize,
    /// Maximum cuts allowed inside the wide density window.
    pub max_wide_cuts: usize,
}

/// The values of [`LocalPeakRecoveryTuning`] that are used where none are set.
pub open spec fn default_local_peak_recovery_tuning() -> LocalPeakRecoveryTuning {
    LocalPeakRecoveryTuning {
        min_imp_ratio: double(0x3FE9_9999_9999_999A),
        min_cost_ratio: double(0x3FB4_7AE1_47AE_147B),
        min_backward_cost_ratio: double(0x3FC3_3333_3333_3333),
        max_good_block_ratio: double(0x3FB9_9999_9999_999A),
        max_luma_delta_8bit: double(0x4020_0000_0000_0000),
        min_peak_over_neighbors: double(0x4000_0000_0000_0000),
        min_peak_over_median: double(0x4008_0000_0000_0000),
        median_window_radius: 20,
        min_median_samples: 8,
        min_distance_to_cut: 25,
        strobe_radius: 24,
        strobe_trigger_ratio: double(0x3FE3_3333_3333_3333),
        strobe_merge_gap: 3,
        max_strobe_events: 1,
        density_radius: 500,
        wide_density_radius: 2000,
        max_local_cuts: 20,
        max_wide_cuts: 70,
    }
}

impl Default for LocalPeakRecoveryTuning {
    fn default() -> (tuning: Self)
        ensures
            tuning == default_local_peak_recovery_tuning(),
    {
        LocalPeakRecoveryTuning {
            min_imp_ratio: double(0x3FE9_9999_9999_999A),
            min_cost_ratio: double(0x3FB4_7AE1_47AE_147B),
            min_backward_cost_ratio: double(0x3FC3_3333_3333_3333),
            max_good_block_ratio: double(0x3FB9_9999_9999_999A),
            max_luma_delta_8bit: double(0x4020_0000_0000_0000),
            min_peak_over_neighbors: double(0x4000_0000_0000_0000),
            min_peak_over_median: double(0x4008_0000_0000_0000),
            median_window_radius: 20,
            min_median_samples: 8,
            min_distance_to_cut: 25,
            strobe_radius: 24,
            strobe_trigger_ratio: double(0x3FE3_3333_3333_3333),
            strobe_merge_gap: 3,
            max_strobe_events: 1,
            density_radius: 500,
            wide_density_radius: 2000,
            max_local_cuts: 20,
            max_wide_cuts: 70,
        }
    }
}

/// Tuning for signature rescue, which recovers cuts vetoed by the importance-cut
/// good-block gate.
///
/// In dark low-texture material flat blocks "match" across a real cut, inflating
/// `static_good_block_ratio` over its limit while the composition (the
/// mean-normalized spatial light distribution) clearly changes. Flicker and
/// flashes scale brightness without moving the composition, so only the real cuts
/// show a large normalized-signature delta.
#[derive(Debug, Clone, Copy, PartialEq, Eq, Structural)]
pub struct SignatureRescueTuning {
    /// Minimum spatial importance ratio of a rescuable frame.
    pub min_imp_ratio: Measure,
    /// Minimum cost ratio of a rescuable frame.
    pub min_cost_ratio: Measure,
    /// Maximum cost ratio (above this the good gate is skipped anyway).
    pub max_cost_ratio: Measure,
    /// Minimum static good-block ratio: below this the good gate never
    /// fired, so the frame is not a gate victim.
    pub min_good_block_ratio: Measure,
    /// Maximum static good-block ratio of a rescuable frame.
    pub max_good_block_ratio: Measure,
    /// Minimum mean absolute delta of the mean-normalized luma signatures
    /// against the previous frame (dimensionless; ~0.02 within a scene,
    /// 0.06-0.18 across flicker, 0.15+ across real cuts).
    pub min_norm_signature_delta: Measure,
    /// Reject the rescue when at least this fraction of structure-bearing
    /// blocks still correlates across the transition: a partial flash or a
    /// brief occlusion moves the light composition while most of the frame's
    /// structure stays matched, whereas a real cut decorrelates it.
    pub max_structure_match_ratio: Measure,
    /// The structure gate only applies when at least this fraction of active
    /// blocks carries structure; below it the match ratio is noise.
    pub min_structure_coverage: Measure,
    /// Anti-strobe window radius (see `LocalPeakRecoveryTuning`).
    pub strobe_radius: usize,
    /// Anti-strobe trigger ratio.
    pub strobe_trigger_ratio: Measure,
    /// Anti-strobe event merge gap.
    pub strobe_merge_gap: usize,
    /// Maximum tolerated comparable-peak events.
    pub max_strobe_events: usize,
    /// Minimum distance kept from existing cuts (earliest-wins collapse).
    pub min_distance_to_cut: usize,
    /// Radius of the near cut-density window.
    pub density_radius: usize,
    /// Radius of the wide cut-density window.
    pub wide_density_radius: usize,
    /// Maximum cuts allowed inside the near density window.
    pub max_local_cuts: usize,
    /// Maximum cuts allowed inside the wide density window.
    pub max_wide_cuts: usize,
}

/// The values of [`SignatureRescueTuning`] that are used where none are set.
pub open spec fn default_signature_rescue_tuning() -> SignatureRescueTuning {
    SignatureRescueTuning {
        min_imp_ratio: double(0x4007_3333_3333_3333),
        min_cost_ratio: double(0x3FC9_9999_9999_999A),
        max_cost_ratio: double(0x3FE1_9999_9999_999A),
        min_good_block_ratio: double(0x3FA9_9999_9999_999A),
        max_good_block_ratio: double(0x3FC9_9999_9999_999A),
        min_norm_signature_delta: double(0x3FC3_3333_3333_3333),
        max_structure_match_ratio: double(0x3FE6_6666_6666_6666),
        min_structure_coverage: double(0x3F84_7AE1_47AE_147B),
        strobe_radius: 24,
        strobe_trigger_ratio: double(0x3FE3_3333_3333_3333),
        strobe_merge_gap: 3,
        max_strobe_events: 1,
        min_distance_to_cut: 25,
        density_radius: 500,
        wide_density_radius: 2000,
        max_local_cuts: 20,
        max_wide_cuts: 75,
    }
}

impl Default for SignatureRescueTuning {
    fn default() -> (tuning: Self)
        ensures
            tuning == default_signature_rescue_tuning(),
    {
        SignatureRescueTuning {
            min_imp_ratio: double(0x4007_3333_3333_3333),
            min_cost_ratio: double(0x3FC9_9999_9999_999A),
            max_cost_ratio: double(0x3FE1_9999_9999_999A),
            min_good_block_ratio: double(0x3FA9_9999_9999_999A),
            max_good_block_ratio: double(0x3FC9_9999_9999_999A),
            min_norm_signature_delta: double(0x3FC3_3333_3333_3333),
            max_structure_match_ratio: double(0x3FE6_6666_6666_6666),
            min_structure_coverage: double(0x3F84_7AE1_47AE_147B),
            strobe_radius: 24,
            strobe_trigger_ratio: double(0x3FE3_3333_3333_3333),
            strobe_merge_gap: 3,
            max_strobe_events: 1,
            min_distance_to_cut: 25,
            density_radius: 500,
            wide_density_radius: 2000,
            max_local_cuts: 20,
            max_wide_cuts: 75,
        }
    }
}

/// Aggregated tuning for every High-mode postprocess pass.
#[derive(Debug, Clone, Copy, PartialEq, Eq, Structural)]
pub struct PostprocessTuning {
    /// Text-card cut-run suppression.
    pub text_card: TextCardClusterTuning,
    /// Fast-motion micro-split suppression.
    pub fast_motion: FastMotionTuning,
    /// Dark-occlusion cut suppression.
    pub dark_occlusion: DarkOcclusionTuning,
    /// Dark scene-peak cut recovery.
    pub dark_scene_peak: DarkScenePeakTuning,
    /// Sparse scene-peak cut recovery.
    pub sparse_scene_peak: SparseScenePeakTuning,
    /// Signature-refined sparse-peak shifting/recovery.
    pub refined_sparse_peak: RefinedSparsePeakTuning,
    /// Local-outlier cut recovery for smooth (fog/haze) scenes.
    pub local_peak: LocalPeakRecoveryTuning,
    /// Good-gate victim recovery via normalized-signature composition change.
    pub signature_rescue: SignatureRescueTuning,
    /// A-B-A return-boundary recovery.
    pub aba_return: AbaReturnTuning,
    /// A-B-A-B alternation-chain compaction.
    pub aba_chain: AbaChainTuning,
    /// Recovery of cuts wrongly swallowed by forward similarity.
    pub forward_similarity_recovery: ForwardSimilarityRecoveryTuning,
    /// Min-distance boundary shifting for text cards.
    pub text_boundary_shift: TextBoundaryShiftTuning,
    /// Static credit-roll cut-run compaction.
    pub static_credits: StaticCreditsTuning,
    /// Degenerate micro-scene collapse.
    pub micro_scene: MicroSceneTuning,
}

/// The values of [`PostprocessTuning`] that are used where none are set.
pub open spec fn default_postprocess_tuning() -> PostprocessTuning {
    PostprocessTuning {
        text_card: default_text_card_cluster_tuning(),
        fast_motion: default_fast_motion_tuning(),
        dark_occlusion: default_dark_occlusion_tuning(),
        dark_scene_peak: default_dark_scene_peak_tuning(),
        sparse_scene_peak: default_sparse_scene_peak_tuning(),
        refined_sparse_peak: default_refined_sparse_peak_tuning(),
        local_peak: default_local_peak_recovery_tuning(),
        signature_rescue: default_signature_rescue_tuning(),
        aba_return: default_aba_return_tuning(),
        aba_chain: default_aba_chain_tuning(),
        forward_similarity_recovery: default_forward_similarity_recovery_tuning(),
        text_boundary_shift: default_text_boundary_shift_tuning(),
        static_credits: default_static_credits_tuning(),
        micro_scene: default_micro_scene_tuning(),
    }
}

impl Default for PostprocessTuning {
    fn default() -> (tuning: Self)
        ensures
            tuning == default_postprocess_tuning(),
    {
        PostprocessTuning {
            text_card: TextCardClusterTuning::default(),
            fast_motion: FastMotionTuning::default(),
            dark_occlusion: DarkOcclusionTuning::default(),
            dark_scene_peak: DarkScenePeakTuning::default(),
            sparse_scene_peak: SparseScenePeakTuning::default(),
            refined_sparse_peak: RefinedSparsePeakTuning::default(),
            local_peak: LocalPeakRecoveryTuning::default(),
            signature_rescue: SignatureRescueTuning::default(),
            aba_return: AbaReturnTuning::default(),
            aba_chain: AbaChainTuning::default(),
            forward_similarity_recovery: ForwardSimilarityRecoveryTuning::default(),
            text_boundary_shift: TextBoundaryShiftTuning::default(),
            static_credits: StaticCreditsTuning::default(),
            micro_scene: MicroSceneTuning::default(),
        }
    }
}

/// The distances, counts, ratios and luma limits that are used where none are set are those
/// that the corrections go by.
pub proof fn defaults_are_what_corrections_use()
    ensures
        default_text_card_cluster_tuning().min_cuts == crate::postprocess::runs::TEXT_CARD_CLUSTER_MIN_CUTS,
        default_text_card_cluster_tuning().max_gap == crate::postprocess::runs::TEXT_CARD_CLUSTER_MAX_GAP,
        default_text_card_cluster_tuning().max_cost_ratio == double(
            crate::postprocess::runs::TEXT_CARD_MAX_COST_RATIO,
        ),
        default_text_card_cluster_tuning().max_luma_8bit == double(
            crate::postprocess::runs::TEXT_CARD_MAX_LUMA_8BIT,
        ),
        default_text_card_cluster_tuning().max_imp_ratio == double(
            crate::postprocess::runs::TEXT_CARD_MAX_IMP_RATIO,
        ),
        default_text_card_cluster_tuning().min_global_imp_ratio == double(
            crate::postprocess::runs::TEXT_CARD_MIN_GLOBAL_IMP_RATIO,
        ),
        default_text_card_cluster_tuning().max_transient_delta_8bit == double(
            crate::postprocess::runs::TEXT_CARD_MAX_TRANSIENT_DELTA_8BIT,
        ),
        default_fast_motion_tuning().pair_max_gap == crate::postprocess::weak_cuts::FAST_MOTION_PAIR_MAX_GAP,
        default_fast_motion_tuning().pair_max_exit_gap == crate::postprocess::weak_cuts::FAST_MOTION_PAIR_MAX_EXIT_GAP,
        default_fast_motion_tuning().pair_min_previous_gap == crate::postprocess::weak_cuts::FAST_MOTION_PAIR_MIN_PREVIOUS_GAP,
        default_fast_motion_tuning().max_cost_ratio == double(
            crate::postprocess::weak_cuts::FAST_MOTION_MAX_COST_RATIO,
        ),
        default_fast_motion_tuning().min_global_imp_ratio == double(
            crate::postprocess::weak_cuts::FAST_MOTION_MIN_GLOBAL_IMP_RATIO,
        ),
        default_fast_motion_tuning().min_imp_ratio == double(
            crate::postprocess::weak_cuts::FAST_MOTION_MIN_IMP_RATIO,
        ),
        default_fast_motion_tuning().min_luma_8bit == double(
            crate::postprocess::weak_cuts::FAST_MOTION_MIN_LUMA_8BIT,
        ),
        default_fast_motion_tuning().min_transient_delta_8bit == double(
            crate::postprocess::weak_cuts::FAST_MOTION_MIN_TRANSIENT_DELTA_8BIT,
        ),
        default_fast_motion_tuning().exit_min_cost_ratio == double(
            crate::postprocess::weak_cuts::FAST_MOTION_EXIT_MIN_COST_RATIO,
        ),
        default_dark_occlusion_tuning().max_cost_ratio == double(
            crate::postprocess::weak_cuts::DARK_OCCLUSION_MAX_COST_RATIO,
        ),
        default_dark_occlusion_tuning().max_luma_8bit == double(
            crate::postprocess::weak_cuts::DARK_OCCLUSION_MAX_LUMA_8BIT,
        ),
        default_dark_occlusion_tuning().min_imp_ratio == double(
            crate::postprocess::weak_cuts::DARK_OCCLUSION_MIN_IMP_RATIO,
        ),
        default_dark_occlusion_tuning().min_global_imp_ratio == double(
            crate::postprocess::weak_cuts::DARK_OCCLUSION_MIN_GLOBAL_IMP_RATIO,
        ),
        default_dark_occlusion_tuning().min_bad_block_ratio == double(
            crate::postprocess::weak_cuts::DARK_OCCLUSION_MIN_BAD_BLOCK_RATIO,
        ),
        default_dark_occlusion_tuning().max_good_block_ratio == double(
            crate::postprocess::weak_cuts::DARK_OCCLUSION_MAX_GOOD_BLOCK_RATIO,
        ),
        default_dark_occlusion_tuning().max_transient_delta_8bit == double(
            crate::postprocess::weak_cuts::DARK_OCCLUSION_MAX_TRANSIENT_DELTA_8BIT,
        ),
        default_scene_peak_geometry_tuning().min_scene_len == crate::postprocess::peaks::SCENE_PEAK_MIN_SCENE_LEN,
        default_scene_peak_geometry_tuning().local_radius == crate::postprocess::peaks::SCENE_PEAK_LOCAL_RADIUS,
        default_scene_peak_geometry_tuning().density_radius == crate::postprocess::peaks::SCENE_PEAK_DENSITY_RADIUS,
        default_scene_peak_geometry_tuning().wide_density_radius == crate::postprocess::peaks::SCENE_PEAK_WIDE_DENSITY_RADIUS,
        default_scene_peak_geometry_tuning().max_local_cuts == crate::postprocess::peaks::SCENE_PEAK_MAX_LOCAL_CUTS,
        default_scene_peak_geometry_tuning().max_wide_cuts == crate::postprocess::peaks::SCENE_PEAK_MAX_WIDE_CUTS,
        default_scene_peak_geometry_tuning().max_adjacent_cost_ratio == double(
            crate::postprocess::peaks::SCENE_PEAK_MAX_ADJACENT_COST_RATIO,
        ),
        default_dark_scene_peak_tuning().min_cost_ratio == double(
            crate::postprocess::peaks::DARK_SCENE_PEAK_MIN_COST_RATIO,
        ),
        default_dark_scene_peak_tuning().max_cost_ratio == double(
            crate::postprocess::peaks::DARK_SCENE_PEAK_MAX_COST_RATIO,
        ),
        default_dark_scene_peak_tuning().max_luma_8bit == double(
            crate::postprocess::peaks::DARK_SCENE_PEAK_MAX_LUMA_8BIT,
        ),
        default_dark_scene_peak_tuning().min_imp_ratio == double(
            crate::postprocess::peaks::DARK_SCENE_PEAK_MIN_IMP_RATIO,
        ),
        default_dark_scene_peak_tuning().min_global_imp_ratio == double(
            crate::postprocess::peaks::DARK_SCENE_PEAK_MIN_GLOBAL_IMP_RATIO,
        ),
        default_dark_scene_peak_tuning().min_bad_block_ratio == double(
            crate::postprocess::peaks::DARK_SCENE_PEAK_MIN_BAD_BLOCK_RATIO,
        ),
        default_dark_scene_peak_tuning().max_good_block_ratio == double(
            crate::postprocess::peaks::DARK_SCENE_PEAK_MAX_GOOD_BLOCK_RATIO,
        ),
        default_sparse_scene_peak_tuning().min_cost_ratio == double(
            crate::postprocess::peaks::SPARSE_SCENE_PEAK_MIN_COST_RATIO,
        ),
        default_sparse_scene_peak_tuning().max_cost_ratio == double(
            crate::postprocess::peaks::SPARSE_SCENE_PEAK_MAX_COST_RATIO,
        ),
        default_sparse_scene_peak_tuning().max_luma_8bit == double(
            crate::postprocess::peaks::SPARSE_SCENE_PEAK_MAX_LUMA_8BIT,
        ),
        default_sparse_scene_peak_tuning().min_imp_ratio == double(
            crate::postprocess::peaks::SPARSE_SCENE_PEAK_MIN_IMP_RATIO,
        ),
        default_sparse_scene_peak_tuning().min_global_imp_ratio == double(
            crate::postprocess::peaks::SPARSE_SCENE_PEAK_MIN_GLOBAL_IMP_RATIO,
        ),
        default_sparse_scene_peak_tuning().min_bad_block_ratio == double(
            crate::postprocess::peaks::SPARSE_SCENE_PEAK_MIN_BAD_BLOCK_RATIO,
        ),
        default_sparse_scene_peak_tuning().max_good_block_ratio == double(
            crate::postprocess::peaks::SPARSE_SCENE_PEAK_MAX_GOOD_BLOCK_RATIO,
        ),
        default_refined_sparse_peak_tuning().min_distance == crate::postprocess::refined::REFINED_SPARSE_PEAK_MIN_DISTANCE,
        default_refined_sparse_peak_tuning().shift_max_distance == crate::postprocess::refined::REFINED_SPARSE_PEAK_SHIFT_MAX_DISTANCE,
        default_refined_sparse_peak_tuning().aba_max_segment_len == crate::postprocess::refined::REFINED_SPARSE_PEAK_ABA_MAX_SEGMENT_LEN,
        default_refined_sparse_peak_tuning().density_radius == crate::postprocess::peaks::SCENE_PEAK_DENSITY_RADIUS,
        default_refined_sparse_peak_tuning().wide_density_radius == crate::postprocess::peaks::SCENE_PEAK_WIDE_DENSITY_RADIUS,
        default_refined_sparse_peak_tuning().min_cost_ratio == double(
            crate::postprocess::peaks::REFINED_SPARSE_PEAK_MIN_COST_RATIO,
        ),
        default_refined_sparse_peak_tuning().max_cost_ratio == double(
            crate::postprocess::peaks::REFINED_SPARSE_PEAK_MAX_COST_RATIO,
        ),
        default_refined_sparse_peak_tuning().min_imp_ratio == double(
            crate::postprocess::peaks::REFINED_SPARSE_PEAK_MIN_IMP_RATIO,
        ),
        default_refined_sparse_peak_tuning().min_global_imp_ratio == double(
            crate::postprocess::peaks::REFINED_SPARSE_PEAK_MIN_GLOBAL_IMP_RATIO,
        ),
        default_refined_sparse_peak_tuning().min_luma_8bit == double(
            crate::postprocess::peaks::REFINED_SPARSE_PEAK_MIN_LUMA_8BIT,
        ),
        default_refined_sparse_peak_tuning().max_luma_8bit == double(
            crate::postprocess::peaks::REFINED_SPARSE_PEAK_MAX_LUMA_8BIT,
        ),
        default_refined_sparse_peak_tuning().min_bad_block_ratio == double(
            crate::postprocess::peaks::REFINED_SPARSE_PEAK_MIN_BAD_BLOCK_RATIO,
        ),
        default_refined_sparse_peak_tuning().max_good_block_ratio == double(
            crate::postprocess::peaks::REFINED_SPARSE_PEAK_MAX_GOOD_BLOCK_RATIO,
        ),
        default_refined_sparse_peak_tuning().max_local_cuts == crate::postprocess::peaks::REFINED_SPARSE_PEAK_MAX_LOCAL_CUTS,
        default_refined_sparse_peak_tuning().max_wide_cuts == crate::postprocess::peaks::REFINED_SPARSE_PEAK_MAX_WIDE_CUTS,
        default_aba_return_tuning().min_cost_ratio == double(
            crate::postprocess::aba_return::ABA_RETURN_MIN_COST_RATIO,
        ),
        default_aba_return_tuning().max_cost_ratio == double(
            crate::postprocess::aba_return::ABA_RETURN_MAX_COST_RATIO,
        ),
        default_aba_return_tuning().min_imp_ratio == double(
            crate::postprocess::aba_return::ABA_RETURN_MIN_IMP_RATIO,
        ),
        default_aba_return_tuning().min_global_imp_ratio == double(
            crate::postprocess::aba_return::ABA_RETURN_MIN_GLOBAL_IMP_RATIO,
        ),
        default_aba_return_tuning().max_luma_8bit == double(
            crate::postprocess::aba_return::ABA_RETURN_MAX_LUMA_8BIT,
        ),
        default_aba_return_tuning().max_good_block_ratio == double(
            crate::postprocess::aba_return::ABA_RETURN_MAX_GOOD_BLOCK_RATIO,
        ),
        default_aba_chain_tuning().min_segments == crate::postprocess::aba_chain::ABA_CHAIN_MIN_SEGMENTS,
        default_aba_chain_tuning().max_segment_extra == crate::postprocess::aba_chain::ABA_CHAIN_MAX_SEGMENT_EXTRA,
        default_aba_chain_tuning().min_hidden_cost_ratio == double(
            crate::postprocess::aba_chain::ABA_CHAIN_MIN_HIDDEN_COST_RATIO,
        ),
        default_aba_chain_tuning().max_hidden_cost_ratio == double(
            crate::postprocess::aba_chain::ABA_CHAIN_MAX_HIDDEN_COST_RATIO,
        ),
        default_aba_chain_tuning().min_hidden_imp_ratio == double(
            crate::postprocess::aba_chain::ABA_CHAIN_MIN_HIDDEN_IMP_RATIO,
        ),
        default_aba_chain_tuning().min_hidden_global_imp_ratio == double(
            crate::postprocess::aba_chain::ABA_CHAIN_MIN_HIDDEN_GLOBAL_IMP_RATIO,
        ),
        default_aba_chain_tuning().max_hidden_luma_8bit == double(
            crate::postprocess::aba_chain::ABA_CHAIN_MAX_HIDDEN_LUMA_8BIT,
        ),
        default_aba_chain_tuning().max_hidden_good_block_ratio == double(
            crate::postprocess::aba_chain::ABA_CHAIN_MAX_HIDDEN_GOOD_BLOCK_RATIO,
        ),
        default_forward_similarity_recovery_tuning().min_match_delta_8bit == double(
            crate::postprocess::recovery::FORWARD_SIMILARITY_RECOVERY_MIN_MATCH_DELTA_8BIT,
        ),
        default_forward_similarity_recovery_tuning().min_cost_ratio == double(
            crate::postprocess::recovery::FORWARD_SIMILARITY_RECOVERY_MIN_COST_RATIO,
        ),
        default_forward_similarity_recovery_tuning().min_imp_ratio == double(
            crate::postprocess::recovery::FORWARD_SIMILARITY_RECOVERY_MIN_IMP_RATIO,
        ),
        default_forward_similarity_recovery_tuning().min_global_imp_ratio == double(
            crate::postprocess::recovery::FORWARD_SIMILARITY_RECOVERY_MIN_GLOBAL_IMP_RATIO,
        ),
        default_forward_similarity_recovery_tuning().max_frames == crate::postprocess::recovery::FORWARD_SIMILARITY_RECOVERY_MAX_FRAMES,
        default_text_boundary_shift_tuning().min_forward_cost_ratio == double(
            crate::postprocess::text_boundary::TEXT_BOUNDARY_SHIFT_MIN_FORWARD_COST_RATIO,
        ),
        default_text_boundary_shift_tuning().min_forward_imp_ratio == double(
            crate::postprocess::text_boundary::TEXT_BOUNDARY_SHIFT_MIN_FORWARD_IMP_RATIO,
        ),
        default_text_boundary_shift_tuning().min_forward_global_imp_ratio == double(
            crate::postprocess::text_boundary::TEXT_BOUNDARY_SHIFT_MIN_FORWARD_GLOBAL_IMP_RATIO,
        ),
        default_text_boundary_shift_tuning().max_forward_luma_8bit == double(
            crate::postprocess::text_boundary::TEXT_BOUNDARY_SHIFT_MAX_FORWARD_LUMA_8BIT,
        ),
        default_text_boundary_shift_tuning().min_forward_bad_block_ratio == double(
            crate::postprocess::text_boundary::TEXT_BOUNDARY_SHIFT_MIN_FORWARD_BAD_BLOCK_RATIO,
        ),
        default_text_boundary_shift_tuning().max_forward_good_block_ratio == double(
            crate::postprocess::text_boundary::TEXT_BOUNDARY_SHIFT_MAX_FORWARD_GOOD_BLOCK_RATIO,
        ),
        default_text_boundary_shift_tuning().min_backward_imp_ratio == double(
            crate::postprocess::text_boundary::TEXT_BOUNDARY_SHIFT_MIN_BACKWARD_IMP_RATIO,
        ),
        default_text_boundary_shift_tuning().min_backward_global_imp_ratio == double(
            crate::postprocess::text_boundary::TEXT_BOUNDARY_SHIFT_MIN_BACKWARD_GLOBAL_IMP_RATIO,
        ),
        default_text_boundary_shift_tuning().max_backward_luma_8bit == double(
            crate::postprocess::text_boundary::TEXT_BOUNDARY_SHIFT_MAX_BACKWARD_LUMA_8BIT,
        ),
        default_text_boundary_shift_tuning().max_next_cost_ratio == double(
            crate::postprocess::text_boundary::TEXT_BOUNDARY_SHIFT_MAX_NEXT_COST_RATIO,
        ),
        default_text_boundary_shift_tuning().min_next_luma_8bit == double(
            crate::postprocess::text_boundary::TEXT_BOUNDARY_SHIFT_MIN_NEXT_LUMA_8BIT,
        ),
        default_static_credits_tuning().min_run_cuts == crate::postprocess::runs::STATIC_CREDITS_MIN_RUN_CUTS,
        default_static_credits_tuning().max_gap == crate::postprocess::runs::STATIC_CREDITS_MAX_GAP,
        default_static_credits_tuning().max_luma_8bit == double(
            crate::postprocess::runs::STATIC_CREDITS_MAX_LUMA_8BIT,
        ),
        default_static_credits_tuning().min_imp_ratio == double(
            crate::postprocess::runs::STATIC_CREDITS_MIN_IMP_RATIO,
        ),
        default_static_credits_tuning().min_global_imp_ratio == double(
            crate::postprocess::runs::STATIC_CREDITS_MIN_GLOBAL_IMP_RATIO,
        ),
        default_static_credits_tuning().min_good_block_ratio == double(
            crate::postprocess::runs::STATIC_CREDITS_MIN_GOOD_BLOCK_RATIO,
        ),
        default_static_credits_tuning().max_bad_block_ratio == double(
            crate::postprocess::runs::STATIC_CREDITS_MAX_BAD_BLOCK_RATIO,
        ),
{
}

} // verus!
