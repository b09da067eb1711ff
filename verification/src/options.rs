//! How detection is configured.

use vstd::prelude::*;
use crate::measure::{double, Measure};

verus! {

/// Options for opt-in parallel scene detection.
#[derive(Debug, Clone, Copy, PartialEq, Eq, Structural)]
pub struct ParallelDetectionOptions {
    /// Number of analysis workers. `0` picks a conservative automatic value;
    /// `1` disables parallel detection.
    pub workers: usize,
}

impl Default for ParallelDetectionOptions {
    fn default() -> (options: Self)
        ensures
            options.workers == 0,
    {
        ParallelDetectionOptions { workers: 0 }
    }
}

/// Specifies the scene detection algorithm to use.
#[derive(Clone, Copy, Debug, PartialEq, Eq, Structural)]
pub enum SceneDetectionSpeed {
    /// Fastest scene detection using pixel-wise comparison.
    Fast,
    /// Scene detection using frame costs and motion vectors.
    Standard,
    /// Cost-based detection with dark-scene and forward-similarity heuristics.
    High,
    /// Keyframes at fixed intervals only.
    Off,
}

/// How the fast detector threshold depends on bit depth.
#[derive(Debug, Clone, Copy, PartialEq, Eq, Structural)]
pub enum FastThresholdScale {
    Legacy,
    SampleRange,
}

/// How the importance threshold is calculated.
#[derive(Debug, Clone, Copy, PartialEq, Eq, Structural)]
pub enum ImportanceThresholdMode {
    Fixed,
    AdaptiveLuma,
}

/// How per-block importance deltas become one score.
#[derive(Debug, Clone, Copy, PartialEq, Eq, Structural)]
pub enum ImportanceAggregation {
    /// The mean over all blocks.
    Mean,
    /// The mean over the strongest blocks of three successive frames.
    TemporalTopBlocks {
        previous_percent: Measure,
        current_percent: Measure,
        next_percent: Measure,
    },
    /// The same, with the strongest blocks spread over regions.
    SpatialTemporalTopBlocks {
        previous_percent: Measure,
        current_percent: Measure,
        next_percent: Measure,
        region_cols: usize,
        region_rows: usize,
    },
}

/// Suppression of cuts after which the earlier scene returns.
#[derive(Debug, Clone, Copy, PartialEq, Eq, Structural)]
pub struct ForwardSimilarityOptions {
    /// Whether returns are looked for.
    pub enabled: bool,
    /// How many frames ahead a return is looked for.
    pub frames: usize,
    /// Frames that are compared on each side.
    pub window_frames: usize,
    /// Least offset of a return.
    pub min_offset: usize,
    /// Highest difference of a return.
    pub threshold_8bit: Measure,
    /// Shortest scene before a cut that can be suppressed.
    pub min_previous_scene_len: usize,
    /// Least cost ratio of a cut that can be suppressed.
    pub min_cut_cost_ratio: Measure,
    /// Highest difference of a return after a confident cut.
    pub relaxed_threshold_8bit: Measure,
    /// Cost ratio of a confident cut; 0 disables the rule.
    pub relaxed_min_cost_ratio: Measure,
    /// Cost ratio above which no cut is relaxed; 0 for no limit.
    pub relaxed_max_cost_ratio: Measure,
    /// Cost ratio of a confident cut made by importance.
    pub relaxed_importance_min_cost_ratio: Measure,
    /// Importance ratio of a confident cut made by importance.
    pub relaxed_min_imp_block_ratio: Measure,
    /// Cost ratio that a relaxed return candidate may always have.
    pub relaxed_max_return_cost_ratio: Measure,
    /// Multiple of the cut's cost ratio that a relaxed return candidate may have.
    pub relaxed_max_return_cost_ratio_multiplier: Measure,
    /// Whether a strict flash needs no return candidate.
    pub flash_return_without_candidate: bool,
    /// Longest offset of such a flash.
    pub flash_return_frames: usize,
    /// Least cost ratio of such a flash.
    pub flash_return_min_cost_ratio: Measure,
    /// Share of blocks that is masked in a comparison.
    pub mask_percent: Measure,
    /// Columns of mask regions.
    pub mask_region_cols: usize,
    /// Rows of mask regions.
    pub mask_region_rows: usize,
    /// Weight of chroma in a comparison.
    pub chroma_weight: Measure,
    /// Whether a return needs a cut candidate of its own.
    pub require_return_candidate: bool,
    /// Whether cuts inside a suppressed scene are suppressed too.
    pub suppress_inside: bool,
}

/// Suppression of cuts into a short transient.
#[derive(Debug, Clone, Copy, PartialEq, Eq, Structural)]
pub struct TransientSimilarityOptions {
    /// Whether transients are looked for.
    pub enabled: bool,
    /// How many frames ahead a transient may end.
    pub frames: usize,
    /// Highest difference across a transient.
    pub threshold_8bit: Measure,
    /// The same in dark scenes.
    pub dark_threshold_8bit: Measure,
    /// Luma below which a scene counts as fully dark.
    pub dark_luma_low_8bit: Measure,
    /// Luma above which a scene counts as bright.
    pub dark_luma_high_8bit: Measure,
    /// Share of blocks that is masked in a comparison.
    pub mask_percent: Measure,
}

/// Internal scene detection tuning knobs.
#[derive(Debug, Clone, Copy, PartialEq, Eq, Structural)]
pub struct DetectionTuning {
    /// How the fast detector threshold scales with bit depth.
    pub fast_threshold_scale: FastThresholdScale,
    /// Fast detector threshold in 8-bit luma units.
    pub fast_threshold_8bit: Measure,
    /// How the importance threshold is calculated.
    pub importance_mode: ImportanceThresholdMode,
    /// Base importance threshold in 8-bit luma units.
    pub importance_threshold_8bit: Measure,
    /// Lowest multiplier of the importance threshold in dark scenes.
    pub importance_min_factor: Measure,
    /// Luma at which the adaptive importance threshold is the full one.
    pub importance_luma_ref_8bit: Measure,
    /// How per-block importance deltas are aggregated.
    pub importance_aggregation: ImportanceAggregation,
    /// Cost ratio at which a cut needs no importance.
    pub strong_cut_ratio: Option<Measure>,
    /// Importance ratio at which importance alone makes a cut.
    pub importance_cut_ratio: Option<Measure>,
    /// Least cost ratio of a cut made by importance.
    pub importance_cut_min_cost_ratio: Measure,
    /// Highest luma of a cut made by importance.
    pub importance_cut_max_luma_8bit: Option<Measure>,
    /// Highest cost ratio of such a cut in a bright frame; 0 for no limit.
    pub importance_cut_bright_max_cost_ratio: Measure,
    /// Lower importance ratio accepted after quiet blocks.
    pub importance_cut_relaxed_ratio: Option<Measure>,
    /// Most that dark scenes take off the relaxed ratio.
    pub importance_cut_dark_ratio_boost: Measure,
    /// Lowest relaxed ratio in dark scenes.
    pub importance_cut_dark_min_ratio: Measure,
    /// Luma below which a scene counts as fully dark.
    pub importance_cut_dark_luma_low_8bit: Measure,
    /// Luma above which a scene counts as bright.
    pub importance_cut_dark_luma_high_8bit: Measure,
    /// Least cost ratio of a relaxed cut.
    pub importance_cut_relaxed_min_cost_ratio: Measure,
    /// Highest importance ratio of the frame before a relaxed cut.
    pub importance_cut_relaxed_max_previous_ratio: Measure,
    /// Motion residual coverage that supports a relaxed cut.
    pub importance_cut_min_me_bad_ratio: Measure,
    /// Highest share of well matched blocks in a cut made by importance; 0 for no limit.
    pub importance_cut_max_me_good_ratio: Measure,
    /// Suppression of scenes that return.
    pub forward_similarity: ForwardSimilarityOptions,
    /// Suppression of short transients.
    pub transient_similarity: TransientSimilarityOptions,
    /// Whether motion-compensated costs are computed for diagnostics.
    pub motion_cost_diagnostics: bool,
}

/// Options determining how to run scene change detection.
#[derive(Debug, Clone, Copy, PartialEq, Eq, Structural)]
pub struct DetectionOptions {
    /// The algorithm.
    pub analysis_speed: SceneDetectionSpeed,
    /// Whether cuts that are too close to each other are avoided.
    pub detect_flashes: bool,
    /// The minimum distance between two scene changes.
    pub min_scenecut_distance: Option<usize>,
    /// The maximum distance between two scene changes.
    pub max_scenecut_distance: Option<usize>,
    /// The distance to look ahead for flashes and returning scenes.
    pub lookahead_distance: usize,
    /// Tuning of the detector internals.
    pub tuning: DetectionTuning,
    /// Number of workers from which frame costs are no longer computed in
    /// parallel; `0` keeps them parallel.
    pub disable_rayon_on_workers: usize,
}

/// Forward similarity switched off.
pub open spec fn default_forward_similarity() -> ForwardSimilarityOptions {
    ForwardSimilarityOptions {
        enabled: false,
        frames: 0,
        window_frames: 1,
        min_offset: 2,
        threshold_8bit: double(0x4018_0000_0000_0000),
        min_previous_scene_len: 0,
        min_cut_cost_ratio: double(0x0000_0000_0000_0000),
        relaxed_threshold_8bit: double(0x0000_0000_0000_0000),
        relaxed_min_cost_ratio: double(0x0000_0000_0000_0000),
        relaxed_max_cost_ratio: double(0x0000_0000_0000_0000),
        relaxed_importance_min_cost_ratio: double(0x0000_0000_0000_0000),
        relaxed_min_imp_block_ratio: double(0x0000_0000_0000_0000),
        relaxed_max_return_cost_ratio: double(0x0000_0000_0000_0000),
        relaxed_max_return_cost_ratio_multiplier: double(0x0000_0000_0000_0000),
        flash_return_without_candidate: false,
        flash_return_frames: 0,
        flash_return_min_cost_ratio: double(0x0000_0000_0000_0000),
        mask_percent: double(0x0000_0000_0000_0000),
        mask_region_cols: 1,
        mask_region_rows: 1,
        chroma_weight: double(0x0000_0000_0000_0000),
        require_return_candidate: false,
        suppress_inside: false,
    }
}

/// Transient similarity switched off.
pub open spec fn default_transient_similarity() -> TransientSimilarityOptions {
    TransientSimilarityOptions {
        enabled: false,
        frames: 0,
        threshold_8bit: double(0x4018_0000_0000_0000),
        dark_threshold_8bit: double(0x4018_0000_0000_0000),
        dark_luma_low_8bit: double(0x4039_0000_0000_0000),
        dark_luma_high_8bit: double(0x404E_0000_0000_0000),
        mask_percent: double(0x3FC9_9999_9999_999A),
    }
}

/// The tuning of the standard detector.
pub open spec fn default_tuning() -> DetectionTuning {
    DetectionTuning {
        fast_threshold_scale: FastThresholdScale::Legacy,
        fast_threshold_8bit: double(0x4032_0000_0000_0000),
        importance_mode: ImportanceThresholdMode::Fixed,
        importance_threshold_8bit: double(0x401C_0000_0000_0000),
        importance_min_factor: double(0x3FF0_0000_0000_0000),
        importance_luma_ref_8bit: double(0x4050_0000_0000_0000),
        importance_aggregation: ImportanceAggregation::Mean,
        strong_cut_ratio: None,
        importance_cut_ratio: None,
        importance_cut_min_cost_ratio: double(0x0000_0000_0000_0000),
        importance_cut_max_luma_8bit: None,
        importance_cut_bright_max_cost_ratio: double(0x0000_0000_0000_0000),
        importance_cut_relaxed_ratio: None,
        importance_cut_dark_ratio_boost: double(0x0000_0000_0000_0000),
        importance_cut_dark_min_ratio: double(0x0000_0000_0000_0000),
        importance_cut_dark_luma_low_8bit: double(0x4039_0000_0000_0000),
        importance_cut_dark_luma_high_8bit: double(0x404E_0000_0000_0000),
        importance_cut_relaxed_min_cost_ratio: double(0x0000_0000_0000_0000),
        importance_cut_relaxed_max_previous_ratio: double(0x4001_9999_9999_999A),
        importance_cut_min_me_bad_ratio: double(0x0000_0000_0000_0000),
        importance_cut_max_me_good_ratio: double(0x0000_0000_0000_0000),
        forward_similarity: default_forward_similarity(),
        transient_similarity: default_transient_similarity(),
        motion_cost_diagnostics: false,
    }
}

/// The tuning of the high quality detector.
pub open spec fn high_quality_tuning() -> DetectionTuning {
    DetectionTuning {
        fast_threshold_scale: FastThresholdScale::SampleRange,
        importance_mode: ImportanceThresholdMode::AdaptiveLuma,
        importance_min_factor: double(0x3FD6_6666_6666_6666),
        importance_aggregation: ImportanceAggregation::SpatialTemporalTopBlocks {
     previous_percent: double(0x3FB9_9999_9999_999A),
     current_percent: double(0x3FC3_3333_3333_3333),
     next_percent: double(0x3FB9_9999_9999_999A),
     region_cols: 8,
     region_rows: 4,
     },
        strong_cut_ratio: Some(double(0x4004_0000_0000_0000)),
        importance_cut_ratio: Some(double(0x4009_9999_9999_999A)),
        importance_cut_min_cost_ratio: double(0x3FC9_9999_9999_999A),
        importance_cut_max_luma_8bit: Some(double(0x4050_0000_0000_0000)),
        importance_cut_bright_max_cost_ratio: double(0x3FEC_CCCC_CCCC_CCCD),
        importance_cut_relaxed_ratio: Some(double(0x4008_0000_0000_0000)),
        importance_cut_dark_ratio_boost: double(0x3FE4_CCCC_CCCC_CCCD),
        importance_cut_dark_min_ratio: double(0x4002_CCCC_CCCC_CCCD),
        importance_cut_dark_luma_low_8bit: double(0x4039_0000_0000_0000),
        importance_cut_dark_luma_high_8bit: double(0x404E_0000_0000_0000),
        importance_cut_relaxed_min_cost_ratio: double(0x3FB4_7AE1_47AE_147B),
        importance_cut_relaxed_max_previous_ratio: double(0x4001_9999_9999_999A),
        importance_cut_min_me_bad_ratio: double(0x3FC3_3333_3333_3333),
        importance_cut_max_me_good_ratio: double(0x3FA9_9999_9999_999A),
        forward_similarity: ForwardSimilarityOptions {
        enabled: true,
        frames: 80,
        window_frames: 3,
        min_offset: 4,
        threshold_8bit: double(0x4018_0000_0000_0000),
        min_previous_scene_len: 24,
        min_cut_cost_ratio: double(0x3FBE_B851_EB85_1EB8),
        relaxed_threshold_8bit: double(0x4021_0000_0000_0000),
        relaxed_min_cost_ratio: double(0x3FF0_0000_0000_0000),
        relaxed_max_cost_ratio: double(0x4008_0000_0000_0000),
        relaxed_importance_min_cost_ratio: double(0x3FDC_CCCC_CCCC_CCCD),
        relaxed_min_imp_block_ratio: double(0x400C_CCCC_CCCC_CCCD),
        relaxed_max_return_cost_ratio: double(0x4004_0000_0000_0000),
        relaxed_max_return_cost_ratio_multiplier: double(0x4010_0000_0000_0000),
        flash_return_without_candidate: true,
        flash_return_frames: 40,
        flash_return_min_cost_ratio: double(0x3FF0_0000_0000_0000),
        mask_percent: double(0x3FC9_9999_9999_999A),
        mask_region_cols: 8,
        mask_region_rows: 4,
        chroma_weight: double(0x3FD0_0000_0000_0000),
        require_return_candidate: true,
        suppress_inside: true,
    },
        transient_similarity: TransientSimilarityOptions {
        enabled: true,
        frames: 10,
        threshold_8bit: double(0x4018_0000_0000_0000),
        dark_threshold_8bit: double(0x4010_0000_0000_0000),
        dark_luma_low_8bit: double(0x4039_0000_0000_0000),
        dark_luma_high_8bit: double(0x404E_0000_0000_0000),
        mask_percent: double(0x3FC9_9999_9999_999A),
    },
        ..default_tuning()
    }
}

/// The options of the standard detector.
pub open spec fn default_detection() -> DetectionOptions {
    DetectionOptions {
        analysis_speed: SceneDetectionSpeed::Standard,
        detect_flashes: true,
        lookahead_distance: 5,
        min_scenecut_distance: None,
        max_scenecut_distance: None,
        tuning: default_tuning(),
        disable_rayon_on_workers: 0,
    }
}

impl Default for ForwardSimilarityOptions {
    fn default() -> (value: Self)
        ensures
            value == default_forward_similarity(),
    {
        ForwardSimilarityOptions {
            enabled: false,
            frames: 0,
            window_frames: 1,
            min_offset: 2,
            threshold_8bit: double(0x4018_0000_0000_0000),
            min_previous_scene_len: 0,
            min_cut_cost_ratio: double(0x0000_0000_0000_0000),
            relaxed_threshold_8bit: double(0x0000_0000_0000_0000),
            relaxed_min_cost_ratio: double(0x0000_0000_0000_0000),
            relaxed_max_cost_ratio: double(0x0000_0000_0000_0000),
            relaxed_importance_min_cost_ratio: double(0x0000_0000_0000_0000),
            relaxed_min_imp_block_ratio: double(0x0000_0000_0000_0000),
            relaxed_max_return_cost_ratio: double(0x0000_0000_0000_0000),
            relaxed_max_return_cost_ratio_multiplier: double(0x0000_0000_0000_0000),
            flash_return_without_candidate: false,
            flash_return_frames: 0,
            flash_return_min_cost_ratio: double(0x0000_0000_0000_0000),
            mask_percent: double(0x0000_0000_0000_0000),
            mask_region_cols: 1,
            mask_region_rows: 1,
            chroma_weight: double(0x0000_0000_0000_0000),
            require_return_candidate: false,
            suppress_inside: false,
        }
    }
}

impl Default for TransientSimilarityOptions {
    fn default() -> (value: Self)
        ensures
            value == default_transient_similarity(),
    {
        TransientSimilarityOptions {
            enabled: false,
            frames: 0,
            threshold_8bit: double(0x4018_0000_0000_0000),
            dark_threshold_8bit: double(0x4018_0000_0000_0000),
            dark_luma_low_8bit: double(0x4039_0000_0000_0000),
            dark_luma_high_8bit: double(0x404E_0000_0000_0000),
            mask_percent: double(0x3FC9_9999_9999_999A),
        }
    }
}

impl Default for DetectionTuning {
    fn default() -> (value: Self)
        ensures
            value == default_tuning(),
    {
        DetectionTuning {
            fast_threshold_scale: FastThresholdScale::Legacy,
            fast_threshold_8bit: double(0x4032_0000_0000_0000),
            importance_mode: ImportanceThresholdMode::Fixed,
            importance_threshold_8bit: double(0x401C_0000_0000_0000),
            importance_min_factor: double(0x3FF0_0000_0000_0000),
            importance_luma_ref_8bit: double(0x4050_0000_0000_0000),
            importance_aggregation: ImportanceAggregation::Mean,
            strong_cut_ratio: None,
            importance_cut_ratio: None,
            importance_cut_min_cost_ratio: double(0x0000_0000_0000_0000),
            importance_cut_max_luma_8bit: None,
            importance_cut_bright_max_cost_ratio: double(0x0000_0000_0000_0000),
            importance_cut_relaxed_ratio: None,
            importance_cut_dark_ratio_boost: double(0x0000_0000_0000_0000),
            importance_cut_dark_min_ratio: double(0x0000_0000_0000_0000),
            importance_cut_dark_luma_low_8bit: double(0x4039_0000_0000_0000),
            importance_cut_dark_luma_high_8bit: double(0x404E_0000_0000_0000),
            importance_cut_relaxed_min_cost_ratio: double(0x0000_0000_0000_0000),
            importance_cut_relaxed_max_previous_ratio: double(0x4001_9999_9999_999A),
            importance_cut_min_me_bad_ratio: double(0x0000_0000_0000_0000),
            importance_cut_max_me_good_ratio: double(0x0000_0000_0000_0000),
            forward_similarity: ForwardSimilarityOptions::default(),
            transient_similarity: TransientSimilarityOptions::default(),
            motion_cost_diagnostics: false,
        }
    }
}

impl DetectionTuning {
    /// Tuning preset used by [`DetectionOptions::high_quality`].
    #[must_use]
    pub fn high_quality() -> (tuning: Self)
        ensures
            tuning == high_quality_tuning(),
    {
        DetectionTuning {
            fast_threshold_scale: FastThresholdScale::SampleRange,
            importance_mode: ImportanceThresholdMode::AdaptiveLuma,
            importance_min_factor: double(0x3FD6_6666_6666_6666),
            importance_aggregation: ImportanceAggregation::SpatialTemporalTopBlocks {
         previous_percent: double(0x3FB9_9999_9999_999A),
         current_percent: double(0x3FC3_3333_3333_3333),
         next_percent: double(0x3FB9_9999_9999_999A),
         region_cols: 8,
         region_rows: 4,
         },
            strong_cut_ratio: Some(double(0x4004_0000_0000_0000)),
            importance_cut_ratio: Some(double(0x4009_9999_9999_999A)),
            importance_cut_min_cost_ratio: double(0x3FC9_9999_9999_999A),
            importance_cut_max_luma_8bit: Some(double(0x4050_0000_0000_0000)),
            importance_cut_bright_max_cost_ratio: double(0x3FEC_CCCC_CCCC_CCCD),
            importance_cut_relaxed_ratio: Some(double(0x4008_0000_0000_0000)),
            importance_cut_dark_ratio_boost: double(0x3FE4_CCCC_CCCC_CCCD),
            importance_cut_dark_min_ratio: double(0x4002_CCCC_CCCC_CCCD),
            importance_cut_dark_luma_low_8bit: double(0x4039_0000_0000_0000),
            importance_cut_dark_luma_high_8bit: double(0x404E_0000_0000_0000),
            importance_cut_relaxed_min_cost_ratio: double(0x3FB4_7AE1_47AE_147B),
            importance_cut_relaxed_max_previous_ratio: double(0x4001_9999_9999_999A),
            importance_cut_min_me_bad_ratio: double(0x3FC3_3333_3333_3333),
            importance_cut_max_me_good_ratio: double(0x3FA9_9999_9999_999A),
            forward_similarity: ForwardSimilarityOptions {
            enabled: true,
            frames: 80,
            window_frames: 3,
            min_offset: 4,
            threshold_8bit: double(0x4018_0000_0000_0000),
            min_previous_scene_len: 24,
            min_cut_cost_ratio: double(0x3FBE_B851_EB85_1EB8),
            relaxed_threshold_8bit: double(0x4021_0000_0000_0000),
            relaxed_min_cost_ratio: double(0x3FF0_0000_0000_0000),
            relaxed_max_cost_ratio: double(0x4008_0000_0000_0000),
            relaxed_importance_min_cost_ratio: double(0x3FDC_CCCC_CCCC_CCCD),
            relaxed_min_imp_block_ratio: double(0x400C_CCCC_CCCC_CCCD),
            relaxed_max_return_cost_ratio: double(0x4004_0000_0000_0000),
            relaxed_max_return_cost_ratio_multiplier: double(0x4010_0000_0000_0000),
            flash_return_without_candidate: true,
            flash_return_frames: 40,
            flash_return_min_cost_ratio: double(0x3FF0_0000_0000_0000),
            mask_percent: double(0x3FC9_9999_9999_999A),
            mask_region_cols: 8,
            mask_region_rows: 4,
            chroma_weight: double(0x3FD0_0000_0000_0000),
            require_return_candidate: true,
            suppress_inside: true,
        },
            transient_similarity: TransientSimilarityOptions {
            enabled: true,
            frames: 10,
            threshold_8bit: double(0x4018_0000_0000_0000),
            dark_threshold_8bit: double(0x4010_0000_0000_0000),
            dark_luma_low_8bit: double(0x4039_0000_0000_0000),
            dark_luma_high_8bit: double(0x404E_0000_0000_0000),
            mask_percent: double(0x3FC9_9999_9999_999A),
        },
            ..DetectionTuning::default()
        }
    }
}

impl Default for DetectionOptions {
    fn default() -> (options: Self)
        ensures
            options == default_detection(),
    {
        DetectionOptions {
            analysis_speed: SceneDetectionSpeed::Standard,
            detect_flashes: true,
            lookahead_distance: 5,
            min_scenecut_distance: None,
            max_scenecut_distance: None,
            tuning: DetectionTuning::default(),
            disable_rayon_on_workers: 0,
        }
    }
}

/// The larger of two numbers.
pub open spec fn larger(a: int, b: int) -> int {
    if a >= b {
        a
    } else {
        b
    }
}

impl ForwardSimilarityOptions {
    /// How far ahead a comparison may reach: the last return plus the rest of
    /// its window.
    pub open spec fn reach(self) -> int {
        self.frames + larger(self.window_frames - 1, 0)
    }
}

impl DetectionOptions {
    /// A preset intended for difficult content such as HDR, dark-to-dark cuts
    /// and short transient scenes.
    #[must_use]
    pub fn high_quality() -> (options: Self)
        ensures
            options == (DetectionOptions {
                analysis_speed: SceneDetectionSpeed::High,
                lookahead_distance: 24,
                tuning: high_quality_tuning(),
                ..default_detection()
            }),
    {
        DetectionOptions {
            analysis_speed: SceneDetectionSpeed::High,
            lookahead_distance: 24,
            tuning: DetectionTuning::high_quality(),
            ..DetectionOptions::default()
        }
    }

    /// How many frames ahead the enabled rules look.
    pub open spec fn required_lookahead(self) -> int {
        let flash = if self.detect_flashes {
            self.lookahead_distance as int
        } else {
            1
        };
        let forward = if self.tuning.forward_similarity.enabled {
            self.tuning.forward_similarity.reach()
        } else {
            0
        };
        let transient = if self.tuning.transient_similarity.enabled {
            self.tuning.transient_similarity.frames as int
        } else {
            0
        };
        larger(flash, larger(forward, transient))
    }

    /// Returns the lookahead distance actually required by the selected
    /// flash-detection and similarity settings. A distance past the largest
    /// machine number is cut to it.
    #[must_use]
    pub fn effective_lookahead_distance(&self) -> (distance: usize)
        ensures
            distance == if self.required_lookahead() <= usize::MAX {
                self.required_lookahead()
            } else {
                usize::MAX as int
            },
    {
        let mut distance: usize = if self.detect_flashes {
            self.lookahead_distance
        } else {
            1
        };
        if self.tuning.forward_similarity.enabled {
            let reach: usize = self.tuning.forward_similarity.frames.saturating_add(
                self.tuning.forward_similarity.window_frames.saturating_sub(1),
            );
            if reach > distance {
                distance = reach;
            }
        }
        if self.tuning.transient_similarity.enabled && self.tuning.transient_similarity.frames
            > distance {
            distance = self.tuning.transient_similarity.frames;
        }
        distance
    }
}

/// Where forward similarity is enabled, the required lookahead covers its whole
/// window, whatever the other settings are; and it never falls below the
/// lookahead of flash detection.
pub proof fn lookahead_covers_every_enabled_rule(options: DetectionOptions)
    ensures
        options.tuning.forward_similarity.enabled ==> options.required_lookahead()
            >= options.tuning.forward_similarity.reach(),
        options.tuning.transient_similarity.enabled ==> options.required_lookahead()
            >= options.tuning.transient_similarity.frames,
        options.detect_flashes ==> options.required_lookahead() >= options.lookahead_distance,
{
}

} // verus!
