//! Overrides of selected options, and how they are written.

use vstd::prelude::*;
use crate::measure::Measure;
use crate::options::{DetectionOptions, DetectionTuning, FastThresholdScale};
use crate::options::{ForwardSimilarityOptions, TransientSimilarityOptions};

verus! {

/// A controlled, typed override for scene detection internals.
///
/// This intentionally exposes only selected tuning switches instead of making
/// arbitrary internal fields configurable.
#[derive(Debug, Clone, Copy, PartialEq, Eq, Structural)]
pub enum DetectionOptionOverride {
    /// Enables or disables short flash suppression.
    FlashDetection(bool),
    /// Sets the base lookahead distance.
    Lookahead(usize),
    /// Selects how the fast detector threshold scales with bit depth.
    FastThresholdScale(FastThresholdScale),
    /// Enables or disables forward A-B-A similarity suppression.
    ForwardSimilarity(bool),
    /// Sets how many future frames forward similarity may inspect.
    ForwardSimilarityFrames(usize),
    /// Sets the minimum forward offset accepted as a return frame.
    ForwardSimilarityMinOffset(usize),
    /// Sets the accepted forward similarity luma delta in 8-bit units.
    ForwardSimilarityThreshold(Measure),
    /// Sets the fraction of volatile blocks masked from forward similarity.
    ForwardSimilarityMaskPercent(Measure),
    /// Requires a plausible future cut candidate before accepting a return.
    ForwardSimilarityRequireReturnCandidate(bool),
    /// Suppresses additional cuts until the matched forward return frame.
    ForwardSimilaritySuppressInside(bool),
    /// Enables or disables two-sided transient similarity suppression.
    TransientSimilarity(bool),
    /// Sets how many frames on each side transient similarity may inspect.
    TransientSimilarityFrames(usize),
    /// Sets the transient similarity threshold in 8-bit luma units.
    TransientSimilarityThreshold(Measure),
    /// Sets the dark-scene transient similarity threshold in 8-bit luma units.
    TransientSimilarityDarkThreshold(Measure),
    /// Sets the fraction of volatile blocks masked from transient similarity.
    TransientSimilarityMaskPercent(Measure),
}

impl ForwardSimilarityOptions {
    /// The options with one override.
    pub open spec fn overridden(self, option: DetectionOptionOverride) -> ForwardSimilarityOptions {
        match option {
            DetectionOptionOverride::ForwardSimilarity(enabled) => ForwardSimilarityOptions {
                enabled,
                ..self
            },
            DetectionOptionOverride::ForwardSimilarityFrames(frames) => ForwardSimilarityOptions {
                frames,
                ..self
            },
            DetectionOptionOverride::ForwardSimilarityMinOffset(min_offset) =>
                ForwardSimilarityOptions { min_offset, ..self },
            DetectionOptionOverride::ForwardSimilarityThreshold(threshold_8bit) =>
                ForwardSimilarityOptions { threshold_8bit, ..self },
            DetectionOptionOverride::ForwardSimilarityMaskPercent(mask_percent) =>
                ForwardSimilarityOptions { mask_percent, ..self },
            DetectionOptionOverride::ForwardSimilarityRequireReturnCandidate(required) =>
                ForwardSimilarityOptions { require_return_candidate: required, ..self },
            DetectionOptionOverride::ForwardSimilaritySuppressInside(suppress_inside) =>
                ForwardSimilarityOptions { suppress_inside, ..self },
            _ => self,
        }
    }
}

impl TransientSimilarityOptions {
    /// The options with one override.
    pub open spec fn overridden(
        self,
        option: DetectionOptionOverride,
    ) -> TransientSimilarityOptions {
        match option {
            DetectionOptionOverride::TransientSimilarity(enabled) => TransientSimilarityOptions {
                enabled,
                ..self
            },
            DetectionOptionOverride::TransientSimilarityFrames(frames) =>
                TransientSimilarityOptions { frames, ..self },
            DetectionOptionOverride::TransientSimilarityThreshold(threshold_8bit) =>
                TransientSimilarityOptions { threshold_8bit, ..self },
            DetectionOptionOverride::TransientSimilarityDarkThreshold(dark_threshold_8bit) =>
                TransientSimilarityOptions { dark_threshold_8bit, ..self },
            DetectionOptionOverride::TransientSimilarityMaskPercent(mask_percent) =>
                TransientSimilarityOptions { mask_percent, ..self },
            _ => self,
        }
    }
}

impl DetectionOptions {
    /// The options with one override.
    pub open spec fn overridden(self, option: DetectionOptionOverride) -> DetectionOptions {
        DetectionOptions {
            detect_flashes: match option {
                DetectionOptionOverride::FlashDetection(enabled) => enabled,
                _ => self.detect_flashes,
            },
            lookahead_distance: match option {
                DetectionOptionOverride::Lookahead(frames) => frames,
                _ => self.lookahead_distance,
            },
            tuning: DetectionTuning {
                fast_threshold_scale: match option {
                    DetectionOptionOverride::FastThresholdScale(scale) => scale,
                    _ => self.tuning.fast_threshold_scale,
                },
                forward_similarity: self.tuning.forward_similarity.overridden(option),
                transient_similarity: self.tuning.transient_similarity.overridden(option),
                ..self.tuning
            },
            ..self
        }
    }

    /// The options with several overrides, in order.
    pub open spec fn overridden_by(self, options: Seq<DetectionOptionOverride>) -> DetectionOptions
        decreases options.len(),
    {
        if options.len() == 0 {
            self
        } else {
            self.overridden_by(options.drop_last()).overridden(options.last())
        }
    }

    /// Applies one controlled scene detection option override.
    pub fn apply_override(&mut self, option: DetectionOptionOverride)
        ensures
            *final(self) == old(self).overridden(option),
    {
        match option {
            DetectionOptionOverride::FlashDetection(enabled) => {
                self.detect_flashes = enabled;
            },
            DetectionOptionOverride::Lookahead(frames) => {
                self.lookahead_distance = frames;
            },
            DetectionOptionOverride::FastThresholdScale(scale) => {
                self.tuning.fast_threshold_scale = scale;
            },
            DetectionOptionOverride::ForwardSimilarity(enabled) => {
                self.tuning.forward_similarity.enabled = enabled;
            },
            DetectionOptionOverride::ForwardSimilarityFrames(frames) => {
                self.tuning.forward_similarity.frames = frames;
            },
            DetectionOptionOverride::ForwardSimilarityMinOffset(offset) => {
                self.tuning.forward_similarity.min_offset = offset;
            },
            DetectionOptionOverride::ForwardSimilarityThreshold(threshold) => {
                self.tuning.forward_similarity.threshold_8bit = threshold;
            },
            DetectionOptionOverride::ForwardSimilarityMaskPercent(percent) => {
                self.tuning.forward_similarity.mask_percent = percent;
            },
            DetectionOptionOverride::ForwardSimilarityRequireReturnCandidate(required) => {
                self.tuning.forward_similarity.require_return_candidate = required;
            },
            DetectionOptionOverride::ForwardSimilaritySuppressInside(enabled) => {
                self.tuning.forward_similarity.suppress_inside = enabled;
            },
            DetectionOptionOverride::TransientSimilarity(enabled) => {
                self.tuning.transient_similarity.enabled = enabled;
            },
            DetectionOptionOverride::TransientSimilarityFrames(frames) => {
                self.tuning.transient_similarity.frames = frames;
            },
            DetectionOptionOverride::TransientSimilarityThreshold(threshold) => {
                self.tuning.transient_similarity.threshold_8bit = threshold;
            },
            DetectionOptionOverride::TransientSimilarityDarkThreshold(threshold) => {
                self.tuning.transient_similarity.dark_threshold_8bit = threshold;
            },
            DetectionOptionOverride::TransientSimilarityMaskPercent(percent) => {
                self.tuning.transient_similarity.mask_percent = percent;
            },
        }
    }

    /// Applies controlled scene detection option overrides in order.
    pub fn apply_overrides(&mut self, options: &[DetectionOptionOverride])
        ensures
            *final(self) == old(self).overridden_by(options@),
    {
        let ghost start = *self;
        for index in 0..options.len()
            invariant
                *self == start.overridden_by(options@.take(index as int)),
        {
            assert(options@.take(index + 1).drop_last() =~= options@.take(index as int));
            self.apply_override(options[index]);
        }
        assert(options@.take(options.len() as int) =~= options@);
    }
}

/// Whether two overrides set the same option.
pub open spec fn same_option(
    first: DetectionOptionOverride,
    second: DetectionOptionOverride,
) -> bool {
    match first {
        DetectionOptionOverride::FlashDetection(_) => second is FlashDetection,
        DetectionOptionOverride::Lookahead(_) => second is Lookahead,
        DetectionOptionOverride::FastThresholdScale(_) => second is FastThresholdScale,
        DetectionOptionOverride::ForwardSimilarity(_) => second is ForwardSimilarity,
        DetectionOptionOverride::ForwardSimilarityFrames(_) => second is ForwardSimilarityFrames,
        DetectionOptionOverride::ForwardSimilarityMinOffset(_) => second is ForwardSimilarityMinOffset,
        DetectionOptionOverride::ForwardSimilarityThreshold(_) => second is ForwardSimilarityThreshold,
        DetectionOptionOverride::ForwardSimilarityMaskPercent(_) => second is ForwardSimilarityMaskPercent,
        DetectionOptionOverride::ForwardSimilarityRequireReturnCandidate(_) => second is ForwardSimilarityRequireReturnCandidate,
        DetectionOptionOverride::ForwardSimilaritySuppressInside(_) => second is ForwardSimilaritySuppressInside,
        DetectionOptionOverride::TransientSimilarity(_) => second is TransientSimilarity,
        DetectionOptionOverride::TransientSimilarityFrames(_) => second is TransientSimilarityFrames,
        DetectionOptionOverride::TransientSimilarityThreshold(_) => second is TransientSimilarityThreshold,
        DetectionOptionOverride::TransientSimilarityDarkThreshold(_) => second is TransientSimilarityDarkThreshold,
        DetectionOptionOverride::TransientSimilarityMaskPercent(_) => second is TransientSimilarityMaskPercent,
    }
}

/// Of two overrides of the same option the later one counts.
pub proof fn later_override_wins(
    options: DetectionOptions,
    first: DetectionOptionOverride,
    second: DetectionOptionOverride,
)
    requires
        same_option(first, second),
    ensures
        options.overridden(first).overridden(second) == options.overridden(second),
{
}

/// Overrides of different options can be applied in either order.
pub proof fn different_overrides_commute(
    options: DetectionOptions,
    first: DetectionOptionOverride,
    second: DetectionOptionOverride,
)
    requires
        !same_option(first, second),
    ensures
        options.overridden(first).overridden(second) == options.overridden(second).overridden(
            first,
        ),
{
}

/// An override sets the option that it names to its value, and leaves every other as it is.
pub proof fn override_sets_its_own_option(options: DetectionOptions, option: DetectionOptionOverride)
    ensures
        ({
            let after = options.overridden(option);
            &&& after.detect_flashes == match option {
                DetectionOptionOverride::FlashDetection(value) => value,
                _ => options.detect_flashes,
            }
            &&& after.lookahead_distance == match option {
                DetectionOptionOverride::Lookahead(value) => value,
                _ => options.lookahead_distance,
            }
            &&& after.tuning.fast_threshold_scale == match option {
                DetectionOptionOverride::FastThresholdScale(value) => value,
                _ => options.tuning.fast_threshold_scale,
            }
            &&& after.tuning.forward_similarity.enabled == match option {
                DetectionOptionOverride::ForwardSimilarity(value) => value,
                _ => options.tuning.forward_similarity.enabled,
            }
            &&& after.tuning.forward_similarity.frames == match option {
                DetectionOptionOverride::ForwardSimilarityFrames(value) => value,
                _ => options.tuning.forward_similarity.frames,
            }
            &&& after.tuning.forward_similarity.min_offset == match option {
                DetectionOptionOverride::ForwardSimilarityMinOffset(value) => value,
                _ => options.tuning.forward_similarity.min_offset,
            }
            &&& after.tuning.forward_similarity.threshold_8bit == match option {
                DetectionOptionOverride::ForwardSimilarityThreshold(value) => value,
                _ => options.tuning.forward_similarity.threshold_8bit,
            }
            &&& after.tuning.forward_similarity.mask_percent == match option {
                DetectionOptionOverride::ForwardSimilarityMaskPercent(value) => value,
                _ => options.tuning.forward_similarity.mask_percent,
            }
            &&& after.tuning.forward_similarity.require_return_candidate == match option {
                DetectionOptionOverride::ForwardSimilarityRequireReturnCandidate(value) => value,
                _ => options.tuning.forward_similarity.require_return_candidate,
            }
            &&& after.tuning.forward_similarity.suppress_inside == match option {
                DetectionOptionOverride::ForwardSimilaritySuppressInside(value) => value,
                _ => options.tuning.forward_similarity.suppress_inside,
            }
            &&& after.tuning.transient_similarity.enabled == match option {
                DetectionOptionOverride::TransientSimilarity(value) => value,
                _ => options.tuning.transient_similarity.enabled,
            }
            &&& after.tuning.transient_similarity.frames == match option {
                DetectionOptionOverride::TransientSimilarityFrames(value) => value,
                _ => options.tuning.transient_similarity.frames,
            }
            &&& after.tuning.transient_similarity.threshold_8bit == match option {
                DetectionOptionOverride::TransientSimilarityThreshold(value) => value,
                _ => options.tuning.transient_similarity.threshold_8bit,
            }
            &&& after.tuning.transient_similarity.dark_threshold_8bit == match option {
                DetectionOptionOverride::TransientSimilarityDarkThreshold(value) => value,
                _ => options.tuning.transient_similarity.dark_threshold_8bit,
            }
            &&& after.tuning.transient_similarity.mask_percent == match option {
                DetectionOptionOverride::TransientSimilarityMaskPercent(value) => value,
                _ => options.tuning.transient_similarity.mask_percent,
            }
            &&& after.analysis_speed == options.analysis_speed
            &&& after.min_scenecut_distance == options.min_scenecut_distance
            &&& after.max_scenecut_distance == options.max_scenecut_distance
        }),
{
}

} // verus!
