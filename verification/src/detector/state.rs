//! The detector's window of analysed frames, and how it moves on.

use vstd::prelude::*;
use crate::detector::analysis::ScenecutAnalysis;
use crate::frame_map::FrameMap;
use crate::measure::Measure;
use crate::options::{DetectionOptions, DetectionTuning};
use crate::options::SceneDetectionSpeed;
use crate::video::{reciprocal, reciprocal_of, ChromaSampling, Fraction, VideoDetails};

verus! {

/// Frames ahead that the window holds where the lookahead allows for it.
pub const LOOKAHEAD_OFFSET: usize = 5;
/// Frames behind that the window holds.
pub const BACKWARD_FRAMES: usize = 5;
/// Longest distance between cuts where none is configured.
pub const UNLIMITED_DISTANCE: usize = 0xFFFF_FFFF;

/// Runs scene change detection on the frames of a video, one after the other.
#[derive(Debug)]
pub struct SceneChangeDetector {
    /// The algorithm.
    pub scene_detection_mode: SceneDetectionSpeed,
    /// Frames ahead that the window holds once it is full.
    pub lookahead_offset: usize,
    /// Shortest distance between cuts.
    pub min_key_frame_interval: usize,
    /// Longest distance between cuts.
    pub max_key_frame_interval: usize,
    /// Tuning of the rules.
    pub tuning: DetectionTuning,
    /// Threshold of the fast detector.
    pub threshold: Measure,
    pub resolution: (usize, usize),
    pub bit_depth: usize,
    /// Duration of a frame.
    pub frame_rate: Fraction,
    pub chroma_sampling: ChromaSampling,
    /// Samples of a shrunk picture.
    pub scaled_pixels: usize,
    /// Whether pictures come shrunk already.
    pub frames_pre_downscaled: bool,
    /// Whether frame costs are computed in parallel.
    pub use_cost_parallelism: bool,
    /// The intra costs of the blocks of each frame that was compared by cost, for reuse.
    /// They are kept only where there is a map.
    pub intra_costs: Option<FrameMap<Vec<u32>>>,
    /// Place of the current frame in the window.
    pub deque_offset: usize,
    /// The analysed frames, the latest first.
    pub score_deque: Vec<ScenecutAnalysis>,
    /// The frame up to which cuts are suppressed.
    pub forward_suppress_until: Option<usize>,
}

/// Whether a number is a power of two.
pub open spec fn is_power_of_two(number: int) -> bool {
    exists|exponent: nat| #[trigger] vstd::arithmetic::power2::pow2(exponent) == number
}

/// Integer division where the divisor is a power of two.
pub fn fast_idiv(n: usize, d: usize) -> (quotient: usize)
    requires
        is_power_of_two(d as int),
    ensures
        quotient == n as int / d as int,
{
    proof {
        let exponent = choose|exponent: nat| #[trigger]
            vstd::arithmetic::power2::pow2(exponent) == d;
        vstd::arithmetic::power2::lemma_pow2_pos(exponent);
    }
    n / d
}

/// The samples of a picture that is shrunk in both directions.
pub open spec fn shrunk_pixels(resolution: (usize, usize), factor: usize) -> int {
    (resolution.1 as int / factor as int) * (resolution.0 as int / factor as int)
}

/// What a frame needs before it can be judged.
#[derive(Clone, Copy, Debug, PartialEq, Eq, Structural)]
pub enum FramePlan {
    /// Nothing: too few frames follow, and the frame is no cut.
    NoVerdict,
    /// Nothing: the distance alone decides.
    Decided { cut: bool },
    /// Comparisons of the first few pairs of frames, in order. Afterwards the
    /// current frame has the given place in the window.
    Compare { initial: usize, offset: usize },
}

/// What the distance from the last cut decides.
pub open spec fn interval_verdict(distance: int, min: int, max: int) -> Option<bool> {
    if distance < min {
        Some(false)
    } else if distance >= max {
        Some(true)
    } else {
        None
    }
}

impl SceneChangeDetector {
    /// Whether the frames of the window are sound.
    pub open spec fn wf(self) -> bool {
        forall|k: int| 0 <= k < self.score_deque@.len() ==> (#[trigger] self.score_deque@[k]).wf()
    }

    /// Whether the current frame has its place in the window.
    pub open spec fn has_current(self) -> bool {
        self.deque_offset < self.score_deque@.len()
    }

    /// A detector before its first frame. Pictures are shrunk by `factor` for the
    /// fast algorithm, whose threshold is given.
    pub fn new(
        resolution: (usize, usize),
        bit_depth: usize,
        frame_rate: Fraction,
        chroma_sampling: ChromaSampling,
        lookahead_distance: usize,
        scene_detection_mode: SceneDetectionSpeed,
        tuning: DetectionTuning,
        min_key_frame_interval: usize,
        max_key_frame_interval: usize,
        factor: usize,
        threshold: Measure,
    ) -> (detector: Self)
        requires
            is_power_of_two(factor as int),
            scene_detection_mode == SceneDetectionSpeed::Fast ==> shrunk_pixels(resolution, factor)
                <= usize::MAX,
        ensures
            detector.wf(),
            detector.scene_detection_mode == scene_detection_mode,
            detector.lookahead_offset == if lookahead_distance >= LOOKAHEAD_OFFSET {
                LOOKAHEAD_OFFSET
            } else {
                0
            },
            detector.deque_offset == detector.lookahead_offset,
            detector.min_key_frame_interval == min_key_frame_interval,
            detector.max_key_frame_interval == max_key_frame_interval,
            detector.tuning == tuning,
            detector.threshold == threshold,
            detector.resolution == resolution,
            detector.bit_depth == bit_depth,
            detector.frame_rate == frame_rate,
            detector.chroma_sampling == chroma_sampling,
            detector.scaled_pixels == if scene_detection_mode == SceneDetectionSpeed::Fast {
                shrunk_pixels(resolution, factor)
            } else {
                1
            },
            !detector.frames_pre_downscaled,
            detector.use_cost_parallelism,
            detector.intra_costs is None,
            detector.score_deque@.len() == 0,
            detector.forward_suppress_until is None,
    {
        let lookahead_offset: usize = if lookahead_distance >= LOOKAHEAD_OFFSET {
            LOOKAHEAD_OFFSET
        } else {
            0
        };
        let scaled_pixels: usize = if scene_detection_mode == SceneDetectionSpeed::Fast {
            fast_idiv(resolution.1, factor) * fast_idiv(resolution.0, factor)
        } else {
            1
        };
        SceneChangeDetector {
            scene_detection_mode,
            lookahead_offset,
            min_key_frame_interval,
            max_key_frame_interval,
            tuning,
            threshold,
            resolution,
            bit_depth,
            frame_rate,
            chroma_sampling,
            scaled_pixels,
            frames_pre_downscaled: false,
            use_cost_parallelism: true,
            intra_costs: None,
            deque_offset: lookahead_offset,
            score_deque: Vec::new(),
            forward_suppress_until: None,
        }
    }

    /// A detector for a video, by the options of a run.
    pub fn from_video_details(
        video_details: &VideoDetails,
        opts: &DetectionOptions,
        use_cost_parallelism: bool,
        factor: usize,
        threshold: Measure,
    ) -> (detector: Self)
        requires
            is_power_of_two(factor as int),
            opts.analysis_speed == SceneDetectionSpeed::Fast ==> shrunk_pixels(
                (video_details.width, video_details.height),
                factor,
            ) <= usize::MAX,
            video_details.frame_rate.numer != 0,
            video_details.frame_rate.numer > i32::MIN,
            video_details.frame_rate.numer < 0 ==> video_details.frame_rate.denom > i32::MIN,
        ensures
            detector.wf(),
            detector.scene_detection_mode == opts.analysis_speed,
            detector.lookahead_offset == if opts.required_lookahead() >= LOOKAHEAD_OFFSET {
                LOOKAHEAD_OFFSET
            } else {
                0
            },
            detector.deque_offset == detector.lookahead_offset,
            detector.min_key_frame_interval == match opts.min_scenecut_distance {
                Some(distance) => distance,
                None => 0,
            },
            detector.max_key_frame_interval == match opts.max_scenecut_distance {
                Some(distance) => distance,
                None => UNLIMITED_DISTANCE,
            },
            detector.tuning == opts.tuning,
            detector.threshold == threshold,
            detector.resolution == (video_details.width, video_details.height),
            detector.bit_depth == video_details.bit_depth,
            detector.frame_rate == reciprocal_of(video_details.frame_rate),
            detector.chroma_sampling == video_details.chroma_sampling,
            detector.scaled_pixels == if opts.analysis_speed == SceneDetectionSpeed::Fast {
                shrunk_pixels((video_details.width, video_details.height), factor)
            } else {
                1
            },
            !detector.frames_pre_downscaled,
            detector.use_cost_parallelism == use_cost_parallelism,
            detector.intra_costs is None,
            detector.score_deque@.len() == 0,
            detector.forward_suppress_until is None,
    {
        let min_interval: usize = match opts.min_scenecut_distance {
            Some(distance) => distance,
            None => 0,
        };
        let max_interval: usize = match opts.max_scenecut_distance {
            Some(distance) => distance,
            None => UNLIMITED_DISTANCE,
        };
        let mut detector = SceneChangeDetector::new(
            (video_details.width, video_details.height),
            video_details.bit_depth,
            reciprocal(video_details.frame_rate),
            video_details.chroma_sampling,
            opts.effective_lookahead_distance(),
            opts.analysis_speed,
            opts.tuning,
            min_interval,
            max_interval,
            factor,
            threshold,
        );
        detector.set_cost_parallelism(use_cost_parallelism);
        detector
    }

    /// Enables caching of intra costs. For advanced API users. Costs that are kept already
    /// stay.
    pub fn enable_cache(&mut self)
        ensures
            final(self).intra_costs matches Some(kept) && match old(self).intra_costs {
                None => kept@ == Map::<usize, Vec<u32>>::empty(),
                Some(before) => kept == before,
            },
            *final(self) == (SceneChangeDetector {
                intra_costs: final(self).intra_costs,
                ..*old(self)
            }),
    {
        if self.intra_costs.is_none() {
            self.intra_costs = Some(FrameMap::new());
        }
    }

    /// Keeps the intra costs of a frame where caching is enabled.
    pub fn keep_intra_costs(&mut self, frame: usize, costs: Vec<u32>)
        ensures
            match old(self).intra_costs {
                None => final(self).intra_costs is None,
                Some(before) => final(self).intra_costs matches Some(kept) && kept@
                    == before@.insert(frame, costs),
            },
            *final(self) == (SceneChangeDetector {
                intra_costs: final(self).intra_costs,
                ..*old(self)
            }),
    {
        let mut held: Option<FrameMap<Vec<u32>>> = None;
        core::mem::swap(&mut self.intra_costs, &mut held);
        if let Some(mut kept) = held {
            kept.insert(frame, costs);
            self.intra_costs = Some(kept);
        }
    }

    /// Sets whether frame costs are computed in parallel.
    pub fn set_cost_parallelism(&mut self, enabled: bool)
        ensures
            *final(self) == (SceneChangeDetector { use_cost_parallelism: enabled, ..*old(self) }),
    {
        self.use_cost_parallelism = enabled;
    }

    /// Sets whether pictures come shrunk already.
    pub fn set_frames_pre_downscaled(&mut self, enabled: bool)
        ensures
            *final(self) == (SceneChangeDetector { frames_pre_downscaled: enabled, ..*old(self) }),
    {
        self.frames_pre_downscaled = enabled;
    }

    /// What the distance from the last cut decides.
    pub fn handle_min_max_intervals(&self, distance: usize) -> (verdict: Option<bool>)
        ensures
            verdict == interval_verdict(
                distance as int,
                self.min_key_frame_interval as int,
                self.max_key_frame_interval as int,
            ),
    {
        if distance < self.min_key_frame_interval {
            return Some(false);
        }
        if distance >= self.max_key_frame_interval {
            return Some(true);
        }
        None
    }

    /// What a frame needs before it can be judged, when so many frames are at hand
    /// from the one before it on.
    pub open spec fn plan_of(self, frames: int, distance: int) -> FramePlan {
        if frames <= self.lookahead_offset {
            FramePlan::NoVerdict
        } else if self.scene_detection_mode == SceneDetectionSpeed::Off {
            FramePlan::Decided {
                cut: interval_verdict(
                    distance,
                    self.min_key_frame_interval as int,
                    self.max_key_frame_interval as int,
                ) == Some(true),
            }
        } else if self.score_deque@.len() > 0 {
            FramePlan::Compare { initial: 0, offset: self.deque_offset }
        } else if self.deque_offset > 0 && frames > self.deque_offset + 1 {
            FramePlan::Compare { initial: self.deque_offset, offset: self.deque_offset }
        } else {
            FramePlan::Compare { initial: (frames - 1) as usize, offset: (frames - 2) as usize }
        }
    }

    /// Whether enough frames are at hand to plan: a pair to compare, or a place to move on
    /// to in the window, unless no frame is needed at all.
    pub open spec fn can_plan(self, frames: int) -> bool {
        ||| frames >= 2
        ||| frames <= self.lookahead_offset
        ||| self.scene_detection_mode == SceneDetectionSpeed::Off
        ||| self.score_deque@.len() > 0 && self.deque_offset > 0
    }

    /// What a frame needs before it can be judged.
    pub fn plan_frame(&self, frames: usize, distance: usize) -> (plan: FramePlan)
        requires
            self.can_plan(frames as int),
        ensures
            plan == self.plan_of(frames as int, distance as int),
    {
        if frames <= self.lookahead_offset {
            return FramePlan::NoVerdict;
        }
        if self.scene_detection_mode == SceneDetectionSpeed::Off {
            let cut = match self.handle_min_max_intervals(distance) {
                Some(cut) => cut,
                None => false,
            };
            return FramePlan::Decided { cut };
        }
        if self.score_deque.len() > 0 {
            FramePlan::Compare { initial: 0, offset: self.deque_offset }
        } else if self.deque_offset > 0 && frames - 1 > self.deque_offset {
            FramePlan::Compare { initial: self.deque_offset, offset: self.deque_offset }
        } else {
            FramePlan::Compare { initial: frames - 1, offset: frames - 2 }
        }
    }

    /// Moves the window on to the current frame: one more pair of frames is compared
    /// while there are new frames, else the current frame comes closer to the front.
    pub fn move_on(&mut self, frames: usize, offset: usize) -> (pair: Option<usize>)
        requires
            frames > offset + 1 || offset > 0,
        ensures
            pair == if frames > offset + 1 {
                Some(offset)
            } else {
                None
            },
            *final(self) == (SceneChangeDetector {
                deque_offset: if frames > offset + 1 {
                    offset
                } else {
                    (offset - 1) as usize
                },
                ..*old(self)
            }),
    {
        if frames > 0 && frames - 1 > offset {
            self.deque_offset = offset;
            Some(offset)
        } else {
            self.deque_offset = offset - 1;
            None
        }
    }

    /// Lets go of the oldest frame where the window is full.
    pub fn trim(&mut self)
        requires
            old(self).wf(),
            old(self).lookahead_offset <= LOOKAHEAD_OFFSET,
        ensures
            final(self).wf(),
            final(self).score_deque@ == if old(self).score_deque@.len() > BACKWARD_FRAMES
                + old(self).lookahead_offset {
                old(self).score_deque@.drop_last()
            } else {
                old(self).score_deque@
            },
            *final(self) == (SceneChangeDetector {
                score_deque: final(self).score_deque,
                ..*old(self)
            }),
    {
        if self.score_deque.len() > BACKWARD_FRAMES + self.lookahead_offset {
            self.score_deque.pop();
        }
    }
}

} // verus!
