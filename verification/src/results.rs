//! What a detection run finds.

use vstd::prelude::*;
use crate::frame_map::FrameMap;
use crate::measure::Measure;
use crate::score::ScenecutResult;

verus! {

/// Results from a scene change detection pass.
#[derive(Debug)]
pub struct DetectionResults {
    /// The 0-indexed frame numbers where scene changes were detected.
    pub scene_changes: Vec<usize>,
    /// A map of scores for each frame. Some frames may not have a score.
    pub scores: FrameMap<ScenecutResult>,
    /// The total number of frames read.
    pub frame_count: usize,
    /// Average speed in frames per second.
    pub speed: Measure,
}

} // verus!
