//! Scene change detection: the rules that decide where a video's scenes begin.

use vstd::prelude::*;

pub mod active;
pub mod blocks;
pub mod cursor;
pub mod decimal;
pub mod detector;
pub mod frame_map;
pub mod frame_refs;
pub mod masking;
pub mod measure;
pub mod option_text;
pub mod options;
pub mod overrides;
pub mod parallel;
pub mod picture;
pub mod postprocess;
pub mod prefilter;
pub mod results;
pub mod score;
pub mod serial;
pub mod similarity;
pub mod timeline;
pub mod tuning;
pub mod video;

verus! {

} // verus!
