//! Detection by several workers, each on a stretch of the video.

pub mod pieces;
pub mod plan;
pub mod shares;
pub mod store;
pub mod window;
pub mod handoff;
pub mod reconcile;
pub mod laws;
pub mod driver;
