//! The detector: frame-by-frame analysis.

pub mod analysis;
pub mod mask_list;
pub mod state;
pub mod compare;
pub mod frame;
pub mod importance;
pub mod laws;
pub mod verdict;
pub mod search;
pub mod cost;
pub mod segments;
pub mod windows;
pub mod regions;
pub mod sums;
