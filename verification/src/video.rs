//! What is known of a video.

use vstd::prelude::*;

verus! {

/// A fraction of whole numbers.
#[derive(Clone, Copy, Debug, PartialEq, Eq, Structural)]
pub struct Fraction {
    pub numer: i32,
    pub denom: i32,
}

/// The fraction turned over, with the sign above the line.
pub open spec fn reciprocal_of(fraction: Fraction) -> Fraction {
    if fraction.numer > 0 {
        Fraction { numer: fraction.denom, denom: fraction.numer }
    } else {
        Fraction { numer: (-fraction.denom) as i32, denom: (-fraction.numer) as i32 }
    }
}

/// Calls `Ratio::recip` of the `num-rational` crate: it swaps numerator and
/// denominator, and turns both signs where the new denominator would be negative.
/// It panics on 0.
#[verifier::external_body]
pub(crate) fn reciprocal(fraction: Fraction) -> (turned: Fraction)
    requires
        fraction.numer != 0,
        fraction.numer > i32::MIN,
        fraction.numer < 0 ==> fraction.denom > i32::MIN,
    ensures
        turned == reciprocal_of(fraction),
{
    let turned = num_rational::Ratio::new_raw(fraction.numer, fraction.denom).recip();
    Fraction { numer: *turned.numer(), denom: *turned.denom() }
}

/// How the colour planes of a video are sampled.
#[derive(Clone, Copy, Debug, PartialEq, Eq, Structural)]
pub enum ChromaSampling {
    Yuv420,
    Yuv422,
    Yuv444,
    Monochrome,
}

/// What is known of a video before its frames are read.
#[derive(Clone, Copy, Debug, PartialEq, Eq, Structural)]
pub struct VideoDetails {
    pub width: usize,
    pub height: usize,
    pub bit_depth: usize,
    pub chroma_sampling: ChromaSampling,
    /// Frames per second.
    pub frame_rate: Fraction,
    pub total_frames: Option<usize>,
}

} // verus!
