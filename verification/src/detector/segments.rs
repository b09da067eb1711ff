//! Which frames are compared when a scene may return, and when a comparison is
//! settled early.

use vstd::prelude::*;
use crate::blocks::BlockGrid;
use crate::masking::{count_kept, kept_blocks, masked_bound_is_below_masked_mean};
use crate::masking::{sum_kept, MaskCounts};
use crate::measure::{double, Measure};
use crate::options::{larger, TransientSimilarityOptions};
use crate::parallel::plan::{min, smaller};
use crate::picture::LumaPlane;
use crate::postprocess::runs::TEXT_CARD_MAX_SIMILARITY_DELTA_8BIT;
use crate::postprocess::weak_cuts::DARK_OCCLUSION_MAX_FORWARD_DELTA_8BIT;
use crate::prefilter::{block_distance, bound_never_exceeds_distance, shared, sums_distance};
use crate::prefilter::ForwardPrefilterSignature;

verus! {

/// The largest finite measurement.
pub const LARGEST: u64 = 0x7FEF_FFFF_FFFF_FFFF;

/// 6.0, the highest delta that a correction of the whole run still acts on.
pub const FORWARD_SIMILARITY_AUXILIARY_MAX_THRESHOLD_8BIT: u64 = 0x4018_0000_0000_0000;

/// A frame of the reference window, and the later frame that it is compared with.
#[derive(Clone, Copy, Debug, PartialEq, Eq, Structural)]
pub struct FramePair {
    pub reference: usize,
    pub later: usize,
}

/// The pairs of a comparison: the last frames of the reference window against the
/// frames from `start` to `end`, as many as both have.
pub open spec fn pairs_of(reference_frames: int, start: int, end: int) -> Seq<FramePair> {
    let compared = smaller(reference_frames, end + 1 - start);
    Seq::new(
        compared as nat,
        |k: int|
            FramePair {
                reference: (reference_frames - compared + k) as usize,
                later: (start + k) as usize,
            },
    )
}

/// The pairs of a comparison.
pub fn segment_pairs(reference_frames: usize, start: usize, end: usize) -> (pairs: Vec<FramePair>)
    requires
        start <= end < usize::MAX,
    ensures
        pairs@ == pairs_of(reference_frames as int, start as int, end as int),
{
    let compared: usize = min(reference_frames, end - start + 1);
    let mut pairs: Vec<FramePair> = Vec::new();
    for k in 0..compared
        invariant
            compared == smaller(reference_frames as int, end + 1 - start),
            start <= end < usize::MAX,
            pairs@ == pairs_of(reference_frames as int, start as int, end as int).take(k as int),
    {
        pairs.push(FramePair { reference: reference_frames - compared + k, later: start + k });
        assert(pairs@ =~= pairs_of(reference_frames as int, start as int, end as int).take(k + 1));
    }
    assert(pairs@ =~= pairs_of(reference_frames as int, start as int, end as int));
    pairs
}

/// A lower bound on a difference, and the same less a guard against rounding.
#[derive(Clone, Copy, Debug, PartialEq, Eq, Structural)]
pub struct GuardedBound {
    pub bound: Measure,
    pub guarded: Measure,
}

/// The difference of a comparison where a bound settles it: one that stays above every
/// threshold, even guarded, stands for the difference itself.
pub fn settled_by_bound(bound: Option<GuardedBound>, confirmation: Measure) -> (delta: Option<
    Measure,
>)
    ensures
        delta == match bound {
            Some(found) if confirmation.lt(found.guarded) => Some(found.bound),
            _ => None,
        },
{
    match bound {
        Some(found) => if found.guarded.above(confirmation) {
            Some(found.bound)
        } else {
            None
        },
        None => None,
    }
}

/// The difference of a comparison where luma settles it: chroma only adds to it.
pub fn settled_by_luma(luma_mean: Measure, confirmation: Measure) -> (delta: Option<Measure>)
    ensures
        delta == if confirmation.lt(luma_mean) {
            Some(luma_mean)
        } else {
            None
        },
{
    if luma_mean.above(confirmation) {
        Some(luma_mean)
    } else {
        None
    }
}

/// The difference of a comparison, by its stages: what settles it early stands for it,
/// else it is the exact difference of luma and chroma together.
pub open spec fn segment_delta(
    bound: Option<GuardedBound>,
    luma_mean: Measure,
    exact: Measure,
    confirmation: Measure,
) -> Measure {
    match bound {
        Some(found) if confirmation.lt(found.guarded) => found.bound,
        _ => if confirmation.lt(luma_mean) {
            luma_mean
        } else {
            exact
        },
    }
}

/// The difference of a comparison, by its stages: the bound from signatures, if there is
/// one, the mean difference of luma, and the exact difference of luma and chroma together.
pub fn forward_segment_similarity_delta_8bit(
    bound: Option<GuardedBound>,
    luma_mean: Measure,
    exact: Measure,
    confirmation: Measure,
) -> (delta: Measure)
    ensures
        delta == segment_delta(bound, luma_mean, exact, confirmation),
{
    match settled_by_bound(bound, confirmation) {
        Some(delta) => delta,
        None => match settled_by_luma(luma_mean, confirmation) {
            Some(delta) => delta,
            None => exact,
        },
    }
}

/// A difference up to the confirmation threshold is the exact one, and one above it is
/// reported only where the exact one is above it too; both with and without signatures.
/// Chroma never takes from the difference of luma, and a guarded bound never exceeds it.
pub proof fn reported_delta_is_exact_where_it_counts(
    bound: Option<GuardedBound>,
    luma_mean: Measure,
    exact: Measure,
    confirmation: Measure,
)
    requires
        luma_mean.le(exact),
        bound matches Some(found) ==> found.guarded.le(found.bound) && found.guarded.le(luma_mean),
    ensures
        ({
            let delta = segment_delta(bound, luma_mean, exact, confirmation);
            &&& delta.le(confirmation) ==> delta == exact
            &&& confirmation.lt(delta) ==> confirmation.lt(exact)
            &&& delta.le(confirmation) == segment_delta(None, luma_mean, exact, confirmation).le(
                confirmation,
            )
        }),
{
}

/// The delta above which a comparison may be settled early: the threshold of the search,
/// or what later corrections act on, whichever is higher.
pub fn confirmation_threshold(threshold: Measure) -> (confirmation: Measure)
    ensures
        confirmation == confirmed_above(threshold),
{
    threshold.higher_of(double(FORWARD_SIMILARITY_AUXILIARY_MAX_THRESHOLD_8BIT))
}

/// The delta above which a comparison may be settled early.
pub open spec fn confirmed_above(threshold: Measure) -> Measure {
    let auxiliary = double(FORWARD_SIMILARITY_AUXILIARY_MAX_THRESHOLD_8BIT);
    if threshold.is_nan() || threshold.lt(auxiliary) {
        auxiliary
    } else {
        threshold
    }
}

/// Whatever acts on a delta, the search or a later correction, acts only on one that is
/// at most the confirmation threshold, so on none that was settled early.
pub proof fn confirmation_covers_every_reader(threshold: Measure)
    ensures
        !threshold.is_nan() ==> threshold.le(confirmed_above(threshold)),
        double(TEXT_CARD_MAX_SIMILARITY_DELTA_8BIT).le(confirmed_above(threshold)),
        double(DARK_OCCLUSION_MAX_FORWARD_DELTA_8BIT).le(confirmed_above(threshold)),
{
}

/// A comparison that is settled early never passes for a match: what stands for its
/// difference is above the confirmation threshold, so it is above every threshold that
/// a match has to meet.
pub proof fn early_settlement_is_no_match(
    bound: Option<GuardedBound>,
    luma_mean: Measure,
    confirmation: Measure,
    threshold: Measure,
)
    requires
        threshold.le(confirmation),
        bound matches Some(found) ==> found.guarded.le(found.bound),
    ensures
        bound matches Some(found) ==> (confirmation.lt(found.guarded) ==> !found.bound.le(
            threshold,
        )),
        confirmation.lt(luma_mean) ==> !luma_mean.le(threshold),
{
}

/// The number of blocks whose bounds are kept out of so many.
pub open spec fn bounds_kept(masked: int, blocks: int) -> int {
    blocks - smaller(masked, blocks - 1)
}

/// How many of so many blocks a bound keeps, when a share of them, rounded up, is
/// masked.
pub fn bound_counts(masked: usize, blocks: usize) -> (counts: MaskCounts)
    requires
        blocks > 0,
    ensures
        counts.keep == bounds_kept(masked as int, blocks as int),
        counts.mask == masked,
        1 <= counts.keep <= blocks,
{
    MaskCounts { keep: blocks - min(masked, blocks - 1), mask: masked }
}

/// The frames around a cut that are compared for a transient: those before the cut from
/// `pre_start` on, with `post_count` of those after it.
#[derive(Clone, Copy, Debug, PartialEq, Eq, Structural)]
pub struct TransientFrames {
    pub pre_start: usize,
    pub post_count: usize,
}

/// The frames around a cut that are compared for a transient; none where that is not
/// enabled or frames are missing.
pub open spec fn compared_frames(
    options: TransientSimilarityOptions,
    previous_frames: int,
    frames: int,
) -> Option<TransientFrames> {
    if !options.enabled || options.frames == 0 || previous_frames == 0 || frames < 2 {
        None
    } else {
        Some(
            TransientFrames {
                pre_start: larger(previous_frames - options.frames, 0) as usize,
                post_count: smaller(options.frames as int, frames - 1) as usize,
            },
        )
    }
}

/// The frames around a cut that are compared for a transient; none where that is not
/// enabled or frames are missing.
pub fn transient_frames(
    options: &TransientSimilarityOptions,
    previous_frames: usize,
    frames: usize,
) -> (compared: Option<TransientFrames>)
    ensures
        compared == compared_frames(*options, previous_frames as int, frames as int),
{
    if !options.enabled || options.frames == 0 || previous_frames == 0 || frames < 2 {
        return None;
    }
    Some(
        TransientFrames {
            pre_start: previous_frames.saturating_sub(options.frames),
            post_count: min(options.frames, frames - 1),
        },
    )
}

/// The smallest of the first few differences.
pub open spec fn closest_of(deltas: Seq<Measure>) -> Measure
    decreases deltas.len(),
{
    if deltas.len() == 0 {
        Measure { bits: LARGEST }
    } else {
        let before = closest_of(deltas.drop_last());
        if deltas.last().lt(before) {
            deltas.last()
        } else {
            before
        }
    }
}

/// The smallest difference across a transient.
pub fn two_sided_masked_similarity(deltas: &[Measure]) -> (closest: Measure)
    ensures
        closest == closest_of(deltas@),
{
    let mut closest = Measure { bits: LARGEST };
    for index in 0..deltas.len()
        invariant
            closest == closest_of(deltas@.take(index as int)),
    {
        assert(deltas@.take(index + 1).drop_last() =~= deltas@.take(index as int));
        if deltas[index].below(closest) {
            closest = deltas[index];
        }
    }
    assert(deltas@.take(deltas.len() as int) =~= deltas@);
    closest
}

/// The bound from the signatures of two pictures is strict: the mean of the lowest block
/// bounds, in units of block sums, never exceeds the mean of the block differences that
/// any mask of the same share keeps, with or without regions.
pub proof fn signature_bound_is_below_masked_mean(
    reference: ForwardPrefilterSignature,
    post: ForwardPrefilterSignature,
    left: LumaPlane,
    right: LumaPlane,
    bounds: Seq<u32>,
    distances: Seq<u32>,
    counts: MaskCounts,
    bound_counts: MaskCounts,
    bound_grid: BlockGrid,
    grid: BlockGrid,
)
    requires
        reference.describes(left),
        post.describes(right),
        ({
            let (cols, rows) = (shared(reference.cols, post.cols), shared(reference.rows, post.rows));
            &&& 0 < cols * rows <= usize::MAX
            &&& bounds.len() == cols * rows
            &&& distances.len() == cols * rows
            &&& forall|bx: int, by: int|
                0 <= bx < cols && 0 <= by < rows ==> #[trigger] bounds[by * cols + bx]
                    == sums_distance(
                    reference.sub_sums@[by * reference.cols + bx]@,
                    post.sub_sums@[by * post.cols + bx]@,
                )
            &&& forall|bx: int, by: int|
                0 <= bx < cols && 0 <= by < rows ==> #[trigger] distances[by * cols + bx]
                    == block_distance(left, right, bx, by, 64)
        }),
        counts.keep + counts.mask >= bounds.len(),
        bound_counts.keep == bounds_kept(counts.mask as int, bounds.len() as int),
        bound_grid.region_cols <= 1,
        bound_grid.region_rows <= 1,
    ensures
        ({
            let lowest = kept_blocks(bounds, bound_counts, bound_grid);
            let kept = kept_blocks(distances, counts, grid);
            &&& 0 < count_kept(lowest) <= count_kept(kept)
            &&& sum_kept(bounds, lowest) * count_kept(kept) <= sum_kept(distances, kept)
                * count_kept(lowest)
        }),
{
    let (cols, rows) = (shared(reference.cols, post.cols), shared(reference.rows, post.rows));
    assert forall|k: int| 0 <= k < bounds.len() implies #[trigger] bounds[k] <= distances[k] by {
        assert(cols > 0) by (nonlinear_arith)
            requires
                cols * rows > 0,
                cols >= 0,
        ;
        let (bx, by) = (k % cols, k / cols);
        vstd::arithmetic::div_mod::lemma_fundamental_div_mod(k, cols);
        assert(by * cols + bx == k) by (nonlinear_arith)
            requires
                k == cols * by + bx,
        ;
        assert(0 <= by < rows) by (nonlinear_arith)
            requires
                by * cols + bx == k,
                0 <= bx < cols,
                0 <= k < cols * rows,
        ;
        bound_never_exceeds_distance(reference, post, left, right, bx, by);
        assert(bounds[by * cols + bx] <= distances[by * cols + bx]);
    }
    masked_bound_is_below_masked_mean(bounds, distances, bound_counts, bound_grid, counts, grid);
}

} // verus!
