//! Cuts that were missed: cost peaks inside long scenes.

use vstd::prelude::*;
use crate::frame_map::FrameMap;
use crate::measure::{double, Measure, ZERO};
use crate::options::DetectionOptions;
use crate::postprocess::common::{cut_density, frame_before, frame_distance, is_cost_peak};
use crate::postprocess::common::{local_cost_peak, local_cut_count, mean_steps, promote_spaced};
use crate::postprocess::common::{frame_signature_delta_for_scores, push_gains_one, timeline};
use crate::postprocess::common::{with_spaced_cuts, Timeline};
use crate::score::{ScenecutDecision, ScenecutResult, FRAME_LUMA_SIGNATURE_CELLS};
use crate::timeline::{ascending, ascending_form_is_unique, first_after, increasing, last_before};
use crate::timeline::FrameSet;

verus! {

/// Shortest scene in which a missed cut is looked for.
pub const SCENE_PEAK_MIN_SCENE_LEN: usize = 120;
/// Frames on each side that a peak must not fall below.
pub const SCENE_PEAK_LOCAL_RADIUS: usize = 5;
/// Frames on each side in which cuts must be sparse.
pub const SCENE_PEAK_DENSITY_RADIUS: usize = 500;
/// The same on a wider scale.
pub const SCENE_PEAK_WIDE_DENSITY_RADIUS: usize = 2000;
/// Most cuts on the narrow scale.
pub const SCENE_PEAK_MAX_LOCAL_CUTS: usize = 10;
/// Most cuts on the wide scale.
pub const SCENE_PEAK_MAX_WIDE_CUTS: usize = 35;
/// Most cuts on the narrow scale beside a refined peak.
pub const REFINED_SPARSE_PEAK_MAX_LOCAL_CUTS: usize = 12;
/// Most cuts on the wide scale beside a refined peak.
pub const REFINED_SPARSE_PEAK_MAX_WIDE_CUTS: usize = 40;
/// 5.0
pub const SCENE_PEAK_MAX_ADJACENT_COST_RATIO: u64 = 0x4014_0000_0000_0000;

/// 0.25
pub const DARK_SCENE_PEAK_MIN_COST_RATIO: u64 = 0x3FD0_0000_0000_0000;
/// 0.45
pub const DARK_SCENE_PEAK_MAX_COST_RATIO: u64 = 0x3FDC_CCCC_CCCC_CCCD;
/// 50.0
pub const DARK_SCENE_PEAK_MAX_LUMA_8BIT: u64 = 0x4049_0000_0000_0000;
/// 1.3
pub const DARK_SCENE_PEAK_MIN_IMP_RATIO: u64 = 0x3FF4_CCCC_CCCC_CCCD;
/// 1.4
pub const DARK_SCENE_PEAK_MIN_GLOBAL_IMP_RATIO: u64 = 0x3FF6_6666_6666_6666;
/// 0.62
pub const DARK_SCENE_PEAK_MIN_BAD_BLOCK_RATIO: u64 = 0x3FE3_D70A_3D70_A3D7;
/// 0.005
pub const DARK_SCENE_PEAK_MAX_GOOD_BLOCK_RATIO: u64 = 0x3F74_7AE1_47AE_147B;

/// 0.25
pub const SPARSE_SCENE_PEAK_MIN_COST_RATIO: u64 = 0x3FD0_0000_0000_0000;
/// 1.0
pub const SPARSE_SCENE_PEAK_MAX_COST_RATIO: u64 = 0x3FF0_0000_0000_0000;
/// 1.5
pub const SPARSE_SCENE_PEAK_MIN_IMP_RATIO: u64 = 0x3FF8_0000_0000_0000;
/// 1.8
pub const SPARSE_SCENE_PEAK_MIN_GLOBAL_IMP_RATIO: u64 = 0x3FFC_CCCC_CCCC_CCCD;
/// 90.0
pub const SPARSE_SCENE_PEAK_MAX_LUMA_8BIT: u64 = 0x4056_8000_0000_0000;
/// 0.60
pub const SPARSE_SCENE_PEAK_MIN_BAD_BLOCK_RATIO: u64 = 0x3FE3_3333_3333_3333;
/// 0.10
pub const SPARSE_SCENE_PEAK_MAX_GOOD_BLOCK_RATIO: u64 = 0x3FB9_9999_9999_999A;

/// 0.65
pub const REFINED_SPARSE_PEAK_MIN_COST_RATIO: u64 = 0x3FE4_CCCC_CCCC_CCCD;
/// 1.05
pub const REFINED_SPARSE_PEAK_MAX_COST_RATIO: u64 = 0x3FF0_CCCC_CCCC_CCCD;
/// 3.0
pub const REFINED_SPARSE_PEAK_MIN_IMP_RATIO: u64 = 0x4008_0000_0000_0000;
/// 3.5
pub const REFINED_SPARSE_PEAK_MIN_GLOBAL_IMP_RATIO: u64 = 0x400C_0000_0000_0000;
/// 55.0
pub const REFINED_SPARSE_PEAK_MIN_LUMA_8BIT: u64 = 0x404B_8000_0000_0000;
/// 90.0
pub const REFINED_SPARSE_PEAK_MAX_LUMA_8BIT: u64 = 0x4056_8000_0000_0000;
/// 0.50
pub const REFINED_SPARSE_PEAK_MIN_BAD_BLOCK_RATIO: u64 = 0x3FE0_0000_0000_0000;
/// 0.09
pub const REFINED_SPARSE_PEAK_MAX_GOOD_BLOCK_RATIO: u64 = 0x3FB7_0A3D_70A3_D70A;
/// Least mean signature difference to the frame before a refined peak.
pub const REFINED_SPARSE_PEAK_MIN_EDGE_DELTA_8BIT: u32 = 10;
/// Highest mean signature difference between two frames of one scene.
pub const REFINED_SPARSE_PEAK_MAX_REPEAT_DELTA_8BIT: u32 = 5;

/// The kinds of missed cuts.
#[derive(Clone, Copy, Debug, PartialEq, Eq, Structural)]
pub enum PeakKind {
    /// A weak peak between dark scenes.
    Dark,
    /// A peak in a stretch with few cuts.
    Sparse,
    /// A strong peak that a clear change of the picture confirms.
    Refined,
}

/// The cost ratio of a frame, 0 where it has no score.
pub open spec fn cost_or_zero(scores: Map<usize, ScenecutResult>, frame: usize) -> Measure {
    if scores.contains_key(frame) {
        scores[frame].cost_ratio
    } else {
        double(ZERO)
    }
}

/// Whether a score is that of a weak peak between dark scenes.
pub open spec fn is_dark_peak(score: ScenecutResult) -> bool {
    &&& double(DARK_SCENE_PEAK_MIN_COST_RATIO).le(score.cost_ratio)
    &&& score.cost_ratio.le(double(DARK_SCENE_PEAK_MAX_COST_RATIO))
    &&& score.avg_luma_8bit.le(double(DARK_SCENE_PEAK_MAX_LUMA_8BIT))
    &&& double(DARK_SCENE_PEAK_MIN_IMP_RATIO).le(score.imp_block_ratio)
    &&& double(DARK_SCENE_PEAK_MIN_GLOBAL_IMP_RATIO).le(score.global_imp_block_ratio)
    &&& double(DARK_SCENE_PEAK_MIN_BAD_BLOCK_RATIO).le(score.static_bad_block_ratio)
    &&& score.static_good_block_ratio.le(double(DARK_SCENE_PEAK_MAX_GOOD_BLOCK_RATIO))
}

/// Whether a score is that of a peak in a stretch with few cuts.
pub open spec fn is_sparse_peak(score: ScenecutResult) -> bool {
    &&& double(SPARSE_SCENE_PEAK_MIN_COST_RATIO).le(score.cost_ratio)
    &&& score.cost_ratio.le(double(SPARSE_SCENE_PEAK_MAX_COST_RATIO))
    &&& double(SPARSE_SCENE_PEAK_MIN_IMP_RATIO).le(score.imp_block_ratio)
    &&& double(SPARSE_SCENE_PEAK_MIN_GLOBAL_IMP_RATIO).le(score.global_imp_block_ratio)
    &&& score.avg_luma_8bit.le(double(SPARSE_SCENE_PEAK_MAX_LUMA_8BIT))
    &&& double(SPARSE_SCENE_PEAK_MIN_BAD_BLOCK_RATIO).le(score.static_bad_block_ratio)
    &&& score.static_good_block_ratio.le(double(SPARSE_SCENE_PEAK_MAX_GOOD_BLOCK_RATIO))
}

/// Whether the picture changed at the frame by at least the given mean.
pub open spec fn has_edge(
    scores: Map<usize, ScenecutResult>,
    frame: usize,
    min_delta_8bit: u32,
) -> bool {
    frame_distance(scores, frame_before(frame), frame) matches Some(distance) && distance
        >= mean_steps(min_delta_8bit)
}

/// Whether two frames are so alike that they show one scene.
pub open spec fn repeats(scores: Map<usize, ScenecutResult>, left: usize, right: usize) -> bool {
    frame_distance(scores, left, right) matches Some(distance) && distance <= mean_steps(
        REFINED_SPARSE_PEAK_MAX_REPEAT_DELTA_8BIT,
    )
}

/// Whether a frame without a cut is a strong peak that a change of the picture
/// confirms.
pub open spec fn is_refined_peak(scores: Map<usize, ScenecutResult>, frame: usize) -> bool {
    &&& scores.contains_key(frame)
    &&& scores[frame].decision == ScenecutDecision::NoCut
    &&& double(REFINED_SPARSE_PEAK_MIN_COST_RATIO).le(scores[frame].cost_ratio)
    &&& scores[frame].cost_ratio.le(double(REFINED_SPARSE_PEAK_MAX_COST_RATIO))
    &&& double(REFINED_SPARSE_PEAK_MIN_IMP_RATIO).le(scores[frame].imp_block_ratio)
    &&& double(REFINED_SPARSE_PEAK_MIN_GLOBAL_IMP_RATIO).le(scores[frame].global_imp_block_ratio)
    &&& double(REFINED_SPARSE_PEAK_MIN_LUMA_8BIT).le(scores[frame].avg_luma_8bit)
    &&& scores[frame].avg_luma_8bit.le(double(REFINED_SPARSE_PEAK_MAX_LUMA_8BIT))
    &&& double(REFINED_SPARSE_PEAK_MIN_BAD_BLOCK_RATIO).le(scores[frame].static_bad_block_ratio)
    &&& scores[frame].static_good_block_ratio.le(double(REFINED_SPARSE_PEAK_MAX_GOOD_BLOCK_RATIO))
    &&& has_edge(scores, frame, REFINED_SPARSE_PEAK_MIN_EDGE_DELTA_8BIT)
    &&& is_cost_peak(scores, frame, SCENE_PEAK_LOCAL_RADIUS as int)
}

/// Whether cuts are sparse around a frame, and the frame lies inside a long scene,
/// far enough from both its cuts, neither of which is extreme.
pub open spec fn lies_in_sparse_scene(
    state: Timeline,
    frame: usize,
    max_local: usize,
    max_wide: usize,
    min_distance: int,
) -> bool {
    &&& cut_density(state.cuts, frame, SCENE_PEAK_DENSITY_RADIUS as int) <= max_local
    &&& cut_density(state.cuts, frame, SCENE_PEAK_WIDE_DENSITY_RADIUS as int) <= max_wide
    &&& (last_before(state.cuts, frame) matches Some(previous) && (first_after(
        state.cuts,
        frame,
    ) matches Some(next) && {
        &&& next - previous >= SCENE_PEAK_MIN_SCENE_LEN
        &&& frame - previous >= min_distance
        &&& next - frame >= min_distance
        &&& cost_or_zero(state.scores, previous).le(double(SCENE_PEAK_MAX_ADJACENT_COST_RATIO))
        &&& cost_or_zero(state.scores, next).le(double(SCENE_PEAK_MAX_ADJACENT_COST_RATIO))
    }))
}

/// Whether two of the three scenes around a frame look alike.
pub open spec fn repeats_around(state: Timeline, frame: usize) -> bool {
    last_before(state.cuts, frame) matches Some(previous) && (first_after(
        state.cuts,
        frame,
    ) matches Some(next) && {
        ||| repeats(state.scores, previous, next)
        ||| repeats(state.scores, previous, frame)
        ||| repeats(state.scores, frame, next)
    })
}

/// Whether a scored frame is a missed cut of the given kind.
pub open spec fn is_missed_cut(
    kind: PeakKind,
    state: Timeline,
    frame: usize,
    min_distance: int,
) -> bool {
    match kind {
        PeakKind::Refined => {
            &&& !state.cuts.contains(frame)
            &&& is_refined_peak(state.scores, frame)
            &&& lies_in_sparse_scene(
                state,
                frame,
                REFINED_SPARSE_PEAK_MAX_LOCAL_CUTS,
                REFINED_SPARSE_PEAK_MAX_WIDE_CUTS,
                min_distance,
            )
            &&& !repeats_around(state, frame)
        },
        _ => {
            &&& state.scores.contains_key(frame)
            &&& state.scores[frame].decision == ScenecutDecision::NoCut
            &&& if kind == PeakKind::Dark {
                is_dark_peak(state.scores[frame])
            } else {
                is_sparse_peak(state.scores[frame])
            }
            &&& is_cost_peak(state.scores, frame, SCENE_PEAK_LOCAL_RADIUS as int)
            &&& lies_in_sparse_scene(
                state,
                frame,
                SCENE_PEAK_MAX_LOCAL_CUTS,
                SCENE_PEAK_MAX_WIDE_CUTS,
                min_distance,
            )
        },
    }
}

/// The missed cuts of the given kind.
pub open spec fn missed_cuts(kind: PeakKind, state: Timeline, min_distance: int) -> Set<usize> {
    state.scores.dom().filter(|frame: usize| is_missed_cut(kind, state, frame, min_distance))
}

/// The configured distance between cuts, 0 where none is.
pub open spec fn min_distance_of(opts: DetectionOptions) -> int {
    match opts.min_scenecut_distance {
        Some(distance) => distance as int,
        None => 0,
    }
}

/// The timeline with missed cuts between dark scenes.
pub open spec fn with_dark_peaks(opts: DetectionOptions, state: Timeline) -> Timeline {
    with_spaced_cuts(
        state,
        ascending(missed_cuts(PeakKind::Dark, state, min_distance_of(opts))),
        min_distance_of(opts),
        ScenecutDecision::CutDarkScenePeak,
    )
}

/// The timeline with missed cuts in stretches with few cuts.
pub open spec fn with_sparse_peaks(opts: DetectionOptions, state: Timeline) -> Timeline {
    with_spaced_cuts(
        state,
        ascending(missed_cuts(PeakKind::Sparse, state, min_distance_of(opts))),
        min_distance_of(opts),
        ScenecutDecision::CutSparseScenePeak,
    )
}

/// The configured distance between cuts, 0 where none is.
pub(crate) fn min_distance(opts: &DetectionOptions) -> (distance: usize)
    ensures
        distance == min_distance_of(*opts),
{
    match opts.min_scenecut_distance {
        Some(distance) => distance,
        None => 0,
    }
}

/// Whether a score is that of a weak peak between dark scenes.
pub fn dark_scene_peak_score(score: &ScenecutResult) -> (peak: bool)
    ensures
        peak == is_dark_peak(*score),
{
    score.cost_ratio.at_least(double(DARK_SCENE_PEAK_MIN_COST_RATIO)) && score.cost_ratio.at_most(
        double(DARK_SCENE_PEAK_MAX_COST_RATIO),
    ) && score.avg_luma_8bit.at_most(double(DARK_SCENE_PEAK_MAX_LUMA_8BIT))
        && score.imp_block_ratio.at_least(double(DARK_SCENE_PEAK_MIN_IMP_RATIO))
        && score.global_imp_block_ratio.at_least(double(DARK_SCENE_PEAK_MIN_GLOBAL_IMP_RATIO))
        && score.static_bad_block_ratio.at_least(double(DARK_SCENE_PEAK_MIN_BAD_BLOCK_RATIO))
        && score.static_good_block_ratio.at_most(double(DARK_SCENE_PEAK_MAX_GOOD_BLOCK_RATIO))
}

/// Whether a score is that of a peak in a stretch with few cuts.
pub fn sparse_scene_peak_score(score: &ScenecutResult) -> (peak: bool)
    ensures
        peak == is_sparse_peak(*score),
{
    score.cost_ratio.at_least(double(SPARSE_SCENE_PEAK_MIN_COST_RATIO))
        && score.cost_ratio.at_most(double(SPARSE_SCENE_PEAK_MAX_COST_RATIO))
        && score.imp_block_ratio.at_least(double(SPARSE_SCENE_PEAK_MIN_IMP_RATIO))
        && score.global_imp_block_ratio.at_least(double(SPARSE_SCENE_PEAK_MIN_GLOBAL_IMP_RATIO))
        && score.avg_luma_8bit.at_most(double(SPARSE_SCENE_PEAK_MAX_LUMA_8BIT))
        && score.static_bad_block_ratio.at_least(double(SPARSE_SCENE_PEAK_MIN_BAD_BLOCK_RATIO))
        && score.static_good_block_ratio.at_most(double(SPARSE_SCENE_PEAK_MAX_GOOD_BLOCK_RATIO))
}

/// Whether the picture changed at the frame by at least the given mean.
pub(crate) fn edge_at_least(
    scores: &FrameMap<ScenecutResult>,
    frame: usize,
    min_delta_8bit: u32,
) -> (edge: bool)
    requires
        min_delta_8bit <= 255,
    ensures
        edge == has_edge(scores@, frame, min_delta_8bit),
{
    let cells: u32 = FRAME_LUMA_SIGNATURE_CELLS as u32;
    assert(min_delta_8bit * cells <= 255 * cells) by (nonlinear_arith)
        requires
            min_delta_8bit <= 255,
    ;
    match frame_signature_delta_for_scores(frame.saturating_sub(1), frame, scores) {
        Some(sum) => sum >= min_delta_8bit * cells,
        None => false,
    }
}

/// Whether two frames are so alike that they show one scene.
fn signature_repeats(scores: &FrameMap<ScenecutResult>, left: usize, right: usize) -> (alike: bool)
    ensures
        alike == repeats(scores@, left, right),
{
    match frame_signature_delta_for_scores(left, right, scores) {
        Some(sum) => sum <= REFINED_SPARSE_PEAK_MAX_REPEAT_DELTA_8BIT
            * FRAME_LUMA_SIGNATURE_CELLS as u32,
        None => false,
    }
}

/// Whether a frame without a cut is a strong peak that a change of the picture
/// confirms.
pub fn refined_sparse_peak_score(
    frame: usize,
    scores: &FrameMap<ScenecutResult>,
) -> (peak: bool)
    ensures
        peak == is_refined_peak(scores@, frame),
{
    let strong = match scores.get(frame) {
        Some(score) => score.decision == ScenecutDecision::NoCut && score.cost_ratio.at_least(
            double(REFINED_SPARSE_PEAK_MIN_COST_RATIO),
        ) && score.cost_ratio.at_most(double(REFINED_SPARSE_PEAK_MAX_COST_RATIO))
            && score.imp_block_ratio.at_least(double(REFINED_SPARSE_PEAK_MIN_IMP_RATIO))
            && score.global_imp_block_ratio.at_least(
            double(REFINED_SPARSE_PEAK_MIN_GLOBAL_IMP_RATIO),
        ) && score.avg_luma_8bit.at_least(double(REFINED_SPARSE_PEAK_MIN_LUMA_8BIT))
            && score.avg_luma_8bit.at_most(double(REFINED_SPARSE_PEAK_MAX_LUMA_8BIT))
            && score.static_bad_block_ratio.at_least(
            double(REFINED_SPARSE_PEAK_MIN_BAD_BLOCK_RATIO),
        ) && score.static_good_block_ratio.at_most(
            double(REFINED_SPARSE_PEAK_MAX_GOOD_BLOCK_RATIO),
        ),
        None => false,
    };
    strong && edge_at_least(scores, frame, REFINED_SPARSE_PEAK_MIN_EDGE_DELTA_8BIT)
        && local_cost_peak(frame, scores, SCENE_PEAK_LOCAL_RADIUS)
}

/// The cost ratio of a frame, 0 where it has no score.
fn cost_ratio_or_zero(scores: &FrameMap<ScenecutResult>, frame: usize) -> (cost: Measure)
    ensures
        cost == cost_or_zero(scores@, frame),
{
    match scores.get(frame) {
        Some(score) => score.cost_ratio,
        None => double(ZERO),
    }
}

/// Whether cuts are sparse around a frame, and the frame lies inside a long scene,
/// far enough from both its cuts, neither of which is extreme.
fn in_sparse_scene(
    frame: usize,
    keyframes: &FrameSet,
    scores: &FrameMap<ScenecutResult>,
    max_local: usize,
    max_wide: usize,
    min_distance: usize,
) -> (inside: bool)
    ensures
        inside == lies_in_sparse_scene(
            timeline(*keyframes, *scores),
            frame,
            max_local,
            max_wide,
            min_distance as int,
        ),
{
    if local_cut_count(keyframes, frame, SCENE_PEAK_DENSITY_RADIUS) > max_local
        || local_cut_count(keyframes, frame, SCENE_PEAK_WIDE_DENSITY_RADIUS) > max_wide {
        return false;
    }
    match (keyframes.before(frame), keyframes.after(frame)) {
        (Some(previous), Some(next)) => next - previous >= SCENE_PEAK_MIN_SCENE_LEN && frame
            - previous >= min_distance && next - frame >= min_distance && cost_ratio_or_zero(
            scores,
            previous,
        ).at_most(double(SCENE_PEAK_MAX_ADJACENT_COST_RATIO)) && cost_ratio_or_zero(
            scores,
            next,
        ).at_most(double(SCENE_PEAK_MAX_ADJACENT_COST_RATIO)),
        _ => false,
    }
}

/// Whether two of the three scenes around a frame look alike.
pub fn refined_sparse_repeat_context(
    frame: usize,
    keyframes: &FrameSet,
    scores: &FrameMap<ScenecutResult>,
) -> (alike: bool)
    ensures
        alike == repeats_around(timeline(*keyframes, *scores), frame),
{
    match (keyframes.before(frame), keyframes.after(frame)) {
        (Some(previous), Some(next)) => signature_repeats(scores, previous, next)
            || signature_repeats(scores, previous, frame) || signature_repeats(
            scores,
            frame,
            next,
        ),
        _ => false,
    }
}

/// Whether a frame is a missed cut between dark scenes.
pub fn dark_scene_peak_recovery_candidate(
    frame: usize,
    keyframes: &FrameSet,
    scores: &FrameMap<ScenecutResult>,
    min_distance: usize,
) -> (missed: bool)
    ensures
        missed == is_missed_cut(
            PeakKind::Dark,
            timeline(*keyframes, *scores),
            frame,
            min_distance as int,
        ),
{
    let fits = match scores.get(frame) {
        Some(score) => score.decision == ScenecutDecision::NoCut && dark_scene_peak_score(score),
        None => false,
    };
    fits && local_cost_peak(frame, scores, SCENE_PEAK_LOCAL_RADIUS) && in_sparse_scene(
        frame,
        keyframes,
        scores,
        SCENE_PEAK_MAX_LOCAL_CUTS,
        SCENE_PEAK_MAX_WIDE_CUTS,
        min_distance,
    )
}

/// Whether a frame is a missed cut in a stretch with few cuts.
pub fn sparse_scene_peak_recovery_candidate(
    frame: usize,
    keyframes: &FrameSet,
    scores: &FrameMap<ScenecutResult>,
    min_distance: usize,
) -> (missed: bool)
    ensures
        missed == is_missed_cut(
            PeakKind::Sparse,
            timeline(*keyframes, *scores),
            frame,
            min_distance as int,
        ),
{
    let fits = match scores.get(frame) {
        Some(score) => score.decision == ScenecutDecision::NoCut && sparse_scene_peak_score(score),
        None => false,
    };
    fits && local_cost_peak(frame, scores, SCENE_PEAK_LOCAL_RADIUS) && in_sparse_scene(
        frame,
        keyframes,
        scores,
        SCENE_PEAK_MAX_LOCAL_CUTS,
        SCENE_PEAK_MAX_WIDE_CUTS,
        min_distance,
    )
}

/// Whether a frame is a missed cut that a change of the picture confirms.
pub fn refined_sparse_peak_recovery_candidate(
    frame: usize,
    keyframes: &FrameSet,
    scores: &FrameMap<ScenecutResult>,
    min_distance: usize,
) -> (missed: bool)
    ensures
        missed == is_missed_cut(
            PeakKind::Refined,
            timeline(*keyframes, *scores),
            frame,
            min_distance as int,
        ),
{
    !keyframes.contains(frame) && refined_sparse_peak_score(frame, scores) && in_sparse_scene(
        frame,
        keyframes,
        scores,
        REFINED_SPARSE_PEAK_MAX_LOCAL_CUTS,
        REFINED_SPARSE_PEAK_MAX_WIDE_CUTS,
        min_distance,
    ) && !refined_sparse_repeat_context(frame, keyframes, scores)
}

/// The missed cuts of the given kind, from the first to the last.
pub(crate) fn missed_cut_frames(
    kind: PeakKind,
    keyframes: &FrameSet,
    scores: &FrameMap<ScenecutResult>,
    min_distance: usize,
) -> (missed: Vec<usize>)
    ensures
        missed@ == ascending(
            missed_cuts(kind, timeline(*keyframes, *scores), min_distance as int),
        ),
        increasing(missed@),
        missed@.to_set() == missed_cuts(
            kind,
            timeline(*keyframes, *scores),
            min_distance as int,
        ),
{
    let ghost state = timeline(*keyframes, *scores);
    let frames: Vec<usize> = scores.frames();
    let mut missed: Vec<usize> = Vec::new();
    for index in 0..frames.len()
        invariant
            state == timeline(*keyframes, *scores),
            increasing(frames@),
            frames@.to_set() == state.scores.dom(),
            increasing(missed@),
            forall|k: int| 0 <= k < missed.len() && index < frames.len() ==> missed@[k]
                < frames@[index as int],
            forall|f: usize| #[trigger]
                missed@.contains(f) ==> state.scores.contains_key(f) && is_missed_cut(
                    kind,
                    state,
                    f,
                    min_distance as int,
                ),
            forall|k: int|
                0 <= k < index && is_missed_cut(
                    kind,
                    state,
                    #[trigger] frames@[k],
                    min_distance as int,
                ) ==> missed@.contains(frames@[k]),
    {
        let frame: usize = frames[index];
        assert(frames@.contains(frame));
        assert(frames@.to_set().contains(frame));
        let found = match kind {
            PeakKind::Dark => dark_scene_peak_recovery_candidate(
                frame,
                keyframes,
                scores,
                min_distance,
            ),
            PeakKind::Sparse => sparse_scene_peak_recovery_candidate(
                frame,
                keyframes,
                scores,
                min_distance,
            ),
            PeakKind::Refined => refined_sparse_peak_recovery_candidate(
                frame,
                keyframes,
                scores,
                min_distance,
            ),
        };
        if found {
            proof {
                push_gains_one(missed@, frame);
            }
            missed.push(frame);
        }
    }
    proof {
        let target = missed_cuts(kind, state, min_distance as int);
        assert forall|f: usize| target.contains(f) implies missed@.contains(f) by {
            assert(frames@.to_set().contains(f));
            let k = frames@.index_of(f);
            assert(frames@[k] == f);
        }
        assert(missed@.to_set() =~= target);
        ascending_form_is_unique(missed@);
    }
    missed
}

/// Adds missed cuts between dark scenes.
pub fn apply_dark_scene_peak_recovery_postprocess(
    opts: &DetectionOptions,
    keyframes: &mut FrameSet,
    scores: &mut FrameMap<ScenecutResult>,
)
    ensures
        timeline(*final(keyframes), *final(scores)) == with_dark_peaks(
            *opts,
            timeline(*old(keyframes), *old(scores)),
        ),
{
    let distance: usize = min_distance(opts);
    let missed: Vec<usize> = missed_cut_frames(PeakKind::Dark, keyframes, scores, distance);
    promote_spaced(keyframes, scores, &missed, distance, ScenecutDecision::CutDarkScenePeak);
}

/// Adds missed cuts in stretches with few cuts.
pub fn apply_sparse_scene_peak_recovery_postprocess(
    opts: &DetectionOptions,
    keyframes: &mut FrameSet,
    scores: &mut FrameMap<ScenecutResult>,
)
    ensures
        timeline(*final(keyframes), *final(scores)) == with_sparse_peaks(
            *opts,
            timeline(*old(keyframes), *old(scores)),
        ),
{
    let distance: usize = min_distance(opts);
    let missed: Vec<usize> = missed_cut_frames(PeakKind::Sparse, keyframes, scores, distance);
    promote_spaced(keyframes, scores, &missed, distance, ScenecutDecision::CutSparseScenePeak);
}

} // verus!
