//! How the work is split and how far ahead frames are read.

use vstd::prelude::*;
use vstd::arithmetic::div_mod::{lemma_div_is_ordered, lemma_fundamental_div_mod};
use vstd::arithmetic::mul::lemma_mul_is_distributive_add_other_way;
use crate::options::{larger, DetectionOptions, SceneDetectionSpeed};
use crate::video::{ChromaSampling, VideoDetails};
use crate::timeline::{ascending, ascending_form_is_unique, increasing, push_gains_one};

verus! {

/// Fewest frames of a chunk.
pub const PARALLEL_MIN_CHUNK_FRAMES: usize = 256;
/// Most workers that are picked automatically.
pub const PARALLEL_MAX_AUTOMATIC_WORKERS: usize = 8;
/// Bytes that one worker's frames may take: 384 MiB.
pub const PARALLEL_READER_TARGET_BUFFER_BYTES: usize = 402_653_184;
/// Most frames that are read ahead for one worker.
pub const PARALLEL_READER_MAX_BUFFER_FRAMES: usize = 16_384;
/// Bytes that a held frame takes besides its samples.
pub const PARALLEL_READER_FRAME_ENTRY_OVERHEAD_BYTES: usize = 256;
/// Frames of slack beyond what the rules need.
pub const PARALLEL_READER_SLACK_FRAMES: usize = 8;
/// Size of the smaller edge up to which pictures are never shrunk.
pub const FULL_RESOLUTION_EDGE: usize = 240;

/// The smaller of two numbers.
pub open spec fn smaller(a: int, b: int) -> int {
    if a <= b {
        a
    } else {
        b
    }
}

/// The machine number nearest to a number that is not negative.
pub open spec fn clamped(value: int) -> int {
    smaller(value, usize::MAX as int)
}

/// The larger of two machine numbers.
pub(crate) fn max(a: usize, b: usize) -> (m: usize)
    ensures
        m == larger(a as int, b as int),
{
    if a >= b {
        a
    } else {
        b
    }
}

/// The smaller of two machine numbers.
pub(crate) fn min(a: usize, b: usize) -> (m: usize)
    ensures
        m == smaller(a as int, b as int),
{
    if a <= b {
        a
    } else {
        b
    }
}

/// A product, or the largest machine number where it does not fit.
pub(crate) fn saturating_product(a: usize, b: usize) -> (product: usize)
    ensures
        product == clamped(a * b),
{
    match a.checked_mul(b) {
        Some(product) => product,
        None => usize::MAX,
    }
}

/// How many frames there are to split, if that is known: the length of the video,
/// or the limit where it is lower. The largest machine number is no limit.
pub fn resolve_parallel_frame_count(
    frame_limit: Option<usize>,
    total_frames: Option<usize>,
) -> (count: Option<usize>)
    ensures
        count == match (frame_limit, total_frames) {
            (Some(limit), Some(total)) => Some(
                if limit < total {
                    limit
                } else {
                    total
                },
            ),
            (Some(limit), None) => if limit == usize::MAX {
                None
            } else {
                Some(limit)
            },
            (None, total) => total,
        },
{
    let limit: Option<usize> = match frame_limit {
        Some(limit) => if limit != usize::MAX {
            Some(limit)
        } else {
            None
        },
        None => None,
    };
    match (limit, total_frames) {
        (Some(limit), Some(total)) => Some(min(limit, total)),
        (Some(limit), None) => Some(limit),
        (None, total) => total,
    }
}

/// How many workers take part: one for short videos or where one was asked for,
/// else what was asked for, within what the machine has and what the frames make
/// worthwhile.
pub open spec fn worker_count(requested: int, frame_count: int, available: int) -> int {
    if requested == 1 || frame_count < 2 * PARALLEL_MIN_CHUNK_FRAMES {
        1
    } else {
        let wanted = if requested == 0 {
            larger(smaller(available, PARALLEL_MAX_AUTOMATIC_WORKERS as int), 1)
        } else {
            requested
        };
        smaller(
            smaller(wanted, larger(available, 1)),
            frame_count / PARALLEL_MIN_CHUNK_FRAMES as int,
        )
    }
}

/// How many workers take part, on a machine that runs `available` at once.
pub fn resolve_parallel_workers(
    requested: usize,
    frame_count: usize,
    available: usize,
) -> (workers: usize)
    ensures
        workers == worker_count(requested as int, frame_count as int, available as int),
        1 <= workers,
        workers <= frame_count || workers == 1,
{
    if requested == 1 || frame_count < PARALLEL_MIN_CHUNK_FRAMES * 2 {
        return 1;
    }
    let wanted: usize = if requested == 0 {
        min(available, PARALLEL_MAX_AUTOMATIC_WORKERS)
    } else {
        requested
    };
    let chunks: usize = frame_count / PARALLEL_MIN_CHUNK_FRAMES;
    min(min(max(wanted, 1), max(available, 1)), max(chunks, 1))
}

/// Whether each worker may compute frame costs in parallel too.
pub fn parallel_worker_cost_parallelism(opts: &DetectionOptions, workers: usize) -> (parallel: bool)
    ensures
        parallel == (opts.disable_rayon_on_workers == 0 || workers < opts.disable_rayon_on_workers),
{
    opts.disable_rayon_on_workers == 0 || workers < opts.disable_rayon_on_workers
}

/// Where the chunks of a video start, when it is cut into equal parts.
pub open spec fn part_starts(frame_count: int, workers: int) -> Set<usize> {
    Set::new(
        |start: usize|
            exists|index: int|
                0 <= index < workers && start == #[trigger] part_start(
                    frame_count,
                    workers,
                    index,
                ),
    )
}

/// Where one of the equal parts starts.
pub open spec fn part_start(frame_count: int, workers: int, index: int) -> int {
    index * frame_count / workers
}

/// A part starts inside the video, and no later than the next part.
pub proof fn parts_are_ordered(frame_count: int, workers: int, index: int)
    requires
        0 < frame_count,
        0 <= index < workers,
    ensures
        0 <= part_start(frame_count, workers, index) < frame_count,
        part_start(frame_count, workers, index) <= part_start(frame_count, workers, index + 1),
        part_start(frame_count, workers, 0) == 0,
{
    assert(index * frame_count < workers * frame_count) by (nonlinear_arith)
        requires
            index < workers,
            0 < frame_count,
    ;
    assert(0 <= index * frame_count) by (nonlinear_arith)
        requires
            0 <= index,
            0 < frame_count,
    ;
    let product = index * frame_count;
    assert(0 <= product / workers < frame_count) by (nonlinear_arith)
        requires
            0 <= product < workers * frame_count,
            0 < workers,
    ;
    assert(index * frame_count <= (index + 1) * frame_count) by (nonlinear_arith)
        requires
            0 < frame_count,
    ;
    lemma_div_is_ordered(index * frame_count, (index + 1) * frame_count, workers);
    assert(0 * frame_count == 0) by (nonlinear_arith);
    assert(0int / workers == 0) by (nonlinear_arith)
        requires
            0 < workers,
    ;
}

/// Where the chunks of a video start: where equal parts start, each start once. A
/// video without frames, or for one worker, is one chunk.
pub fn parallel_chunk_starts(frame_count: usize, workers: usize) -> (starts: Vec<usize>)
    ensures
        starts@ == if workers <= 1 || frame_count == 0 {
            seq![0usize]
        } else {
            ascending(part_starts(frame_count as int, workers as int))
        },
        starts.len() >= 1,
        starts@[0] == 0,
        increasing(starts@),
        starts.len() <= larger(workers as int, 1),
        forall|k: int| 0 <= k < starts.len() && frame_count > 0 ==> starts@[k] < frame_count,
{
    let mut starts: Vec<usize> = Vec::new();
    if workers <= 1 || frame_count == 0 {
        starts.push(0);
        return starts;
    }
    let ghost total = frame_count as int;
    let ghost parts = workers as int;
    for index in 0..workers
        invariant
            total == frame_count,
            parts == workers,
            frame_count > 0,
            workers > 1,
            increasing(starts@),
            starts.len() <= index,
            index > 0 ==> starts.len() >= 1 && starts@[0] == 0 && starts@.last() == part_start(
                total,
                parts,
                index - 1,
            ),
            index == 0 ==> starts.len() == 0,
            forall|k: int| 0 <= k < starts.len() ==> starts@[k] < frame_count,
            forall|s: usize| #[trigger]
                starts@.contains(s) ==> part_starts(total, parts).contains(s),
            forall|k: int|
                0 <= k < index ==> starts@.contains(#[trigger] part_start(total, parts, k) as usize),
    {
        proof {
            parts_are_ordered(total, parts, index as int);
            if index > 0 {
                parts_are_ordered(total, parts, index - 1);
            }
            assert(index * frame_count < 0x1_0000_0000_0000_0000 * 0x1_0000_0000_0000_0000)
                by (nonlinear_arith)
                requires
                    0 <= index < 0x1_0000_0000_0000_0000,
                    0 <= frame_count < 0x1_0000_0000_0000_0000,
            ;
        }
        let start: usize = (index as u128 * frame_count as u128 / workers as u128) as usize;
        assert(start == part_start(total, parts, index as int));
        let repeated = starts.len() > 0 && starts[starts.len() - 1] == start;
        if !repeated {
            proof {
                push_gains_one(starts@, start);
            }
            starts.push(start);
        }
    }
    proof {
        assert forall|s: usize| part_starts(total, parts).contains(s) implies starts@.contains(
            s,
        ) by {
            let k = choose|k: int|
                0 <= k < parts && s == #[trigger] part_start(total, parts, k);
            parts_are_ordered(total, parts, k);
            assert(starts@.contains(part_start(total, parts, k) as usize));
        }
        assert(starts@.to_set() =~= part_starts(total, parts));
        ascending_form_is_unique(starts@);
    }
    starts
}

/// How many frames before the current one the rules look at.
pub open spec fn frame_history(opts: DetectionOptions) -> int {
    larger(
        if opts.tuning.transient_similarity.enabled {
            opts.tuning.transient_similarity.frames as int
        } else {
            0
        },
        if opts.tuning.forward_similarity.enabled {
            larger(opts.tuning.forward_similarity.window_frames - 1, 0)
        } else {
            0
        },
    )
}

/// How many frames before the current one the rules look at.
pub fn parallel_frame_history(opts: &DetectionOptions) -> (history: usize)
    ensures
        history == frame_history(*opts),
{
    let transient: usize = if opts.tuning.transient_similarity.enabled {
        opts.tuning.transient_similarity.frames
    } else {
        0
    };
    let forward: usize = if opts.tuning.forward_similarity.enabled {
        opts.tuning.forward_similarity.window_frames.saturating_sub(1)
    } else {
        0
    };
    max(transient, forward)
}

/// The first frame that a worker reads: its first frame, the one before, and the
/// history of that one, as far as the video has them.
pub fn parallel_initial_fetch_start(start_frame: usize, opts: &DetectionOptions) -> (fetch: usize)
    ensures
        fetch == larger(start_frame - frame_history(*opts) - 1, 0),
{
    start_frame.saturating_sub(parallel_frame_history(opts).saturating_add(1))
}

/// How a reader shrinks frames before workers share them.
///
/// Chroma is read by forward similarity alone, and shrunk luma by the fast
/// detector alone, so what no enabled rule reads is left out.
#[derive(Clone, Copy, Debug, PartialEq, Eq, Structural)]
pub struct ParallelFrameReducer {
    drop_chroma: bool,
    prescale: Option<usize>,
}

impl ParallelFrameReducer {
    /// Whether chroma is left out.
    pub closed spec fn leaves_out_chroma(self) -> bool {
        self.drop_chroma
    }

    /// The factor by which luma is shrunk.
    pub closed spec fn shrink_factor(self) -> Option<usize> {
        self.prescale
    }

    /// The reduction for a video of the given size, of which the fast detector
    /// would use a picture shrunk by `fast_factor`.
    pub fn new(
        resolution: (usize, usize),
        fast_factor: usize,
        speed: SceneDetectionSpeed,
        forward_similarity_enabled: bool,
        transient_similarity_enabled: bool,
    ) -> (reducer: Self)
        ensures
            reducer.leaves_out_chroma() == !forward_similarity_enabled,
            reducer.shrink_factor() == if !forward_similarity_enabled
                && !transient_similarity_enabled && speed == SceneDetectionSpeed::Fast
                && resolution.0 > FULL_RESOLUTION_EDGE && resolution.1 > FULL_RESOLUTION_EDGE {
                Some(fast_factor)
            } else {
                None
            },
    {
        let prescale: Option<usize> = if forward_similarity_enabled || transient_similarity_enabled
            || speed != SceneDetectionSpeed::Fast || resolution.0 <= FULL_RESOLUTION_EDGE
            || resolution.1 <= FULL_RESOLUTION_EDGE {
            None
        } else {
            Some(fast_factor)
        };
        ParallelFrameReducer { drop_chroma: !forward_similarity_enabled, prescale }
    }

    /// Whether workers get luma that is shrunk already.
    pub fn is_prescaled(&self) -> (prescaled: bool)
        ensures
            prescaled == self.shrink_factor() is Some,
    {
        self.prescale.is_some()
    }

    /// Whether chroma is left out.
    pub fn drops_chroma(&self) -> (drops: bool)
        ensures
            drops == self.leaves_out_chroma(),
    {
        self.drop_chroma
    }

    /// The factor by which luma is shrunk, if it is.
    pub fn scale_factor(&self) -> (factor: Option<usize>)
        ensures
            factor == self.shrink_factor(),
    {
        self.prescale
    }
}

/// The reduction for the given options.
pub fn parallel_frame_reducer(
    opts: &DetectionOptions,
    video_details: &VideoDetails,
    fast_factor: usize,
) -> (reducer: ParallelFrameReducer)
    ensures
        reducer.leaves_out_chroma() == !opts.tuning.forward_similarity.enabled,
        reducer.shrink_factor() == if !opts.tuning.forward_similarity.enabled
            && !opts.tuning.transient_similarity.enabled && opts.analysis_speed
            == SceneDetectionSpeed::Fast && video_details.width > FULL_RESOLUTION_EDGE
            && video_details.height > FULL_RESOLUTION_EDGE {
            Some(fast_factor)
        } else {
            None
        },
{
    ParallelFrameReducer::new(
        (video_details.width, video_details.height),
        fast_factor,
        opts.analysis_speed,
        opts.tuning.forward_similarity.enabled,
        opts.tuning.transient_similarity.enabled,
    )
}

/// Bytes of one sample.
pub open spec fn sample_bytes(bit_depth: int) -> int {
    larger((bit_depth + 7) / 8, 1)
}

/// Bytes of a frame as it is held: shrunk luma alone, or luma with the chroma that
/// is kept. Products that do not fit are cut to the largest machine number.
pub open spec fn held_frame_bytes(video: VideoDetails, reducer: ParallelFrameReducer) -> int {
    let bytes = sample_bytes(video.bit_depth as int);
    match reducer.shrink_factor() {
        Some(factor) => larger(
            clamped(
                clamped((video.width as int / factor as int) * (video.height as int / factor as int))
                    * bytes,
            ),
            1,
        ),
        None => {
            let luma = clamped(video.width * video.height);
            let chroma = if reducer.leaves_out_chroma() {
                0
            } else {
                match video.chroma_sampling {
                    ChromaSampling::Yuv420 => luma / 2,
                    ChromaSampling::Yuv422 => luma,
                    ChromaSampling::Yuv444 => clamped(luma * 2),
                    ChromaSampling::Monochrome => 0,
                }
            };
            clamped(clamped(luma + chroma) * bytes)
        },
    }
}

/// Bytes of a frame as it is held.
pub fn estimated_frame_bytes(
    video_details: &VideoDetails,
    reducer: &ParallelFrameReducer,
) -> (bytes: usize)
    requires
        reducer.shrink_factor() matches Some(factor) ==> factor > 0,
    ensures
        bytes == held_frame_bytes(*video_details, *reducer),
{
    let whole: usize = video_details.bit_depth / 8;
    let bytes_per_sample: usize = if video_details.bit_depth % 8 == 0 {
        max(whole, 1)
    } else {
        whole + 1
    };
    assert(bytes_per_sample == sample_bytes(video_details.bit_depth as int));
    if let Some(factor) = reducer.scale_factor() {
        let luma: usize = saturating_product(
            video_details.width / factor,
            video_details.height / factor,
        );
        return max(saturating_product(luma, bytes_per_sample), 1);
    }
    let luma: usize = saturating_product(video_details.width, video_details.height);
    let chroma: usize = if reducer.drops_chroma() {
        0
    } else {
        match video_details.chroma_sampling {
            ChromaSampling::Yuv420 => luma / 2,
            ChromaSampling::Yuv422 => luma,
            ChromaSampling::Yuv444 => saturating_product(luma, 2),
            ChromaSampling::Monochrome => 0,
        }
    };
    saturating_product(luma.saturating_add(chroma), bytes_per_sample)
}

/// Frames that a worker needs at once.
pub open spec fn worker_window(opts: DetectionOptions) -> int {
    clamped(
        clamped(clamped(opts.required_lookahead()) + frame_history(opts))
            + PARALLEL_READER_SLACK_FRAMES,
    )
}

/// Frames that may be read ahead for one worker: what fits into the byte target,
/// yet at least what the worker needs at once, and at most a fixed number unless it
/// needs more.
pub open spec fn reader_budget(
    opts: DetectionOptions,
    video: VideoDetails,
    reducer: ParallelFrameReducer,
) -> int {
    let needed = worker_window(opts);
    let entry = larger(
        clamped(
            held_frame_bytes(video, reducer) + PARALLEL_READER_FRAME_ENTRY_OVERHEAD_BYTES,
        ),
        1,
    );
    smaller(
        larger(PARALLEL_READER_TARGET_BUFFER_BYTES as int / entry, needed),
        larger(PARALLEL_READER_MAX_BUFFER_FRAMES as int, needed),
    )
}

/// Frames that may be read ahead for one worker.
pub fn parallel_reader_buffer_frames(
    opts: &DetectionOptions,
    video_details: &VideoDetails,
    reducer: &ParallelFrameReducer,
) -> (frames: usize)
    requires
        reducer.shrink_factor() matches Some(factor) ==> factor > 0,
    ensures
        frames == reader_budget(*opts, *video_details, *reducer),
{
    let minimum: usize = opts.effective_lookahead_distance().saturating_add(
        parallel_frame_history(opts),
    ).saturating_add(PARALLEL_READER_SLACK_FRAMES);
    let frame_bytes: usize = max(
        estimated_frame_bytes(video_details, reducer).saturating_add(
            PARALLEL_READER_FRAME_ENTRY_OVERHEAD_BYTES,
        ),
        1,
    );
    let byte_limited: usize = PARALLEL_READER_TARGET_BUFFER_BYTES / frame_bytes;
    min(max(byte_limited, minimum), max(PARALLEL_READER_MAX_BUFFER_FRAMES, minimum))
}

/// Frames that may be held between the slowest worker and the reader: one window
/// per active worker.
pub fn parallel_streamed_reader_buffer_frames(
    per_worker_buffered_frames: usize,
    active_workers: usize,
) -> (frames: usize)
    ensures
        frames == clamped(per_worker_buffered_frames * larger(active_workers as int, 1)),
{
    saturating_product(per_worker_buffered_frames, max(active_workers, 1))
}

/// Whether a worker still needs frames. A worker that has retired asks for the
/// largest machine number.
pub open spec fn is_active(needed: usize) -> bool {
    needed != usize::MAX
}

/// Number of active workers among the first few.
pub open spec fn active_count(needed_from: Seq<usize>) -> int
    decreases needed_from.len(),
{
    if needed_from.len() == 0 {
        0
    } else {
        active_count(needed_from.drop_last()) + if is_active(needed_from.last()) {
            1int
        } else {
            0
        }
    }
}

/// The first frame that any active worker needs, and the number of active workers;
/// nothing where all have retired.
pub fn parallel_active_needed_window(needed_from: &[usize]) -> (window: Option<(usize, usize)>)
    ensures
        match window {
            Some((keep_from, active)) => {
                &&& active == active_count(needed_from@)
                &&& active > 0
                &&& is_active(keep_from)
                &&& needed_from@.contains(keep_from)
                &&& forall|k: int|
                    0 <= k < needed_from@.len() ==> keep_from <= #[trigger] needed_from@[k]
            },
            None => {
                &&& active_count(needed_from@) == 0
                &&& forall|k: int|
                    0 <= k < needed_from@.len() ==> !is_active(#[trigger] needed_from@[k])
            },
        },
{
    let mut keep_from: usize = usize::MAX;
    let mut active: usize = 0;
    for index in 0..needed_from.len()
        invariant
            active == active_count(needed_from@.take(index as int)),
            active <= index,
            (active == 0) == (keep_from == usize::MAX),
            forall|k: int| 0 <= k < index ==> keep_from <= #[trigger] needed_from@[k],
            active > 0 ==> needed_from@.contains(keep_from),
    {
        assert(needed_from@.take(index + 1).drop_last() =~= needed_from@.take(index as int));
        let frame: usize = needed_from[index];
        assert(needed_from@.contains(frame));
        if frame != usize::MAX {
            keep_from = min(keep_from, frame);
            active = active + 1;
        }
    }
    assert(needed_from@.take(needed_from.len() as int) =~= needed_from@);
    if active != 0 {
        Some((keep_from, active))
    } else {
        None
    }
}

/// The first frame that any active worker needs; nothing where all have retired.
pub fn minimum_parallel_needed_frame(needed_from: &[usize]) -> (frame: Option<usize>)
    ensures
        match frame {
            Some(keep_from) => {
                &&& is_active(keep_from)
                &&& needed_from@.contains(keep_from)
                &&& forall|k: int|
                    0 <= k < needed_from@.len() ==> keep_from <= #[trigger] needed_from@[k]
            },
            None => forall|k: int|
                0 <= k < needed_from@.len() ==> !is_active(#[trigger] needed_from@[k]),
        },
{
    match parallel_active_needed_window(needed_from) {
        Some((keep_from, _)) => Some(keep_from),
        None => None,
    }
}

/// Frames that two workers must agree on before one can take over from the other.
pub open spec fn warmup(opts: DetectionOptions) -> int {
    let previous_scene_len = if opts.tuning.forward_similarity.enabled {
        opts.tuning.forward_similarity.min_previous_scene_len as int
    } else {
        0
    };
    let min_distance = match opts.min_scenecut_distance {
        Some(distance) => distance as int,
        None => 0,
    };
    clamped(
        clamped(
            larger(
                larger(clamped(opts.required_lookahead()), min_distance),
                previous_scene_len,
            ) + frame_history(opts),
        ) + PARALLEL_READER_SLACK_FRAMES,
    )
}

/// Frames that two workers must agree on before one can take over from the other.
pub fn no_cut_parallel_warmup(opts: &DetectionOptions) -> (frames: usize)
    ensures
        frames == warmup(*opts),
{
    let previous_scene_len: usize = if opts.tuning.forward_similarity.enabled {
        opts.tuning.forward_similarity.min_previous_scene_len
    } else {
        0
    };
    let min_distance: usize = match opts.min_scenecut_distance {
        Some(distance) => distance,
        None => 0,
    };
    max(max(opts.effective_lookahead_distance(), min_distance), previous_scene_len).saturating_add(
        parallel_frame_history(opts),
    ).saturating_add(PARALLEL_READER_SLACK_FRAMES)
}

/// However many workers are active, the budget is at least one window, and it
/// grows with each more of them.
pub proof fn budget_scales_with_workers(window: int, fewer: int, more: int)
    requires
        0 <= window,
        0 <= fewer <= more,
    ensures
        clamped(window * larger(fewer, 1)) <= clamped(window * larger(more, 1)),
        clamped(window) <= clamped(window * larger(more, 1)),
{
    assert(window * larger(fewer, 1) <= window * larger(more, 1)) by (nonlinear_arith)
        requires
            0 <= window,
            larger(fewer, 1) <= larger(more, 1),
    ;
    assert(window * 1 <= window * larger(more, 1)) by (nonlinear_arith)
        requires
            0 <= window,
            1 <= larger(more, 1),
    ;
}

} // verus!
