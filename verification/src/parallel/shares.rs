//! How work, lookahead and memory are shared out among workers.

use vstd::prelude::*;
use crate::options::DetectionOptions;
use crate::parallel::driver::known_count;
use crate::parallel::plan::{frame_history, held_frame_bytes, part_start, reader_budget};
use crate::parallel::plan::{sample_bytes, warmup, worker_count, worker_window};
use crate::parallel::plan::{ParallelFrameReducer, PARALLEL_READER_FRAME_ENTRY_OVERHEAD_BYTES};
use crate::parallel::plan::{PARALLEL_READER_MAX_BUFFER_FRAMES, PARALLEL_READER_TARGET_BUFFER_BYTES};
use crate::video::{ChromaSampling, VideoDetails};

verus! {

/// More than one worker is used exactly where that many are asked for, or the number is left
/// open, there are as many processors, and each gets at least 256 frames; where the
/// number is left open there are eight at most.
pub proof fn workers_are_wanted_available_and_busy(
    requested: int,
    frame_count: int,
    available: int,
    workers: int,
)
    requires
        requested >= 0,
        frame_count >= 0,
        available >= 0,
        workers > 1,
    ensures
        workers <= worker_count(requested, frame_count, available) <==> {
            &&& requested == 0 || workers <= requested
            &&& requested == 0 ==> workers <= 8
            &&& workers <= available
            &&& workers * 256 <= frame_count
        },
        worker_count(requested, frame_count, available) >= 1,
{
}

/// The parts of a video are as equal as whole frames allow, begin at its first frame and end
/// at its last.
pub proof fn parts_are_even(frame_count: int, workers: int, index: int)
    requires
        0 < frame_count,
        0 <= index < workers,
    ensures
        ({
            let size = part_start(frame_count, workers, index + 1) - part_start(
                frame_count,
                workers,
                index,
            );
            &&& frame_count / workers <= size <= frame_count / workers + 1
            &&& frame_count % workers == 0 ==> size == frame_count / workers
        }),
        part_start(frame_count, workers, 0) == 0,
        part_start(frame_count, workers, workers) == frame_count,
{
    let each = frame_count / workers;
    let rest = frame_count % workers;
    let before = index * frame_count;
    let low = before / workers;
    let high = (index + 1) * frame_count / workers;
    vstd::arithmetic::div_mod::lemma_fundamental_div_mod(frame_count, workers);
    vstd::arithmetic::div_mod::lemma_fundamental_div_mod(before, workers);
    vstd::arithmetic::div_mod::lemma_fundamental_div_mod((index + 1) * frame_count, workers);
    vstd::arithmetic::div_mod::lemma_mod_bound(frame_count, workers);
    vstd::arithmetic::div_mod::lemma_mod_bound(before, workers);
    vstd::arithmetic::div_mod::lemma_mod_bound((index + 1) * frame_count, workers);
    assert((index + 1) * frame_count == before + frame_count) by (nonlinear_arith)
        requires
            before == index * frame_count,
    ;
    let a = before % workers;
    let b = (index + 1) * frame_count % workers;
    assert(workers * high + b == workers * low + a + workers * each + rest);
    assert(each <= high - low <= each + 1) by (nonlinear_arith)
        requires
            workers * high + b == workers * low + a + workers * each + rest,
            0 <= a < workers,
            0 <= b < workers,
            0 <= rest < workers,
    ;
    if rest == 0 {
        assert(high - low == each) by (nonlinear_arith)
            requires
                workers * high + b == workers * low + a + workers * each,
                0 <= a < workers,
                0 <= b < workers,
        ;
    }
    assert(0 * frame_count == 0) by (nonlinear_arith);
    vstd::arithmetic::div_mod::lemma_div_basics(workers);
    vstd::arithmetic::div_mod::lemma_div_multiples_vanish(frame_count, workers);
    assert(workers * frame_count / workers == frame_count);
}

/// The lookahead is the shortest that serves flash detection, or one frame without it, and
/// the whole reach of each similarity rule that is on.
pub proof fn lookahead_is_the_shortest_that_serves(options: DetectionOptions, frames: int)
    ensures
        frames >= options.required_lookahead() <==> {
            let forward = options.tuning.forward_similarity;
            let transient = options.tuning.transient_similarity;
            &&& options.detect_flashes ==> frames >= options.lookahead_distance
            &&& !options.detect_flashes ==> frames >= 1
            &&& forward.enabled ==> frames >= forward.frames
            &&& forward.enabled && forward.window_frames > 1 ==> frames >= forward.frames
                + forward.window_frames - 1
            &&& transient.enabled ==> frames >= transient.frames
            &&& frames >= 0
        },
{
}

/// The history is the shortest that serves each similarity rule that is on: as many frames as
/// are compared before a frame, and all but one of a window.
pub proof fn history_is_the_shortest_that_serves(options: DetectionOptions, frames: int)
    ensures
        frames >= frame_history(options) <==> {
            let forward = options.tuning.forward_similarity;
            let transient = options.tuning.transient_similarity;
            &&& transient.enabled ==> frames >= transient.frames
            &&& forward.enabled ==> frames >= forward.window_frames - 1
            &&& frames >= 0
        },
{
}

/// A worker warms up over the fewest frames that reach, beyond its history and eight frames
/// of slack, as far as the lookahead, the smallest distance between cuts and the shortest
/// scene that a return may end.
pub proof fn warmup_is_the_shortest_that_serves(options: DetectionOptions, frames: int)
    requires
        frames < usize::MAX,
    ensures
        frames >= warmup(options) <==> {
            let beyond = frames - frame_history(options) - 8;
            &&& beyond >= options.required_lookahead()
            &&& options.min_scenecut_distance is Some ==> beyond
                >= options.min_scenecut_distance.unwrap()
            &&& options.tuning.forward_similarity.enabled ==> beyond
                >= options.tuning.forward_similarity.min_previous_scene_len
        },
{
}

/// A frame that is not reduced takes its luma, twice that with chroma of half width, three
/// times that with full chroma, and half as much again with chroma of half width and height;
/// a sample takes as many bytes as hold its bits.
pub proof fn frames_take_what_their_planes_take(
    video: VideoDetails,
    other: VideoDetails,
    reducer: ParallelFrameReducer,
)
    requires
        reducer.shrink_factor() is None,
        !reducer.leaves_out_chroma(),
        other == (VideoDetails { chroma_sampling: ChromaSampling::Monochrome, ..video }),
        video.width * video.height <= usize::MAX / 16,
        0 < video.bit_depth <= 16,
    ensures
        ({
            let luma = held_frame_bytes(other, reducer);
            let held = held_frame_bytes(video, reducer);
            &&& video.bit_depth <= 8 ==> luma == video.width * video.height
            &&& video.bit_depth > 8 ==> luma == 2 * (video.width * video.height)
            &&& video.chroma_sampling == ChromaSampling::Monochrome ==> held == luma
            &&& video.chroma_sampling == ChromaSampling::Yuv422 ==> held == 2 * luma
            &&& video.chroma_sampling == ChromaSampling::Yuv444 ==> held == 3 * luma
            &&& video.chroma_sampling == ChromaSampling::Yuv420 && video.width % 2 == 0
                && video.height % 2 == 0 ==> 2 * held == 3 * luma
        }),
{
    let bytes = sample_bytes(video.bit_depth as int);
    let luma = video.width * video.height;
    assert(bytes == 1 || bytes == 2);
    assert(0 <= luma) by (nonlinear_arith)
        requires
            luma == video.width * video.height,
            video.width >= 0,
            video.height >= 0,
    ;
    if video.width % 2 == 0 {
        let half = video.width as int / 2;
        assert(luma == 2 * (half * video.height)) by (nonlinear_arith)
            requires
                luma == video.width * video.height,
                video.width == 2 * half,
        ;
    }
    assert(luma * 1 == luma && luma * 2 == luma + luma);
    assert((luma + luma) * 1 == luma + luma && (luma + luma) * 2 == 4 * luma);
    assert((luma + luma * 2) * 1 == 3 * luma && (luma + luma * 2) * 2 == 6 * luma);
    let half_more = luma + luma / 2;
    assert(half_more * 1 == half_more && half_more * 2 == half_more + half_more);
}

/// Without chroma a frame takes what its luma takes.
pub proof fn dropped_chroma_takes_nothing(
    video: VideoDetails,
    other: VideoDetails,
    reducer: ParallelFrameReducer,
)
    requires
        reducer.leaves_out_chroma(),
        other == (VideoDetails { chroma_sampling: ChromaSampling::Monochrome, ..video }),
    ensures
        held_frame_bytes(video, reducer) == held_frame_bytes(other, reducer),
{
}

/// The reader of a worker holds at least what the worker looks at; beyond that it holds no
/// more frames than there is memory for, and no more than the most that it may; and it holds
/// as many as both allow.
pub proof fn reader_holds_what_fits(
    opts: DetectionOptions,
    video: VideoDetails,
    reducer: ParallelFrameReducer,
    frames: int,
)
    requires
        reducer.shrink_factor() matches Some(factor) ==> factor > 0,
        frames > worker_window(opts),
        held_frame_bytes(video, reducer) + PARALLEL_READER_FRAME_ENTRY_OVERHEAD_BYTES <= usize::MAX,
        held_frame_bytes(video, reducer) >= 0,
    ensures
        reader_budget(opts, video, reducer) >= worker_window(opts),
        frames <= reader_budget(opts, video, reducer) <==> {
            &&& frames * (held_frame_bytes(video, reducer)
                + PARALLEL_READER_FRAME_ENTRY_OVERHEAD_BYTES)
                <= PARALLEL_READER_TARGET_BUFFER_BYTES
            &&& frames <= PARALLEL_READER_MAX_BUFFER_FRAMES
        },
{
    let entry = held_frame_bytes(video, reducer)
        + PARALLEL_READER_FRAME_ENTRY_OVERHEAD_BYTES;
    let target = PARALLEL_READER_TARGET_BUFFER_BYTES as int;
    vstd::arithmetic::div_mod::lemma_fundamental_div_mod(target, entry);
    vstd::arithmetic::div_mod::lemma_mod_bound(target, entry);
    let fit = target / entry;
    let rest = target % entry;
    assert(frames <= fit <==> frames * entry <= target) by (nonlinear_arith)
        requires
            target == entry * fit + rest,
            0 <= rest < entry,
    ;
}

/// The number of frames is the least that is known of it, where a limit without a bound
/// tells nothing.
pub proof fn known_count_is_the_least(frame_limit: Option<usize>, total_frames: Option<usize>)
    ensures
        ({
            let count = known_count(frame_limit, total_frames);
            &&& count is None <==> total_frames is None && (frame_limit is None || frame_limit
                == Some(usize::MAX))
            &&& count is Some && frame_limit is Some ==> count.unwrap() <= frame_limit.unwrap()
            &&& count is Some && total_frames is Some ==> count.unwrap() <= total_frames.unwrap()
            &&& count is Some ==> count == frame_limit || count == total_frames
        }),
{
}

} // verus!
