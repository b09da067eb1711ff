//! Whether and how a run is split, and what its readers do.

use vstd::prelude::*;
use crate::options::{larger, DetectionOptions};
use crate::parallel::plan::{active_count, clamped, frame_history, is_active, min};
use crate::parallel::plan::{parallel_active_needed_window, parallel_chunk_starts, part_starts};
use crate::parallel::plan::{parallel_initial_fetch_start, parallel_streamed_reader_buffer_frames};
use crate::parallel::plan::{parallel_worker_cost_parallelism, resolve_parallel_frame_count};
use crate::parallel::plan::{resolve_parallel_workers, smaller, worker_count};
use crate::results::DetectionResults;
use crate::timeline::{ascending, increasing};

verus! {

/// How a video is analysed.
#[derive(Debug)]
pub enum ParallelPlan {
    /// By one worker, up to a limit where there is one.
    Serial { frame_limit: Option<usize> },
    /// By several workers.
    Split {
        /// Frames that there are, as far as is known.
        frame_count: usize,
        /// Where each worker starts.
        chunk_starts: Vec<usize>,
        /// Whether each worker computes frame costs in parallel too.
        cost_parallelism: bool,
    },
}

/// Why a video cannot be analysed as asked.
#[derive(Clone, Copy, Debug, PartialEq, Eq, Structural)]
pub enum PlanError {
    /// Starting inside a video takes a known number of frames.
    UnknownLength,
}

/// The number of frames that a run covers, if that is known.
pub open spec fn known_count(frame_limit: Option<usize>, total_frames: Option<usize>) -> Option<
    usize,
> {
    match (frame_limit, total_frames) {
        (Some(limit), Some(total)) => Some(
            if limit < total {
                limit
            } else {
                total
            },
        ),
        (Some(limit), None) => if limit == usize::MAX {
            None
        } else {
            Some(limit)
        },
        (None, total) => total,
    }
}

/// Whether a plan splits the given number of frames as configured.
pub open spec fn splits_as_configured(
    plan: ParallelPlan,
    opts: DetectionOptions,
    count: usize,
    requested: usize,
    available: usize,
) -> bool {
    let workers = worker_count(requested as int, count as int, available as int);
    plan matches ParallelPlan::Split { frame_count, chunk_starts, cost_parallelism } && {
        &&& frame_count == count
        &&& chunk_starts@ == if workers <= 1 || count == 0 {
            seq![0usize]
        } else {
            ascending(part_starts(count as int, workers))
        }
        &&& chunk_starts@.len() >= 1
        &&& chunk_starts@[0] == 0
        &&& increasing(chunk_starts@)
        &&& cost_parallelism == (opts.disable_rayon_on_workers == 0 || workers
            < opts.disable_rayon_on_workers)
    }
}

/// Splits the given number of frames among the workers that take part.
fn split(
    opts: &DetectionOptions,
    frame_count: usize,
    requested: usize,
    available: usize,
) -> (plan: ParallelPlan)
    ensures
        splits_as_configured(plan, *opts, frame_count, requested, available),
{
    let workers: usize = resolve_parallel_workers(requested, frame_count, available);
    ParallelPlan::Split {
        frame_count,
        chunk_starts: parallel_chunk_starts(frame_count, workers),
        cost_parallelism: parallel_worker_cost_parallelism(opts, workers),
    }
}

/// How a video that one reader decodes is analysed: by one worker where its length
/// is not known, or where it is one chunk.
pub fn plan_shared_reader(
    opts: &DetectionOptions,
    frame_limit: Option<usize>,
    total_frames: Option<usize>,
    requested: usize,
    available: usize,
) -> (plan: ParallelPlan)
    ensures
        match known_count(frame_limit, total_frames) {
            None => plan == (ParallelPlan::Serial { frame_limit }),
            Some(count) => {
                let workers = worker_count(requested as int, count as int, available as int);
                if workers <= 1 || count == 0 || ascending(
                    part_starts(count as int, workers),
                ).len() <= 1 {
                    plan == (ParallelPlan::Serial { frame_limit: Some(count) })
                } else {
                    splits_as_configured(plan, *opts, count, requested, available)
                }
            },
        },
{
    match resolve_parallel_frame_count(frame_limit, total_frames) {
        None => ParallelPlan::Serial { frame_limit },
        Some(frame_count) => {
            let plan = split(opts, frame_count, requested, available);
            let single = match &plan {
                ParallelPlan::Split { chunk_starts, .. } => chunk_starts.len() <= 1,
                ParallelPlan::Serial { .. } => true,
            };
            if single {
                ParallelPlan::Serial { frame_limit: Some(frame_count) }
            } else {
                plan
            }
        },
    }
}

/// How a video is analysed of which each worker has a decoder of its own, from a
/// frame on.
pub fn plan_own_decoders(
    opts: &DetectionOptions,
    frame_start: usize,
    frame_limit: Option<usize>,
    total_frames: Option<usize>,
    requested: usize,
    available: usize,
) -> (plan: Result<ParallelPlan, PlanError>)
    ensures
        ({
            let rest = match total_frames {
                Some(total) => Some(larger(total - frame_start, 0) as usize),
                None => None,
            };
            match known_count(frame_limit, rest) {
                None => if frame_start != 0 {
                    plan == Err::<ParallelPlan, PlanError>(PlanError::UnknownLength)
                } else {
                    plan == Ok::<ParallelPlan, PlanError>(ParallelPlan::Serial { frame_limit })
                },
                Some(count) => if count <= 1 {
                    plan == Ok::<ParallelPlan, PlanError>(
                        ParallelPlan::Serial { frame_limit: Some(count) },
                    )
                } else {
                    plan matches Ok(p) && splits_as_configured(
                        p,
                        *opts,
                        count,
                        requested,
                        available,
                    )
                },
            }
        }),
{
    let rest: Option<usize> = match total_frames {
        Some(total) => Some(total.saturating_sub(frame_start)),
        None => None,
    };
    match resolve_parallel_frame_count(frame_limit, rest) {
        None => if frame_start != 0 {
            Err(PlanError::UnknownLength)
        } else {
            Ok(ParallelPlan::Serial { frame_limit })
        },
        Some(frame_count) => if frame_count <= 1 {
            Ok(ParallelPlan::Serial { frame_limit: Some(frame_count) })
        } else {
            Ok(split(opts, frame_count, requested, available))
        },
    }
}

/// The first frame that each worker needs at the start.
pub fn initial_needs(chunk_starts: &Vec<usize>, opts: &DetectionOptions) -> (needs: Vec<usize>)
    ensures
        needs.len() == chunk_starts.len(),
        forall|k: int|
            0 <= k < needs.len() ==> #[trigger] needs@[k] == larger(
                chunk_starts@[k] - frame_history(*opts) - 1,
                0,
            ),
{
    let mut needs: Vec<usize> = Vec::new();
    for worker in 0..chunk_starts.len()
        invariant
            needs.len() == worker,
            forall|k: int|
                0 <= k < worker ==> #[trigger] needs@[k] == larger(
                    chunk_starts@[k] - frame_history(*opts) - 1,
                    0,
                ),
    {
        needs.push(parallel_initial_fetch_start(chunk_starts[worker], opts));
    }
    needs
}

/// What the reader of a stream may do.
#[derive(Clone, Copy, Debug, PartialEq, Eq, Structural)]
pub enum ReaderGate {
    /// All frames are read.
    Finished,
    /// No worker needs a frame any more; reading goes on without a limit.
    Unneeded,
    /// Frames before the given one can go, and there is room for another.
    Read { keep_from: usize },
    /// Frames before the given one can go, but there is no room yet.
    Wait { keep_from: usize },
}

/// What the reader of a stream may do, by the frames that it has produced and those
/// that each worker needs: it reads while no more frames lie between the slowest
/// active worker and itself than one window per active worker.
pub fn streamed_reader_gate(
    produced: usize,
    frame_count: usize,
    needed_from: &[usize],
    per_worker_buffered_frames: usize,
) -> (gate: ReaderGate)
    ensures
        match gate {
            ReaderGate::Finished => produced == frame_count,
            ReaderGate::Unneeded => produced != frame_count && active_count(needed_from@) == 0,
            ReaderGate::Read { keep_from } => {
                &&& produced != frame_count
                &&& needed_from@.contains(keep_from) && is_active(keep_from)
                &&& forall|k: int|
                    0 <= k < needed_from@.len() ==> keep_from <= #[trigger] needed_from@[k]
                &&& produced - keep_from <= clamped(
                    per_worker_buffered_frames * active_count(needed_from@),
                )
            },
            ReaderGate::Wait { keep_from } => {
                &&& produced != frame_count
                &&& needed_from@.contains(keep_from) && is_active(keep_from)
                &&& forall|k: int|
                    0 <= k < needed_from@.len() ==> keep_from <= #[trigger] needed_from@[k]
                &&& produced - keep_from > clamped(
                    per_worker_buffered_frames * active_count(needed_from@),
                )
            },
        },
{
    if produced == frame_count {
        return ReaderGate::Finished;
    }
    match parallel_active_needed_window(needed_from) {
        None => ReaderGate::Unneeded,
        Some((keep_from, active)) => {
            let room: usize = parallel_streamed_reader_buffer_frames(
                per_worker_buffered_frames,
                active,
            );
            if produced.saturating_sub(keep_from) <= room {
                ReaderGate::Read { keep_from }
            } else {
                ReaderGate::Wait { keep_from }
            }
        },
    }
}

/// The frames that active workers need, which is all that the reader of an indexed
/// source keeps.
pub fn needed_frames(needed_from: &[usize]) -> (frames: Vec<usize>)
    ensures
        frames@ == needed_from@.filter(|needed: usize| is_active(needed)),
{
    let mut frames: Vec<usize> = Vec::new();
    let ghost active = |needed: usize| is_active(needed);
    for index in 0..needed_from.len()
        invariant
            active == |needed: usize| is_active(needed),
            frames@ == needed_from@.take(index as int).filter(active),
    {
        proof {
            let before = needed_from@.take(index as int);
            assert(needed_from@.take(index + 1) =~= before.push(needed_from@[index as int]));
            before.lemma_filter_push(needed_from@[index as int], active);
        }
        if needed_from[index] != usize::MAX {
            frames.push(needed_from[index]);
        }
    }
    assert(needed_from@.take(needed_from.len() as int) =~= needed_from@);
    frames
}

/// The reader of a source whose frames can be fetched in any order.
#[derive(Clone, Copy, Debug, PartialEq, Eq, Structural)]
pub struct IndexedReader {
    frame_count: usize,
}

impl IndexedReader {
    /// Frames that there are, as far as is known.
    pub closed spec fn count(self) -> int {
        self.frame_count as int
    }

    /// A reader of the given number of frames.
    pub fn new(frame_count: usize) -> (reader: Self)
        ensures
            reader.count() == frame_count,
    {
        IndexedReader { frame_count }
    }

    /// Whether a requested frame is to be decoded: it exists and is not held.
    pub fn wants(&self, frame: usize, held: bool) -> (wanted: bool)
        ensures
            wanted == (frame < self.count() && !held),
    {
        !(frame >= self.frame_count || held)
    }

    /// Notes that a frame does not exist.
    pub fn ended_at(&mut self, frame: usize)
        ensures
            final(self).count() == smaller(old(self).count(), frame as int),
    {
        self.frame_count = min(self.frame_count, frame);
    }

    /// Frames that there are, as far as is known.
    pub fn frame_count(&self) -> (frames: usize)
        ensures
            frames == self.count(),
    {
        self.frame_count
    }
}

/// The result of a run, which covers no more frames than were read.
pub fn limited_to_produced(results: DetectionResults, produced: usize) -> (limited: DetectionResults)
    ensures
        limited == (DetectionResults {
            frame_count: smaller(results.frame_count as int, produced as int) as usize,
            ..results
        }),
{
    let mut limited = results;
    limited.frame_count = min(limited.frame_count, produced);
    limited
}

} // verus!
