//! Whose decision counts at each frame of a run with several workers.
//!
//! Workers that start inside the video may decide otherwise than one that came from its
//! beginning. Here nothing is presumed of what they decide.

use vstd::prelude::*;
use crate::options::DetectionOptions;
use crate::parallel::handoff::{agree_at, contiguous_end, contiguous_stretch, same_decision};
use crate::parallel::handoff::handoff_follows_agreement;
use crate::parallel::handoff::{handoff_lies_in_common_stretch, no_agreement, ParallelFrameDecision};
use crate::parallel::laws::{after_messages, settled_as};
use crate::parallel::plan::warmup;
use crate::parallel::reconcile::{ParallelWorkerMessage, ReconcileState, WorkerState};

verus! {

/// What each worker decides, by its number and the frame.
pub type Decisions = spec_fn(int, usize) -> ParallelFrameDecision;

/// The worker whose decision on a frame counts, by the frames at which workers took over.
pub open spec fn judge_of(takeovers: Seq<int>, frame: int) -> int
    decreases takeovers.len(),
{
    if takeovers.len() <= 1 {
        0
    } else if takeovers.last() <= frame {
        takeovers.len() - 1
    } else {
        judge_of(takeovers.drop_last(), frame)
    }
}

/// The decisions that count.
pub open spec fn judgements(says: Decisions, takeovers: Seq<int>) -> spec_fn(
    usize,
) -> ParallelFrameDecision {
    |frame: usize| says(judge_of(takeovers, frame as int), frame)
}

/// Whether a worker has reported nothing but what it decides.
pub open spec fn worker_says(worker: WorkerState, number: int, says: Decisions) -> bool {
    forall|frame: usize| #[trigger]
        worker.decisions.contains_key(frame) ==> worker.decisions[frame] == says(number, frame)
}

/// Whether a worker took over properly: after its own start, from the worker before it,
/// and once both decided alike for a whole warmup.
pub open spec fn took_over(
    says: Decisions,
    takeovers: Seq<int>,
    opts: DetectionOptions,
    chunk_starts: Seq<usize>,
    worker: int,
) -> bool {
    let taken = takeovers[worker];
    &&& chunk_starts[worker] <= taken - warmup(opts)
    &&& chunk_starts[worker] < taken <= usize::MAX
    &&& takeovers[worker - 1] < taken
    &&& forall|frame: usize|
        taken - warmup(opts) <= frame < taken ==> same_decision(
            #[trigger] says(worker - 1, frame),
            says(worker, frame),
        )
}

/// Whether workers took over one after another.
pub open spec fn taken_in_order(
    says: Decisions,
    takeovers: Seq<int>,
    opts: DetectionOptions,
    chunk_starts: Seq<usize>,
) -> bool {
    &&& takeovers.len() >= 1
    &&& takeovers.len() <= chunk_starts.len()
    &&& takeovers[0] == 0
    &&& forall|worker: int|
        1 <= worker < takeovers.len() ==> #[trigger] took_over(
            says,
            takeovers,
            opts,
            chunk_starts,
            worker,
        )
}

/// Whether a worker has reported frames only up to the given one.
pub open spec fn reports_before(worker: WorkerState, end: int) -> bool {
    forall|frame: usize| #[trigger] worker.decisions.contains_key(frame) ==> frame < end
}

/// Whether a worker holds decisions only from the given frame on.
pub open spec fn holds_from(worker: WorkerState, start: int) -> bool {
    forall|frame: usize| #[trigger] worker.decisions.contains_key(frame) ==> start <= frame
}

/// Whether all that is settled was decided by the worker whose turn it was. `reached`
/// holds the first frame that each worker has not reported yet.
pub open spec fn pieced(
    state: ReconcileState,
    says: Decisions,
    takeovers: Seq<int>,
    reached: Seq<int>,
    opts: DetectionOptions,
    chunk_starts: Seq<usize>,
) -> bool {
    &&& taken_in_order(says, takeovers, opts, chunk_starts)
    &&& state.outputs.len() == chunk_starts.len()
    &&& state.worker == takeovers.len() - 1
    &&& takeovers.last() <= state.start
    &&& 0 <= state.start
    &&& state.limit <= usize::MAX
    &&& reached.len() == state.outputs.len()
    &&& state.start <= reached[state.worker as int]
    &&& holds_from(state.outputs[state.worker as int], state.start)
    &&& forall|k: int|
        0 <= k < state.outputs.len() ==> worker_says(#[trigger] state.outputs[k], k, says)
            && reports_before(state.outputs[k], reached[k])
    &&& holds_judgements(state, says, takeovers, state.start)
}

/// Whether the cuts and scores are those of the frames before the given one, as decided
/// by the worker whose turn it was.
pub open spec fn holds_judgements(
    state: ReconcileState,
    says: Decisions,
    takeovers: Seq<int>,
    end: int,
) -> bool {
    &&& forall|frame: usize| #[trigger]
        state.cuts.contains(frame) <==> frame < end && judgements(says, takeovers)(
            frame,
        ).is_scene_change
    &&& forall|frame: usize| #[trigger]
        state.scores.contains_key(frame) <==> frame < end && judgements(says, takeovers)(
            frame,
        ).score is Some
    &&& forall|frame: usize| #[trigger]
        state.scores.contains_key(frame) ==> judgements(says, takeovers)(frame).score == Some(
            state.scores[frame],
        )
}

/// Settling a stretch that the worker has decided keeps the judgements.
proof fn range_holds_judgements(
    state: ReconcileState,
    says: Decisions,
    takeovers: Seq<int>,
    reached: Seq<int>,
    opts: DetectionOptions,
    chunk_starts: Seq<usize>,
    end: int,
)
    requires
        pieced(state, says, takeovers, reached, opts, chunk_starts),
        state.start <= end,
        forall|frame: usize|
            state.start <= frame < end
                ==> #[trigger] state.outputs[state.worker as int].decisions.contains_key(frame),
    ensures
        holds_judgements(state.with_range(end), says, takeovers, end),
{
    let output = state.outputs[state.worker as int];
    assert(worker_says(output, state.worker as int, says));
    let after = state.with_range(end);
    let counts = judgements(says, takeovers);
    assert forall|frame: usize| state.start <= frame < end implies output.decisions[frame]
        == #[trigger] counts(frame) by {
        assert(output.decisions.contains_key(frame));
        assert(judge_of(takeovers, frame as int) == state.worker);
    }
    assert forall|frame: usize| #[trigger] after.cuts.contains(frame) <==> frame < end && counts(
        frame,
    ).is_scene_change by {
        if state.start <= frame < end {
            assert(output.decisions.contains_key(frame));
            assert(!state.cuts.contains(frame));
        } else {
            assert(state.cuts.contains(frame) <==> frame < state.start && counts(
                frame,
            ).is_scene_change);
        }
    }
    assert forall|frame: usize| #[trigger]
        after.scores.contains_key(frame) <==> frame < end && counts(frame).score is Some by {
        if state.start <= frame < end {
            assert(output.decisions.contains_key(frame));
            assert(!state.scores.contains_key(frame));
        } else {
            assert(state.scores.contains_key(frame) <==> frame < state.start && counts(
                frame,
            ).score is Some);
        }
    }
    assert forall|frame: usize| #[trigger] after.scores.contains_key(frame) implies counts(
        frame,
    ).score == Some(after.scores[frame]) by {
        if state.start <= frame < end {
            assert(output.decisions.contains_key(frame));
        } else {
            assert(state.scores.contains_key(frame));
        }
    }
}

/// Settling what the worker that counts has decided keeps the pieces.
proof fn appending_is_pieced(
    state: ReconcileState,
    says: Decisions,
    takeovers: Seq<int>,
    reached: Seq<int>,
    opts: DetectionOptions,
    chunk_starts: Seq<usize>,
)
    requires
        pieced(state, says, takeovers, reached, opts, chunk_starts),
    ensures
        pieced(state.appended(chunk_starts), says, takeovers, reached, opts, chunk_starts),
        state.appended(chunk_starts).limit == state.limit,
        state.appended(chunk_starts).complete == state.complete,
{
    let output = state.outputs[state.worker as int];
    let own_end = state.own_end(chunk_starts);
    contiguous_stretch(output.decisions, state.start, own_end);
    let end = contiguous_end(output.decisions, state.start, own_end);
    let after = state.appended(chunk_starts);
    assert(worker_says(output, state.worker as int, says));
    range_holds_judgements(state, says, takeovers, reached, opts, chunk_starts, end);
    if end > state.start {
        assert(output.decisions.contains_key((end - 1) as usize));
        assert(reports_before(output, reached[state.worker as int]));
    }
    assert forall|k: int| 0 <= k < after.outputs.len() implies worker_says(
        #[trigger] after.outputs[k],
        k,
        says,
    ) && reports_before(after.outputs[k], reached[k]) by {
        assert(worker_says(state.outputs[k], k, says));
        assert(reports_before(state.outputs[k], reached[k]));
    }
}

/// Until a worker takes over, its takeover changes nothing.
proof fn takeover_keeps_earlier_judges(takeovers: Seq<int>, frame: int, at: int)
    requires
        takeovers.len() >= 1,
        at < frame,
    ensures
        judge_of(takeovers.push(frame), at) == judge_of(takeovers, at),
{
    assert(takeovers.push(frame).drop_last() =~= takeovers);
}

/// Handing over keeps the pieces, with one more.
proof fn handing_over_is_pieced(
    state: ReconcileState,
    says: Decisions,
    takeovers: Seq<int>,
    reached: Seq<int>,
    opts: DetectionOptions,
    chunk_starts: Seq<usize>,
)
    requires
        pieced(state, says, takeovers, reached, opts, chunk_starts),
        state.start < state.limit,
    ensures
        state.next_handoff(opts, chunk_starts) matches Some(frame) ==> {
            &&& pieced(
                state.handed_over(frame),
                says,
                takeovers.push(frame as int),
                reached,
                opts,
                chunk_starts,
            )
            &&& state.handed_over(frame).limit == state.limit
            &&& state.handed_over(frame).complete == state.complete
        },
{
    if let Some(frame) = state.next_handoff(opts, chunk_starts) {
        let left = state.outputs[state.worker as int];
        let right = state.outputs[state.worker as int + 1];
        assert(worker_says(left, state.worker as int, says));
        assert(worker_says(right, state.worker as int + 1, says));
        assert(reports_before(right, reached[state.worker as int + 1]));
        let boundary = state.own_end(chunk_starts);
        assert(boundary == chunk_starts[state.worker as int + 1]);
        let left_end = contiguous_end(left.decisions, boundary, state.limit);
        let right_end = contiguous_end(right.decisions, boundary, state.limit);
        let end = if left_end <= right_end {
            left_end
        } else {
            right_end
        };
        contiguous_stretch(left.decisions, boundary, state.limit);
        contiguous_stretch(right.decisions, boundary, state.limit);
        handoff_lies_in_common_stretch(
            left.decisions,
            right.decisions,
            opts,
            no_agreement(),
            boundary,
            end,
        );
        handoff_follows_agreement(
            left.decisions,
            right.decisions,
            opts,
            no_agreement(),
            boundary,
            boundary,
            end,
        );
        assert(left.decisions.contains_key(boundary as usize));
        assert(state.start == boundary);
        let last = (frame - 1) as usize;
        assert(left.decisions.contains_key(last));
        assert(right.decisions.contains_key(last));
        range_holds_judgements(state, says, takeovers, reached, opts, chunk_starts, frame as int);
        let later = takeovers.push(frame as int);
        let after = state.handed_over(frame);
        assert forall|at: usize| frame - warmup(opts) <= at < frame implies same_decision(
            #[trigger] says(state.worker as int, at),
            says(state.worker as int + 1, at),
        ) by {
            assert(agree_at(left.decisions, right.decisions, at as int));
            assert(left.decisions.contains_key(at));
            assert(right.decisions.contains_key(at));
        }
        assert(took_over(says, later, opts, chunk_starts, state.worker as int + 1));
        assert forall|worker: int| 1 <= worker < later.len() implies #[trigger] took_over(
            says,
            later,
            opts,
            chunk_starts,
            worker,
        ) by {
            if worker < takeovers.len() {
                assert(took_over(says, takeovers, opts, chunk_starts, worker));
            }
        }
        assert forall|k: int| 0 <= k < after.outputs.len() implies worker_says(
            #[trigger] after.outputs[k],
            k,
            says,
        ) && reports_before(after.outputs[k], reached[k]) by {
            assert(worker_says(state.outputs[k], k, says));
            assert(reports_before(state.outputs[k], reached[k]));
        }
        assert forall|at: usize| at < frame implies #[trigger] judgements(says, takeovers)(at)
            == judgements(says, later)(at) by {
            takeover_keeps_earlier_judges(takeovers, frame as int, at as int);
        }
        let settled = state.with_range(frame as int);
        assert(after.cuts == settled.cuts);
        assert(after.scores == settled.scores);
        assert forall|at: usize| #[trigger] after.cuts.contains(at) <==> at < frame && judgements(
            says,
            later,
        )(at).is_scene_change by {
            assert(settled.cuts.contains(at) <==> at < frame && judgements(says, takeovers)(
                at,
            ).is_scene_change);
        }
        assert forall|at: usize| #[trigger]
            after.scores.contains_key(at) <==> at < frame && judgements(says, later)(
                at,
            ).score is Some by {
            assert(settled.scores.contains_key(at) <==> at < frame && judgements(says, takeovers)(
                at,
            ).score is Some);
        }
        assert forall|at: usize| #[trigger] after.scores.contains_key(at) implies judgements(
            says,
            later,
        )(at).score == Some(after.scores[at]) by {
            assert(settled.scores.contains_key(at));
        }
    }
}

/// Settling all that can be settled keeps the pieces. Gives the frames at which workers
/// have taken over.
proof fn advancing_is_pieced(
    state: ReconcileState,
    says: Decisions,
    takeovers: Seq<int>,
    reached: Seq<int>,
    opts: DetectionOptions,
    chunk_starts: Seq<usize>,
) -> (later: Seq<int>)
    requires
        pieced(state, says, takeovers, reached, opts, chunk_starts),
        !state.complete,
    ensures
        ({
            let after = state.advanced(opts, chunk_starts);
            &&& pieced(after, says, later, reached, opts, chunk_starts)
            &&& after.limit == state.limit
            &&& after.complete <==> after.start >= after.limit
        }),
        takeovers.is_prefix_of(later),
    decreases state.outputs.len() - state.worker,
{
    appending_is_pieced(state, says, takeovers, reached, opts, chunk_starts);
    let settled = state.appended(chunk_starts);
    if settled.start < settled.limit {
        handing_over_is_pieced(settled, says, takeovers, reached, opts, chunk_starts);
        match settled.next_handoff(opts, chunk_starts) {
            Some(frame) => {
                let next = takeovers.push(frame as int);
                let later = advancing_is_pieced(
                    settled.handed_over(frame),
                    says,
                    next,
                    reached,
                    opts,
                    chunk_starts,
                );
                assert(takeovers.is_prefix_of(next));
                assert forall|k: int| 0 <= k < takeovers.len() implies #[trigger] later[k]
                    == takeovers[k] by {
                    assert(next[k] == later[k]);
                }
                assert(takeovers =~= later.take(takeovers.len() as int));
                later
            },
            None => takeovers,
        }
    } else {
        takeovers
    }
}

/// Whether a message reports what its worker decides, on a frame after those that it has
/// reported.
pub open spec fn message_says(
    message: ParallelWorkerMessage,
    says: Decisions,
    reached: Seq<int>,
) -> bool {
    message matches ParallelWorkerMessage::Frame { worker, frame, decision } ==> {
        &&& decision == says(worker as int, frame)
        &&& worker < reached.len() ==> reached[worker as int] <= frame
    }
}

/// What is reported after a message.
pub open spec fn reached_after(reached: Seq<int>, message: ParallelWorkerMessage) -> Seq<int> {
    match message {
        ParallelWorkerMessage::Frame { worker, frame, decision } if worker < reached.len()
            => reached.update(worker as int, frame + 1),
        _ => reached,
    }
}

/// One message keeps the pieces; and once the run is complete, every frame before the end
/// is settled as the worker whose turn it was decided. Gives the frames at which workers
/// have taken over.
proof fn message_keeps_pieces(
    state: ReconcileState,
    says: Decisions,
    takeovers: Seq<int>,
    reached: Seq<int>,
    opts: DetectionOptions,
    chunk_starts: Seq<usize>,
    message: ParallelWorkerMessage,
) -> (later: Seq<int>)
    requires
        pieced(state, says, takeovers, reached, opts, chunk_starts),
        !state.complete,
        message_says(message, says, reached),
    ensures
        ({
            let after = state.after(opts, chunk_starts, message);
            &&& taken_in_order(says, later, opts, chunk_starts)
            &&& !after.complete ==> pieced(
                after,
                says,
                later,
                reached_after(reached, message),
                opts,
                chunk_starts,
            )
            &&& after.complete ==> settled_as(after, judgements(says, later))
        }),
        takeovers.is_prefix_of(later),
{
    let received = state.received(message);
    let next = reached_after(reached, message);
    assert(pieced(received, says, takeovers, next, opts, chunk_starts)) by {
        assert forall|k: int| 0 <= k < received.outputs.len() implies worker_says(
            #[trigger] received.outputs[k],
            k,
            says,
        ) && reports_before(received.outputs[k], next[k]) by {
            assert(worker_says(state.outputs[k], k, says));
            assert(reports_before(state.outputs[k], reached[k]));
        }
    }
    let later = advancing_is_pieced(received, says, takeovers, next, opts, chunk_starts);
    let advanced = received.advanced(opts, chunk_starts);
    let after = advanced.closed_off();
    if advanced.complete {
        assert(settled_as(after, judgements(says, later)));
    } else if after.complete {
        let output = advanced.outputs[advanced.worker as int];
        contiguous_stretch(output.decisions, advanced.start, advanced.limit);
        range_holds_judgements(advanced, says, later, next, opts, chunk_starts, advanced.limit);
        assert(settled_as(after, judgements(says, later)));
    }
    later
}

/// Whether messages report what their workers decide, each worker's frames in order.
pub open spec fn messages_say(
    messages: Seq<ParallelWorkerMessage>,
    says: Decisions,
    reached: Seq<int>,
) -> bool
    decreases messages.len(),
{
    messages.len() > 0 ==> {
        let rest = messages.drop_last();
        &&& messages_say(rest, says, reached)
        &&& message_says(messages.last(), says, reached_after_all(rest, reached))
    }
}

/// What is reported after several messages.
pub open spec fn reached_after_all(
    messages: Seq<ParallelWorkerMessage>,
    reached: Seq<int>,
) -> Seq<int>
    decreases messages.len(),
{
    if messages.len() == 0 {
        reached
    } else {
        reached_after(reached_after_all(messages.drop_last(), reached), messages.last())
    }
}

/// Whatever the workers decide, and in whatever order their messages arrive: each frame is
/// settled as one worker decided it. The first worker decides from the beginning. The
/// others take over one after another, each from the one before it, after its own start and
/// once both have agreed for a whole warmup; until then the worker before it counts.
/// Gives the frames at which workers took over.
pub proof fn each_frame_has_one_judge(
    state: ReconcileState,
    says: Decisions,
    takeovers: Seq<int>,
    reached: Seq<int>,
    opts: DetectionOptions,
    chunk_starts: Seq<usize>,
    messages: Seq<ParallelWorkerMessage>,
) -> (later: Seq<int>)
    requires
        pieced(state, says, takeovers, reached, opts, chunk_starts),
        !state.complete,
        messages_say(messages, says, reached),
    ensures
        ({
            let after = after_messages(state, opts, chunk_starts, messages);
            &&& taken_in_order(says, later, opts, chunk_starts)
            &&& !after.complete ==> pieced(
                after,
                says,
                later,
                reached_after_all(messages, reached),
                opts,
                chunk_starts,
            )
            &&& after.complete ==> settled_as(after, judgements(says, later))
        }),
        takeovers.is_prefix_of(later),
    decreases messages.len(),
{
    if messages.len() == 0 {
        takeovers
    } else {
        let rest = messages.drop_last();
        let before = each_frame_has_one_judge(
            state,
            says,
            takeovers,
            reached,
            opts,
            chunk_starts,
            rest,
        );
        let middle = after_messages(state, opts, chunk_starts, rest);
        if middle.complete {
            before
        } else {
            let later = message_keeps_pieces(
                middle,
                says,
                before,
                reached_after_all(rest, reached),
                opts,
                chunk_starts,
                messages.last(),
            );
            assert forall|k: int| 0 <= k < takeovers.len() implies #[trigger] later[k]
                == takeovers[k] by {
                assert(takeovers[k] == before[k]);
                assert(before[k] == later[k]);
            }
            assert(takeovers =~= later.take(takeovers.len() as int));
            later
        }
    }
}

/// A run begins with the first worker, which counts from the first frame on.
pub proof fn run_begins_pieced(
    state: ReconcileState,
    says: Decisions,
    reached: Seq<int>,
    opts: DetectionOptions,
    chunk_starts: Seq<usize>,
)
    requires
        chunk_starts.len() >= 1,
        reached.len() == chunk_starts.len(),
        forall|k: int| 0 <= k < reached.len() ==> 0 <= #[trigger] reached[k],
        state.outputs == Seq::new(
            chunk_starts.len(),
            |worker: int| WorkerState { decisions: Map::empty(), ended: false },
        ),
        state.worker == 0,
        state.start == 0,
        state.limit <= usize::MAX,
        state.cuts == Set::<usize>::empty(),
        state.scores == Map::<usize, crate::score::ScenecutResult>::empty(),
    ensures
        pieced(state, says, seq![0int], reached, opts, chunk_starts),
{
}

/// Where no worker has taken over, every frame is settled as the first worker decided it,
/// which is what one worker alone decides.
pub proof fn first_worker_decides_without_takeover(says: Decisions, frame: usize)
    ensures
        judgements(says, seq![0int])(frame) == says(0, frame),
{
}

} // verus!
