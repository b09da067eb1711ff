//! What holds of a run with several workers.

use vstd::prelude::*;
use crate::frame_map::from_frame;
use crate::options::DetectionOptions;
use crate::parallel::handoff::{contiguous_end, contiguous_stretch};
use crate::parallel::handoff::{handoff_lies_in_common_stretch, no_agreement, ParallelFrameDecision};
use crate::parallel::plan::smaller;
use crate::parallel::reconcile::{count_analyzed, ParallelWorkerMessage, ReconcileAction};
use crate::parallel::reconcile::{ReconcileState, WorkerState};
use crate::postprocess::common::Timeline;
use crate::postprocess::corrected;
use crate::score::ScenecutResult;
use crate::serial::decided_before;

verus! {

/// Whether a worker has reported nothing but the given decisions.
pub open spec fn worker_follows(
    worker: WorkerState,
    decide: spec_fn(usize) -> ParallelFrameDecision,
) -> bool {
    forall|frame: usize| #[trigger]
        worker.decisions.contains_key(frame) ==> worker.decisions[frame] == decide(frame)
}

/// Whether all that was reported and settled is as given, and everything before
/// the first unsettled frame is settled.
pub open spec fn follows(
    state: ReconcileState,
    decide: spec_fn(usize) -> ParallelFrameDecision,
) -> bool {
    &&& state.worker < state.outputs.len()
    &&& 0 <= state.start
    &&& state.limit <= usize::MAX
    &&& forall|k: int|
        0 <= k < state.outputs.len() ==> worker_follows(#[trigger] state.outputs[k], decide)
    &&& forall|frame: usize| #[trigger]
        state.cuts.contains(frame) ==> decide(frame).is_scene_change
    &&& forall|frame: usize|
        frame < state.start && decide(frame).is_scene_change ==> #[trigger] state.cuts.contains(
            frame,
        )
    &&& forall|frame: usize| #[trigger]
        state.scores.contains_key(frame) ==> decide(frame).score == Some(state.scores[frame])
    &&& forall|frame: usize|
        frame < state.start && decide(frame).score is Some
            ==> #[trigger] state.scores.contains_key(frame)
}

/// Whether everything before the end is settled as given.
pub open spec fn settled_as(
    state: ReconcileState,
    decide: spec_fn(usize) -> ParallelFrameDecision,
) -> bool {
    forall|frame: usize|
        #![trigger state.cuts.contains(frame)]
        #![trigger state.scores.contains_key(frame)]
        frame < state.limit ==> {
            &&& state.cuts.contains(frame) == decide(frame).is_scene_change
            &&& state.scores.contains_key(frame) == (decide(frame).score is Some)
            &&& state.scores.contains_key(frame) ==> decide(frame).score == Some(
                state.scores[frame],
            )
        }
}

/// Settling a stretch without gaps keeps the agreement.
proof fn range_follows(
    state: ReconcileState,
    decide: spec_fn(usize) -> ParallelFrameDecision,
    end: int,
)
    requires
        follows(state, decide),
        forall|frame: usize|
            state.start <= frame < end
                ==> #[trigger] state.outputs[state.worker as int].decisions.contains_key(frame),
    ensures
        ({
            let after = state.with_range(end);
            &&& forall|frame: usize| #[trigger]
                after.cuts.contains(frame) ==> decide(frame).is_scene_change
            &&& forall|frame: usize|
                (frame < state.start || frame < end) && decide(frame).is_scene_change
                    ==> #[trigger] after.cuts.contains(frame)
            &&& forall|frame: usize| #[trigger]
                after.scores.contains_key(frame) ==> decide(frame).score == Some(
                    after.scores[frame],
                )
            &&& forall|frame: usize|
                (frame < state.start || frame < end) && decide(frame).score is Some
                    ==> #[trigger] after.scores.contains_key(frame)
        }),
{
    let output = state.outputs[state.worker as int];
    assert(worker_follows(output, decide));
    let after = state.with_range(end);
    assert forall|frame: usize| state.start <= frame < end implies output.decisions[frame]
        == #[trigger] decide(frame) by {
        assert(output.decisions.contains_key(frame));
    }
    assert forall|frame: usize|
        (frame < state.start || frame < end) && decide(
            frame,
        ).is_scene_change implies #[trigger] after.cuts.contains(frame) by {
        if frame < state.start {
            assert(state.cuts.contains(frame));
        }
    }
    assert forall|frame: usize|
        (frame < state.start || frame < end) && decide(
            frame,
        ).score is Some implies #[trigger] after.scores.contains_key(frame) by {
        if frame < state.start {
            assert(state.scores.contains_key(frame));
        }
    }
}

/// Settling what the worker that counts has decided keeps the agreement.
proof fn appending_follows(
    state: ReconcileState,
    decide: spec_fn(usize) -> ParallelFrameDecision,
    chunk_starts: Seq<usize>,
)
    requires
        follows(state, decide),
    ensures
        follows(state.appended(chunk_starts), decide),
        state.appended(chunk_starts).limit == state.limit,
        state.appended(chunk_starts).worker == state.worker,
        state.appended(chunk_starts).outputs.len() == state.outputs.len(),
{
    let output = state.outputs[state.worker as int];
    let own_end = state.own_end(chunk_starts);
    contiguous_stretch(output.decisions, state.start, own_end);
    let end = contiguous_end(output.decisions, state.start, own_end);
    let after = state.appended(chunk_starts);
    assert(worker_follows(output, decide));
    range_follows(state, decide, end);
    assert forall|k: int| 0 <= k < after.outputs.len() implies worker_follows(
        #[trigger] after.outputs[k],
        decide,
    ) by {
        assert(worker_follows(state.outputs[k], decide));
    }
}

/// Handing over keeps the agreement.
proof fn handing_over_follows(
    state: ReconcileState,
    decide: spec_fn(usize) -> ParallelFrameDecision,
    opts: DetectionOptions,
    chunk_starts: Seq<usize>,
)
    requires
        follows(state, decide),
    ensures
        state.next_handoff(opts, chunk_starts) matches Some(frame) ==> {
            &&& follows(state.handed_over(frame), decide)
            &&& state.handed_over(frame).limit == state.limit
            &&& state.handed_over(frame).worker == state.worker + 1
            &&& state.handed_over(frame).outputs.len() == state.outputs.len()
        },
{
    if let Some(frame) = state.next_handoff(opts, chunk_starts) {
        let left = state.outputs[state.worker as int];
        let right = state.outputs[state.worker as int + 1];
        assert(worker_follows(left, decide));
        assert(worker_follows(right, decide));
        let boundary = state.own_end(chunk_starts);
        let left_end = contiguous_end(left.decisions, boundary, state.limit);
        let right_end = contiguous_end(right.decisions, boundary, state.limit);
        let end = if left_end <= right_end {
            left_end
        } else {
            right_end
        };
        if boundary < 0 {
            assert(left_end == boundary);
        } else {
            contiguous_stretch(left.decisions, boundary, state.limit);
            contiguous_stretch(right.decisions, boundary, state.limit);
            if boundary <= usize::MAX {
                handoff_lies_in_common_stretch(
                    left.decisions,
                    right.decisions,
                    opts,
                    no_agreement(),
                    boundary,
                    end,
                );
            }
        }
        range_follows(state, decide, frame as int);
        let after = state.handed_over(frame);
        assert forall|k: int| 0 <= k < after.outputs.len() implies worker_follows(
            #[trigger] after.outputs[k],
            decide,
        ) by {
            assert(worker_follows(state.outputs[k], decide));
        }
    }
}

/// Settling all that can be settled keeps the agreement.
proof fn advancing_follows(
    state: ReconcileState,
    decide: spec_fn(usize) -> ParallelFrameDecision,
    opts: DetectionOptions,
    chunk_starts: Seq<usize>,
)
    requires
        follows(state, decide),
        !state.complete,
    ensures
        ({
            let after = state.advanced(opts, chunk_starts);
            &&& follows(after, decide)
            &&& after.limit == state.limit
            &&& after.complete ==> after.start >= after.limit
        }),
    decreases state.outputs.len() - state.worker,
{
    appending_follows(state, decide, chunk_starts);
    let settled = state.appended(chunk_starts);
    if settled.start < settled.limit {
        handing_over_follows(settled, decide, opts, chunk_starts);
        if let Some(frame) = settled.next_handoff(opts, chunk_starts) {
            advancing_follows(settled.handed_over(frame), decide, opts, chunk_starts);
        }
    }
}

/// Whether a message reports a decision as given.
pub open spec fn message_follows(
    message: ParallelWorkerMessage,
    decide: spec_fn(usize) -> ParallelFrameDecision,
) -> bool {
    message matches ParallelWorkerMessage::Frame { worker, frame, decision } ==> decision == decide(
        frame,
    )
}

/// A message with a decision as given keeps the agreement; and once the run is
/// complete, every frame before the end is settled as given.
pub proof fn agreeing_message_keeps_agreement(
    state: ReconcileState,
    decide: spec_fn(usize) -> ParallelFrameDecision,
    opts: DetectionOptions,
    chunk_starts: Seq<usize>,
    message: ParallelWorkerMessage,
)
    requires
        follows(state, decide),
        !state.complete,
        message_follows(message, decide),
    ensures
        ({
            let after = state.after(opts, chunk_starts, message);
            &&& follows(after, decide) || after.complete
            &&& after.complete ==> settled_as(after, decide)
        }),
{
    let received = state.received(message);
    assert(follows(received, decide)) by {
        assert forall|k: int| 0 <= k < received.outputs.len() implies worker_follows(
            #[trigger] received.outputs[k],
            decide,
        ) by {
            assert(worker_follows(state.outputs[k], decide));
        }
    }
    advancing_follows(received, decide, opts, chunk_starts);
    let advanced = received.advanced(opts, chunk_starts);
    let after = advanced.closed_off();
    let output = advanced.outputs[advanced.worker as int];
    if advanced.complete {
        assert(settled_as(after, decide));
    } else if after.complete {
        contiguous_stretch(output.decisions, advanced.start, advanced.limit);
        range_follows(advanced, decide, advanced.limit);
    }
}

/// The state after several messages; nothing is taken in once it is complete.
pub open spec fn after_messages(
    state: ReconcileState,
    opts: DetectionOptions,
    chunk_starts: Seq<usize>,
    messages: Seq<ParallelWorkerMessage>,
) -> ReconcileState
    decreases messages.len(),
{
    if messages.len() == 0 {
        state
    } else {
        let before = after_messages(state, opts, chunk_starts, messages.drop_last());
        if before.complete {
            before
        } else {
            before.after(opts, chunk_starts, messages.last())
        }
    }
}

/// However the work is split, and in whatever order messages arrive: if every
/// worker decides as one worker alone would, then so does the run as a whole.
pub proof fn parallel_run_matches_sequential(
    state: ReconcileState,
    decide: spec_fn(usize) -> ParallelFrameDecision,
    opts: DetectionOptions,
    chunk_starts: Seq<usize>,
    messages: Seq<ParallelWorkerMessage>,
)
    requires
        follows(state, decide),
        !state.complete,
        forall|k: int| 0 <= k < messages.len() ==> message_follows(#[trigger] messages[k], decide),
    ensures
        ({
            let after = after_messages(state, opts, chunk_starts, messages);
            &&& follows(after, decide) || after.complete
            &&& after.complete ==> settled_as(after, decide)
        }),
    decreases messages.len(),
{
    if messages.len() > 0 {
        let rest = messages.drop_last();
        assert forall|k: int| 0 <= k < rest.len() implies message_follows(
            #[trigger] rest[k],
            decide,
        ) by {
            assert(message_follows(messages[k], decide));
        }
        parallel_run_matches_sequential(state, decide, opts, chunk_starts, rest);
        let before = after_messages(state, opts, chunk_starts, rest);
        if !before.complete {
            assert(message_follows(messages[messages.len() - 1], decide));
            agreeing_message_keeps_agreement(before, decide, opts, chunk_starts, messages.last());
        }
    }
}

/// The result of a run with several workers is that of one worker alone: where every
/// frame is settled as one worker decides it, the corrections start from the same cuts
/// and scores.
pub proof fn parallel_result_is_serial_result(
    state: ReconcileState,
    decide: spec_fn(usize) -> ParallelFrameDecision,
    opts: DetectionOptions,
    cuts: Set<usize>,
    scores: Map<usize, ScenecutResult>,
)
    requires
        settled_as(state, decide),
        0 < state.limit,
        forall|frame: usize| #[trigger] state.cuts.contains(frame) ==> frame < state.limit,
        forall|frame: usize| #[trigger] state.scores.contains_key(frame) ==> frame < state.limit,
        decide(0).is_scene_change,
        decided_before(cuts, scores, state.limit, decide),
    ensures
        corrected(opts, Timeline { cuts: state.cuts, scores: state.scores }) == corrected(
            opts,
            Timeline { cuts, scores },
        ),
{
    assert(state.cuts =~= cuts);
    assert forall|frame: usize| #[trigger] state.scores.contains_key(frame) <==> scores.contains_key(
        frame,
    ) by {
        if frame < state.limit {
            assert(state.cuts.contains(frame) == decide(frame).is_scene_change);
        }
    }
    assert forall|frame: usize| #[trigger] state.scores.contains_key(frame) implies
        state.scores[frame] == scores[frame] by {
        assert(scores.contains_key(frame));
        assert(frame < state.limit);
    }
    assert(state.scores.dom() =~= scores.dom());
    assert(state.scores =~= scores);
}

/// Whether each report is of more frames than the one before, and none of more
/// than was noted as reported.
pub open spec fn reports_increase(state: ReconcileState) -> bool {
    &&& 0 <= state.reported <= usize::MAX
    &&& forall|i: int|
        0 <= i < state.actions.len() ==> (#[trigger] state.actions[i] matches ReconcileAction::Report {
            frames,
            keyframes,
        } ==> frames <= state.reported)
    &&& forall|i: int, j: int|
        #![trigger state.actions[i], state.actions[j]]
        0 <= i < j < state.actions.len() ==> match (state.actions[i], state.actions[j]) {
            (
                ReconcileAction::Report { frames: earlier, keyframes: _ },
                ReconcileAction::Report { frames: later, keyframes: _ },
            ) => earlier < later,
            _ => true,
        }
}

/// Reporting keeps the reports increasing.
proof fn reporting_increases(state: ReconcileState, frames: int)
    requires
        reports_increase(state),
        frames <= usize::MAX,
    ensures
        reports_increase(state.reporting(frames)),
        state.reporting(frames).reported >= state.reported,
{
}

/// Every step keeps the reports increasing.
proof fn advancing_increases_reports(
    state: ReconcileState,
    opts: DetectionOptions,
    chunk_starts: Seq<usize>,
)
    requires
        reports_increase(state),
        state.worker < state.outputs.len(),
        0 <= state.start <= usize::MAX,
        state.limit <= usize::MAX,
    ensures
        ({
            let after = state.advanced(opts, chunk_starts);
            &&& reports_increase(after)
            &&& after.reported >= state.reported
            &&& after.limit == state.limit
        }),
    decreases state.outputs.len() - state.worker,
{
    let output = state.outputs[state.worker as int];
    contiguous_stretch(output.decisions, state.start, state.own_end(chunk_starts));
    let end = contiguous_end(output.decisions, state.start, state.own_end(chunk_starts));
    let settled = state.appended(chunk_starts);
    if end > state.start {
        let moved = ReconcileState {
            outputs: state.outputs.update(
                state.worker as int,
                WorkerState {
                    decisions: from_frame(output.decisions, end as usize),
                    ended: output.ended,
                },
            ),
            start: end,
            ..state.with_range(end)
        };
        assert(reports_increase(moved));
        reporting_increases(moved, end);
    }
    if settled.start < settled.limit {
        if let Some(frame) = settled.next_handoff(opts, chunk_starts) {
            let next = settled.outputs[settled.worker as int + 1];
            let moved = ReconcileState {
                outputs: settled.outputs.update(
                    settled.worker as int,
                    WorkerState {
                        decisions: Map::empty(),
                        ended: settled.outputs[settled.worker as int].ended,
                    },
                ).update(
                    (settled.worker + 1) as int,
                    WorkerState { decisions: from_frame(next.decisions, frame), ended: next.ended },
                ),
                worker: (settled.worker + 1) as nat,
                start: frame as int,
                actions: settled.actions.push(
                    ReconcileAction::Stop { worker: settled.worker as usize, after: frame },
                ),
                ..settled.with_range(frame as int)
            };
            assert(reports_increase(moved));
            reporting_increases(moved, frame as int);
            assert(settled.handed_over(frame) == moved.reporting(frame as int));
            advancing_increases_reports(settled.handed_over(frame), opts, chunk_starts);
        }
    }
}

/// Progress never falls back: each report is of more frames than the one before.
pub proof fn progress_never_falls_back(
    state: ReconcileState,
    opts: DetectionOptions,
    chunk_starts: Seq<usize>,
    message: ParallelWorkerMessage,
)
    requires
        reports_increase(state),
        state.worker < state.outputs.len(),
        0 <= state.start <= usize::MAX,
        0 <= state.limit <= usize::MAX,
    ensures
        reports_increase(state.after(opts, chunk_starts, message)),
        state.after(opts, chunk_starts, message).reported >= state.reported,
{
    let received = state.received(message);
    assert(reports_increase(received) && received.reported >= state.reported) by {
        if let ParallelWorkerMessage::Frame { worker, frame, decision } = message {
            let noted = if state.worker <= worker < state.outputs.len() {
                let output = state.outputs[worker as int];
                ReconcileState {
                    outputs: state.outputs.update(
                        worker as int,
                        WorkerState {
                            decisions: output.decisions.insert(frame, decision),
                            ended: output.ended,
                        },
                    ),
                    ..state
                }
            } else {
                state
            };
            assert(reports_increase(noted));
            if frame < state.analyzed.len() && !state.analyzed[frame as int] {
                let analyzed = state.analyzed.update(frame as int, true);
                reporting_increases(
                    ReconcileState { analyzed, ..noted },
                    smaller(count_analyzed(analyzed), state.limit),
                );
            }
        }
    }
    advancing_increases_reports(received, opts, chunk_starts);
    let advanced = received.advanced(opts, chunk_starts);
    reporting_increases(advanced.with_range(advanced.limit), advanced.limit);
}

} // verus!
