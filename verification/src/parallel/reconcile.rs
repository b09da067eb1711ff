//! One result out of what the workers found.
//!
//! Each stretch of the video has one worker whose decisions count. It starts with
//! the first worker, and passes on to the next one once both agree.

use vstd::prelude::*;
use vstd::string::*;
use crate::frame_map::{from_frame, FrameMap};
use crate::decimal::{decimal, decimal_text};
use crate::options::{larger, DetectionOptions};
use crate::parallel::handoff::{contiguous_end, contiguous_stretch, find_parallel_handoff, handoff};
use crate::parallel::handoff::{ParallelFrameDecision, ParallelWorkerOutput};
use crate::parallel::plan::{min, smaller};
use crate::measure::{double, ZERO};
use crate::postprocess::{apply_scenechange_postprocess, corrected};
use crate::postprocess::common::Timeline;
use crate::results::DetectionResults;
use crate::score::ScenecutResult;
use crate::timeline::{ascending, increasing, FrameSet};

verus! {

/// Most frames whose progress is counted one by one.
pub const PARALLEL_PROGRESS_TRACK_CAP: usize = 16_777_216;

/// What a worker or a reader reports.
#[derive(Debug)]
pub enum ParallelWorkerMessage {
    /// A decision on one frame.
    Frame { worker: usize, frame: usize, decision: ParallelFrameDecision },
    /// The end of a worker, with the reason where it failed.
    Done { worker: usize, error: Option<String> },
    /// The end of the video.
    ReaderDone { frame_count: usize },
}

/// What is to be done after a message.
#[derive(Clone, Copy, Debug, PartialEq, Eq, Structural)]
pub enum ReconcileAction {
    /// Report progress: frames analysed, and cuts found.
    Report { frames: usize, keyframes: usize },
    /// Tell a worker to stop at a frame.
    Stop { worker: usize, after: usize },
}

/// Why there is no result.
#[derive(Debug)]
pub enum ReconcileError {
    /// A worker failed.
    WorkerFailed { worker: usize, error: String },
    /// The workers ended before the end of the video was decided.
    EndedEarly,
    /// A worker has not decided a frame of the stretch that is to be settled.
    MissingFrame { frame: usize },
}

impl ReconcileError {
    /// The error in words.
    pub fn message(&self) -> (text: String)
        ensures
            text@ == match *self {
                ReconcileError::WorkerFailed { worker, error } => "scene detection worker "@
                    + decimal_text(worker as nat) + " failed: "@ + error@,
                ReconcileError::EndedEarly =>
                    "parallel scene detection ended before the authoritative worker reached EOF"@,
                ReconcileError::MissingFrame { frame } =>
                    "parallel scene detection missing frame "@ + decimal_text(frame as nat)
                    + " during reconciliation"@,
            },
    {
        match self {
            ReconcileError::WorkerFailed { worker, error } => {
                let mut text: String = "scene detection worker ".to_owned();
                text.append(decimal(*worker).as_str());
                text.append(" failed: ");
                text.append(error.as_str());
                text
            },
            ReconcileError::EndedEarly =>
                "parallel scene detection ended before the authoritative worker reached EOF".to_owned(),
            ReconcileError::MissingFrame { frame } => {
                let mut text: String = "parallel scene detection missing frame ".to_owned();
                text.append(decimal(*frame).as_str());
                text.append(" during reconciliation");
                text
            },
        }
    }
}

/// What one worker has reported.
pub struct WorkerState {
    pub decisions: Map<usize, ParallelFrameDecision>,
    pub ended: bool,
}

/// The state between two messages.
pub struct ReconcileState {
    pub outputs: Seq<WorkerState>,
    /// The worker whose decisions count.
    pub worker: nat,
    /// The first frame that is not settled.
    pub start: int,
    pub cuts: Set<usize>,
    pub scores: Map<usize, ScenecutResult>,
    pub reported: int,
    pub analyzed: Seq<bool>,
    pub limit: int,
    pub complete: bool,
    /// What was asked for, in order.
    pub actions: Seq<ReconcileAction>,
}

/// Number of frames that were analysed.
pub open spec fn count_analyzed(analyzed: Seq<bool>) -> int
    decreases analyzed.len(),
{
    if analyzed.len() == 0 {
        0
    } else {
        count_analyzed(analyzed.drop_last()) + if analyzed.last() {
            1int
        } else {
            0
        }
    }
}

/// The cuts with those of a decided stretch.
pub open spec fn cuts_with_range(
    cuts: Set<usize>,
    decisions: Map<usize, ParallelFrameDecision>,
    start: int,
    end: int,
) -> Set<usize> {
    cuts.union(
        Set::new(|frame: usize| start <= frame < end && decisions[frame].is_scene_change),
    )
}

/// The scores with those of a decided stretch.
pub open spec fn scores_with_range(
    scores: Map<usize, ScenecutResult>,
    decisions: Map<usize, ParallelFrameDecision>,
    start: int,
    end: int,
) -> Map<usize, ScenecutResult> {
    Map::new(
        |frame: usize|
            scores.contains_key(frame) || (start <= frame < end && decisions[frame].score is Some),
        |frame: usize|
            if start <= frame < end && decisions[frame].score is Some {
                decisions[frame].score.unwrap()
            } else {
                scores[frame]
            },
    )
}

impl ReconcileState {
    /// Progress is reported only where it is more than was reported before.
    pub open spec fn reporting(self, frames: int) -> ReconcileState {
        if frames > self.reported {
            ReconcileState {
                reported: frames,
                actions: self.actions.push(
                    ReconcileAction::Report {
                        frames: frames as usize,
                        keyframes: self.cuts.len() as usize,
                    },
                ),
                ..self
            }
        } else {
            self
        }
    }

    /// The decisions of the worker that counts, for a stretch, are final.
    pub open spec fn with_range(self, end: int) -> ReconcileState {
        let decisions = self.outputs[self.worker as int].decisions;
        ReconcileState {
            cuts: cuts_with_range(self.cuts, decisions, self.start, end),
            scores: scores_with_range(self.scores, decisions, self.start, end),
            ..self
        }
    }

    /// Where the worker that counts stops counting by itself: at the start of the
    /// next worker, or at the end of the video.
    pub open spec fn own_end(self, chunk_starts: Seq<usize>) -> int {
        if self.worker + 1 < chunk_starts.len() {
            smaller(chunk_starts[(self.worker + 1) as int] as int, self.limit)
        } else {
            self.limit
        }
    }

    /// What the worker that counts has decided without a gap is settled.
    pub open spec fn appended(self, chunk_starts: Seq<usize>) -> ReconcileState {
        let output = self.outputs[self.worker as int];
        let end = contiguous_end(output.decisions, self.start, self.own_end(chunk_starts));
        if end > self.start {
            let settled = self.with_range(end);
            ReconcileState {
                outputs: self.outputs.update(
                    self.worker as int,
                    WorkerState {
                        decisions: from_frame(output.decisions, end as usize),
                        ended: output.ended,
                    },
                ),
                start: end,
                ..settled
            }.reporting(end)
        } else {
            self
        }
    }

    /// The next worker counts, from the given frame on.
    pub open spec fn handed_over(self, frame: usize) -> ReconcileState {
        let settled = self.with_range(frame as int);
        let next = self.outputs[(self.worker + 1) as int];
        ReconcileState {
            outputs: self.outputs.update(
                self.worker as int,
                WorkerState {
                    decisions: Map::empty(),
                    ended: self.outputs[self.worker as int].ended,
                },
            ).update(
                (self.worker + 1) as int,
                WorkerState { decisions: from_frame(next.decisions, frame), ended: next.ended },
            ),
            worker: (self.worker + 1) as nat,
            start: frame as int,
            actions: self.actions.push(
                ReconcileAction::Stop { worker: self.worker as usize, after: frame },
            ),
            ..settled
        }.reporting(frame as int)
    }

    /// The frame at which the next worker takes over, once what is settled reaches
    /// its start.
    pub open spec fn next_handoff(
        self,
        opts: DetectionOptions,
        chunk_starts: Seq<usize>,
    ) -> Option<usize> {
        if self.worker + 1 >= self.outputs.len() || self.start < self.own_end(chunk_starts) {
            None
        } else {
            handoff(
                self.outputs[self.worker as int].decisions,
                self.outputs[(self.worker + 1) as int].decisions,
                self.own_end(chunk_starts),
                opts,
                self.limit,
            )
        }
    }

    /// All that can be settled is settled, worker after worker.
    pub open spec fn advanced(
        self,
        opts: DetectionOptions,
        chunk_starts: Seq<usize>,
    ) -> ReconcileState
        decreases self.outputs.len() - self.worker
            when self.worker < self.outputs.len()
    {
        let settled = self.appended(chunk_starts);
        if settled.start >= settled.limit {
            ReconcileState { complete: true, ..settled }
        } else {
            match settled.next_handoff(opts, chunk_starts) {
                Some(frame) => settled.handed_over(frame).advanced(opts, chunk_starts),
                None => settled,
            }
        }
    }

    /// A worker that has ended, with decisions up to the end of the video, settles
    /// the rest.
    pub open spec fn closed_off(self) -> ReconcileState {
        let output = self.outputs[self.worker as int];
        if !self.complete && output.ended && contiguous_end(
            output.decisions,
            self.start,
            self.limit,
        ) >= self.limit {
            ReconcileState { complete: true, ..self.with_range(self.limit).reporting(self.limit) }
        } else {
            self
        }
    }

    /// A message is noted.
    pub open spec fn received(self, message: ParallelWorkerMessage) -> ReconcileState {
        match message {
            ParallelWorkerMessage::Frame { worker, frame, decision } => {
                let noted = if self.worker <= worker < self.outputs.len() {
                    let output = self.outputs[worker as int];
                    ReconcileState {
                        outputs: self.outputs.update(
                            worker as int,
                            WorkerState {
                                decisions: output.decisions.insert(frame, decision),
                                ended: output.ended,
                            },
                        ),
                        ..self
                    }
                } else {
                    self
                };
                if frame < self.analyzed.len() && !self.analyzed[frame as int] {
                    let analyzed = self.analyzed.update(frame as int, true);
                    ReconcileState { analyzed, ..noted }.reporting(
                        smaller(count_analyzed(analyzed), self.limit),
                    )
                } else {
                    noted
                }
            },
            ParallelWorkerMessage::Done { worker, error } => {
                if worker < self.outputs.len() {
                    ReconcileState {
                        outputs: self.outputs.update(
                            worker as int,
                            WorkerState { ended: true, ..self.outputs[worker as int] },
                        ),
                        ..self
                    }
                } else {
                    self
                }
            },
            ParallelWorkerMessage::ReaderDone { frame_count } => ReconcileState {
                limit: smaller(self.limit, frame_count as int),
                ..self
            },
        }
    }

    /// The state after a message.
    pub open spec fn after(
        self,
        opts: DetectionOptions,
        chunk_starts: Seq<usize>,
        message: ParallelWorkerMessage,
    ) -> ReconcileState {
        self.received(message).advanced(opts, chunk_starts).closed_off()
    }
}

/// What is held of a worker.
pub open spec fn worker_state(output: ParallelWorkerOutput) -> WorkerState {
    WorkerState { decisions: output.decisions(), ended: output.ended() }
}

/// Brings the decisions of several workers together, message by message.
#[derive(Debug)]
pub struct Reconciler {
    opts: DetectionOptions,
    chunk_starts: Vec<usize>,
    outputs: Vec<ParallelWorkerOutput>,
    worker: usize,
    start: usize,
    keyframes: FrameSet,
    scores: FrameMap<ScenecutResult>,
    reported: usize,
    analyzed: Vec<bool>,
    analyzed_count: usize,
    limit: usize,
    complete: bool,
    actions: Vec<ReconcileAction>,
}

impl View for Reconciler {
    type V = ReconcileState;

    closed spec fn view(&self) -> ReconcileState {
        ReconcileState {
            outputs: self.outputs@.map_values(|output: ParallelWorkerOutput| worker_state(output)),
            worker: self.worker as nat,
            start: self.start as int,
            cuts: self.keyframes@,
            scores: self.scores@,
            reported: self.reported as int,
            analyzed: self.analyzed@,
            limit: self.limit as int,
            complete: self.complete,
            actions: self.actions@,
        }
    }
}

/// No count exceeds the number of frames; one frame more counts one more.
proof fn analyzed_counts(analyzed: Seq<bool>, frame: int)
    requires
        0 <= frame < analyzed.len(),
        !analyzed[frame],
    ensures
        count_analyzed(analyzed.update(frame, true)) == count_analyzed(analyzed) + 1,
    decreases analyzed.len(),
{
    let after = analyzed.update(frame, true);
    if frame == analyzed.len() - 1 {
        assert(after.drop_last() =~= analyzed.drop_last());
    } else {
        assert(after.drop_last() =~= analyzed.drop_last().update(frame, true));
        analyzed_counts(analyzed.drop_last(), frame);
    }
}

/// No count exceeds the number of frames.
proof fn analyzed_count_is_bounded(analyzed: Seq<bool>)
    ensures
        0 <= count_analyzed(analyzed) <= analyzed.len(),
    decreases analyzed.len(),
{
    if analyzed.len() > 0 {
        analyzed_count_is_bounded(analyzed.drop_last());
    }
}

/// Nothing is analysed at first.
proof fn nothing_analyzed(analyzed: Seq<bool>)
    requires
        forall|k: int| 0 <= k < analyzed.len() ==> !#[trigger] analyzed[k],
    ensures
        count_analyzed(analyzed) == 0,
    decreases analyzed.len(),
{
    if analyzed.len() > 0 {
        let rest = analyzed.drop_last();
        assert forall|k: int| 0 <= k < rest.len() implies !#[trigger] rest[k] by {
            assert(!analyzed[k]);
        }
        nothing_analyzed(rest);
        assert(!analyzed[analyzed.len() - 1]);
    }
}

/// Whether every frame of a stretch is decided.
pub open spec fn has_range(
    decisions: Map<usize, ParallelFrameDecision>,
    start: int,
    end: int,
) -> bool {
    forall|frame: usize| start <= frame < end ==> #[trigger] decisions.contains_key(frame)
}

/// Settles the decisions of a stretch. Where one is missing, what comes before it is
/// settled.
pub fn append_parallel_range(
    output: &ParallelWorkerOutput,
    start: usize,
    end: usize,
    keyframes: &mut FrameSet,
    scores: &mut FrameMap<ScenecutResult>,
) -> (outcome: Result<(), ReconcileError>)
    ensures
        outcome is Ok <==> has_range(output.decisions(), start as int, end as int),
        match outcome {
            Ok(_) => {
                &&& final(keyframes)@ == cuts_with_range(
                    old(keyframes)@,
                    output.decisions(),
                    start as int,
                    end as int,
                )
                &&& final(scores)@ == scores_with_range(
                    old(scores)@,
                    output.decisions(),
                    start as int,
                    end as int,
                )
            },
            Err(error) => error matches ReconcileError::MissingFrame { frame } && {
                &&& start <= frame < end
                &&& !output.decisions().contains_key(frame)
                &&& has_range(output.decisions(), start as int, frame as int)
                &&& final(keyframes)@ == cuts_with_range(
                    old(keyframes)@,
                    output.decisions(),
                    start as int,
                    frame as int,
                )
                &&& final(scores)@ == scores_with_range(
                    old(scores)@,
                    output.decisions(),
                    start as int,
                    frame as int,
                )
            },
        },
{
    let ghost cuts = keyframes@;
    let ghost old_scores = scores@;
    let ghost decisions = output.decisions();
    let mut frame: usize = start;
    proof {
        assert(cuts_with_range(cuts, decisions, start as int, start as int) =~= cuts);
        assert(scores_with_range(old_scores, decisions, start as int, start as int) =~= old_scores);
        if end < start {
            assert(cuts_with_range(cuts, decisions, start as int, end as int) =~= cuts);
            assert(scores_with_range(old_scores, decisions, start as int, end as int)
                =~= old_scores);
        }
    }
    while frame < end
        invariant
            start <= frame,
            frame <= end || frame == start,
            cuts == old(keyframes)@,
            old_scores == old(scores)@,
            decisions == output.decisions(),
            has_range(decisions, start as int, frame as int),
            keyframes@ == cuts_with_range(cuts, decisions, start as int, frame as int),
            scores@ == scores_with_range(old_scores, decisions, start as int, frame as int),
        decreases end - frame,
    {
        match output.get(frame) {
            Some(decision) => {
                if decision.is_scene_change {
                    keyframes.insert(frame);
                }
                if let Some(score) = decision.score {
                    scores.insert(frame, score);
                }
            },
            None => {
                return Err(ReconcileError::MissingFrame { frame });
            },
        }
        assert(keyframes@ =~= cuts_with_range(cuts, decisions, start as int, frame + 1));
        assert(scores@ =~= scores_with_range(old_scores, decisions, start as int, frame + 1));
        frame = frame + 1;
    }
    Ok(())
}

/// The progress to report, if it is more than was reported before.
pub fn report_parallel_progress(reported: &mut usize, frames: usize, keyframes: usize) -> (report:
    Option<ReconcileAction>)
    ensures
        *final(reported) == larger(*old(reported) as int, frames as int),
        report == if frames > *old(reported) {
            Some(ReconcileAction::Report { frames, keyframes })
        } else {
            None
        },
{
    if frames > *reported {
        *reported = frames;
        Some(ReconcileAction::Report { frames, keyframes })
    } else {
        None
    }
}

/// The most frames reported, after progress of the given numbers of frames.
pub open spec fn reported_after(reported: int, progress: Seq<usize>) -> int
    decreases progress.len(),
{
    if progress.len() == 0 {
        reported
    } else {
        larger(reported_after(reported, progress.drop_last()), progress.last() as int)
    }
}

/// The numbers of frames that are reported, out of those given.
pub open spec fn reports_of(reported: int, progress: Seq<usize>) -> Seq<usize>
    decreases progress.len(),
{
    if progress.len() == 0 {
        Seq::empty()
    } else {
        let before = reports_of(reported, progress.drop_last());
        if progress.last() > reported_after(reported, progress.drop_last()) {
            before.push(progress.last())
        } else {
            before
        }
    }
}

/// The numbers of frames that are reported strictly increase, over all calls.
pub proof fn reports_strictly_increase(reported: int, progress: Seq<usize>)
    ensures
        increasing(reports_of(reported, progress)),
        forall|k: int|
            0 <= k < reports_of(reported, progress).len() ==> reported < (
            #[trigger] reports_of(reported, progress)[k]) <= reported_after(reported, progress),
    decreases progress.len(),
{
    if progress.len() > 0 {
        let rest = progress.drop_last();
        reports_strictly_increase(reported, rest);
        progress_never_shrinks(reported, rest);
    }
}

/// What is reported never becomes less.
proof fn progress_never_shrinks(reported: int, progress: Seq<usize>)
    ensures
        reported <= reported_after(reported, progress),
    decreases progress.len(),
{
    if progress.len() > 0 {
        progress_never_shrinks(reported, progress.drop_last());
    }
}

impl Reconciler {
    /// The options of the run.
    pub closed spec fn options(self) -> DetectionOptions {
        self.opts
    }

    /// Where each worker starts.
    pub closed spec fn starts(self) -> Seq<usize> {
        self.chunk_starts@
    }

    /// Whether the parts fit together.
    pub closed spec fn wf(self) -> bool {
        &&& self.outputs@.len() == self.chunk_starts@.len()
        &&& self.worker < self.outputs@.len()
        &&& self.analyzed_count == count_analyzed(self.analyzed@)
    }

    /// A run with nothing reported yet.
    pub fn new(opts: DetectionOptions, chunk_starts: Vec<usize>, frame_limit: usize) -> (run: Self)
        requires
            chunk_starts.len() >= 1,
        ensures
            run.wf(),
            run.options() == opts,
            run.starts() == chunk_starts@,
            run@.outputs == Seq::new(
                chunk_starts@.len(),
                |worker: int| WorkerState { decisions: Map::empty(), ended: false },
            ),
            run@.worker == 0,
            run@.start == 0,
            run@.cuts == Set::<usize>::empty(),
            run@.scores == Map::<usize, ScenecutResult>::empty(),
            run@.reported == 0,
            run@.analyzed == Seq::new(
                smaller(frame_limit as int, PARALLEL_PROGRESS_TRACK_CAP as int) as nat,
                |frame: int| false,
            ),
            run@.limit == frame_limit,
            !run@.complete,
            run@.actions == Seq::<ReconcileAction>::empty(),
    {
        let mut outputs: Vec<ParallelWorkerOutput> = Vec::new();
        for worker in 0..chunk_starts.len()
            invariant
                outputs.len() == worker,
                forall|k: int|
                    0 <= k < worker ==> worker_state(#[trigger] outputs@[k]) == (WorkerState {
                        decisions: Map::empty(),
                        ended: false,
                    }),
        {
            outputs.push(ParallelWorkerOutput::new());
        }
        let counted: usize = min(frame_limit, PARALLEL_PROGRESS_TRACK_CAP);
        let mut analyzed: Vec<bool> = Vec::new();
        for frame in 0..counted
            invariant
                analyzed.len() == frame,
                forall|k: int| 0 <= k < frame ==> !#[trigger] analyzed@[k],
        {
            analyzed.push(false);
        }
        proof {
            nothing_analyzed(analyzed@);
        }
        let run = Reconciler {
            opts,
            chunk_starts,
            outputs,
            worker: 0,
            start: 0,
            keyframes: FrameSet::new(),
            scores: FrameMap::new(),
            reported: 0,
            analyzed,
            analyzed_count: 0,
            limit: frame_limit,
            complete: false,
            actions: Vec::new(),
        };
        assert(run@.outputs =~= Seq::new(
            chunk_starts@.len(),
            |worker: int| WorkerState { decisions: Map::empty(), ended: false },
        ));
        assert(run@.analyzed =~= Seq::new(
            smaller(frame_limit as int, PARALLEL_PROGRESS_TRACK_CAP as int) as nat,
            |frame: int| false,
        ));
        run
    }

    /// Reports progress where it is more than was reported before.
    fn report(&mut self, frames: usize)
        requires
            old(self).wf(),
        ensures
            final(self).wf(),
            final(self)@ == old(self)@.reporting(frames as int),
            final(self).options() == old(self).options(),
            final(self).starts() == old(self).starts(),
            final(self).outputs == old(self).outputs,
    {
        let keyframes: usize = self.keyframes.len();
        if let Some(action) = report_parallel_progress(&mut self.reported, frames, keyframes) {
            self.actions.push(action);
        }
    }

    /// Settles what the worker that counts has decided without a gap.
    fn append_parallel_authoritative_prefix(&mut self)
        requires
            old(self).wf(),
        ensures
            final(self).wf(),
            final(self)@ == old(self)@.appended(old(self).starts()),
            final(self).options() == old(self).options(),
            final(self).starts() == old(self).starts(),
    {
        let ghost before = self@;
        let own_end: usize = if self.chunk_starts.len() - self.worker > 1 {
            min(self.chunk_starts[self.worker + 1], self.limit)
        } else {
            self.limit
        };
        let end: usize = self.outputs[self.worker].contiguous_end_from(self.start, own_end);
        if end > self.start {
            proof {
                contiguous_stretch(
                    self.outputs@[self.worker as int].decisions(),
                    self.start as int,
                    own_end as int,
                );
            }
            let appended = append_parallel_range(
                &self.outputs[self.worker],
                self.start,
                end,
                &mut self.keyframes,
                &mut self.scores,
            );
            assert(appended is Ok);
            self.outputs[self.worker].prune_before(end);
            self.start = end;
            proof {
                let output = before.outputs[before.worker as int];
                assert(self@.outputs =~= before.outputs.update(
                    before.worker as int,
                    WorkerState {
                        decisions: from_frame(output.decisions, end),
                        ended: output.ended,
                    },
                ));
            }
            self.report(end);
        }
    }

    /// Hands over to the next worker, if it agrees with the one that counts.
    fn hand_over(&mut self) -> (handed: bool)
        requires
            old(self).wf(),
            old(self)@.start < old(self)@.limit,
        ensures
            final(self).wf(),
            final(self).options() == old(self).options(),
            final(self).starts() == old(self).starts(),
            match old(self)@.next_handoff(old(self).options(), old(self).starts()) {
                Some(frame) => handed && final(self)@ == old(self)@.handed_over(frame),
                None => !handed && final(self)@ == old(self)@,
            },
    {
        let ghost before = self@;
        if self.outputs.len() - self.worker <= 1 {
            return false;
        }
        let boundary: usize = min(self.chunk_starts[self.worker + 1], self.limit);
        if self.start < boundary {
            return false;
        }
        match find_parallel_handoff(
            &self.outputs[self.worker],
            &self.outputs[self.worker + 1],
            boundary,
            &self.opts,
            self.limit,
        ) {
            None => false,
            Some(frame) => {
                proof {
                    contiguous_stretch(
                        self.outputs@[self.worker as int].decisions(),
                        boundary as int,
                        self.limit as int,
                    );
                }
                let appended = append_parallel_range(
                    &self.outputs[self.worker],
                    self.start,
                    frame,
                    &mut self.keyframes,
                    &mut self.scores,
                );
                assert(appended is Ok);
                let previous: usize = self.worker;
                self.actions.push(ReconcileAction::Stop { worker: previous, after: frame });
                self.worker = previous + 1;
                self.start = frame;
                self.outputs[previous].clear();
                self.outputs[previous + 1].prune_before(frame);
                proof {
                    let next = before.outputs[before.worker as int + 1];
                    assert(self@.outputs =~= before.outputs.update(
                        before.worker as int,
                        WorkerState {
                            decisions: Map::empty(),
                            ended: before.outputs[before.worker as int].ended,
                        },
                    ).update(
                        before.worker as int + 1,
                        WorkerState {
                            decisions: from_frame(next.decisions, frame),
                            ended: next.ended,
                        },
                    ));
                }
                self.report(frame);
                true
            },
        }
    }

    /// Settles all that can be settled, worker after worker.
    fn advance(&mut self)
        requires
            old(self).wf(),
            !old(self)@.complete,
        ensures
            final(self).wf(),
            final(self)@ == old(self)@.advanced(old(self).options(), old(self).starts()),
            final(self).options() == old(self).options(),
            final(self).starts() == old(self).starts(),
    {
        let ghost target = self@.advanced(self.options(), self.starts());
        let ghost opts = self.options();
        let ghost starts = self.starts();
        loop
            invariant_except_break
                self@.advanced(opts, starts) == target,
            invariant
                self.wf(),
                self.options() == opts,
                self.starts() == starts,
            ensures
                self.wf(),
                self.options() == opts,
                self.starts() == starts,
                self@ == target,
            decreases self.outputs@.len() - self.worker,
        {
            self.append_parallel_authoritative_prefix();
            if self.start >= self.limit {
                self.complete = true;
                break;
            }
            if !self.hand_over() {
                break;
            }
        }
    }

    /// Settles the rest where the worker that counts has ended at the end.
    fn close(&mut self)
        requires
            old(self).wf(),
        ensures
            final(self).wf(),
            final(self)@ == old(self)@.closed_off(),
            final(self).options() == old(self).options(),
            final(self).starts() == old(self).starts(),
    {
        if !self.complete && self.outputs[self.worker].reaches_end_from(self.start, self.limit) {
            proof {
                contiguous_stretch(
                    self.outputs@[self.worker as int].decisions(),
                    self.start as int,
                    self.limit as int,
                );
            }
            let appended = append_parallel_range(
                &self.outputs[self.worker],
                self.start,
                self.limit,
                &mut self.keyframes,
                &mut self.scores,
            );
            assert(appended is Ok);
            self.report(self.limit);
            self.complete = true;
        }
    }

    /// Notes a message that reports no failure.
    fn receive(&mut self, message: &ParallelWorkerMessage)
        requires
            old(self).wf(),
        ensures
            final(self).wf(),
            final(self)@ == old(self)@.received(*message),
            final(self).options() == old(self).options(),
            final(self).starts() == old(self).starts(),
    {
        let ghost before = self@;
        match message {
            ParallelWorkerMessage::Frame { worker, frame, decision } => {
                let (worker, frame) = (*worker, *frame);
                if worker >= self.worker && worker < self.outputs.len() {
                    self.outputs[worker].insert(frame, *decision);
                    proof {
                        let output = before.outputs[worker as int];
                        assert(self@.outputs =~= before.outputs.update(
                            worker as int,
                            WorkerState {
                                decisions: output.decisions.insert(frame, *decision),
                                ended: output.ended,
                            },
                        ));
                    }
                }
                if frame < self.analyzed.len() && !self.analyzed[frame] {
                    proof {
                        analyzed_counts(self.analyzed@, frame as int);
                        analyzed_count_is_bounded(self.analyzed@.update(frame as int, true));
                    }
                    self.analyzed.set(frame, true);
                    self.analyzed_count = self.analyzed_count + 1;
                    self.report(min(self.analyzed_count, self.limit));
                }
            },
            ParallelWorkerMessage::Done { worker, error } => {
                let worker: usize = *worker;
                if worker < self.outputs.len() {
                    self.outputs[worker].finish();
                    proof {
                        assert(self@.outputs =~= before.outputs.update(
                            worker as int,
                            WorkerState { ended: true, ..before.outputs[worker as int] },
                        ));
                    }
                }
            },
            ParallelWorkerMessage::ReaderDone { frame_count } => {
                self.limit = min(self.limit, *frame_count);
            },
        }
    }

    /// Takes in a message. The failure of a worker ends the run; any other message
    /// is noted, and all that can be settled with it is settled.
    pub fn step(&mut self, message: ParallelWorkerMessage) -> (outcome: Result<(), ReconcileError>)
        requires
            old(self).wf(),
            !old(self)@.complete,
        ensures
            final(self).wf(),
            final(self).options() == old(self).options(),
            final(self).starts() == old(self).starts(),
            match message {
                ParallelWorkerMessage::Done { worker, error: Some(error) } => {
                    &&& outcome == Err::<(), ReconcileError>(
                        ReconcileError::WorkerFailed { worker, error },
                    )
                    &&& final(self)@ == old(self)@
                },
                _ => {
                    &&& outcome is Ok
                    &&& final(self)@ == old(self)@.after(
                        old(self).options(),
                        old(self).starts(),
                        message,
                    )
                },
            },
    {
        if let ParallelWorkerMessage::Done { worker, error: Some(error) } = message {
            return Err(ReconcileError::WorkerFailed { worker, error });
        }
        self.receive(&message);
        self.advance();
        self.close();
        Ok(())
    }

    /// Whether every frame is settled.
    pub fn is_complete(&self) -> (complete: bool)
        ensures
            complete == self@.complete,
    {
        self.complete
    }

    /// What was asked for since the last call, in order.
    pub fn take_actions(&mut self) -> (actions: Vec<ReconcileAction>)
        requires
            old(self).wf(),
        ensures
            final(self).wf(),
            actions@ == old(self)@.actions,
            final(self)@ == (ReconcileState {
                actions: Seq::<ReconcileAction>::empty(),
                ..old(self)@
            }),
            final(self).options() == old(self).options(),
            final(self).starts() == old(self).starts(),
    {
        let mut actions: Vec<ReconcileAction> = Vec::new();
        core::mem::swap(&mut self.actions, &mut actions);
        actions
    }

    /// The result once no more messages come: the cuts and scores that were settled,
    /// with all corrections made.
    pub fn finish(self) -> (results: Result<DetectionResults, ReconcileError>)
        ensures
            match results {
                Ok(found) => {
                    &&& self@.complete
                    &&& found.frame_count == self@.limit
                    &&& found.speed == double(ZERO)
                    &&& ({
                        let state = corrected(
                            self.options(),
                            Timeline { cuts: self@.cuts, scores: self@.scores },
                        );
                        &&& found.scene_changes@ == ascending(state.cuts)
                        &&& found.scores@ == state.scores
                    })
                },
                Err(error) => !self@.complete && error == ReconcileError::EndedEarly,
            },
    {
        if !self.complete {
            return Err(ReconcileError::EndedEarly);
        }
        let mut keyframes = self.keyframes;
        let mut scores = self.scores;
        apply_scenechange_postprocess(&self.opts, &mut keyframes, &mut scores);
        Ok(
            DetectionResults {
                scene_changes: keyframes.to_vec(),
                scores,
                frame_count: self.limit,
                speed: double(ZERO),
            },
        )
    }
}

} // verus!
