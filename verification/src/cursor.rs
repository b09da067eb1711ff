//! The way of one worker through the video.
//!
//! A worker fetches frames up to its lookahead, has the current frame compared with
//! those around it, notes the verdict and moves on. Fetching and comparing are its
//! owner's; what to fetch, what to compare and when to stop is decided here.

use vstd::prelude::*;
use crate::frame_refs::{listed, FrameRefs};
use crate::options::{larger, DetectionOptions};
use crate::parallel::plan::{clamped, frame_history, parallel_frame_history};
use crate::parallel::plan::{parallel_initial_fetch_start, smaller};
use crate::parallel::window::FrameWindow;

verus! {

/// What is to be done next.
pub enum AnalysisTask {
    /// The way ends here.
    Done,
    /// The current frame is the first of the video, which begins a scene.
    FirstFrame,
    /// The current frame is to be compared: `frame_set` starts with the frame before
    /// it and goes on through the lookahead, `previous_set` ends before it.
    Compare { frame_set: FrameRefs, previous_set: FrameRefs, frame: usize, previous_keyframe: usize },
}

/// The position of a worker.
pub struct AnalysisCursor {
    lookahead: usize,
    history: usize,
    limit: usize,
    first_worker: bool,
    window: FrameWindow,
    frame: usize,
    keyframe: usize,
}

impl AnalysisCursor {
    /// Frames ahead that are fetched.
    pub closed spec fn ahead(self) -> int {
        self.lookahead as int
    }

    /// Frames behind that are kept.
    pub closed spec fn behind(self) -> int {
        self.history as int
    }

    /// The frame at which the way ends.
    pub closed spec fn end(self) -> int {
        self.limit as int
    }

    /// Whether this worker starts with the video.
    pub closed spec fn leads(self) -> bool {
        self.first_worker
    }

    /// The frames that are held.
    pub closed spec fn held(self) -> FrameWindow {
        self.window
    }

    /// The current frame.
    pub closed spec fn at(self) -> int {
        self.frame as int
    }

    /// The last cut before the current frame.
    pub closed spec fn last_cut(self) -> int {
        self.keyframe as int
    }

    /// Whether the position is sound.
    pub open spec fn wf(self) -> bool {
        &&& self.last_cut() <= self.at() <= usize::MAX
        &&& 0 <= self.last_cut()
    }

    /// Where fetching ends for now.
    pub open spec fn fetch_end(self) -> int {
        smaller(self.at() + self.ahead() + 1, self.end())
    }

    /// The frames that the current one is compared with, and itself: from the one
    /// before it through the lookahead.
    pub open spec fn frame_set(self) -> Seq<usize> {
        let from = larger(larger(self.at() - 1, 0), self.held().first());
        self.held().span(from, from + clamped(self.ahead() + 2))
    }

    /// The frames before the current one that are kept for comparison.
    pub open spec fn previous_set(self) -> Seq<usize> {
        self.held().span(larger(self.at() - self.behind() - 1, 0), self.at())
    }

    /// The start of a way from a frame to a limit.
    pub fn new(
        opts: &DetectionOptions,
        start_frame: usize,
        first_worker: bool,
        frame_limit: usize,
    ) -> (cursor: Self)
        requires
            opts.required_lookahead() >= 1,
        ensures
            cursor.wf(),
            cursor.ahead() == clamped(opts.required_lookahead()),
            cursor.behind() == frame_history(*opts),
            cursor.end() == frame_limit,
            cursor.leads() == first_worker,
            cursor.held().first() == larger(start_frame - frame_history(*opts) - 1, 0),
            cursor.held().handles() == Seq::<usize>::empty(),
            cursor.at() == start_frame,
            cursor.last_cut() == start_frame,
    {
        AnalysisCursor {
            lookahead: opts.effective_lookahead_distance(),
            history: parallel_frame_history(opts),
            limit: frame_limit,
            first_worker,
            window: FrameWindow::new(parallel_initial_fetch_start(start_frame, opts)),
            frame: start_frame,
            keyframe: start_frame,
        }
    }

    /// The current frame.
    pub fn current_frame(&self) -> (frame: usize)
        ensures
            frame == self.at(),
    {
        self.frame
    }

    /// The frame to fetch next, if any is needed for now.
    pub fn needed_frame(&self) -> (needed: Option<usize>)
        requires
            self.wf(),
        ensures
            needed == if self.held().end() < self.fetch_end() {
                Some(self.held().end() as usize)
            } else {
                None
            },
    {
        let next: usize = self.window.next_frame();
        let wanted: usize = self.frame.saturating_add(self.lookahead).saturating_add(1);
        if next < wanted && next < self.limit {
            Some(next)
        } else {
            None
        }
    }

    /// Takes in the frame that was needed.
    pub fn supply(&mut self, handle: usize)
        requires
            old(self).wf(),
            old(self).held().end() < usize::MAX,
        ensures
            final(self).wf(),
            final(self).held().first() == old(self).held().first(),
            final(self).held().handles() == old(self).held().handles().push(handle),
            final(self).ahead() == old(self).ahead(),
            final(self).behind() == old(self).behind(),
            final(self).end() == old(self).end(),
            final(self).leads() == old(self).leads(),
            final(self).at() == old(self).at(),
            final(self).last_cut() == old(self).last_cut(),
    {
        let next: usize = self.window.next_frame();
        self.window.push_next(next, handle);
    }

    /// Notes that the video has only so many frames.
    pub fn end_at(&mut self, frame_count: usize)
        requires
            old(self).wf(),
        ensures
            final(self).wf(),
            final(self).end() == smaller(old(self).end(), frame_count as int),
            final(self).held() == old(self).held(),
            final(self).ahead() == old(self).ahead(),
            final(self).behind() == old(self).behind(),
            final(self).leads() == old(self).leads(),
            final(self).at() == old(self).at(),
            final(self).last_cut() == old(self).last_cut(),
    {
        if frame_count < self.limit {
            self.limit = frame_count;
        }
    }

    /// What is to be done next, once no more frames can be fetched for now. The way
    /// ends at the limit, at the frame where the worker was told to stop, and where
    /// the frames run out.
    pub fn next_task(&self, stop_after: usize) -> (task: AnalysisTask)
        requires
            self.wf(),
        ensures
            match task {
                AnalysisTask::Done => self.at() >= self.end() || self.at() >= stop_after
                    || self.frame_set().len() < 2,
                AnalysisTask::FirstFrame => {
                    &&& self.at() < self.end() && self.at() < stop_after
                    &&& self.frame_set().len() >= 2
                    &&& self.leads() && self.at() == 0
                },
                AnalysisTask::Compare { frame_set, previous_set, frame, previous_keyframe } => {
                    &&& self.at() < self.end() && self.at() < stop_after
                    &&& self.frame_set().len() >= 2
                    &&& !(self.leads() && self.at() == 0)
                    &&& listed(frame_set) == self.frame_set()
                    &&& listed(previous_set) == self.previous_set()
                    &&& frame == self.at()
                    &&& previous_keyframe == self.last_cut()
                },
            },
    {
        if self.frame >= self.limit || self.frame >= stop_after {
            return AnalysisTask::Done;
        }
        let frame_set = self.window.refs_from(
            self.frame.saturating_sub(1),
            self.lookahead.saturating_add(2),
        );
        if frame_set.frames().len() < 2 {
            return AnalysisTask::Done;
        }
        if self.first_worker && self.frame == 0 {
            return AnalysisTask::FirstFrame;
        }
        let previous_set = self.window.refs_range(
            self.frame.saturating_sub(self.history.saturating_add(1)),
            self.frame,
        );
        AnalysisTask::Compare {
            frame_set,
            previous_set,
            frame: self.frame,
            previous_keyframe: self.keyframe,
        }
    }

    /// Notes the verdict on the current frame and moves on to the next, letting go
    /// of frames that are no longer looked at.
    pub fn advance(&mut self, cut: bool)
        requires
            old(self).wf(),
            old(self).at() < usize::MAX,
        ensures
            final(self).wf(),
            final(self).at() == old(self).at() + 1,
            final(self).last_cut() == if cut {
                old(self).at()
            } else {
                old(self).last_cut()
            },
            ({
                let keep_from = larger(old(self).at() - old(self).behind() - 1, 0);
                &&& final(self).held().first() == larger(
                    old(self).held().first(),
                    smaller(keep_from, old(self).held().end()),
                )
                &&& final(self).held().handles() == old(self).held().span(
                    keep_from,
                    old(self).held().end(),
                )
            }),
            final(self).ahead() == old(self).ahead(),
            final(self).behind() == old(self).behind(),
            final(self).end() == old(self).end(),
            final(self).leads() == old(self).leads(),
    {
        if cut {
            self.keyframe = self.frame;
        }
        self.window.prune_before(self.frame.saturating_sub(self.history.saturating_add(1)));
        self.frame = self.frame + 1;
    }
}

/// What is kept when a worker moves on is all that the next frame is compared with:
/// none of the frames that it looks at are let go.
pub proof fn moving_on_keeps_needed_frames(before: FrameWindow, after: FrameWindow, at: int, behind: int)
    requires
        0 <= at,
        0 <= behind,
        after.first() == larger(before.first(), smaller(larger(at - behind - 1, 0), before.end())),
        after.handles() == before.span(larger(at - behind - 1, 0), before.end()),
    ensures
        after.span(larger(at + 1 - behind - 1, 0), at + 1) == before.span(
            larger(at + 1 - behind - 1, 0),
            at + 1,
        ),
        forall|high: int| #![trigger after.span(at, high)] after.span(at, high) == before.span(
            at,
            high,
        ),
{
    let keep_from = larger(at - behind - 1, 0);
    crate::parallel::window::pruning_keeps_later_frames(
        before,
        after,
        keep_from,
        larger(at + 1 - behind - 1, 0),
        at + 1,
    );
    assert forall|high: int| #![trigger after.span(at, high)] after.span(at, high) == before.span(
        at,
        high,
    ) by {
        crate::parallel::window::pruning_keeps_later_frames(before, after, keep_from, at, high);
    }
}

/// A worker is handed the frame before the one that it judges, that frame and as many after
/// it as the lookahead asks for and are there; and as many before it as the history asks for
/// and one more.
pub proof fn task_holds_what_is_looked_at(cursor: AnalysisCursor, k: int)
    requires
        cursor.wf(),
        cursor.held().first() == 0 || cursor.held().first() <= cursor.at() - cursor.behind() - 1,
        cursor.held().first() >= 0,
        cursor.behind() >= 0,
        cursor.ahead() >= 0,
        cursor.ahead() + 2 <= usize::MAX,
        0 < cursor.at() <= cursor.held().end(),
    ensures
        ({
            let held = cursor.held();
            let after = cursor.frame_set();
            let before = cursor.previous_set();
            &&& after.len() <= cursor.ahead() + 2
            &&& after.len() == cursor.ahead() + 2 || after.len() == held.end() - (cursor.at() - 1)
            &&& 0 <= k < after.len() ==> after[k] == held.handles()[cursor.at() - 1 + k
                - held.first()]
            &&& before.len() == cursor.behind() + 1 || before.len() == cursor.at()
            &&& before.len() <= cursor.behind() + 1
            &&& 0 <= k < before.len() ==> before[k] == held.handles()[cursor.at() - before.len() + k
                - held.first()]
        }),
{
}

/// A worker asks for the next frame that it does not hold as long as its lookahead reaches
/// there and the video does.
pub proof fn frames_are_asked_for_within_the_lookahead(cursor: AnalysisCursor)
    ensures
        cursor.held().end() < cursor.fetch_end() <==> cursor.held().end() <= cursor.at()
            + cursor.ahead() && cursor.held().end() < cursor.end(),
{
}

} // verus!
