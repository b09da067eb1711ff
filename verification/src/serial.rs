//! Detection by one worker, from the first frame to the last.

use vstd::prelude::*;
use crate::cursor::{AnalysisCursor, AnalysisTask};
use crate::detector::state::interval_verdict;
use crate::detector::verdict::{after_interval, Verdict};
use crate::frame_map::FrameMap;
use crate::frame_refs::listed;
use crate::measure::{double, ZERO};
use crate::options::{larger, DetectionOptions};
use crate::parallel::handoff::ParallelFrameDecision;
use crate::parallel::plan::{clamped, frame_history, smaller};
use crate::postprocess::{apply_scenechange_postprocess, corrected};
use crate::postprocess::common::Timeline;
use crate::postprocess::laws::corrections_refine;
use crate::postprocess::spacing::spaced;
use crate::results::DetectionResults;
use crate::score::ScenecutResult;
use crate::timeline::{ascending, finite_sets_ascend, FrameSet};

verus! {

/// A run through the whole video.
pub struct SerialDetection {
    opts: DetectionOptions,
    cursor: AnalysisCursor,
    keyframes: FrameSet,
    scores: FrameMap<ScenecutResult>,
}

impl SerialDetection {
    /// The options of the run.
    pub closed spec fn options(self) -> DetectionOptions {
        self.opts
    }

    /// The position in the video.
    pub closed spec fn position(self) -> AnalysisCursor {
        self.cursor
    }

    /// The cuts that were found so far.
    pub closed spec fn cuts(self) -> Set<usize> {
        self.keyframes@
    }

    /// The scores of the frames so far.
    pub closed spec fn found_scores(self) -> Map<usize, ScenecutResult> {
        self.scores@
    }

    /// Whether the position fits the cuts and scores: every cut lies before the current
    /// frame, but for the first frame of the video, and the last of them is known. Every
    /// score lies before the current frame, and the first frame has none.
    pub open spec fn wf(self) -> bool {
        &&& self.position().wf()
        &&& self.position().leads()
        &&& self.cuts().contains(0)
        &&& self.cuts().contains(self.position().last_cut() as usize)
        &&& forall|cut: usize| #[trigger]
            self.cuts().contains(cut) ==> cut <= self.position().last_cut() && (cut == 0 || cut
                < self.position().at())
        &&& forall|frame: usize| #[trigger]
            self.found_scores().contains_key(frame) ==> 1 <= frame < self.position().at()
        &&& self.cuts().finite()
        &&& self.found_scores().dom().finite()
    }

    /// The start of a run. Without a limit it goes on while there are frames.
    pub fn new(opts: DetectionOptions, frame_limit: Option<usize>) -> (run: Self)
        requires
            opts.required_lookahead() >= 1,
        ensures
            run.wf(),
            run.options() == opts,
            run.position().at() == 0,
            run.position().last_cut() == 0,
            run.position().ahead() == clamped(opts.required_lookahead()),
            run.position().behind() == frame_history(opts),
            run.position().end() == match frame_limit {
                Some(limit) => limit,
                None => usize::MAX,
            },
            run.position().held().first() == 0,
            run.position().held().handles() == Seq::<usize>::empty(),
            run.cuts() == set![0usize],
            run.found_scores() == Map::<usize, ScenecutResult>::empty(),
    {
        let limit: usize = match frame_limit {
            Some(limit) => limit,
            None => usize::MAX,
        };
        let mut keyframes = FrameSet::new();
        keyframes.insert(0);
        let run = SerialDetection {
            cursor: AnalysisCursor::new(&opts, 0, true, limit),
            opts,
            keyframes,
            scores: FrameMap::new(),
        };
        assert(run.cuts() =~= set![0usize]);
        run
    }

    /// The frame to fetch next, if any is needed for now.
    pub fn needed_frame(&self) -> (needed: Option<usize>)
        requires
            self.wf(),
        ensures
            needed == if self.position().held().end() < self.position().fetch_end() {
                Some(self.position().held().end() as usize)
            } else {
                None
            },
    {
        self.cursor.needed_frame()
    }

    /// Takes in the frame that was needed.
    pub fn supply(&mut self, handle: usize)
        requires
            old(self).wf(),
            old(self).position().held().end() < usize::MAX,
        ensures
            final(self).wf(),
            final(self).options() == old(self).options(),
            final(self).cuts() == old(self).cuts(),
            final(self).found_scores() == old(self).found_scores(),
            final(self).position().held().first() == old(self).position().held().first(),
            final(self).position().held().handles() == old(self).position().held().handles().push(
                handle,
            ),
            final(self).position().ahead() == old(self).position().ahead(),
            final(self).position().behind() == old(self).position().behind(),
            final(self).position().end() == old(self).position().end(),
            final(self).position().at() == old(self).position().at(),
            final(self).position().last_cut() == old(self).position().last_cut(),
    {
        self.cursor.supply(handle);
    }

    /// What is to be done next, once no more frames can be fetched for now.
    pub fn next_task(&self) -> (task: AnalysisTask)
        requires
            self.wf(),
        ensures
            match task {
                AnalysisTask::Done => self.position().at() >= self.position().end()
                    || self.position().at() >= usize::MAX || self.position().frame_set().len() < 2,
                AnalysisTask::FirstFrame => {
                    &&& self.position().at() < self.position().end()
                    &&& self.position().frame_set().len() >= 2
                    &&& self.position().at() == 0
                },
                AnalysisTask::Compare { frame_set, previous_set, frame, previous_keyframe } => {
                    &&& 0 < self.position().at() < self.position().end()
                    &&& self.position().frame_set().len() >= 2
                    &&& listed(frame_set) == self.position().frame_set()
                    &&& listed(previous_set) == self.position().previous_set()
                    &&& frame == self.position().at()
                    &&& previous_keyframe == self.position().last_cut()
                },
            },
    {
        self.cursor.next_task(usize::MAX)
    }

    /// Notes the verdict on the current frame and moves on. The first frame of the video is
    /// compared with none, so it has no score. Gives the progress: the number of frames
    /// analysed, and of cuts found.
    pub fn record(&mut self, decision: ParallelFrameDecision) -> (progress: (usize, usize))
        requires
            old(self).wf(),
            old(self).position().at() < usize::MAX,
            old(self).position().at() == 0 ==> decision.score is None,
        ensures
            final(self).wf(),
            final(self).options() == old(self).options(),
            final(self).position().at() == old(self).position().at() + 1,
            final(self).position().end() == old(self).position().end(),
            final(self).position().ahead() == old(self).position().ahead(),
            final(self).position().behind() == old(self).position().behind(),
            final(self).position().last_cut() == if decision.is_scene_change {
                old(self).position().at()
            } else {
                old(self).position().last_cut()
            },
            ({
                let before = old(self).position();
                let after = final(self).position();
                let keep_from = larger(before.at() - before.behind() - 1, 0);
                &&& after.held().first() == larger(
                    before.held().first(),
                    smaller(keep_from, before.held().end()),
                )
                &&& after.held().handles() == before.held().span(keep_from, before.held().end())
            }),
            final(self).cuts() == if decision.is_scene_change {
                old(self).cuts().insert(old(self).position().at() as usize)
            } else {
                old(self).cuts()
            },
            final(self).found_scores() == match decision.score {
                Some(score) => old(self).found_scores().insert(
                    old(self).position().at() as usize,
                    score,
                ),
                None => old(self).found_scores(),
            },
            progress.0 == final(self).position().at(),
            progress.1 == final(self).cuts().len(),
    {
        let frame: usize = self.cursor.current_frame();
        if let Some(score) = decision.score {
            self.scores.insert(frame, score);
        }
        if decision.is_scene_change {
            self.keyframes.insert(frame);
        }
        self.cursor.advance(decision.is_scene_change);
        (self.cursor.current_frame(), self.keyframes.len())
    }

    /// The result of the run, with all corrections made.
    pub fn finish(self) -> (results: DetectionResults)
        requires
            self.wf(),
        ensures
            results.frame_count == self.position().at(),
            results.speed == double(ZERO),
            ({
                let state = corrected(
                    self.options(),
                    Timeline { cuts: self.cuts(), scores: self.found_scores() },
                );
                &&& results.scene_changes@ == ascending(state.cuts)
                &&& results.scores@ == state.scores
            }),
            forall|k: int|
                0 <= k < results.scene_changes@.len() ==> (#[trigger] results.scene_changes@[k])
                    < larger(results.frame_count as int, 1),
            forall|frame: usize| #[trigger]
                results.scores@.contains_key(frame) ==> 1 <= frame < results.frame_count,
    {
        let frame_count: usize = self.cursor.current_frame();
        let mut keyframes = self.keyframes;
        let mut scores = self.scores;
        proof {
            let found = Timeline { cuts: self.cuts(), scores: self.found_scores() };
            let state = corrected(self.opts, found);
            corrections_refine(self.opts, found);
            let reachable = found.cuts.union(found.scores.dom());
            vstd::set_lib::lemma_set_subset_finite(reachable, state.cuts);
            finite_sets_ascend(state.cuts);
            let cuts = ascending(state.cuts);
            assert forall|k: int| 0 <= k < cuts.len() implies (#[trigger] cuts[k]) < larger(
                frame_count as int,
                1,
            ) by {
                assert(cuts.to_set().contains(cuts[k]));
                assert(reachable.contains(cuts[k]));
            }
        }
        apply_scenechange_postprocess(&self.opts, &mut keyframes, &mut scores);
        DetectionResults {
            scene_changes: keyframes.to_vec(),
            scores,
            frame_count,
            speed: double(ZERO),
        }
    }
}

/// Whether the cuts and scores are those that the given decisions make for the frames
/// before one. The first frame of a video is always a cut.
pub open spec fn decided_before(
    cuts: Set<usize>,
    scores: Map<usize, ScenecutResult>,
    end: int,
    decide: spec_fn(usize) -> ParallelFrameDecision,
) -> bool {
    &&& forall|frame: usize| #[trigger]
        cuts.contains(frame) <==> frame == 0 || (frame < end && decide(frame).is_scene_change)
    &&& forall|frame: usize| #[trigger]
        scores.contains_key(frame) <==> frame < end && decide(frame).score is Some
    &&& forall|frame: usize| #[trigger]
        scores.contains_key(frame) ==> decide(frame).score == Some(scores[frame])
}

/// A run that records the given decisions, frame after frame, holds what they make for
/// the frames so far: at its start, and after each further frame.
pub proof fn recording_follows_decisions(
    cuts: Set<usize>,
    scores: Map<usize, ScenecutResult>,
    at: usize,
    decide: spec_fn(usize) -> ParallelFrameDecision,
)
    requires
        decided_before(cuts, scores, at as int, decide),
    ensures
        decided_before(set![0usize], Map::empty(), 0, decide),
        decided_before(
            if decide(at).is_scene_change {
                cuts.insert(at)
            } else {
                cuts
            },
            match decide(at).score {
                Some(score) => scores.insert(at, score),
                None => scores,
            },
            at + 1,
            decide,
        ),
{
}

/// The cuts of a run keep the smallest distance: a frame that is judged a cut joins those
/// before it at that distance or more.
pub proof fn judged_cut_stays_spaced(
    cuts: Set<usize>,
    last_cut: usize,
    at: usize,
    verdict: Verdict,
    min: int,
    max: int,
)
    requires
        spaced(cuts, min),
        cuts.contains(last_cut),
        forall|cut: usize| #[trigger] cuts.contains(cut) ==> cut <= last_cut,
        last_cut < at,
    ensures
        after_interval(verdict, interval_verdict(at - last_cut, min, max)).cut ==> spaced(
            cuts.insert(at),
            min,
        ),
{
}

} // verus!
