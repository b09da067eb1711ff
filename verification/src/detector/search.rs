//! The search for a later frame at which the scene before a cut returns.

use vstd::prelude::*;
use crate::detector::state::SceneChangeDetector;
use crate::detector::verdict::{is_importance_cut, over_forward, RelaxedRatios, Verdict};
use crate::measure::Measure;
use crate::options::{larger, ForwardSimilarityOptions};
use crate::parallel::plan::{max, min, smaller};
use crate::score::{ForwardSimilarityCandidate, ForwardSimilarityCandidateDecision};
use crate::score::{ScenecutDecision, ScenecutResult, FORWARD_SIMILARITY_DIAGNOSTIC_SLOTS};
use crate::similarity::{flash_needs_no_candidate, return_candidate_fits, return_threshold};
use crate::similarity::{forward_similarity_flash_return_without_candidate_allowed};
use crate::similarity::{forward_similarity_return_candidate_allowed};
use crate::similarity::{forward_similarity_start_allowed, forward_similarity_threshold_8bit};

verus! {

/// A later frame at which the scene before a cut returns.
#[derive(Clone, Copy, Debug, PartialEq, Eq, Structural)]
pub struct ForwardSimilarityMatch {
    pub frame: usize,
    pub delta: Measure,
}

/// A cut candidate at which the scene before a cut may return.
#[derive(Clone, Copy, Debug)]
pub struct ForwardReturnCandidate {
    pub offset: usize,
    pub score: ScenecutResult,
}

/// The frames of one comparison: those of the reference window against as many that
/// end at `end`, counted from the frame before the cut.
#[derive(Clone, Copy, Debug, PartialEq, Eq, Structural)]
pub struct ForwardSegment {
    pub start: usize,
    pub end: usize,
}

/// The frames that later ones are compared with.
#[derive(Clone, Copy, Debug, PartialEq, Eq, Structural)]
pub enum ReferenceFrames {
    /// The frames before the cut, from the given one of those at hand on.
    Previous { from: usize },
    /// The frame right before the cut.
    BeforeCut,
}

/// Whether the frame at an offset from the one before the current is a cut candidate.
pub open spec fn is_return_candidate(
    detector: SceneChangeDetector,
    relaxed: Seq<RelaxedRatios>,
    offset: int,
) -> bool {
    let index = detector.deque_offset - (offset - 1);
    &&& 1 <= offset - 1 <= detector.deque_offset
    &&& index < detector.score_deque@.len()
    &&& over_forward(detector.score_deque@[index].result) || is_importance_cut(
        detector.score_deque@,
        index,
        detector.tuning,
        relaxed[index],
    )
}

/// The offset of the last cut candidate from one offset to another.
pub open spec fn last_return_candidate(
    detector: SceneChangeDetector,
    relaxed: Seq<RelaxedRatios>,
    low: int,
    high: int,
) -> Option<int>
    decreases high - low + 1,
{
    if high < low {
        None
    } else if is_return_candidate(detector, relaxed, high) {
        Some(high)
    } else {
        last_return_candidate(detector, relaxed, low, high - 1)
    }
}

/// Where the frames of a comparison start that end at an offset: within the frames
/// after the cut, and no earlier than the cut candidate.
pub open spec fn segment_start(offset: int, candidate: Option<int>, compared: int) -> Option<int> {
    let start = offset + 1 - compared;
    if compared <= 0 || offset < compared || (candidate matches Some(at) && start < at) {
        None
    } else {
        Some(start)
    }
}

/// What becomes of a candidate.
pub open spec fn candidate_decision(
    options: ForwardSimilarityOptions,
    score: ScenecutResult,
    returning: Option<ScenecutResult>,
    offset: int,
    delta: Measure,
) -> ForwardSimilarityCandidateDecision {
    if options.require_return_candidate && returning is None && !flash_needs_no_candidate(
        options,
        score,
        offset,
        delta,
    ) {
        ForwardSimilarityCandidateDecision::MissingReturnCandidate
    } else if returning matches Some(other) && !return_candidate_fits(
        options,
        score,
        other,
        delta,
    ) {
        ForwardSimilarityCandidateDecision::DominantReturnCandidate
    } else if return_threshold(options, score).lt(delta) {
        ForwardSimilarityCandidateDecision::DeltaAboveThreshold
    } else {
        ForwardSimilarityCandidateDecision::Accepted
    }
}

/// The number of candidates that come before one with the given difference.
pub open spec fn place_of(candidates: Seq<ForwardSimilarityCandidate>, delta: Measure) -> int
    decreases candidates.len(),
{
    if candidates.len() == 0 || !delta.lt(candidates.last().delta) {
        candidates.len() as int
    } else {
        place_of(candidates.drop_last(), delta)
    }
}

/// The candidates with one more, in the order of their differences.
pub open spec fn with_candidate(
    candidates: Seq<ForwardSimilarityCandidate>,
    candidate: ForwardSimilarityCandidate,
) -> Seq<ForwardSimilarityCandidate> {
    candidates.insert(place_of(candidates, candidate.delta), candidate)
}

/// The candidates after one more was seen. Where all slots are taken, the worst one
/// gives way to a closer one, and to one that is accepted.
pub open spec fn recorded(
    candidates: Seq<ForwardSimilarityCandidate>,
    candidate: ForwardSimilarityCandidate,
) -> Seq<ForwardSimilarityCandidate> {
    if candidates.len() < FORWARD_SIMILARITY_DIAGNOSTIC_SLOTS {
        with_candidate(candidates, candidate)
    } else if candidate.decision == ForwardSimilarityCandidateDecision::Accepted
        || candidate.delta.lt(candidates.last().delta) {
        with_candidate(candidates.drop_last(), candidate)
    } else {
        candidates
    }
}

/// Whether candidates stand in the order of their differences.
pub open spec fn in_order(candidates: Seq<ForwardSimilarityCandidate>) -> bool {
    &&& candidates.len() <= FORWARD_SIMILARITY_DIAGNOSTIC_SLOTS
    &&& forall|k: int| 0 <= k < candidates.len() ==> !(#[trigger] candidates[k]).delta.is_nan()
    &&& forall|i: int, j: int|
        0 <= i < j < candidates.len() ==> (#[trigger] candidates[i]).delta.le(
            (#[trigger] candidates[j]).delta,
        )
}

/// A place among ordered candidates parts the closer ones from the others.
proof fn place_parts_candidates(candidates: Seq<ForwardSimilarityCandidate>, delta: Measure)
    requires
        in_order(candidates),
        !delta.is_nan(),
    ensures
        0 <= place_of(candidates, delta) <= candidates.len(),
        forall|k: int|
            0 <= k < place_of(candidates, delta) ==> (#[trigger] candidates[k]).delta.le(delta),
        forall|k: int|
            place_of(candidates, delta) <= k < candidates.len() ==> delta.lt(
                (#[trigger] candidates[k]).delta,
            ),
    decreases candidates.len(),
{
    if candidates.len() > 0 {
        let last = candidates.len() - 1;
        assert(!candidates[last].delta.is_nan());
        if delta.lt(candidates.last().delta) {
            let rest = candidates.drop_last();
            assert(in_order(rest)) by {
                assert forall|k: int| 0 <= k < rest.len() implies !(#[trigger] rest[k]).delta.is_nan() by {
                    assert(rest[k] == candidates[k]);
                }
                assert forall|i: int, j: int| 0 <= i < j < rest.len() implies (
                #[trigger] rest[i]).delta.le((#[trigger] rest[j]).delta) by {
                    assert(rest[i] == candidates[i] && rest[j] == candidates[j]);
                }
            }
            place_parts_candidates(rest, delta);
            let place = place_of(candidates, delta);
            assert forall|k: int| 0 <= k < place implies (#[trigger] candidates[k]).delta.le(
                delta,
            ) by {
                assert(rest[k] == candidates[k]);
            }
            assert forall|k: int| place <= k < candidates.len() implies delta.lt(
                (#[trigger] candidates[k]).delta,
            ) by {
                if k < last {
                    assert(rest[k] == candidates[k]);
                }
            }
        } else {
            assert forall|k: int| 0 <= k < candidates.len() implies (
            #[trigger] candidates[k]).delta.le(delta) by {
                if k < last {
                    assert(candidates[k].delta.le(candidates[last].delta));
                }
            }
        }
    }
}

/// Whatever is recorded, candidates stay in the order of their differences and within
/// their slots.
pub proof fn recording_keeps_order(
    candidates: Seq<ForwardSimilarityCandidate>,
    candidate: ForwardSimilarityCandidate,
)
    requires
        in_order(candidates),
        !candidate.delta.is_nan(),
    ensures
        in_order(recorded(candidates, candidate)),
        candidate.decision == ForwardSimilarityCandidateDecision::Accepted ==> recorded(
            candidates,
            candidate,
        ).contains(candidate),
{
    let base = if candidates.len() < FORWARD_SIMILARITY_DIAGNOSTIC_SLOTS {
        candidates
    } else {
        candidates.drop_last()
    };
    assert(in_order(base)) by {
        assert forall|k: int| 0 <= k < base.len() implies !(#[trigger] base[k]).delta.is_nan() by {
            assert(base[k] == candidates[k]);
        }
        assert forall|i: int, j: int| 0 <= i < j < base.len() implies (#[trigger] base[i]).delta.le(
            (#[trigger] base[j]).delta,
        ) by {
            assert(base[i] == candidates[i] && base[j] == candidates[j]);
        }
    }
    place_parts_candidates(base, candidate.delta);
    let place = place_of(base, candidate.delta);
    let after = with_candidate(base, candidate);
    assert(after[place] == candidate);
    assert(in_order(after)) by {
        assert forall|k: int| 0 <= k < after.len() implies !(#[trigger] after[k]).delta.is_nan() by {
            if k < place {
                assert(after[k] == base[k]);
            } else if k > place {
                assert(after[k] == base[k - 1]);
            }
        }
        assert forall|i: int, j: int| 0 <= i < j < after.len() implies (
        #[trigger] after[i]).delta.le((#[trigger] after[j]).delta) by {
            if i < place {
                assert(after[i] == base[i]);
            } else if i > place {
                assert(after[i] == base[i - 1]);
            }
            if j < place {
                assert(after[j] == base[j]);
            } else if j > place {
                assert(after[j] == base[j - 1]);
            }
        }
    }
}

/// Records a candidate among the closest ones so far.
pub fn record_forward_similarity_candidate(
    candidates: &mut Vec<ForwardSimilarityCandidate>,
    candidate: ForwardSimilarityCandidate,
)
    requires
        in_order(old(candidates)@),
        !candidate.delta.is_nan(),
    ensures
        final(candidates)@ == recorded(old(candidates)@, candidate),
        in_order(final(candidates)@),
{
    let ghost before = candidates@;
    proof {
        recording_keeps_order(before, candidate);
    }
    if candidates.len() >= FORWARD_SIMILARITY_DIAGNOSTIC_SLOTS {
        let last: usize = candidates.len() - 1;
        if candidate.decision != ForwardSimilarityCandidateDecision::Accepted
            && !candidate.delta.below(candidates[last].delta) {
            return;
        }
        candidates.pop();
    }
    let ghost base = candidates@;
    let mut place: usize = candidates.len();
    assert(base.take(place as int) =~= base);
    while place > 0 && candidate.delta.below(candidates[place - 1].delta)
        invariant
            place <= candidates@.len(),
            candidates@ == base,
            place_of(base, candidate.delta) == place_of(base.take(place as int), candidate.delta),
        ensures
            place <= base.len(),
            candidates@ == base,
            place_of(base, candidate.delta) == place,
        decreases place,
    {
        assert(base.take(place as int).drop_last() =~= base.take(place - 1));
        place = place - 1;
    }
    candidates.insert(place, candidate);
}

/// A search in progress.
#[derive(Debug)]
pub struct ForwardSearch {
    /// The options of the search.
    pub options: ForwardSimilarityOptions,
    /// The scores of the cut.
    pub score: ScenecutResult,
    /// The cut.
    pub frame: usize,
    /// Frames on each side of a comparison.
    pub compared: usize,
    /// The first offset that is looked at.
    pub min_offset: usize,
    /// The last offset that is looked at.
    pub max_offset: usize,
    /// The offset that is looked at next.
    pub offset: usize,
    /// The closest candidates so far.
    pub candidates: Vec<ForwardSimilarityCandidate>,
    /// The candidate that was accepted.
    pub accepted: Option<ForwardSimilarityMatch>,
    /// Candidates that were not.
    pub rejected_candidates: usize,
}

impl ForwardSearch {
    /// Whether the counts fit together.
    pub open spec fn wf(self) -> bool {
        &&& in_order(self.candidates@)
        &&& 2 <= self.min_offset <= self.offset
        &&& self.offset <= self.max_offset + 1 || self.offset == self.min_offset
        &&& self.rejected_candidates <= self.offset
        &&& self.frame + self.max_offset <= usize::MAX
        &&& self.max_offset < usize::MAX
    }

    /// Whether the search goes on.
    pub open spec fn goes_on(self) -> bool {
        self.accepted is None && self.offset <= self.max_offset
    }

    /// The frames that later ones are compared with, when so many frames before the cut are
    /// at hand: the last of them, as many as the window takes, or the frame before the cut
    /// where there are none.
    pub fn reference_frames(&self, previous_frames: usize) -> (reference: ReferenceFrames)
        ensures
            reference == if previous_frames == 0 {
                ReferenceFrames::BeforeCut
            } else {
                ReferenceFrames::Previous {
                    from: larger(
                        previous_frames - larger(self.options.window_frames as int, 1),
                        0,
                    ) as usize,
                }
            },
    {
        if previous_frames == 0 {
            ReferenceFrames::BeforeCut
        } else {
            ReferenceFrames::Previous {
                from: previous_frames.saturating_sub(max(self.options.window_frames, 1)),
            }
        }
    }

    /// Whether this is the search at its start, for a cut of which so many frames are at
    /// hand from the one before it on, and so many before it.
    pub open spec fn begins(
        self,
        options: ForwardSimilarityOptions,
        score: ScenecutResult,
        frame: int,
        frames: int,
        previous_frames: int,
    ) -> bool {
        &&& self.wf()
        &&& self.options == options
        &&& self.score == score
        &&& self.frame == frame
        &&& self.compared == larger(
            smaller(previous_frames, larger(options.window_frames as int, 1)),
            1,
        )
        &&& self.min_offset == larger(options.min_offset as int, 2)
        &&& self.max_offset == smaller(options.reach() + 1, frames - 1)
        &&& self.offset == self.min_offset
        &&& self.candidates@ == Seq::<ForwardSimilarityCandidate>::empty()
        &&& self.accepted is None
        &&& self.rejected_candidates == 0
    }

    /// The search at its start, for a cut of which so many frames are at hand from the
    /// one before it on, and so many before it. There is none where it is not enabled or
    /// too few frames follow.
    pub fn start(
        options: &ForwardSimilarityOptions,
        score: ScenecutResult,
        frame: usize,
        frames: usize,
        previous_frames: usize,
    ) -> (search: Option<ForwardSearch>)
        requires
            frame + frames <= usize::MAX,
        ensures
            search is None <==> !options.enabled || options.frames == 0 || frames < 3,
            search matches Some(started) ==> started.begins(
                *options,
                score,
                frame as int,
                frames as int,
                previous_frames as int,
            ),
    {
        if !options.enabled || options.frames == 0 || frames < 3 {
            return None;
        }
        let window: usize = max(options.window_frames, 1);
        let reach: usize = options.frames.saturating_add(window - 1).saturating_add(1);
        let min_offset: usize = max(options.min_offset, 2);
        Some(
            ForwardSearch {
                options: *options,
                score,
                frame,
                compared: max(min(previous_frames, window), 1),
                min_offset,
                max_offset: min(reach, frames - 1),
                offset: min_offset,
                candidates: Vec::new(),
                accepted: None,
                rejected_candidates: 0,
            },
        )
    }

    /// The cut candidate that the current offset returns by.
    pub open spec fn candidate_at(
        self,
        detector: SceneChangeDetector,
        relaxed: Seq<RelaxedRatios>,
    ) -> Option<int> {
        last_return_candidate(detector, relaxed, self.min_offset as int, self.offset as int)
    }

    /// Where the comparison for the current offset starts.
    pub open spec fn start_at(
        self,
        detector: SceneChangeDetector,
        relaxed: Seq<RelaxedRatios>,
    ) -> Option<int> {
        segment_start(
            self.offset as int,
            self.candidate_at(detector, relaxed),
            self.compared as int,
        )
    }

    /// The search past offsets that leave no room for a comparison.
    pub open spec fn skipped(
        self,
        detector: SceneChangeDetector,
        relaxed: Seq<RelaxedRatios>,
    ) -> ForwardSearch
        decreases self.max_offset + 1 - self.offset
            when self.max_offset < usize::MAX
    {
        if !self.goes_on() || self.start_at(detector, relaxed) is Some {
            self
        } else {
            ForwardSearch {
                offset: (self.offset + 1) as usize,
                rejected_candidates: (self.rejected_candidates + 1) as usize,
                ..self
            }.skipped(detector, relaxed)
        }
    }

    /// The candidate that a comparison for the current offset makes.
    pub open spec fn judged_candidate(
        self,
        detector: SceneChangeDetector,
        relaxed: Seq<RelaxedRatios>,
        delta: Measure,
    ) -> ForwardSimilarityCandidate {
        let returning = self.candidate_at(detector, relaxed);
        ForwardSimilarityCandidate {
            frame: (self.frame + self.offset - 1) as usize,
            offset: self.offset,
            delta,
            threshold: return_threshold(self.options, self.score),
            candidate_frame: match returning {
                Some(at) => Some((self.frame + at - 1) as usize),
                None => None,
            },
            candidate_offset: match returning {
                Some(at) => Some(at as usize),
                None => None,
            },
            decision: candidate_decision(
                self.options,
                self.score,
                match returning {
                    Some(at) => Some(
                        detector.score_deque@[detector.deque_offset - (at - 1)].result,
                    ),
                    None => None,
                },
                self.offset as int,
                delta,
            ),
        }
    }
}

impl SceneChangeDetector {
    /// Whether the frame at an offset from the one before the current is a cut
    /// candidate, and its scores.
    pub fn forward_return_candidate_score(
        &self,
        offset: usize,
        relaxed: &Vec<RelaxedRatios>,
    ) -> (score: Option<ScenecutResult>)
        requires
            relaxed@.len() == self.score_deque@.len(),
        ensures
            match score {
                Some(found) => is_return_candidate(*self, relaxed@, offset as int) && found
                    == self.score_deque@[self.deque_offset - (offset - 1)].result,
                None => !is_return_candidate(*self, relaxed@, offset as int),
            },
    {
        if offset < 2 || offset - 1 > self.deque_offset {
            return None;
        }
        let index: usize = self.deque_offset - (offset - 1);
        if index >= self.score_deque.len() {
            return None;
        }
        let score: ScenecutResult = self.score_deque[index].result;
        if score.forward_adjusted_cost.at_least(score.threshold) || self.importance_cut_passed(
            index,
            &relaxed[index],
        ) {
            Some(score)
        } else {
            None
        }
    }

    /// The last cut candidate from one offset to another.
    pub fn forward_return_candidate(
        &self,
        min_offset: usize,
        return_offset: usize,
        relaxed: &Vec<RelaxedRatios>,
    ) -> (candidate: Option<ForwardReturnCandidate>)
        requires
            relaxed@.len() == self.score_deque@.len(),
            min_offset >= 1,
        ensures
            match candidate {
                Some(found) => {
                    &&& last_return_candidate(
                        *self,
                        relaxed@,
                        min_offset as int,
                        return_offset as int,
                    ) == Some(found.offset as int)
                    &&& min_offset <= found.offset <= return_offset
                    &&& found.score == self.score_deque@[self.deque_offset - (found.offset
                        - 1)].result
                },
                None => last_return_candidate(
                    *self,
                    relaxed@,
                    min_offset as int,
                    return_offset as int,
                ) is None,
            },
    {
        let mut offset: usize = return_offset;
        while offset >= min_offset
            invariant
                relaxed@.len() == self.score_deque@.len(),
                min_offset >= 1,
                offset <= return_offset,
                last_return_candidate(*self, relaxed@, min_offset as int, return_offset as int)
                    == last_return_candidate(*self, relaxed@, min_offset as int, offset as int),
            decreases offset,
        {
            if let Some(score) = self.forward_return_candidate_score(offset, relaxed) {
                return Some(ForwardReturnCandidate { offset, score });
            }
            offset = offset - 1;
        }
        None
    }
}

/// Where the frames of a comparison start that end at an offset.
pub fn forward_similarity_post_start_offset(
    return_offset: usize,
    return_candidate: Option<usize>,
    comparison_frames: usize,
) -> (start: Option<usize>)
    ensures
        match start {
            Some(from) => segment_start(
                return_offset as int,
                match return_candidate {
                    Some(at) => Some(at as int),
                    None => None,
                },
                comparison_frames as int,
            ) == Some(from as int),
            None => segment_start(
                return_offset as int,
                match return_candidate {
                    Some(at) => Some(at as int),
                    None => None,
                },
                comparison_frames as int,
            ) is None,
        },
{
    if comparison_frames == 0 || return_offset < comparison_frames {
        return None;
    }
    let start: usize = return_offset - comparison_frames + 1;
    if let Some(at) = return_candidate {
        if start < at {
            return None;
        }
    }
    Some(start)
}

impl ForwardSearch {
    /// The comparison that is needed next, if the search goes on. Offsets that leave no
    /// room for one are passed over.
    pub fn next_segment(
        &mut self,
        detector: &SceneChangeDetector,
        relaxed: &Vec<RelaxedRatios>,
    ) -> (segment: Option<ForwardSegment>)
        requires
            old(self).wf(),
            relaxed@.len() == detector.score_deque@.len(),
        ensures
            final(self).wf(),
            *final(self) == old(self).skipped(*detector, relaxed@),
            match segment {
                Some(found) => {
                    &&& final(self).goes_on()
                    &&& found.end == final(self).offset
                    &&& final(self).start_at(*detector, relaxed@) == Some(found.start as int)
                },
                None => !final(self).goes_on(),
            },
    {
        let ghost target = self.skipped(*detector, relaxed@);
        while self.accepted.is_none() && self.offset <= self.max_offset
            invariant
                self.wf(),
                relaxed@.len() == detector.score_deque@.len(),
                target == old(self).skipped(*detector, relaxed@),
                self.skipped(*detector, relaxed@) == target,
            decreases self.max_offset + 1 - self.offset,
        {
            let returning: Option<usize> = match detector.forward_return_candidate(
                self.min_offset,
                self.offset,
                relaxed,
            ) {
                Some(candidate) => Some(candidate.offset),
                None => None,
            };
            if let Some(start) = forward_similarity_post_start_offset(
                self.offset,
                returning,
                self.compared,
            ) {
                return Some(ForwardSegment { start, end: self.offset });
            }
            self.offset = self.offset + 1;
            self.rejected_candidates = self.rejected_candidates + 1;
        }
        None
    }

    /// Takes in the difference of the comparison that was needed.
    pub fn judge_segment(
        &mut self,
        detector: &SceneChangeDetector,
        relaxed: &Vec<RelaxedRatios>,
        delta: Measure,
    )
        requires
            old(self).wf(),
            old(self).goes_on(),
            relaxed@.len() == detector.score_deque@.len(),
            !delta.is_nan(),
        ensures
            final(self).wf(),
            ({
                let candidate = old(self).judged_candidate(*detector, relaxed@, delta);
                let accepted = candidate.decision == ForwardSimilarityCandidateDecision::Accepted;
                &&& final(self).candidates@ == recorded(old(self).candidates@, candidate)
                &&& *final(self) == (ForwardSearch {
                    candidates: final(self).candidates,
                    offset: (old(self).offset + 1) as usize,
                    accepted: if accepted {
                        Some(ForwardSimilarityMatch { frame: candidate.frame, delta })
                    } else {
                        None
                    },
                    rejected_candidates: if accepted {
                        old(self).rejected_candidates
                    } else {
                        (old(self).rejected_candidates + 1) as usize
                    },
                    ..*old(self)
                })
            }),
    {
        let returning = detector.forward_return_candidate(self.min_offset, self.offset, relaxed);
        let threshold: Measure = forward_similarity_threshold_8bit(self.options, self.score);
        let missing = match &returning {
            Some(_) => false,
            None => self.options.require_return_candidate
                && !forward_similarity_flash_return_without_candidate_allowed(
                self.options,
                self.score,
                self.offset,
                delta,
            ),
        };
        let dominant = match &returning {
            Some(candidate) => !forward_similarity_return_candidate_allowed(
                self.options,
                self.score,
                candidate.score,
                delta,
            ),
            None => false,
        };
        let decision: ForwardSimilarityCandidateDecision = if missing {
            ForwardSimilarityCandidateDecision::MissingReturnCandidate
        } else if dominant {
            ForwardSimilarityCandidateDecision::DominantReturnCandidate
        } else if delta.above(threshold) {
            ForwardSimilarityCandidateDecision::DeltaAboveThreshold
        } else {
            ForwardSimilarityCandidateDecision::Accepted
        };
        let (candidate_frame, candidate_offset) = match &returning {
            Some(candidate) => (
                Some(self.frame + candidate.offset - 1),
                Some(candidate.offset),
            ),
            None => (None, None),
        };
        let candidate = ForwardSimilarityCandidate {
            frame: self.frame + self.offset - 1,
            offset: self.offset,
            delta,
            threshold,
            candidate_frame,
            candidate_offset,
            decision,
        };
        record_forward_similarity_candidate(&mut self.candidates, candidate);
        if decision == ForwardSimilarityCandidateDecision::Accepted {
            self.accepted = Some(ForwardSimilarityMatch { frame: candidate.frame, delta });
        } else {
            self.rejected_candidates = self.rejected_candidates + 1;
        }
        self.offset = self.offset + 1;
    }
}

/// The slots of a record that hold the given candidates.
pub open spec fn slots_hold(
    slots: Seq<Option<ForwardSimilarityCandidate>>,
    candidates: Seq<ForwardSimilarityCandidate>,
) -> bool {
    forall|k: int|
        0 <= k < slots.len() ==> #[trigger] slots[k] == if k < candidates.len() {
            Some(candidates[k])
        } else {
            None
        }
}

/// The slots of a record that hold the given candidates.
fn slots_of(candidates: &Vec<ForwardSimilarityCandidate>) -> (slots: [Option<
    ForwardSimilarityCandidate,
>; FORWARD_SIMILARITY_DIAGNOSTIC_SLOTS])
    ensures
        slots_hold(slots@, candidates@),
{
    let mut slots: [Option<ForwardSimilarityCandidate>; FORWARD_SIMILARITY_DIAGNOSTIC_SLOTS] =
        [None; FORWARD_SIMILARITY_DIAGNOSTIC_SLOTS];
    for slot in 0..FORWARD_SIMILARITY_DIAGNOSTIC_SLOTS
        invariant
            forall|k: int|
                0 <= k < slots@.len() ==> #[trigger] slots@[k] == if k < candidates@.len() && k
                    < slot {
                    Some(candidates@[k])
                } else {
                    None
                },
    {
        if slot < candidates.len() {
            slots[slot] = Some(candidates[slot]);
        }
    }
    slots
}

impl SceneChangeDetector {
    /// Whether a return is looked for: only for a cut that is strong enough, after a
    /// scene that is long enough.
    pub fn begins_search(&self, verdict: &Verdict, previous_scene_len: usize) -> (begins: bool)
        ensures
            begins == (verdict.cut && previous_scene_len
                >= self.tuning.forward_similarity.min_previous_scene_len
                && self.tuning.forward_similarity.min_cut_cost_ratio.le(verdict.score.cost_ratio)),
    {
        verdict.cut && forward_similarity_start_allowed(
            self.tuning.forward_similarity,
            verdict.score,
            previous_scene_len,
        )
    }

    /// The verdict after a search: its candidates are recorded, and a cut after which
    /// the scene before it returns is suppressed, where so configured with all cuts up
    /// to the return.
    pub fn judge_search(&mut self, verdict: Verdict, search: &ForwardSearch) -> (judged: Verdict)
        ensures
            slots_hold(judged.score.forward_similarity_candidates@, search.candidates@),
            judged == (match search.accepted {
                Some(found) => Verdict {
                    cut: false,
                    score: ScenecutResult {
                        forward_similarity_candidates: judged.score.forward_similarity_candidates,
                        forward_similarity_rejected_candidates: search.rejected_candidates,
                        decision: ScenecutDecision::SuppressedForwardSimilarity,
                        forward_return_frame: Some(found.frame),
                        forward_similarity_score: Some(found.delta),
                        ..verdict.score
                    },
                },
                None => Verdict {
                    cut: verdict.cut,
                    score: ScenecutResult {
                        forward_similarity_candidates: judged.score.forward_similarity_candidates,
                        forward_similarity_rejected_candidates: search.rejected_candidates,
                        ..verdict.score
                    },
                },
            }),
            *final(self) == (SceneChangeDetector {
                forward_suppress_until: match search.accepted {
                    Some(found) if old(self).tuning.forward_similarity.suppress_inside => Some(
                        found.frame,
                    ),
                    _ => old(self).forward_suppress_until,
                },
                ..*old(self)
            }),
    {
        let mut judged = verdict;
        judged.score.forward_similarity_candidates = slots_of(&search.candidates);
        judged.score.forward_similarity_rejected_candidates = search.rejected_candidates;
        if let Some(found) = search.accepted {
            judged.score.decision = ScenecutDecision::SuppressedForwardSimilarity;
            judged.score.forward_return_frame = Some(found.frame);
            judged.score.forward_similarity_score = Some(found.delta);
            if self.tuning.forward_similarity.suppress_inside {
                self.forward_suppress_until = Some(found.frame);
            }
            judged.cut = false;
        }
        judged
    }
}

/// A search compares as many frames as there are reference frames.
pub proof fn search_compares_its_reference(
    search: ForwardSearch,
    options: ForwardSimilarityOptions,
    score: ScenecutResult,
    frame: int,
    frames: int,
    previous_frames: int,
)
    requires
        0 <= previous_frames,
        search.begins(options, score, frame, frames, previous_frames),
    ensures
        search.compared == if previous_frames == 0 {
            1
        } else {
            previous_frames - larger(
                previous_frames - larger(search.options.window_frames as int, 1),
                0,
            )
        },
{
}

} // verus!
