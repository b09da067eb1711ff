//! The frames that one worker holds at a time.

use vstd::prelude::*;
use std::collections::VecDeque;
use crate::frame_refs::{listed, FrameRefs};
use crate::options::larger;
use crate::parallel::plan::smaller;

verus! {

/// A stretch of successive frames. Each is held by a handle with which its owner
/// finds the picture again.
pub struct FrameWindow {
    start: usize,
    frames: VecDeque<usize>,
}

impl FrameWindow {
    /// Frame numbers stay within machine numbers.
    #[verifier::type_invariant]
    spec fn fits(self) -> bool {
        self.start + self.frames@.len() <= usize::MAX
    }

    /// The first frame that is held, or the next to come.
    pub closed spec fn first(self) -> int {
        self.start as int
    }

    /// The handles of the held frames, in order.
    pub closed spec fn handles(self) -> Seq<usize> {
        self.frames@
    }

    /// The frame after the last one that is held.
    pub open spec fn end(self) -> int {
        self.first() + self.handles().len()
    }

    /// The handles of those held frames that lie from `low` to before `high`.
    pub open spec fn span(self, low: int, high: int) -> Seq<usize> {
        let from = larger(low - self.first(), 0);
        let to = smaller(high - self.first(), self.handles().len() as int);
        if from < to {
            self.handles().subrange(from, to)
        } else {
            Seq::empty()
        }
    }

    /// A window without frames.
    pub fn new(start: usize) -> (window: Self)
        ensures
            window.first() == start,
            window.handles() == Seq::<usize>::empty(),
    {
        FrameWindow { start, frames: VecDeque::new() }
    }

    /// The frame after the last one that is held.
    pub fn next_frame(&self) -> (frame: usize)
        ensures
            frame == self.end(),
    {
        proof {
            use_type_invariant(self);
        }
        self.start + self.frames.len()
    }

    /// Adds the next frame. An empty window can start at any frame.
    pub fn push_next(&mut self, frame: usize, handle: usize)
        requires
            frame == old(self).end() || old(self).handles().len() == 0,
            frame < usize::MAX,
        ensures
            final(self).first() == if old(self).handles().len() == 0 {
                frame as int
            } else {
                old(self).first()
            },
            final(self).handles() == old(self).handles().push(handle),
    {
        let mut taken = FrameWindow::new(0);
        core::mem::swap(self, &mut taken);
        let mut start: usize = taken.start;
        let mut frames: VecDeque<usize> = taken.frames;
        if frames.len() == 0 {
            start = frame;
        }
        frames.push_back(handle);
        *self = FrameWindow { start, frames };
    }

    /// The handles of up to `take` held frames, from the given one on.
    pub fn refs_from(&self, start: usize, take: usize) -> (refs: FrameRefs)
        ensures
            listed(refs) == self.span(
                larger(start as int, self.first()),
                larger(start as int, self.first()) + take,
            ),
    {
        proof {
            use_type_invariant(self);
        }
        let mut refs = FrameRefs::empty();
        let offset: usize = if start > self.start {
            start - self.start
        } else {
            0
        };
        if take == 0 || offset >= self.frames.len() {
            return refs;
        }
        let count: usize = if take < self.frames.len() - offset {
            take
        } else {
            self.frames.len() - offset
        };
        for index in offset..offset + count
            invariant
                offset + count <= self.frames@.len(),
                listed(refs) == self.frames@.subrange(offset as int, index as int),
        {
            refs.append(self.frames[index]);
            assert(self.frames@.subrange(offset as int, index + 1) =~= self.frames@.subrange(
                offset as int,
                index as int,
            ).push(self.frames@[index as int]));
        }
        refs
    }

    /// The handles of the held frames from `start` to before `end`.
    pub fn refs_range(&self, start: usize, end: usize) -> (refs: FrameRefs)
        ensures
            listed(refs) == self.span(start as int, end as int),
    {
        proof {
            use_type_invariant(self);
        }
        let from: usize = if start > self.start {
            start
        } else {
            self.start
        };
        if end <= from {
            return FrameRefs::empty();
        }
        self.refs_from(from, end - from)
    }

    /// Lets go of all frames before the given one.
    pub fn prune_before(&mut self, frame: usize)
        ensures
            final(self).first() == larger(
                old(self).first(),
                smaller(frame as int, old(self).end()),
            ),
            final(self).handles() == old(self).span(frame as int, old(self).end()),
    {
        proof {
            use_type_invariant(&*self);
        }
        let ghost before = *self;
        let mut taken = FrameWindow::new(0);
        core::mem::swap(self, &mut taken);
        let mut start: usize = taken.start;
        let mut frames: VecDeque<usize> = taken.frames;
        while start < frame && frames.len() > 0
            invariant
                before.first() <= start,
                start + frames@.len() == before.end(),
                before.end() <= usize::MAX,
                start <= frame || start == before.first(),
                frames@ == before.handles().subrange(
                    start - before.first(),
                    before.handles().len() as int,
                ),
            decreases frames@.len(),
        {
            frames.pop_front();
            start = start + 1;
            assert(frames@ =~= before.handles().subrange(
                start - before.first(),
                before.handles().len() as int,
            ));
        }
        *self = FrameWindow { start, frames };
        proof {
            assert(self.handles() =~= before.span(frame as int, before.end()));
        }
    }
}

/// Letting go of frames changes nothing for the frames that are kept: a stretch
/// that starts no earlier than the cut is read as before.
pub proof fn pruning_keeps_later_frames(
    before: FrameWindow,
    after: FrameWindow,
    frame: int,
    low: int,
    high: int,
)
    requires
        after.first() == larger(before.first(), smaller(frame, before.end())),
        after.handles() == before.span(frame, before.end()),
        frame <= low,
    ensures
        after.span(low, high) == before.span(low, high),
{
    assert(after.span(low, high) =~= before.span(low, high));
}

} // verus!
