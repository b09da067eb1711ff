//! The frames that a reader shares with the workers.

use vstd::prelude::*;
use crate::frame_map::{from_frame, FrameMap};
use crate::options::larger;

verus! {

/// What a reader has produced so far. Waiting for more, and mutual exclusion, are
/// its owner's.
#[verifier::reject_recursive_types(V)]
pub struct SharedFrameStore<V> {
    frames: FrameMap<V>,
    produced: usize,
    finished: bool,
    error: Option<String>,
}

/// What a worker is told that asks for a frame.
pub enum FrameLookup<'a, V> {
    /// The frame is here.
    Ready(&'a V),
    /// There is no such frame.
    Ended,
    /// The reader failed, for the given reason.
    Failed(&'a String),
    /// The frame is still to come, or to come again.
    Wait,
}

impl<V> SharedFrameStore<V> {
    /// The frames that are held.
    pub closed spec fn held(self) -> Map<usize, V> {
        self.frames@
    }

    /// The number of frames that were produced, from the first one on.
    pub closed spec fn reached(self) -> int {
        self.produced as int
    }

    /// Whether the reader has stopped.
    pub closed spec fn stopped(self) -> bool {
        self.finished
    }

    /// Why the reader failed.
    pub closed spec fn failure(self) -> Option<String> {
        self.error
    }

    /// A store without frames, at the start of reading.
    pub fn new() -> (store: Self)
        ensures
            store.held() == Map::<usize, V>::empty(),
            store.reached() == 0,
            !store.stopped(),
            store.failure() is None,
    {
        SharedFrameStore { frames: FrameMap::new(), produced: 0, finished: false, error: None }
    }

    /// Adds a frame.
    pub fn push(&mut self, frame: usize, data: V)
        requires
            frame < usize::MAX,
        ensures
            final(self).held() == old(self).held().insert(frame, data),
            final(self).reached() == larger(old(self).reached(), frame + 1),
            final(self).stopped() == old(self).stopped(),
            final(self).failure() == old(self).failure(),
    {
        self.frames.insert(frame, data);
        if frame + 1 > self.produced {
            self.produced = frame + 1;
        }
    }

    /// Lets go of all frames before the given one.
    pub fn prune_before(&mut self, frame: usize)
        ensures
            final(self).held() == from_frame(old(self).held(), frame),
            final(self).reached() == old(self).reached(),
            final(self).stopped() == old(self).stopped(),
            final(self).failure() == old(self).failure(),
    {
        self.frames.prune_before(frame);
    }

    /// Lets go of all frames but the given ones.
    pub fn retain_only(&mut self, frames: &[usize])
        ensures
            final(self).held() == old(self).held().restrict(frames@.to_set()),
            final(self).reached() == old(self).reached(),
            final(self).stopped() == old(self).stopped(),
            final(self).failure() == old(self).failure(),
    {
        self.frames.retain_only(frames);
    }

    /// Whether a frame is held.
    pub fn contains(&self, frame: usize) -> (held: bool)
        ensures
            held == self.held().contains_key(frame),
    {
        self.frames.get(frame).is_some()
    }

    /// The number of frames that were produced, or why the reader failed.
    pub fn produced_or_error(&self) -> (produced: Result<usize, &String>)
        ensures
            match produced {
                Ok(count) => self.failure() is None && count == self.reached(),
                Err(reason) => self.failure() == Some(*reason),
            },
    {
        match &self.error {
            Some(error) => Err(error),
            None => Ok(self.produced),
        }
    }

    /// Notes that no more frames come.
    pub fn finish(&mut self, produced: usize)
        ensures
            final(self).held() == old(self).held(),
            final(self).reached() == larger(old(self).reached(), produced as int),
            final(self).stopped(),
            final(self).failure() == old(self).failure(),
    {
        if produced > self.produced {
            self.produced = produced;
        }
        self.finished = true;
    }

    /// Notes that the reader failed.
    pub fn fail(&mut self, error: String)
        ensures
            final(self).held() == old(self).held(),
            final(self).reached() == old(self).reached(),
            final(self).stopped(),
            final(self).failure() == Some(error),
    {
        self.error = Some(error);
        self.finished = true;
    }

    /// What a worker is told that asks for a frame: past the limit there is none;
    /// a frame that is held is given even after a failure; a failure is told before
    /// the end; and where nothing is settled the worker waits.
    pub fn get(&self, frame: usize, frame_limit: usize) -> (reply: FrameLookup<'_, V>)
        ensures
            match reply {
                FrameLookup::Ready(data) => frame < frame_limit && self.held().contains_key(frame)
                    && *data == self.held()[frame],
                FrameLookup::Failed(reason) => frame < frame_limit && !self.held().contains_key(
                    frame,
                ) && self.failure() == Some(*reason),
                FrameLookup::Ended => frame >= frame_limit || (!self.held().contains_key(frame)
                    && self.failure() is None && self.stopped() && self.reached() <= frame),
                FrameLookup::Wait => frame < frame_limit && !self.held().contains_key(frame)
                    && self.failure() is None && !(self.stopped() && self.reached() <= frame),
            },
    {
        if frame >= frame_limit {
            return FrameLookup::Ended;
        }
        match self.frames.get(frame) {
            Some(data) => FrameLookup::Ready(data),
            None => match &self.error {
                Some(error) => FrameLookup::Failed(error),
                None => {
                    if self.finished && self.produced <= frame {
                        FrameLookup::Ended
                    } else {
                        FrameLookup::Wait
                    }
                },
            },
        }
    }
}

} // verus!
