//! Short lists of frames, held inline.

use vstd::prelude::*;

verus! {

/// A list of frames in a `SmallVec`, which holds up to 96 of them without an
/// allocation.
#[verifier::external_body]
pub struct FrameRefs {
    refs: smallvec::SmallVec<[usize; 96]>,
}

/// The frames of a list, in order.
pub uninterp spec fn listed(refs: FrameRefs) -> Seq<usize>;

impl FrameRefs {
    /// Calls `SmallVec::new`, which makes a list without elements.
    #[verifier::external_body]
    pub(crate) fn empty() -> (refs: FrameRefs)
        ensures
            listed(refs) == Seq::<usize>::empty(),
    {
        FrameRefs { refs: smallvec::SmallVec::new() }
    }

    /// Calls `SmallVec::push`, which appends one element.
    #[verifier::external_body]
    pub(crate) fn append(&mut self, frame: usize)
        ensures
            listed(*final(self)) == listed(*old(self)).push(frame),
    {
        self.refs.push(frame);
    }

    /// Calls `SmallVec::as_slice`, which gives the elements in order.
    #[verifier::external_body]
    pub(crate) fn slice(&self) -> (frames: &[usize])
        ensures
            frames@ == listed(*self),
    {
        self.refs.as_slice()
    }

    /// The frames, in order.
    pub fn frames(&self) -> (frames: &[usize])
        ensures
            frames@ == listed(*self),
    {
        self.slice()
    }
}

} // verus!
