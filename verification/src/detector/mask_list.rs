//! The masks that one analysed frame carries along.

use vstd::prelude::*;
use crate::blocks::BlockShare;

verus! {

/// The blocks of one frame that stand out, by one rule.
#[derive(Debug)]
pub struct TopBlockMask {
    pub share: BlockShare,
    pub region_cols: usize,
    pub region_rows: usize,
    pub spatially_capped: bool,
    pub selected: Vec<bool>,
}

/// A list of masks in a `SmallVec`, which holds up to six of them without an
/// allocation: as many as one frame is ever asked for.
#[verifier::external_body]
#[derive(Debug)]
pub struct MaskList {
    masks: smallvec::SmallVec<[TopBlockMask; 6]>,
}

/// The masks of a list, in order.
pub uninterp spec fn masks_of(list: MaskList) -> Seq<TopBlockMask>;

impl MaskList {
    /// Calls `SmallVec::new`, which makes a list without elements.
    #[verifier::external_body]
    pub(crate) fn empty() -> (list: MaskList)
        ensures
            masks_of(list) == Seq::<TopBlockMask>::empty(),
    {
        MaskList { masks: smallvec::SmallVec::new() }
    }

    /// Calls `SmallVec::push`, which appends one element.
    #[verifier::external_body]
    pub(crate) fn append(&mut self, mask: TopBlockMask)
        ensures
            masks_of(*final(self)) == masks_of(*old(self)).push(mask),
    {
        self.masks.push(mask);
    }

    /// Calls `SmallVec::as_slice`, which gives the elements in order.
    #[verifier::external_body]
    pub(crate) fn slice(&self) -> (masks: &[TopBlockMask])
        ensures
            masks@ == masks_of(*self),
    {
        self.masks.as_slice()
    }
}

} // verus!
