//! Ordered collections keyed by frame number.

use vstd::prelude::*;

verus! {

/// Whether the frames stand in strictly increasing order.
pub open spec fn increasing(frames: Seq<usize>) -> bool {
    forall|i: int, j: int| 0 <= i < j < frames.len() ==> frames[i] < frames[j]
}

/// The frames of a finite set, from the first to the last.
pub open spec fn ascending(set: Set<usize>) -> Seq<usize> {
    choose|frames: Seq<usize>| increasing(frames) && #[trigger] frames.to_set() == set
}

/// Whether `earlier` is the last frame of the set before `frame`.
pub open spec fn is_last_before(set: Set<usize>, frame: usize, earlier: usize) -> bool {
    &&& set.contains(earlier)
    &&& earlier < frame
    &&& forall|other: usize| #[trigger] set.contains(other) && other < frame ==> other <= earlier
}

/// Whether `later` is the first frame of the set after `frame`.
pub open spec fn is_first_after(set: Set<usize>, frame: usize, later: usize) -> bool {
    &&& set.contains(later)
    &&& frame < later
    &&& forall|other: usize| #[trigger] set.contains(other) && frame < other ==> later <= other
}

/// The last frame of the set before `frame`, if there is one.
pub open spec fn last_before(set: Set<usize>, frame: usize) -> Option<usize> {
    if exists|earlier: usize| is_last_before(set, frame, earlier) {
        Some(choose|earlier: usize| is_last_before(set, frame, earlier))
    } else {
        None
    }
}

/// The first frame of the set after `frame`, if there is one.
pub open spec fn first_after(set: Set<usize>, frame: usize) -> Option<usize> {
    if exists|later: usize| is_first_after(set, frame, later) {
        Some(choose|later: usize| is_first_after(set, frame, later))
    } else {
        None
    }
}

/// The frames of the set from `low` to `high`, both counted.
pub open spec fn frames_between(set: Set<usize>, low: int, high: int) -> Set<usize> {
    set.filter(|frame: usize| low <= frame <= high)
}

/// Two increasing sequences with the same frames are the same sequence.
pub proof fn increasing_sequences_are_unique(left: Seq<usize>, right: Seq<usize>)
    requires
        increasing(left),
        increasing(right),
        left.to_set() == right.to_set(),
    ensures
        left == right,
    decreases left.len(),
{
    if left.len() == 0 {
        if right.len() > 0 {
            assert(right.to_set().contains(right[0]));
            assert(left.contains(right[0]));
        }
        assert(left =~= right);
    } else if right.len() == 0 {
        assert(left.to_set().contains(left[0]));
        assert(right.contains(left[0]));
    } else {
        assert(left.to_set().contains(left.last()));
        assert(right.to_set().contains(right.last()));
        assert(right.contains(left.last()));
        assert(left.contains(right.last()));
        let i = right.index_of(left.last());
        let j = left.index_of(right.last());
        assert(left.last() == right.last());
        let l = left.drop_last();
        let r = right.drop_last();
        assert(l.to_set() =~= r.to_set()) by {
            assert forall|x: usize| l.contains(x) == r.contains(x) by {
                if l.contains(x) {
                    let k = l.index_of(x);
                    assert(left[k] == x);
                    assert(left.to_set().contains(x));
                    let m = right.index_of(x);
                    assert(right[m] == x);
                    assert(r[m] == x);
                }
                if r.contains(x) {
                    let k = r.index_of(x);
                    assert(right[k] == x);
                    assert(right.to_set().contains(x));
                    let m = left.index_of(x);
                    assert(left[m] == x);
                    assert(l[m] == x);
                }
            }
        }
        increasing_sequences_are_unique(l, r);
        assert(left =~= l.push(left.last()));
        assert(right =~= r.push(right.last()));
    }
}

/// An increasing sequence is the ascending form of its frames.
pub proof fn ascending_form_is_unique(frames: Seq<usize>)
    requires
        increasing(frames),
    ensures
        ascending(frames.to_set()) == frames,
{
    increasing_sequences_are_unique(ascending(frames.to_set()), frames);
}

/// A prefix that is one longer has one member more.
pub proof fn prefix_gains_one(frames: Seq<usize>, index: int)
    requires
        0 <= index < frames.len(),
    ensures
        frames.take(index + 1).to_set() == frames.take(index).to_set().insert(frames[index]),
{
    let before = frames.take(index);
    let after = frames.take(index + 1);
    assert forall|x: usize| after.contains(x) == (before.contains(x) || x == frames[index]) by {
        if after.contains(x) {
            let k = after.index_of(x);
            if k < index {
                assert(before[k] == x);
            }
        }
        if before.contains(x) {
            assert(after[before.index_of(x)] == x);
        }
        if x == frames[index] {
            assert(after[index] == x);
        }
    }
    assert(after.to_set() =~= before.to_set().insert(frames[index]));
}

/// A longer sequence holds what it held before and the new frame.
pub proof fn push_gains_one(frames: Seq<usize>, frame: usize)
    ensures
        forall|x: usize| #[trigger]
            frames.push(frame).contains(x) == (frames.contains(x) || x == frame),
{
    let after = frames.push(frame);
    assert forall|x: usize| #[trigger] after.contains(x) == (frames.contains(x) || x == frame) by {
        if after.contains(x) {
            let k = after.index_of(x);
            if k < frames.len() {
                assert(frames[k] == x);
            }
        }
        if frames.contains(x) {
            assert(after[frames.index_of(x)] == x);
        }
        if x == frame {
            assert(after[frames.len() as int] == x);
        }
    }
}

/// A finite set with members has a last one.
proof fn finite_set_has_last(set: Set<usize>) -> (last: usize)
    requires
        set.finite(),
        set.len() > 0,
    ensures
        set.contains(last),
        forall|other: usize| #[trigger] set.contains(other) ==> other <= last,
    decreases set.len(),
{
    let some = set.choose();
    let rest = set.remove(some);
    if rest.len() == 0 {
        assert forall|other: usize| #[trigger] set.contains(other) implies other <= some by {
            if other != some {
                assert(rest.contains(other));
            }
        }
        some
    } else {
        let last = finite_set_has_last(rest);
        assert forall|other: usize| #[trigger] set.contains(other) implies other <= some || other
            <= last by {
            if other != some {
                assert(rest.contains(other));
            }
        }
        if some > last {
            some
        } else {
            last
        }
    }
}

/// Every finite set has an ascending form.
pub proof fn finite_sets_ascend(set: Set<usize>)
    requires
        set.finite(),
    ensures
        increasing(ascending(set)),
        ascending(set).to_set() == set,
        ascending(set).len() == set.len(),
    decreases set.len(),
{
    let form = if set.len() == 0 {
        assert(Seq::<usize>::empty().to_set() =~= set);
        Seq::<usize>::empty()
    } else {
        let last = finite_set_has_last(set);
        let rest = set.remove(last);
        finite_sets_ascend(rest);
        let before = ascending(rest);
        let form = before.push(last);
        assert forall|i: int| 0 <= i < before.len() implies before[i] < last by {
            assert(before.to_set().contains(before[i]));
        }
        assert forall|x: usize| form.contains(x) == set.contains(x) by {
            if form.contains(x) {
                let k = form.index_of(x);
                if k < before.len() {
                    assert(before.to_set().contains(before[k]));
                }
            }
            if set.contains(x) {
                if x == last {
                    assert(form[before.len() as int] == x);
                } else {
                    assert(before.to_set().contains(x));
                    assert(form[before.index_of(x)] == x);
                }
            }
        }
        assert(form.to_set() =~= set);
        form
    };
    assert(increasing(form) && form.to_set() == set);
    ascending_form_is_unique(form);
}

/// Index of the first frame that is not before `frame`.
pub(crate) fn position(frames: &Vec<usize>, frame: usize) -> (index: usize)
    requires
        increasing(frames@),
    ensures
        index <= frames.len(),
        forall|i: int| 0 <= i < index ==> frames@[i] < frame,
        forall|i: int| index <= i < frames.len() ==> frames@[i] >= frame,
{
    let mut low: usize = 0;
    let mut high: usize = frames.len();
    while low < high
        invariant
            increasing(frames@),
            low <= high <= frames.len(),
            forall|i: int| 0 <= i < low ==> frames@[i] < frame,
            forall|i: int| high <= i < frames.len() ==> frames@[i] >= frame,
        decreases high - low,
    {
        let middle: usize = low + (high - low) / 2;
        if frames[middle] < frame {
            low = middle + 1;
        } else {
            high = middle;
        }
    }
    low
}

/// A set of frame numbers.
#[derive(Debug)]
pub struct FrameSet {
    frames: Vec<usize>,
}

impl View for FrameSet {
    type V = Set<usize>;

    closed spec fn view(&self) -> Set<usize> {
        self.frames@.to_set()
    }
}

impl FrameSet {
    /// The frames are held in increasing order.
    #[verifier::type_invariant]
    spec fn ordered(self) -> bool {
        increasing(self.frames@)
    }

    /// The empty set.
    pub fn new() -> (set: FrameSet)
        ensures
            set@ == Set::<usize>::empty(),
    {
        let set = FrameSet { frames: Vec::new() };
        assert(set@ =~= Set::<usize>::empty());
        set
    }

    /// The set of the given frames.
    pub fn of(frames: &[usize]) -> (set: FrameSet)
        ensures
            set@ == frames@.to_set(),
    {
        let mut set = FrameSet::new();
        for index in 0..frames.len()
            invariant
                set@ == frames@.take(index as int).to_set(),
        {
            proof {
                let before = frames@.take(index as int);
                let after = frames@.take(index + 1);
                assert(after =~= before.push(frames@[index as int]));
                assert forall|x: usize| after.contains(x) implies before.contains(x) || x
                    == frames@[index as int] by {
                    let k = after.index_of(x);
                    if k < index {
                        assert(before[k] == x);
                    }
                }
                assert forall|x: usize| before.contains(x) || x
                    == frames@[index as int] implies after.contains(x) by {
                    if before.contains(x) {
                        assert(after[before.index_of(x)] == x);
                    } else {
                        assert(after[index as int] == x);
                    }
                }
                assert(after.to_set() =~= before.to_set().insert(frames@[index as int]));
            }
            set.insert(frames[index]);
        }
        assert(frames@.take(frames.len() as int) =~= frames@);
        set
    }

    /// Whether the set holds the frame.
    pub fn contains(&self, frame: usize) -> (found: bool)
        ensures
            found == self@.contains(frame),
    {
        proof {
            use_type_invariant(self);
        }
        let index: usize = position(&self.frames, frame);
        if index < self.frames.len() && self.frames[index] == frame {
            assert(self.frames@.contains(frame));
            true
        } else {
            assert(!self.frames@.contains(frame));
            false
        }
    }

    /// Number of frames in the set.
    pub fn len(&self) -> (count: usize)
        ensures
            count == self@.len(),
            self@.finite(),
    {
        proof {
            use_type_invariant(self);
            self.frames@.unique_seq_to_set();
        }
        self.frames.len()
    }

    /// Moves the ordered frames out, leaving the set empty.
    fn take(&mut self) -> (frames: Vec<usize>)
        ensures
            frames@ == old(self).frames@,
    {
        let mut taken = FrameSet::new();
        core::mem::swap(self, &mut taken);
        taken.frames
    }

    /// Adds a frame. Tells whether it was new.
    pub fn insert(&mut self, frame: usize) -> (added: bool)
        ensures
            final(self)@ == old(self)@.insert(frame),
            added == !old(self)@.contains(frame),
    {
        proof {
            use_type_invariant(&*self);
        }
        let ghost before = self.frames@;
        let index: usize = position(&self.frames, frame);
        if index < self.frames.len() && self.frames[index] == frame {
            assert(before.contains(frame));
            assert(self@ =~= old(self)@.insert(frame));
            false
        } else {
            assert(!before.contains(frame));
            let mut frames: Vec<usize> = self.take();
            frames.insert(index, frame);
            *self = FrameSet { frames };
            proof {
                let after = before.insert(index as int, frame);
                assert(self.frames@ == after);
                assert forall|x: usize| before.contains(x) || x == frame implies after.contains(
                    x,
                ) by {
                    if before.contains(x) {
                        let k = before.index_of(x);
                        assert(after[if k < index { k } else { k + 1 }] == x);
                    } else {
                        assert(after[index as int] == x);
                    }
                }
                assert forall|x: usize| after.contains(x) implies before.contains(x) || x
                    == frame by {
                    let k = after.index_of(x);
                    if k < index {
                        assert(before[k] == x);
                    } else if k > index {
                        assert(before[k - 1] == x);
                    }
                }
                assert(self@ =~= old(self)@.insert(frame));
            }
            true
        }
    }

    /// Takes a frame out. Tells whether it was there.
    pub fn remove(&mut self, frame: usize) -> (removed: bool)
        ensures
            final(self)@ == old(self)@.remove(frame),
            removed == old(self)@.contains(frame),
    {
        proof {
            use_type_invariant(&*self);
        }
        let ghost before = self.frames@;
        let index: usize = position(&self.frames, frame);
        if index < self.frames.len() && self.frames[index] == frame {
            assert(before.contains(frame));
            let mut frames: Vec<usize> = self.take();
            frames.remove(index);
            *self = FrameSet { frames };
            proof {
                let after = before.remove(index as int);
                assert(self.frames@ == after);
                assert forall|x: usize| before.contains(x) && x != frame implies after.contains(
                    x,
                ) by {
                    let k = before.index_of(x);
                    assert(after[if k < index { k } else { k - 1 }] == x);
                }
                assert forall|x: usize| after.contains(x) implies before.contains(x) && x
                    != frame by {
                    let k = after.index_of(x);
                    if k < index {
                        assert(before[k] == x);
                    } else {
                        assert(before[k + 1] == x);
                    }
                }
                assert(self@ =~= old(self)@.remove(frame));
            }
            true
        } else {
            assert(!before.contains(frame));
            assert(self@ =~= old(self)@.remove(frame));
            false
        }
    }

    /// The frames from the first to the last.
    pub fn to_vec(&self) -> (frames: Vec<usize>)
        ensures
            frames@ == ascending(self@),
            increasing(frames@),
            frames@.to_set() == self@,
    {
        proof {
            use_type_invariant(self);
            ascending_form_is_unique(self.frames@);
        }
        let mut frames: Vec<usize> = Vec::new();
        for index in 0..self.frames.len()
            invariant
                frames@ == self.frames@.take(index as int),
        {
            frames.push(self.frames[index]);
            assert(frames@ =~= self.frames@.take(index + 1));
        }
        assert(self.frames@.take(self.frames.len() as int) =~= self.frames@);
        frames
    }

    /// The last frame of the set before the given one.
    pub fn before(&self, frame: usize) -> (earlier: Option<usize>)
        ensures
            earlier == last_before(self@, frame),
            earlier matches Some(e) ==> is_last_before(self@, frame, e),
            earlier is None ==> forall|other: usize| #[trigger]
                self@.contains(other) ==> frame <= other,
    {
        proof {
            use_type_invariant(self);
        }
        let index: usize = position(&self.frames, frame);
        if index == 0 {
            assert forall|other: usize| #[trigger] self@.contains(other) implies frame <= other by {
                let k = self.frames@.index_of(other);
                assert(self.frames@[k] == other);
            }
            None
        } else {
            let earlier: usize = self.frames[index - 1];
            assert(self.frames@.contains(earlier));
            assert forall|other: usize| #[trigger] self@.contains(other) && other
                < frame implies other <= earlier by {
                let k = self.frames@.index_of(other);
                assert(self.frames@[k] == other);
            }
            assert(is_last_before(self@, frame, earlier));
            Some(earlier)
        }
    }

    /// The first frame of the set after the given one.
    pub fn after(&self, frame: usize) -> (later: Option<usize>)
        ensures
            later == first_after(self@, frame),
            later matches Some(l) ==> is_first_after(self@, frame, l),
            later is None ==> forall|other: usize| #[trigger]
                self@.contains(other) ==> other <= frame,
    {
        proof {
            use_type_invariant(self);
        }
        let mut index: usize = position(&self.frames, frame);
        if index < self.frames.len() && self.frames[index] == frame {
            index = index + 1;
        }
        if index < self.frames.len() {
            let later: usize = self.frames[index];
            assert(self.frames@.contains(later));
            assert forall|other: usize| #[trigger] self@.contains(other) && frame
                < other implies later <= other by {
                let k = self.frames@.index_of(other);
                assert(self.frames@[k] == other);
            }
            assert(is_first_after(self@, frame, later));
            Some(later)
        } else {
            assert forall|other: usize| #[trigger] self@.contains(other) implies other <= frame by {
                let k = self.frames@.index_of(other);
                assert(self.frames@[k] == other);
            }
            None
        }
    }

    /// Number of frames of the set from `low` to `high`, both counted.
    pub fn count_between(&self, low: usize, high: usize) -> (count: usize)
        ensures
            count == frames_between(self@, low as int, high as int).len(),
    {
        proof {
            use_type_invariant(self);
        }
        let first: usize = position(&self.frames, low);
        let mut end: usize = position(&self.frames, high);
        if end < self.frames.len() && self.frames[end] == high {
            end = end + 1;
        }
        let ghost within = frames_between(self@, low as int, high as int);
        if first >= end {
            proof {
                assert forall|x: usize| !within.contains(x) by {
                    if within.contains(x) {
                        let k = self.frames@.index_of(x);
                        assert(self.frames@[k] == x);
                    }
                }
                assert(within =~= Set::<usize>::empty());
            }
            0
        } else {
            proof {
                let part = self.frames@.subrange(first as int, end as int);
                assert forall|x: usize| part.contains(x) == within.contains(x) by {
                    if part.contains(x) {
                        let k = part.index_of(x);
                        assert(self.frames@[k + first] == x);
                        assert(self.frames@.contains(x));
                    }
                    if within.contains(x) {
                        let k = self.frames@.index_of(x);
                        assert(self.frames@[k] == x);
                        assert(part[k - first] == x);
                    }
                }
                assert(part.to_set() =~= within);
                part.unique_seq_to_set();
            }
            end - first
        }
    }
}

impl Clone for FrameSet {
    fn clone(&self) -> (copy: FrameSet)
        ensures
            copy@ == self@,
    {
        let frames: Vec<usize> = self.to_vec();
        FrameSet { frames }
    }
}

} // verus!
