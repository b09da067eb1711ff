//! Values attached to frame numbers.

use vstd::prelude::*;
use crate::timeline::{ascending, ascending_form_is_unique, increasing, position, push_gains_one};

verus! {

/// A map from frame numbers to values.
#[derive(Debug)]
#[verifier::reject_recursive_types(V)]
pub struct FrameMap<V> {
    keys: Vec<usize>,
    values: Vec<V>,
}

impl<V> View for FrameMap<V> {
    type V = Map<usize, V>;

    closed spec fn view(&self) -> Map<usize, V> {
        Map::new(
            |frame: usize| self.keys@.contains(frame),
            |frame: usize| self.values@[self.keys@.index_of(frame)],
        )
    }
}

impl<V> FrameMap<V> {
    /// Keys are held in increasing order, each with its value at the same index.
    #[verifier::type_invariant]
    spec fn ordered(self) -> bool {
        increasing(self.keys@) && self.keys@.len() == self.values@.len()
    }

    /// The value that stands beside a key.
    proof fn value_of_key(self, index: int)
        requires
            increasing(self.keys@),
            0 <= index < self.keys@.len(),
        ensures
            self@.contains_key(self.keys@[index]),
            self@[self.keys@[index]] == self.values@[index],
    {
        let key = self.keys@[index];
        assert(self.keys@.contains(key));
        let found = self.keys@.index_of(key);
        assert(self.keys@[found] == key);
        assert(found == index);
    }

    /// The empty map.
    pub fn new() -> (map: FrameMap<V>)
        ensures
            map@ == Map::<usize, V>::empty(),
    {
        let map = FrameMap { keys: Vec::new(), values: Vec::new() };
        assert(map@ =~= Map::<usize, V>::empty());
        map
    }

    /// Number of frames that have a value.
    pub fn len(&self) -> (count: usize)
        ensures
            count == self@.dom().len(),
            self@.dom().finite(),
    {
        proof {
            use_type_invariant(self);
            self.keys@.unique_seq_to_set();
            assert(self@.dom() =~= self.keys@.to_set());
        }
        self.keys.len()
    }

    /// The value of a frame.
    pub fn get(&self, frame: usize) -> (value: Option<&V>)
        ensures
            match value {
                Some(v) => self@.contains_key(frame) && self@[frame] == *v,
                None => !self@.contains_key(frame),
            },
    {
        proof {
            use_type_invariant(self);
        }
        let index: usize = position(&self.keys, frame);
        if index < self.keys.len() && self.keys[index] == frame {
            proof {
                self.value_of_key(index as int);
            }
            Some(&self.values[index])
        } else {
            assert(!self.keys@.contains(frame));
            None
        }
    }

    /// Moves the keys and values out, leaving the map empty.
    fn take(&mut self) -> (parts: (Vec<usize>, Vec<V>))
        ensures
            parts.0@ == old(self).keys@,
            parts.1@ == old(self).values@,
    {
        let mut taken = FrameMap::new();
        core::mem::swap(self, &mut taken);
        (taken.keys, taken.values)
    }

    /// Gives a frame a value, in place of the one that it had.
    pub fn insert(&mut self, frame: usize, value: V)
        ensures
            final(self)@ == old(self)@.insert(frame, value),
    {
        proof {
            use_type_invariant(&*self);
        }
        let ghost before = *self;
        let index: usize = position(&self.keys, frame);
        let present = index < self.keys.len() && self.keys[index] == frame;
        let (mut keys, mut values) = self.take();
        if present {
            values.set(index, value);
        } else {
            keys.insert(index, frame);
            values.insert(index, value);
        }
        *self = FrameMap { keys, values };
        proof {
            let after = *self;
            assert forall|x: usize| #[trigger]
                after@.contains_key(x) == before@.insert(frame, value).contains_key(x) by {
                if before.keys@.contains(x) {
                    let k = before.keys@.index_of(x);
                    assert(before.keys@[k] == x);
                    assert(after.keys@[if present || k < index {
                        k
                    } else {
                        k + 1
                    }] == x);
                }
                if after.keys@.contains(x) && x != frame {
                    let k = after.keys@.index_of(x);
                    assert(after.keys@[k] == x);
                    assert(before.keys@[if present || k < index {
                        k
                    } else {
                        k - 1
                    }] == x);
                }
                if x == frame {
                    assert(after.keys@[index as int] == x);
                }
            }
            assert forall|x: usize| #[trigger] after@.contains_key(x) implies after@[x]
                == before@.insert(frame, value)[x] by {
                let k = after.keys@.index_of(x);
                assert(after.keys@[k] == x);
                after.value_of_key(k);
                if x != frame {
                    let old_index = if present || k < index {
                        k
                    } else {
                        k - 1
                    };
                    assert(before.keys@[old_index] == x);
                    before.value_of_key(old_index);
                }
            }
            assert(after@ =~= before@.insert(frame, value));
        }
    }

    /// Takes a frame's value out.
    pub fn remove(&mut self, frame: usize) -> (value: Option<V>)
        ensures
            final(self)@ == old(self)@.remove(frame),
            match value {
                Some(v) => old(self)@.contains_key(frame) && old(self)@[frame] == v,
                None => !old(self)@.contains_key(frame),
            },
    {
        proof {
            use_type_invariant(&*self);
        }
        let ghost before = *self;
        let index: usize = position(&self.keys, frame);
        if !(index < self.keys.len() && self.keys[index] == frame) {
            assert(!before.keys@.contains(frame));
            assert(self@ =~= old(self)@.remove(frame));
            return None;
        }
        let (mut keys, mut values) = self.take();
        keys.remove(index);
        let value = values.remove(index);
        *self = FrameMap { keys, values };
        proof {
            let after = *self;
            before.value_of_key(index as int);
            assert forall|x: usize| #[trigger]
                after@.contains_key(x) == before@.remove(frame).contains_key(x) by {
                if before.keys@.contains(x) && x != frame {
                    let k = before.keys@.index_of(x);
                    assert(before.keys@[k] == x);
                    assert(after.keys@[if k < index {
                        k
                    } else {
                        k - 1
                    }] == x);
                }
                if after.keys@.contains(x) {
                    let k = after.keys@.index_of(x);
                    assert(after.keys@[k] == x);
                    assert(before.keys@[if k < index {
                        k
                    } else {
                        k + 1
                    }] == x);
                }
            }
            assert forall|x: usize| #[trigger] after@.contains_key(x) implies after@[x]
                == before@.remove(frame)[x] by {
                let k = after.keys@.index_of(x);
                assert(after.keys@[k] == x);
                after.value_of_key(k);
                let old_index = if k < index {
                    k
                } else {
                    k + 1
                };
                assert(before.keys@[old_index] == x);
                before.value_of_key(old_index);
            }
            assert(after@ =~= before@.remove(frame));
        }
        Some(value)
    }

    /// The frames that have a value, from the first to the last.
    pub fn frames(&self) -> (frames: Vec<usize>)
        ensures
            frames@ == ascending(self@.dom()),
            increasing(frames@),
            frames@.to_set() == self@.dom(),
    {
        proof {
            use_type_invariant(self);
            ascending_form_is_unique(self.keys@);
            assert(self@.dom() =~= self.keys@.to_set());
        }
        let mut frames: Vec<usize> = Vec::new();
        for index in 0..self.keys.len()
            invariant
                frames@ == self.keys@.take(index as int),
        {
            frames.push(self.keys[index]);
            assert(frames@ =~= self.keys@.take(index + 1));
        }
        assert(self.keys@.take(self.keys.len() as int) =~= self.keys@);
        frames
    }

    /// Takes out the values of all frames before the given one.
    pub fn prune_before(&mut self, frame: usize)
        ensures
            final(self)@ == from_frame(old(self)@, frame),
    {
        proof {
            use_type_invariant(&*self);
        }
        let ghost before = *self;
        let index: usize = position(&self.keys, frame);
        let (mut keys, mut values) = self.take();
        let kept_keys: Vec<usize> = keys.split_off(index);
        let kept_values: Vec<V> = values.split_off(index);
        *self = FrameMap { keys: kept_keys, values: kept_values };
        proof {
            let after = *self;
            let target = from_frame(before@, frame);
            assert forall|x: usize| #[trigger]
                after@.contains_key(x) == target.contains_key(x) by {
                if after.keys@.contains(x) {
                    let k = after.keys@.index_of(x);
                    assert(before.keys@[k + index] == x);
                }
                if target.contains_key(x) {
                    let k = before.keys@.index_of(x);
                    assert(before.keys@[k] == x);
                    assert(after.keys@[k - index] == x);
                }
            }
            assert forall|x: usize| #[trigger] after@.contains_key(x) implies after@[x]
                == target[x] by {
                let k = after.keys@.index_of(x);
                assert(after.keys@[k] == x);
                after.value_of_key(k);
                before.value_of_key(k + index);
            }
            assert(after@ =~= target);
        }
    }

    /// Takes out the values of all frames but the given ones.
    pub fn retain_only(&mut self, frames: &[usize])
        ensures
            final(self)@ == old(self)@.restrict(frames@.to_set()),
    {
        let ghost before = self@;
        let keys: Vec<usize> = self.frames();
        for index in 0..keys.len()
            invariant
                keys@.to_set() == before.dom(),
                forall|x: usize| #[trigger]
                    self@.contains_key(x) ==> before.contains_key(x) && self@[x] == before[x],
                forall|x: usize| #[trigger]
                    before.contains_key(x) && frames@.contains(x) ==> self@.contains_key(x),
                forall|k: int|
                    0 <= k < index && !frames@.contains(#[trigger] keys@[k])
                        ==> !self@.contains_key(keys@[k]),
        {
            let frame: usize = keys[index];
            let mut wanted = false;
            for slot in 0..frames.len()
                invariant
                    wanted == frames@.take(slot as int).contains(frame),
            {
                if frames[slot] == frame {
                    wanted = true;
                }
                assert(frames@.take(slot + 1) =~= frames@.take(slot as int).push(
                    frames@[slot as int],
                ));
                proof {
                    push_gains_one(frames@.take(slot as int), frames@[slot as int]);
                }
            }
            assert(frames@.take(frames.len() as int) =~= frames@);
            if !wanted {
                self.remove(frame);
            }
        }
        proof {
            let target = before.restrict(frames@.to_set());
            assert forall|x: usize| #[trigger]
                self@.contains_key(x) implies target.contains_key(x) by {
                assert(keys@.to_set().contains(x));
                let k = keys@.index_of(x);
                assert(keys@[k] == x);
            }
            assert(self@ =~= target);
        }
    }
}

/// A map without the frames before the given one.
pub open spec fn from_frame<V>(map: Map<usize, V>, frame: usize) -> Map<usize, V> {
    map.restrict(map.dom().filter(|other: usize| other >= frame))
}

} // verus!
