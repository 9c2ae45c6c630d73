//! A count per coordinate value: how many tracked crops stand on one plane
//! of the world.

use vstd::prelude::*;
use std::collections::HashMap;

verus! {

broadcast use vstd::std_specs::hash::group_hash_axioms;

/// Counts, for each value of one coordinate, the crops that have it. A
/// value that was never counted, or was counted down again, has count zero.
pub struct AxisTally {
    counts: HashMap<i32, usize>,
}

impl AxisTally {
    /// The count of `value`.
    pub closed spec fn count(&self, value: i32) -> nat {
        if self.counts@.contains_key(value) {
            self.counts@[value] as nat
        } else {
            0
        }
    }

    pub fn new() -> (r: AxisTally)
        ensures
            forall|value: i32| r.count(value) == 0,
    {
        AxisTally { counts: HashMap::new() }
    }

    pub fn get(&self, value: i32) -> (r: usize)
        ensures
            r == self.count(value),
    {
        match self.counts.get(&value) {
            Some(count) => *count,
            None => 0,
        }
    }

    /// Counts one more crop with the coordinate `value`.
    pub fn increment(&mut self, value: i32)
        requires
            old(self).count(value) < usize::MAX,
        ensures
            final(self).count(value) == old(self).count(value) + 1,
            forall|other: i32| other != value ==> final(self).count(other) == old(self).count(other),
    {
        let count = self.get(value);
        self.counts.insert(value, count + 1);
    }

    /// Counts one crop less with the coordinate `value`.
    pub fn decrement(&mut self, value: i32)
        requires
            old(self).count(value) > 0,
        ensures
            final(self).count(value) == old(self).count(value) - 1,
            forall|other: i32| other != value ==> final(self).count(other) == old(self).count(other),
    {
        let count = self.get(value);
        if count == 1 {
            self.counts.remove(&value);
        } else {
            self.counts.insert(value, count - 1);
        }
    }
}

} // verus!
