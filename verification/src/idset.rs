//! The identifier allow-list: an immutable set of page identifiers,
//! loaded once, queried for membership during the run.

use vstd::prelude::*;
use std::collections::HashSet;

verus! {

broadcast use vstd::std_specs::hash::group_hash_axioms;

/// The set of page identifiers to retain.
#[derive(Debug)]
pub struct IdSet {
    set: HashSet<u64>,
}

impl View for IdSet {
    type V = Set<u64>;

    closed spec fn view(&self) -> Set<u64> {
        self.set@
    }
}

impl IdSet {
    /// The empty set.
    pub fn new() -> (r: IdSet)
        ensures
            r@ == Set::<u64>::empty(),
    {
        IdSet { set: HashSet::new() }
    }

    /// Add one identifier; duplicates collapse silently.
    pub fn insert(&mut self, v: u64)
        ensures
            final(self)@ == old(self)@.insert(v),
    {
        self.set.insert(v);
    }

    /// Membership query.
    pub fn contains(&self, v: u64) -> (r: bool)
        ensures
            r == self@.contains(v),
    {
        self.set.contains(&v)
    }

    /// How many identifiers the set holds.
    pub fn len(&self) -> (n: usize)
        ensures
            n == self@.len(),
    {
        self.set.len()
    }
}

} // verus!
