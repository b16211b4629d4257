//! Insert-only sets of field elements. The registry of spent nullifiers is
//! one: a value enters once and never leaves.

use vstd::prelude::*;
use std::collections::HashMap;
use crate::field::U256;

verus! {

broadcast use vstd::std_specs::hash::group_hash_axioms;

/// A set of field elements without removal. Elements are bucketed by their low
/// half; a bucket lists the high halves found with it.
pub struct FieldSet {
    buckets: HashMap<u128, Vec<u128>>,
}

impl View for FieldSet {
    type V = Set<U256>;

    closed spec fn view(&self) -> Set<U256> {
        Set::new(
            |n: U256| self.buckets@.contains_key(n.lo) && self.buckets@[n.lo]@.contains(n.hi),
        )
    }
}

/// Whether `x` occurs in `list`.
fn lists(list: &Vec<u128>, x: u128) -> (r: bool)
    ensures
        r == list@.contains(x),
{
    let mut i: usize = 0;
    while i < list.len()
        invariant
            i <= list.len(),
            forall|j: int| 0 <= j < i ==> list@[j] != x,
        decreases list.len() - i,
    {
        if list[i] == x {
            return true;
        }
        i = i + 1;
    }
    false
}

impl FieldSet {
    /// The empty set.
    pub fn new() -> (r: FieldSet)
        ensures
            r@ == Set::<U256>::empty(),
    {
        let r = FieldSet { buckets: HashMap::new() };
        r
    }

    /// Whether `n` is in the set.
    pub fn contains(&self, n: &U256) -> (r: bool)
        ensures
            r == self@.contains(*n),
    {
        match self.buckets.get(&n.lo) {
            Some(bucket) => lists(bucket, n.hi),
            None => false,
        }
    }

    /// Adds `n` to the set and tells whether it was new. Nothing that was in
    /// the set before leaves it.
    pub fn insert(&mut self, n: U256) -> (r: bool)
        ensures
            final(self)@ == old(self)@.insert(n),
            r == !old(self)@.contains(n),
    {
        if self.contains(&n) {
            return false;
        }
        let mut bucket: Vec<u128> = match self.buckets.remove(&n.lo) {
            Some(found) => found,
            None => Vec::new(),
        };
        let ghost before = bucket@;
        bucket.push(n.hi);
        self.buckets.insert(n.lo, bucket);
        assert forall|m: U256| #[trigger] self@.contains(m) == old(self)@.insert(n).contains(m) by {
            if m.lo == n.lo {
                let after = before.push(n.hi);
                assert(after.contains(m.hi) <==> before.contains(m.hi) || m.hi == n.hi) by {
                    if before.contains(m.hi) {
                        let i = choose|i: int| 0 <= i < before.len() && before[i] == m.hi;
                        assert(after[i] == m.hi);
                    }
                    if m.hi == n.hi {
                        assert(after[before.len() as int] == m.hi);
                    }
                }
            }
        }
        true
    }
}

} // verus!
