use vstd::prelude::*;
use std::collections::HashMap;
use crate::P2P_FAILURE_THRESHOLD;

verus! {

broadcast use vstd::std_specs::hash::group_hash_axioms;

/// Mapping from peer identity to its count of consecutive non-capacity
/// transport-handshake failures. Identities never recorded stand at zero.
pub struct FailureLedger {
    counts: HashMap<u64, u64>,
}

impl FailureLedger {
    /// The failure count currently held against `id`.
    pub closed spec fn spec_count(&self, id: u64) -> u64 {
        if self.counts@.contains_key(id) {
            self.counts@[id]
        } else {
            0
        }
    }

    /// Every stored count stays below the ban threshold: a count that reaches
    /// the threshold is replaced by a ban and reset to zero.
    pub open spec fn wf(&self) -> bool {
        forall|id: u64| #[trigger] self.spec_count(id) < P2P_FAILURE_THRESHOLD
    }

    pub fn new() -> (r: Self)
        ensures
            r.wf(),
            forall|id: u64| #[trigger] r.spec_count(id) == 0,
    {
        FailureLedger { counts: HashMap::new() }
    }

    pub fn count(&self, id: u64) -> (n: u64)
        ensures
            n == self.spec_count(id),
    {
        match self.counts.get(&id) {
            Some(n) => *n,
            None => 0,
        }
    }

    /// Overwrites the count held against `id`, leaving every other identity
    /// untouched.
    pub(crate) fn set(&mut self, id: u64, n: u64)
        ensures
            final(self).spec_count(id) == n,
            forall|q: u64|
                q != id ==> #[trigger] final(self).spec_count(q) == old(self).spec_count(q),
    {
        self.counts.insert(id, n);
    }
}

} // verus!
