//! The idle-wait policy: what to do when there is no batch to process yet.
use vstd::prelude::*;

use core::time::Duration;

use crate::tree_handle::{AsyncTree, MerkleTree};
use crate::types::{H256, L1BatchNumber};

verus! {

/// Waits a fixed interval between polls; before each wait it tells its
/// observer where the tree stands.
#[derive(Debug)]
pub struct Delayer {
    delay_interval: Duration,
}

impl Delayer {
    pub closed spec fn spec_delay_interval(&self) -> Duration {
        self.delay_interval
    }

    pub fn new(delay_interval: Duration) -> (r: Delayer)
        ensures
            r.spec_delay_interval() == delay_interval,
    {
        Delayer { delay_interval }
    }

    pub fn delay_interval(&self) -> (r: Duration)
        ensures
            r == self.spec_delay_interval(),
    {
        self.delay_interval
    }

    /// What one idle iteration publishes before it sleeps for
    /// `delay_interval`: the tree's next batch number and root hash.
    pub fn wait<T: MerkleTree>(&self, tree: &AsyncTree<T>) -> (r: (L1BatchNumber, H256))
        requires
            tree.slot() is Some,
        ensures
            r.0.0 == tree.slot()->0.spec_applied().len(),
            r.1 == T::spec_root_of(tree.slot()->0.spec_applied()),
    {
        (tree.next_l1_batch_number(), tree.root_hash())
    }
}

} // verus!
