//! The tree handle: sole owner of the one Merkle tree, which a mutation moves
//! out for the duration of a blocking call and puts back afterwards. A handle
//! whose tree was never put back (its call was cancelled) is poisoned: no
//! operation but `is_poisoned` may be called on it, and its owner must fail.
use vstd::prelude::*;

use crate::types::{H256, L1BatchNumber, StorageLog};

verus! {

/// The operations the handle forwards to the tree it owns, over a model of the
/// tree: the batches applied to it since genesis (batch `i` at index `i`), how
/// many of them its backing store holds, and its root hash, which is a
/// function of the applied batches alone. An implementation proved against
/// these contracts defines the model functions; their default bodies only let
/// an implementation outside Verus compile.
pub trait MerkleTree: Sized {
    type Metadata;

    /// The log lists of the batches applied since genesis, in order.
    closed spec fn spec_applied(&self) -> Seq<Seq<StorageLog>> {
        Seq::empty()
    }

    /// How many of the applied batches the backing store holds.
    closed spec fn spec_persisted(&self) -> nat {
        0
    }

    /// The root hash of a tree that has applied `batches` since genesis.
    closed spec fn spec_root_of(batches: Seq<Seq<StorageLog>>) -> H256 {
        H256 { hi: 0, lo: 0 }
    }

    /// The new root hash that metadata of an applied batch reports.
    closed spec fn spec_metadata_root_hash(metadata: Self::Metadata) -> H256 {
        H256 { hi: 0, lo: 0 }
    }

    /// No batch has been applied to the tree yet.
    fn is_empty(&self) -> (r: bool)
        ensures
            r == (self.spec_applied().len() == 0),
    ;

    fn next_l1_batch_number(&self) -> (r: L1BatchNumber)
        ensures
            r.0 == self.spec_applied().len(),
    ;

    fn root_hash(&self) -> (r: H256)
        ensures
            r == Self::spec_root_of(self.spec_applied()),
    ;

    fn process_l1_batch(&mut self, storage_logs: &Vec<StorageLog>) -> (r: Self::Metadata)
        requires
            old(self).spec_applied().len() < u32::MAX,
        ensures
            final(self).spec_applied() == old(self).spec_applied().push(storage_logs@),
            final(self).spec_persisted() == old(self).spec_persisted(),
            Self::spec_metadata_root_hash(r) == Self::spec_root_of(final(self).spec_applied()),
    ;

    fn save(&mut self)
        ensures
            final(self).spec_applied() == old(self).spec_applied(),
            final(self).spec_persisted() == final(self).spec_applied().len(),
    ;

    fn revert_logs(&mut self, last_l1_batch_to_keep: L1BatchNumber)
        requires
            last_l1_batch_to_keep.0 < old(self).spec_applied().len(),
        ensures
            final(self).spec_applied() == old(self).spec_applied().subrange(
                0,
                last_l1_batch_to_keep.0 + 1,
            ),
            final(self).spec_persisted() == last_l1_batch_to_keep.0 + 1,
    ;
}

pub struct AsyncTree<T> {
    tree: Option<T>,
}

impl<T: MerkleTree> AsyncTree<T> {
    /// The tree the handle holds; `None` once it is poisoned.
    pub closed spec fn slot(&self) -> Option<T> {
        self.tree
    }

    pub fn new(tree: T) -> (r: Self)
        ensures
            r.slot() == Some(tree),
    {
        AsyncTree { tree: Some(tree) }
    }

    /// The handle lost its tree: a blocking call that held it was cancelled.
    pub fn is_poisoned(&self) -> (r: bool)
        ensures
            r == (self.slot() is None),
    {
        self.tree.is_none()
    }

    /// No batch has been applied to the tree yet.
    pub fn is_empty(&self) -> (r: bool)
        requires
            self.slot() is Some,
        ensures
            r == (self.slot()->0.spec_applied().len() == 0),
    {
        self.tree.as_ref().unwrap().is_empty()
    }

    /// The number of the batch the tree expects next: one past the last applied.
    pub fn next_l1_batch_number(&self) -> (r: L1BatchNumber)
        requires
            self.slot() is Some,
        ensures
            r.0 == self.slot()->0.spec_applied().len(),
    {
        self.tree.as_ref().unwrap().next_l1_batch_number()
    }

    pub fn root_hash(&self) -> (r: H256)
        requires
            self.slot() is Some,
        ensures
            r == T::spec_root_of(self.slot()->0.spec_applied()),
    {
        self.tree.as_ref().unwrap().root_hash()
    }

    /// Moves the tree out for a blocking call, leaving the handle poisoned
    /// until `restore` puts it back.
    pub fn take(&mut self) -> (r: T)
        requires
            old(self).slot() is Some,
        ensures
            final(self).slot() is None,
            old(self).slot() == Some(r),
    {
        self.tree.take().unwrap()
    }

    /// Puts back the tree that a blocking call held.
    pub fn restore(&mut self, tree: T)
        ensures
            final(self).slot() == Some(tree),
    {
        self.tree = Some(tree);
    }

    /// Applies a batch's logs to the tree, without persisting them; the
    /// metadata reports the tree's new root hash.
    pub fn process_l1_batch(&mut self, storage_logs: &Vec<StorageLog>) -> (r: T::Metadata)
        requires
            old(self).slot() is Some,
            old(self).slot()->0.spec_applied().len() < u32::MAX,
        ensures
            final(self).slot() is Some,
            final(self).slot()->0.spec_applied() == old(self).slot()->0.spec_applied().push(storage_logs@),
            final(self).slot()->0.spec_persisted() == old(self).slot()->0.spec_persisted(),
            T::spec_metadata_root_hash(r) == T::spec_root_of(final(self).slot()->0.spec_applied()),
    {
        let mut tree = self.take();
        let metadata = tree.process_l1_batch(storage_logs);
        self.restore(tree);
        metadata
    }

    /// Persists the tree's state to its backing store.
    pub fn save(&mut self)
        requires
            old(self).slot() is Some,
        ensures
            final(self).slot() is Some,
            final(self).slot()->0.spec_applied() == old(self).slot()->0.spec_applied(),
            final(self).slot()->0.spec_persisted() == old(self).slot()->0.spec_applied().len(),
    {
        let mut tree = self.take();
        tree.save();
        self.restore(tree);
    }

    /// Rewinds the tree, and its backing store, to its state after batch
    /// `last_l1_batch_to_keep`, which must be one it has applied.
    pub fn revert_logs(&mut self, last_l1_batch_to_keep: L1BatchNumber)
        requires
            old(self).slot() is Some,
            last_l1_batch_to_keep.0 < old(self).slot()->0.spec_applied().len(),
        ensures
            final(self).slot() is Some,
            final(self).slot()->0.spec_applied() == old(self).slot()->0.spec_applied().subrange(
                0,
                last_l1_batch_to_keep.0 + 1,
            ),
            final(self).slot()->0.spec_persisted() == last_l1_batch_to_keep.0 + 1,
    {
        let mut tree = self.take();
        tree.revert_logs(last_l1_batch_to_keep);
        self.restore(tree);
    }
}

} // verus!
