use std::collections::BTreeMap;
use std::time::Duration;

use metadata_calculator::{
    dedup_storage_logs, AsyncTree, Delayer, Health, HealthStatus, L1BatchNumber, MerkleTree,
    MerkleTreeMode, StorageKey, StorageLog, StorageLogKind, TreeHealthCheckDetails, H256,
};

/// An in-memory stand-in for the Merkle tree: slots with leaf indices, a root
/// that is a deterministic function of them, and a snapshot per batch.
#[derive(Clone, Debug, Default)]
struct MemTree {
    slots: BTreeMap<(u128, u128), (u64, H256)>,
    next_batch: u32,
    history: Vec<(BTreeMap<(u128, u128), (u64, H256)>, u32)>,
    saves: u32,
}

impl MerkleTree for MemTree {
    type Metadata = (H256, usize);

    fn is_empty(&self) -> bool {
        self.next_batch == 0
    }

    fn next_l1_batch_number(&self) -> L1BatchNumber {
        L1BatchNumber(self.next_batch)
    }

    fn root_hash(&self) -> H256 {
        let mut acc: u128 = 0x9e37_79b9;
        for ((hi, lo), (index, value)) in &self.slots {
            for x in [*hi, *lo, *index as u128, value.hi, value.lo] {
                acc = acc.wrapping_mul(0x1000_0000_0000_0000_0000_013b).wrapping_add(x);
            }
        }
        H256 { hi: acc, lo: self.slots.len() as u128 }
    }

    fn process_l1_batch(&mut self, storage_logs: &Vec<StorageLog>) -> (H256, usize) {
        let mut initial_writes = 0;
        for log in storage_logs {
            if log.kind == StorageLogKind::Write {
                let k = (log.key.hashed.hi, log.key.hashed.lo);
                let next_index = self.slots.len() as u64 + 1;
                match self.slots.get_mut(&k) {
                    Some(slot) => slot.1 = log.value,
                    None => {
                        self.slots.insert(k, (next_index, log.value));
                        initial_writes += 1;
                    }
                }
            }
        }
        self.next_batch += 1;
        self.history.push((self.slots.clone(), self.next_batch));
        (self.root_hash(), initial_writes)
    }

    fn save(&mut self) {
        self.saves += 1;
    }

    fn revert_logs(&mut self, last_l1_batch_to_keep: L1BatchNumber) {
        let keep = last_l1_batch_to_keep.0 as usize;
        self.history.truncate(keep + 1);
        let (slots, next) = self.history[keep].clone();
        self.slots = slots;
        self.next_batch = next;
    }
}

fn word(x: u128) -> H256 {
    H256 { hi: 0, lo: x }
}

fn key(x: u128) -> StorageKey {
    StorageKey::new(word(x))
}

fn genesis() -> AsyncTree<MemTree> {
    let mut tree = AsyncTree::new(MemTree::default());
    tree.process_l1_batch(&vec![]);
    tree
}

fn random_looking(i: u128) -> H256 {
    H256 { hi: i.wrapping_mul(0x5851_f42d_4c95_7f2d), lo: (i + 1).wrapping_mul(0x1405_7b7e_f767_814f) }
}

#[test]
fn fresh_handle_forwards_to_tree() {
    let tree = AsyncTree::new(MemTree::default());
    assert!(!tree.is_poisoned());
    assert!(tree.is_empty());
    assert_eq!(tree.next_l1_batch_number(), L1BatchNumber(0));
    let tree = genesis();
    assert!(!tree.is_empty());
    assert_eq!(tree.next_l1_batch_number(), L1BatchNumber(1));
}

#[test]
fn handle_is_poisoned_while_tree_is_taken() {
    let mut tree = genesis();
    let root = tree.root_hash();
    let taken = tree.take();
    assert!(tree.is_poisoned());
    assert_eq!(taken.next_batch, 1);
    tree.restore(taken);
    assert!(!tree.is_poisoned());
    assert_eq!(tree.next_l1_batch_number(), L1BatchNumber(1));
    assert_eq!(tree.root_hash(), root);
    tree.save();
    assert!(!tree.is_poisoned());
}

#[test]
fn copied_batch_keeps_root_hash() {
    let mut tree = genesis();
    let touched: Vec<(StorageKey, H256)> = (0..20u128).map(|i| (key(1000 + i), random_looking(i))).collect();
    let logs = dedup_storage_logs(L1BatchNumber(1), &vec![], &touched, &vec![]);
    assert_eq!(logs.len(), 20);
    let (root, initial) = tree.process_l1_batch(&logs);
    assert_eq!(initial, 20);
    tree.save();
    let root_after_first = tree.root_hash();
    assert_eq!(root, root_after_first);

    let initial_writes: Vec<(H256, L1BatchNumber)> = touched.iter().map(|(k, _)| (k.hashed, L1BatchNumber(1))).collect();
    let logs = dedup_storage_logs(L1BatchNumber(2), &vec![], &touched, &initial_writes);
    let (_, initial) = tree.process_l1_batch(&logs);
    assert_eq!(initial, 0);
    assert_eq!(tree.root_hash(), root_after_first);
}

#[test]
fn zero_write_to_unwritten_key_leaves_tree_unchanged() {
    let mut tree = genesis();
    let logs = dedup_storage_logs(L1BatchNumber(1), &vec![], &vec![(key(1), word(5))], &vec![]);
    tree.process_l1_batch(&logs);
    let root = tree.root_hash();

    let touched = vec![(key(1), word(5)), (key(2), H256::zero())];
    let iw = vec![(word(1), L1BatchNumber(1))];
    let logs = dedup_storage_logs(L1BatchNumber(2), &vec![], &touched, &iw);
    assert_eq!(logs, vec![StorageLog::new_write_log(key(1), word(5))]);
    let (_, initial) = tree.process_l1_batch(&logs);
    assert_eq!(initial, 0);
    assert_eq!(tree.root_hash(), root);
}

#[test]
fn revert_and_replay_gives_same_root() {
    let batch = |n: u32| -> Vec<(StorageKey, H256)> {
        (0..5u128).map(|i| (key(i * 3 + n as u128), random_looking(i + 10 * n as u128))).collect()
    };
    let mut tree = genesis();
    let mut roots = Vec::new();
    for n in 1..=5u32 {
        let logs = dedup_storage_logs(L1BatchNumber(n), &vec![], &batch(n), &vec![]);
        tree.process_l1_batch(&logs);
        tree.save();
        roots.push(tree.root_hash());
    }
    tree.revert_logs(L1BatchNumber(3));
    assert_eq!(tree.root_hash(), roots[2]);
    assert_eq!(tree.next_l1_batch_number(), L1BatchNumber(4));
    for n in 4..=5u32 {
        let logs = dedup_storage_logs(L1BatchNumber(n), &vec![], &batch(n), &vec![]);
        tree.process_l1_batch(&logs);
    }
    assert_eq!(tree.root_hash(), roots[4]);
}

#[test]
fn delayer_reports_tree_position() {
    let tree = genesis();
    let delayer = Delayer::new(Duration::from_millis(250));
    assert_eq!(delayer.delay_interval(), Duration::from_millis(250));
    let root = tree.root_hash();
    assert_eq!(delayer.wait(&tree), (L1BatchNumber(1), root));
}

#[test]
fn health_snapshot_is_ready_with_details() {
    let h = Health::snapshot(MerkleTreeMode::Lightweight, L1BatchNumber(12));
    assert_eq!(h.status, HealthStatus::Ready);
    assert_eq!(h.details, TreeHealthCheckDetails { mode: MerkleTreeMode::Lightweight, next_l1_batch_to_seal: L1BatchNumber(12) });
    let from = Health::from(TreeHealthCheckDetails { mode: MerkleTreeMode::Full, next_l1_batch_to_seal: L1BatchNumber(0) });
    assert_eq!(from.status, HealthStatus::Ready);
    assert_eq!(from.details.mode, MerkleTreeMode::Full);
}
