//! Verified core of an incremental Merkle-tree metadata calculator: the
//! deduplicating batch log loader, the poison-on-cancel tree handle, the
//! idle-wait policy and the health snapshot.
pub mod delayer;
pub mod health;
pub mod laws;
pub mod loader;
pub mod tree_handle;
pub mod types;

pub use delayer::Delayer;
pub use health::{Health, HealthStatus, MerkleTreeMode, TreeHealthCheckDetails};
pub use loader::{dedup_storage_logs, hashed_keys_for_zero_values, lookup_initial_write, L1BatchWithLogs};
pub use tree_handle::{AsyncTree, MerkleTree};
pub use types::{H256, L1BatchHeader, L1BatchNumber, StorageKey, StorageLog, StorageLogKind};
