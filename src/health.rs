//! Readiness snapshot of the tree for health-check consumers.
use vstd::prelude::*;

use crate::types::L1BatchNumber;

verus! {

/// Whether the tree keeps what witnesses need (`Full`) or only roots and
/// leaf indices (`Lightweight`).
#[derive(Clone, Copy, Debug, PartialEq, Eq, Structural)]
pub enum MerkleTreeMode {
    Full,
    Lightweight,
}

#[derive(Clone, Copy, Debug, PartialEq, Eq, Structural)]
pub enum HealthStatus {
    Ready,
}

#[derive(Clone, Copy, Debug, PartialEq, Eq, Structural)]
pub struct TreeHealthCheckDetails {
    pub mode: MerkleTreeMode,
    pub next_l1_batch_to_seal: L1BatchNumber,
}

/// A point-in-time health record: a status and the tree's details.
#[derive(Clone, Copy, Debug, PartialEq, Eq, Structural)]
pub struct Health {
    pub status: HealthStatus,
    pub details: TreeHealthCheckDetails,
}

/// An open tree is ready; the details carry its mode and next batch number.
impl From<TreeHealthCheckDetails> for Health {
    fn from(details: TreeHealthCheckDetails) -> (r: Health) {
        Health { status: HealthStatus::Ready, details }
    }
}

impl vstd::std_specs::convert::FromSpecImpl<TreeHealthCheckDetails> for Health {
    open spec fn obeys_from_spec() -> bool {
        true
    }

    open spec fn from_spec(details: TreeHealthCheckDetails) -> Health {
        Health { status: HealthStatus::Ready, details }
    }
}

impl Health {
    /// The health record of a tree in `mode` whose next batch is `next_l1_batch_to_seal`.
    pub fn snapshot(mode: MerkleTreeMode, next_l1_batch_to_seal: L1BatchNumber) -> (r: Health)
        ensures
            r == (Health {
                status: HealthStatus::Ready,
                details: TreeHealthCheckDetails { mode, next_l1_batch_to_seal },
            }),
    {
        Health::from(TreeHealthCheckDetails { mode, next_l1_batch_to_seal })
    }
}

} // verus!
