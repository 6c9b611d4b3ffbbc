//! Plain-value data model shared by the loader and the tree handle.
use vstd::prelude::*;

verus! {

/// A 256-bit word, stored big-endian as two 128-bit halves so that comparing
/// `(hi, lo)` lexicographically is comparing the bytes.
#[derive(Clone, Copy, Debug, PartialEq, Eq, Hash, Structural)]
pub struct H256 {
    pub hi: u128,
    pub lo: u128,
}

impl H256 {
    pub open spec fn spec_is_zero(self) -> bool {
        self.hi == 0 && self.lo == 0
    }

    pub fn zero() -> (r: H256)
        ensures
            r.spec_is_zero(),
    {
        H256 { hi: 0, lo: 0 }
    }

    pub fn is_zero(&self) -> (r: bool)
        ensures
            r == self.spec_is_zero(),
    {
        self.hi == 0 && self.lo == 0
    }
}

/// Strict order of words, the order of their bytes.
pub open spec fn h256_lt(a: H256, b: H256) -> bool {
    a.hi < b.hi || (a.hi == b.hi && a.lo < b.lo)
}

/// Number of a sealed batch; batches come in strictly increasing order.
#[derive(Clone, Copy, Debug, PartialEq, Eq, Hash, Structural)]
pub struct L1BatchNumber(pub u32);

/// A slot of the ledger, identified by its stable hash: the tree's leaf key
/// and the log store's lookup key.
#[derive(Clone, Copy, Debug, PartialEq, Eq, Hash, Structural)]
pub struct StorageKey {
    pub hashed: H256,
}

impl StorageKey {
    pub fn new(hashed: H256) -> (r: StorageKey)
        ensures
            r.hashed == hashed,
    {
        StorageKey { hashed }
    }

    pub fn hashed_key(&self) -> (r: H256)
        ensures
            r == self.hashed,
    {
        self.hashed
    }
}

/// Strict order of storage keys, by their hash.
pub open spec fn key_lt(a: StorageKey, b: StorageKey) -> bool {
    h256_lt(a.hashed, b.hashed)
}

pub fn key_less(a: &StorageKey, b: &StorageKey) -> (r: bool)
    ensures
        r == key_lt(*a, *b),
{
    a.hashed.hi < b.hashed.hi || (a.hashed.hi == b.hashed.hi && a.hashed.lo < b.hashed.lo)
}

pub fn key_eq(a: &StorageKey, b: &StorageKey) -> (r: bool)
    ensures
        r == (*a == *b),
{
    a.hashed.hi == b.hashed.hi && a.hashed.lo == b.hashed.lo
}

#[derive(Clone, Copy, Debug, PartialEq, Eq, Structural)]
pub enum StorageLogKind {
    Read,
    Write,
}

/// One change the tree must apply: a read asserting that the slot kept its
/// value, or a write installing a new value.
#[derive(Clone, Copy, Debug, PartialEq, Eq, Structural)]
pub struct StorageLog {
    pub kind: StorageLogKind,
    pub key: StorageKey,
    pub value: H256,
}

impl StorageLog {
    pub fn new_read_log(key: StorageKey, value: H256) -> (r: StorageLog)
        ensures
            r == (StorageLog { kind: StorageLogKind::Read, key, value }),
    {
        StorageLog { kind: StorageLogKind::Read, key, value }
    }

    pub fn new_write_log(key: StorageKey, value: H256) -> (r: StorageLog)
        ensures
            r == (StorageLog { kind: StorageLogKind::Write, key, value }),
    {
        StorageLog { kind: StorageLogKind::Write, key, value }
    }
}

/// Header of a sealed batch; the fields the core looks at.
#[derive(Clone, Copy, Debug, PartialEq, Eq, Structural)]
pub struct L1BatchHeader {
    pub number: L1BatchNumber,
    pub timestamp: u64,
}

} // verus!
