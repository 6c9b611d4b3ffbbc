//! Properties of the deduplicated log list, proved from the loader's contract.
use vstd::prelude::*;

use crate::loader::{
    dedup_entry, distinct_slots, has_entry, initial_write_batch, is_dedup_result, sorted_by_key,
    touched_value, zero_h256,
};
use crate::tree_handle::MerkleTree;
use crate::types::{key_lt, H256, L1BatchNumber, StorageKey, StorageLog, StorageLogKind};

verus! {

/// A slot that is a protective read gets a read entry and never a write,
/// whatever value the touched slots record for it.
pub proof fn lemma_protective_read_is_read(
    r: Seq<StorageLog>,
    n: L1BatchNumber,
    reads: Seq<StorageKey>,
    t: Seq<(StorageKey, H256)>,
    w: Seq<(H256, L1BatchNumber)>,
    k: StorageKey,
)
    requires
        is_dedup_result(r, n, reads, t, w),
        reads.contains(k),
    ensures
        has_entry(r, StorageLog { kind: StorageLogKind::Read, key: k, value: zero_h256() }),
        forall|l: StorageLog| #[trigger] has_entry(r, l) && l.key == k ==> l.kind == StorageLogKind::Read,
{
    assert(has_entry(r, StorageLog { kind: StorageLogKind::Read, key: k, value: zero_h256() }));
}

/// A touched slot (not a protective read) with value zero whose first-ever
/// write is after this batch, or not recorded at all, gets no entry.
pub proof fn lemma_spurious_zero_write_dropped(
    r: Seq<StorageLog>,
    n: L1BatchNumber,
    reads: Seq<StorageKey>,
    t: Seq<(StorageKey, H256)>,
    w: Seq<(H256, L1BatchNumber)>,
    i: int,
)
    requires
        is_dedup_result(r, n, reads, t, w),
        distinct_slots(t),
        0 <= i < t.len(),
        t[i].1.spec_is_zero(),
        !reads.contains(t[i].0),
        match initial_write_batch(w, t[i].0.hashed) {
            Some(b) => b.0 > n.0,
            None => true,
        },
    ensures
        forall|l: StorageLog| #[trigger] has_entry(r, l) ==> l.key != t[i].0,
{
    let k = t[i].0;
    assert(touched_value(t, k) == Some(t[i].1)) by {
        let c = choose|c: int| 0 <= c < t.len() && (#[trigger] t[c]).0 == k;
        assert(c == i);
    }
}

/// A touched slot (not a protective read) with a non-zero value always gets a
/// write of that value, whether or not a first write is recorded for it.
pub proof fn lemma_non_zero_write_kept(
    r: Seq<StorageLog>,
    n: L1BatchNumber,
    reads: Seq<StorageKey>,
    t: Seq<(StorageKey, H256)>,
    w: Seq<(H256, L1BatchNumber)>,
    i: int,
)
    requires
        is_dedup_result(r, n, reads, t, w),
        distinct_slots(t),
        0 <= i < t.len(),
        !t[i].1.spec_is_zero(),
        !reads.contains(t[i].0),
    ensures
        has_entry(r, StorageLog { kind: StorageLogKind::Write, key: t[i].0, value: t[i].1 }),
{
    let k = t[i].0;
    assert(touched_value(t, k) == Some(t[i].1)) by {
        let c = choose|c: int| 0 <= c < t.len() && (#[trigger] t[c]).0 == k;
        assert(c == i);
    }
    assert(has_entry(r, StorageLog { kind: StorageLogKind::Write, key: k, value: t[i].1 }));
}

proof fn lemma_sorted_entries_determine(a: Seq<StorageLog>, b: Seq<StorageLog>)
    requires
        sorted_by_key(a),
        sorted_by_key(b),
        forall|l: StorageLog| has_entry(a, l) <==> has_entry(b, l),
    ensures
        a == b,
    decreases a.len(),
{
    if a.len() == 0 {
        if b.len() > 0 {
            assert(has_entry(b, b[0]));
        }
    } else {
        assert(has_entry(a, a[0]));
        assert(b.len() > 0);
        assert(has_entry(b, b[0]));
        let j = choose|j: int| 0 <= j < b.len() && b[j] == a[0];
        let i = choose|i: int| 0 <= i < a.len() && a[i] == b[0];
        if j > 0 && i > 0 {
            assert(key_lt(b[0].key, b[j].key));
            assert(key_lt(a[0].key, a[i].key));
        } else if j > 0 {
            assert(key_lt(b[0].key, b[j].key));
        }
        assert(a[0] == b[0]);
        let a1 = a.drop_first();
        let b1 = b.drop_first();
        assert forall|l: StorageLog| has_entry(a1, l) <==> has_entry(b1, l) by {
            if has_entry(a1, l) {
                let x = choose|x: int| 0 <= x < a1.len() && a1[x] == l;
                assert(a[x + 1] == l);
                assert(key_lt(a[0].key, a[x + 1].key));
                assert(has_entry(a, l));
                let y = choose|y: int| 0 <= y < b.len() && b[y] == l;
                assert(y != 0);
                assert(b1[y - 1] == l);
            }
            if has_entry(b1, l) {
                let x = choose|x: int| 0 <= x < b1.len() && b1[x] == l;
                assert(b[x + 1] == l);
                assert(key_lt(b[0].key, b[x + 1].key));
                assert(has_entry(b, l));
                let y = choose|y: int| 0 <= y < a.len() && a[y] == l;
                assert(y != 0);
                assert(a1[y - 1] == l);
            }
        }
        lemma_sorted_entries_determine(a1, b1);
        assert(a =~= b1.insert(0, b[0]));
        assert(b =~= b1.insert(0, b[0]));
    }
}

/// The deduplicated list is a function of what the log store recorded: two
/// loads of the same batch from the same records give the same list, entry for
/// entry and in the same order.
pub proof fn lemma_dedup_result_unique(
    r1: Seq<StorageLog>,
    r2: Seq<StorageLog>,
    n: L1BatchNumber,
    reads: Seq<StorageKey>,
    t: Seq<(StorageKey, H256)>,
    w: Seq<(H256, L1BatchNumber)>,
)
    requires
        is_dedup_result(r1, n, reads, t, w),
        is_dedup_result(r2, n, reads, t, w),
    ensures
        r1 == r2,
{
    assert forall|l: StorageLog| has_entry(r1, l) <==> has_entry(r2, l) by {
        assert(has_entry(r1, l) <==> dedup_entry(n, reads, t, w, l.key) == Some(l));
        assert(has_entry(r2, l) <==> dedup_entry(n, reads, t, w, l.key) == Some(l));
    }
    lemma_sorted_entries_determine(r1, r2);
}


/// The value slot `k` held before the batch; an unwritten slot holds zero.
pub open spec fn previous_value(state: Map<StorageKey, H256>, k: StorageKey) -> H256 {
    if state.contains_key(k) {
        state[k]
    } else {
        zero_h256()
    }
}

/// The entry a naive loader gives slot `k`, knowing every slot's previous
/// value: a write where the touched value differs from it, else a read (with
/// the previous value) for a protective read, else nothing.
pub open spec fn reference_entry(
    state: Map<StorageKey, H256>,
    reads: Seq<StorageKey>,
    t: Seq<(StorageKey, H256)>,
    k: StorageKey,
) -> Option<StorageLog> {
    match touched_value(t, k) {
        Some(v) if v != previous_value(state, k) => Some(
            StorageLog { kind: StorageLogKind::Write, key: k, value: v },
        ),
        _ => if reads.contains(k) {
            Some(StorageLog { kind: StorageLogKind::Read, key: k, value: previous_value(state, k) })
        } else {
            None
        },
    }
}

/// What the tree holds at slot `k` after applying entry `e` to `state`: a
/// write installs its value; a read or no entry leaves the slot as it was.
pub open spec fn slot_after(state: Map<StorageKey, H256>, k: StorageKey, e: Option<StorageLog>) -> Option<H256> {
    match e {
        Some(l) if l.kind == StorageLogKind::Write => Some(l.value),
        _ => if state.contains_key(k) {
            Some(state[k])
        } else {
            None
        },
    }
}

pub open spec fn is_read_entry(e: Option<StorageLog>) -> bool {
    e matches Some(l) && l.kind == StorageLogKind::Read
}

/// The log store agrees with the tree `state` (the tree after the previous
/// batch) about slot `k`: a protective read kept its value, and a touched
/// zero-valued slot was written before (it is in the tree) exactly when its
/// first-ever write is recorded at this batch or earlier.
pub open spec fn store_agrees_with_tree(
    state: Map<StorageKey, H256>,
    n: L1BatchNumber,
    reads: Seq<StorageKey>,
    t: Seq<(StorageKey, H256)>,
    w: Seq<(H256, L1BatchNumber)>,
    k: StorageKey,
) -> bool {
    &&& (reads.contains(k) && touched_value(t, k) is Some) ==> touched_value(t, k)->0 == previous_value(state, k)
    &&& (!reads.contains(k) && touched_value(t, k) is Some && touched_value(t, k)->0.spec_is_zero()) ==> (
    state.contains_key(k) <==> (initial_write_batch(w, k.hashed) matches Some(b) && b.0 <= n.0))
}

/// The loader agrees with the naive reference on every slot: after the batch
/// the tree holds the same value at the slot (so the same contents, leaf
/// allocations and root hash), and the slot is read in both or in neither.
pub proof fn lemma_dedup_matches_reference(
    state: Map<StorageKey, H256>,
    n: L1BatchNumber,
    reads: Seq<StorageKey>,
    t: Seq<(StorageKey, H256)>,
    w: Seq<(H256, L1BatchNumber)>,
    k: StorageKey,
)
    requires
        store_agrees_with_tree(state, n, reads, t, w, k),
    ensures
        slot_after(state, k, dedup_entry(n, reads, t, w, k)) == slot_after(
            state,
            k,
            reference_entry(state, reads, t, k),
        ),
        is_read_entry(dedup_entry(n, reads, t, w, k)) == is_read_entry(reference_entry(state, reads, t, k)),
{
}


/// Reverting a tree that applied `before` to batch `k`, then applying the
/// later batches again one by one, leaves it with the batches it had, and so
/// with the root hash it had.
pub proof fn lemma_revert_then_replay_restores_root<T: MerkleTree>(before: Seq<Seq<StorageLog>>, k: int)
    requires
        0 <= k < before.len(),
    ensures
        before.subrange(0, k + 1) + before.subrange(k + 1, before.len() as int) == before,
        T::spec_root_of(before.subrange(0, k + 1) + before.subrange(k + 1, before.len() as int))
            == T::spec_root_of(before),
{
    assert(before.subrange(0, k + 1) + before.subrange(k + 1, before.len() as int) =~= before);
}

/// Two trees that applied the same batches, given the logs of the next batch
/// as loaded twice from the same records, reach the same root hash.
pub proof fn lemma_reloaded_batch_same_root<T: MerkleTree>(
    applied: Seq<Seq<StorageLog>>,
    r1: Seq<StorageLog>,
    r2: Seq<StorageLog>,
    n: L1BatchNumber,
    reads: Seq<StorageKey>,
    t: Seq<(StorageKey, H256)>,
    w: Seq<(H256, L1BatchNumber)>,
)
    requires
        is_dedup_result(r1, n, reads, t, w),
        is_dedup_result(r2, n, reads, t, w),
    ensures
        T::spec_root_of(applied.push(r1)) == T::spec_root_of(applied.push(r2)),
{
    lemma_dedup_result_unique(r1, r2, n, reads, t, w);
}

} // verus!
