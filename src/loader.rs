//! The deduplicating batch log loader: from what the log store recorded for a
//! batch, the minimal set of changes the tree must apply, ordered by key.
use vstd::prelude::*;

use crate::types::{
    h256_lt, key_eq, key_less, key_lt, H256, L1BatchHeader, L1BatchNumber, StorageKey, StorageLog,
    StorageLogKind,
};

verus! {

/// Keys strictly increase along the list (so no key occurs twice).
pub open spec fn sorted_by_key(s: Seq<StorageLog>) -> bool {
    forall|i: int, j: int| 0 <= i < j < s.len() ==> key_lt(#[trigger] s[i].key, #[trigger] s[j].key)
}

/// The list holds this exact entry.
pub open spec fn has_entry(s: Seq<StorageLog>, l: StorageLog) -> bool {
    exists|i: int| 0 <= i < s.len() && s[i] == l
}

/// Inserts `log` into a list ordered by key; an entry with the same key is replaced.
fn insert_log(logs: &mut Vec<StorageLog>, log: StorageLog)
    requires
        sorted_by_key(old(logs)@),
    ensures
        sorted_by_key(final(logs)@),
        forall|l: StorageLog|
            #[trigger] has_entry(final(logs)@, l) <==> (l == log || (has_entry(old(logs)@, l)
                && l.key != log.key)),
{
    let ghost s = logs@;
    let mut i: usize = 0;
    while i < logs.len() && key_less(&logs[i].key, &log.key)
        invariant
            logs@ == s,
            0 <= i <= s.len(),
            forall|j: int| 0 <= j < i ==> key_lt(#[trigger] s[j].key, log.key),
        decreases s.len() - i,
    {
        i = i + 1;
    }
    if i < logs.len() && key_eq(&logs[i].key, &log.key) {
        logs.set(i, log);
        assert forall|l: StorageLog|
            #[trigger] has_entry(logs@, l) <==> (l == log || (has_entry(s, l) && l.key != log.key)) by {
            if has_entry(logs@, l) {
                let j = choose|j: int| 0 <= j < logs@.len() && logs@[j] == l;
                if j != i {
                    assert(s[j] == l);
                    assert(has_entry(s, l));
                }
            }
            if l == log {
                assert(logs@[i as int] == l);
            } else if has_entry(s, l) && l.key != log.key {
                let j = choose|j: int| 0 <= j < s.len() && s[j] == l;
                assert(j != i);
                assert(logs@[j] == l);
            }
        }
    } else {
        assert(forall|j: int| i <= j < s.len() ==> key_lt(log.key, #[trigger] s[j].key)) by {
            assert forall|j: int| i <= j < s.len() implies key_lt(log.key, #[trigger] s[j].key) by {
                if j > i {
                    assert(key_lt(s[i as int].key, s[j].key));
                }
            }
        }
        logs.insert(i, log);
        assert forall|l: StorageLog|
            #[trigger] has_entry(logs@, l) <==> (l == log || (has_entry(s, l) && l.key != log.key)) by {
            if has_entry(logs@, l) {
                let j = choose|j: int| 0 <= j < logs@.len() && logs@[j] == l;
                if j < i {
                    assert(s[j] == l);
                    assert(has_entry(s, l));
                } else if j > i {
                    assert(s[j - 1] == l);
                    assert(has_entry(s, l));
                }
            }
            if l == log {
                assert(logs@[i as int] == l);
            } else if has_entry(s, l) && l.key != log.key {
                let j = choose|j: int| 0 <= j < s.len() && s[j] == l;
                if j < i {
                    assert(logs@[j] == l);
                } else {
                    assert(logs@[j + 1] == l);
                }
            }
        }
    }
}


/// No slot occurs twice among the touched slots (they come from a map).
pub open spec fn distinct_slots(t: Seq<(StorageKey, H256)>) -> bool {
    forall|i: int, j: int|
        0 <= i < t.len() && 0 <= j < t.len() && (#[trigger] t[i]).0 == (#[trigger] t[j]).0 ==> i == j
}

/// No hashed key occurs twice among the initial writes (they come from a map).
pub open spec fn distinct_initial_writes(w: Seq<(H256, L1BatchNumber)>) -> bool {
    forall|i: int, j: int|
        0 <= i < w.len() && 0 <= j < w.len() && (#[trigger] w[i]).0 == (#[trigger] w[j]).0 ==> i == j
}

/// The final value recorded for slot `k` among the touched slots, if any.
pub open spec fn touched_value(t: Seq<(StorageKey, H256)>, k: StorageKey) -> Option<H256> {
    if exists|i: int| 0 <= i < t.len() && (#[trigger] t[i]).0 == k {
        Some(t[choose|i: int| 0 <= i < t.len() && (#[trigger] t[i]).0 == k].1)
    } else {
        None
    }
}

/// The batch of the first-ever write of hashed key `h`, if one is recorded.
pub open spec fn initial_write_batch(w: Seq<(H256, L1BatchNumber)>, h: H256) -> Option<L1BatchNumber> {
    if exists|i: int| 0 <= i < w.len() && (#[trigger] w[i]).0 == h {
        Some(w[choose|i: int| 0 <= i < w.len() && (#[trigger] w[i]).0 == h].1)
    } else {
        None
    }
}

pub open spec fn zero_h256() -> H256 {
    H256 { hi: 0, lo: 0 }
}

/// A touched slot's write reaches the tree: a non-zero value always does; a
/// zero value only if the slot was first written in this batch or earlier.
pub open spec fn write_matters(
    n: L1BatchNumber,
    w: Seq<(H256, L1BatchNumber)>,
    k: StorageKey,
    v: H256,
) -> bool {
    !v.spec_is_zero() || match initial_write_batch(w, k.hashed) {
        Some(b) => b.0 <= n.0,
        None => false,
    }
}

/// The entry the tree gets for slot `k` in batch `n`: a read (with a zero
/// placeholder value) for a protective read, whatever was touched; else a write
/// of the touched value where it matters; else nothing.
pub open spec fn dedup_entry(
    n: L1BatchNumber,
    reads: Seq<StorageKey>,
    t: Seq<(StorageKey, H256)>,
    w: Seq<(H256, L1BatchNumber)>,
    k: StorageKey,
) -> Option<StorageLog> {
    if reads.contains(k) {
        Some(StorageLog { kind: StorageLogKind::Read, key: k, value: zero_h256() })
    } else {
        match touched_value(t, k) {
            Some(v) => if write_matters(n, w, k, v) {
                Some(StorageLog { kind: StorageLogKind::Write, key: k, value: v })
            } else {
                None
            },
            None => None,
        }
    }
}

/// The deduplicated log list of a batch: ordered by key, holding exactly the
/// entries `dedup_entry` gives.
pub open spec fn is_dedup_result(
    r: Seq<StorageLog>,
    n: L1BatchNumber,
    reads: Seq<StorageKey>,
    t: Seq<(StorageKey, H256)>,
    w: Seq<(H256, L1BatchNumber)>,
) -> bool {
    &&& sorted_by_key(r)
    &&& forall|l: StorageLog| #[trigger] has_entry(r, l) <==> dedup_entry(n, reads, t, w, l.key) == Some(l)
}

fn contains_key(keys: &Vec<StorageKey>, k: &StorageKey) -> (r: bool)
    ensures
        r == keys@.contains(*k),
{
    let mut i: usize = 0;
    while i < keys.len()
        invariant
            0 <= i <= keys.len(),
            forall|j: int| 0 <= j < i ==> keys@[j] != *k,
        decreases keys.len() - i,
    {
        if key_eq(&keys[i], k) {
            assert(keys@[i as int] == *k);
            return true;
        }
        i = i + 1;
    }
    false
}

/// Looks up the batch of the first-ever write of `hashed_key`.
pub fn lookup_initial_write(
    initial_writes: &Vec<(H256, L1BatchNumber)>,
    hashed_key: &H256,
) -> (r: Option<L1BatchNumber>)
    requires
        distinct_initial_writes(initial_writes@),
    ensures
        r == initial_write_batch(initial_writes@, *hashed_key),
{
    let mut i: usize = 0;
    while i < initial_writes.len()
        invariant
            0 <= i <= initial_writes.len(),
            distinct_initial_writes(initial_writes@),
            forall|j: int| 0 <= j < i ==> (#[trigger] initial_writes@[j]).0 != *hashed_key,
        decreases initial_writes.len() - i,
    {
        let h = initial_writes[i].0;
        if h.hi == hashed_key.hi && h.lo == hashed_key.lo {
            proof {
                assert(initial_writes@[i as int].0 == *hashed_key);
                let c = choose|c: int|
                    0 <= c < initial_writes@.len() && (#[trigger] initial_writes@[c]).0 == *hashed_key;
                assert(c == i);
            }
            return Some(initial_writes[i].1);
        }
        i = i + 1;
    }
    None
}


/// Hashed key `h` belongs to a touched slot with a zero value that is not a
/// protective read: its first-ever write decides whether the write matters.
pub open spec fn needs_initial_write(reads: Seq<StorageKey>, t: Seq<(StorageKey, H256)>, h: H256) -> bool {
    exists|i: int|
        0 <= i < t.len() && (#[trigger] t[i]).1.spec_is_zero() && !reads.contains(t[i].0)
            && t[i].0.hashed == h
}

/// The hashed keys whose first-ever write the log store must be asked for:
/// those of the touched slots with a zero value that are not protective reads.
pub fn hashed_keys_for_zero_values(
    protective_reads: &Vec<StorageKey>,
    touched_slots: &Vec<(StorageKey, H256)>,
) -> (r: Vec<H256>)
    ensures
        forall|h: H256| #[trigger] r@.contains(h) <==> needs_initial_write(protective_reads@, touched_slots@, h),
{
    let mut r: Vec<H256> = Vec::new();
    let mut i: usize = 0;
    while i < touched_slots.len()
        invariant
            0 <= i <= touched_slots.len(),
            forall|h: H256| #[trigger] r@.contains(h) <==> exists|j: int|
                0 <= j < i && (#[trigger] touched_slots@[j]).1.spec_is_zero()
                    && !protective_reads@.contains(touched_slots@[j].0)
                    && touched_slots@[j].0.hashed == h,
        decreases touched_slots.len() - i,
    {
        let (k, v) = touched_slots[i];
        let ghost old_r = r@;
        if v.is_zero() && !contains_key(protective_reads, &k) {
            r.push(k.hashed_key());
            proof {
                assert forall|h: H256| old_r.contains(h) implies #[trigger] r@.contains(h) by {
                    let c = choose|c: int| 0 <= c < old_r.len() && old_r[c] == h;
                    assert(r@[c] == h);
                }
                assert(r@[old_r.len() as int] == k.hashed);
            }
        }
        proof {
            assert forall|h: H256| #[trigger] r@.contains(h) implies old_r.contains(h) || (h == k.hashed
                && v.spec_is_zero() && !protective_reads@.contains(k)) by {
                let c = choose|c: int| 0 <= c < r@.len() && r@[c] == h;
                if c < old_r.len() {
                    assert(old_r[c] == h);
                }
            }
        }
        i = i + 1;
    }
    r
}

/// The deduplicated logs of batch `n`: protective reads become reads; the other
/// touched slots become writes where the write matters; ordered by key.
pub fn dedup_storage_logs(
    l1_batch_number: L1BatchNumber,
    protective_reads: &Vec<StorageKey>,
    touched_slots: &Vec<(StorageKey, H256)>,
    initial_writes: &Vec<(H256, L1BatchNumber)>,
) -> (r: Vec<StorageLog>)
    requires
        distinct_slots(touched_slots@),
        distinct_initial_writes(initial_writes@),
    ensures
        is_dedup_result(r@, l1_batch_number, protective_reads@, touched_slots@, initial_writes@),
{
    let ghost reads = protective_reads@;
    let ghost t = touched_slots@;
    let ghost w = initial_writes@;
    let ghost n = l1_batch_number;
    let mut logs: Vec<StorageLog> = Vec::new();
    let mut i: usize = 0;
    while i < protective_reads.len()
        invariant
            0 <= i <= reads.len(),
            reads == protective_reads@,
            sorted_by_key(logs@),
            forall|l: StorageLog| #[trigger] has_entry(logs@, l) <==> (l.kind == StorageLogKind::Read
                && l.value == zero_h256() && exists|j: int| 0 <= j < i && reads[j] == l.key),
        decreases reads.len() - i,
    {
        let k = protective_reads[i];
        // The tree does not use the value of a read, so it is zero.
        insert_log(&mut logs, StorageLog::new_read_log(k, H256::zero()));
        proof {
            assert forall|l: StorageLog| #[trigger] has_entry(logs@, l) <==> (l.kind == StorageLogKind::Read
                && l.value == zero_h256() && exists|j: int| 0 <= j < i + 1 && reads[j] == l.key) by {
                if l.kind == StorageLogKind::Read && l.value == zero_h256() && l.key == k {
                    assert(reads[i as int] == l.key);
                }
            }
        }
        i = i + 1;
    }
    let mut i: usize = 0;
    while i < touched_slots.len()
        invariant
            0 <= i <= t.len(),
            reads == protective_reads@,
            t == touched_slots@,
            w == initial_writes@,
            n == l1_batch_number,
            distinct_slots(t),
            distinct_initial_writes(w),
            sorted_by_key(logs@),
            forall|l: StorageLog| #[trigger] has_entry(logs@, l) <==> ((l.kind == StorageLogKind::Read
                && l.value == zero_h256() && reads.contains(l.key)) || (l.kind == StorageLogKind::Write
                && !reads.contains(l.key) && exists|j: int|
                0 <= j < i && (#[trigger] t[j]).0 == l.key && t[j].1 == l.value
                    && write_matters(n, w, l.key, l.value))),
        decreases t.len() - i,
    {
        let (k, v) = touched_slots[i];
        if !contains_key(protective_reads, &k) {
            let matters = if v.is_zero() {
                match lookup_initial_write(initial_writes, &k.hashed_key()) {
                    Some(b) => b.0 <= l1_batch_number.0,
                    None => false,
                }
            } else {
                true
            };
            if matters {
                let ghost before = logs@;
                proof {
                    assert forall|l: StorageLog| #[trigger] has_entry(before, l) implies l.key != k by {
                        if l.key == k && l.kind == StorageLogKind::Write {
                            let j = choose|j: int|
                                0 <= j < i && (#[trigger] t[j]).0 == l.key && t[j].1 == l.value
                                    && write_matters(n, w, l.key, l.value);
                            assert(t[i as int].0 == k);
                        }
                    }
                }
                insert_log(&mut logs, StorageLog::new_write_log(k, v));
                proof {
                    assert(t[i as int].0 == k && t[i as int].1 == v);
                }
            }
        }
        i = i + 1;
    }
    proof {
        assert forall|l: StorageLog| #[trigger] has_entry(logs@, l) <==> dedup_entry(n, reads, t, w, l.key) == Some(l) by {
            if exists|j: int| 0 <= j < t.len() && (#[trigger] t[j]).0 == l.key {
                let c = choose|j: int| 0 <= j < t.len() && (#[trigger] t[j]).0 == l.key;
                if has_entry(logs@, l) && l.kind == StorageLogKind::Write {
                    let j = choose|j: int|
                        0 <= j < t.len() && (#[trigger] t[j]).0 == l.key && t[j].1 == l.value
                            && write_matters(n, w, l.key, l.value);
                    assert(j == c);
                }
            }
        }
    }
    logs
}

/// A batch with the deduplicated logs the tree must apply for it.
#[derive(Debug, PartialEq, Eq)]
pub struct L1BatchWithLogs {
    pub header: L1BatchHeader,
    pub storage_logs: Vec<StorageLog>,
}

impl L1BatchWithLogs {
    /// Builds the batch from what the log store holds for it: `None` where its
    /// header is not there yet (nothing to do yet), else the deduplicated logs.
    /// `initial_writes` answers the query for `hashed_keys_for_zero_values`.
    pub fn new(
        l1_batch_number: L1BatchNumber,
        header: Option<L1BatchHeader>,
        protective_reads: &Vec<StorageKey>,
        touched_slots: &Vec<(StorageKey, H256)>,
        initial_writes: &Vec<(H256, L1BatchNumber)>,
    ) -> (r: Option<Self>)
        requires
            distinct_slots(touched_slots@),
            distinct_initial_writes(initial_writes@),
        ensures
            header is None <==> r is None,
            r matches Some(b) ==> b.header == header.unwrap() && is_dedup_result(
                b.storage_logs@,
                l1_batch_number,
                protective_reads@,
                touched_slots@,
                initial_writes@,
            ),
    {
        match header {
            None => None,
            Some(header) => Some(
                L1BatchWithLogs {
                    header,
                    storage_logs: dedup_storage_logs(
                        l1_batch_number,
                        protective_reads,
                        touched_slots,
                        initial_writes,
                    ),
                },
            ),
        }
    }
}

} // verus!
