use metadata_calculator::{
    dedup_storage_logs, hashed_keys_for_zero_values, lookup_initial_write, L1BatchHeader,
    L1BatchNumber, L1BatchWithLogs, StorageKey, StorageLog, StorageLogKind, H256,
};

fn word(x: u128) -> H256 {
    H256 { hi: 0, lo: x }
}

fn key(x: u128) -> StorageKey {
    StorageKey::new(word(x))
}

fn header(n: u32) -> L1BatchHeader {
    L1BatchHeader { number: L1BatchNumber(n), timestamp: 1000 + n as u64 }
}

#[test]
fn missing_header_gives_none() {
    let r = L1BatchWithLogs::new(L1BatchNumber(3), None, &vec![key(1)], &vec![(key(2), word(5))], &vec![]);
    assert!(r.is_none());
}

#[test]
fn empty_batch_gives_no_logs() {
    let r = L1BatchWithLogs::new(L1BatchNumber(0), Some(header(0)), &vec![], &vec![], &vec![]).unwrap();
    assert_eq!(r.header, header(0));
    assert!(r.storage_logs.is_empty());
}

#[test]
fn logs_are_ordered_by_key() {
    let touched = vec![(key(9), word(1)), (key(3), word(2)), (StorageKey::new(H256 { hi: 1, lo: 0 }), word(3))];
    let logs = dedup_storage_logs(L1BatchNumber(1), &vec![key(5)], &touched, &vec![]);
    assert_eq!(
        logs,
        vec![
            StorageLog::new_write_log(key(3), word(2)),
            StorageLog::new_read_log(key(5), H256::zero()),
            StorageLog::new_write_log(key(9), word(1)),
            StorageLog::new_write_log(StorageKey::new(H256 { hi: 1, lo: 0 }), word(3)),
        ]
    );
}

#[test]
fn protective_read_wins_over_touched_value() {
    let touched = vec![(key(1), word(42)), (key(2), H256::zero())];
    let iw = vec![(word(2), L1BatchNumber(1))];
    let logs = dedup_storage_logs(L1BatchNumber(4), &vec![key(1), key(2)], &touched, &iw);
    assert_eq!(
        logs,
        vec![StorageLog::new_read_log(key(1), H256::zero()), StorageLog::new_read_log(key(2), H256::zero())]
    );
}

#[test]
fn protective_reads_become_read_logs() {
    // Twenty keys copied into the batch, every third of them also read.
    let touched: Vec<(StorageKey, H256)> = (0..20u128).map(|i| (key(100 + i), word(7 * i + 1))).collect();
    let reads: Vec<StorageKey> = (0..20u128).step_by(3).map(|i| key(100 + i)).collect();
    let logs = dedup_storage_logs(L1BatchNumber(2), &reads, &touched, &vec![]);
    let read_count = logs.iter().filter(|log| log.kind == StorageLogKind::Read).count();
    assert_eq!(read_count, 7);
    assert_eq!(logs.len(), 20);
}

#[test]
fn zero_write_without_initial_write_is_dropped() {
    let logs = dedup_storage_logs(L1BatchNumber(5), &vec![], &vec![(key(7), H256::zero())], &vec![]);
    assert!(logs.is_empty());
}

#[test]
fn zero_write_with_later_initial_write_is_dropped() {
    let iw = vec![(word(7), L1BatchNumber(6))];
    let logs = dedup_storage_logs(L1BatchNumber(5), &vec![], &vec![(key(7), H256::zero())], &iw);
    assert!(logs.is_empty());
}

#[test]
fn zero_write_with_earlier_or_same_initial_write_is_kept() {
    let touched = vec![(key(7), H256::zero()), (key(8), H256::zero())];
    let iw = vec![(word(7), L1BatchNumber(5)), (word(8), L1BatchNumber(2))];
    let logs = dedup_storage_logs(L1BatchNumber(5), &vec![], &touched, &iw);
    assert_eq!(
        logs,
        vec![StorageLog::new_write_log(key(7), H256::zero()), StorageLog::new_write_log(key(8), H256::zero())]
    );
}

#[test]
fn non_zero_write_without_initial_write_is_kept() {
    let v = H256 { hi: 0xdead_beef, lo: 17 };
    let logs = dedup_storage_logs(L1BatchNumber(5), &vec![], &vec![(key(7), v)], &vec![]);
    assert_eq!(logs, vec![StorageLog::new_write_log(key(7), v)]);
}

#[test]
fn zero_value_keys_exclude_reads_and_non_zero_values() {
    let touched = vec![(key(1), H256::zero()), (key(2), word(3)), (key(3), H256::zero())];
    let keys = hashed_keys_for_zero_values(&vec![key(3)], &touched);
    assert_eq!(keys, vec![word(1)]);
}

#[test]
fn initial_write_lookup() {
    let iw = vec![(word(1), L1BatchNumber(4)), (word(2), L1BatchNumber(9))];
    assert_eq!(lookup_initial_write(&iw, &word(2)), Some(L1BatchNumber(9)));
    assert_eq!(lookup_initial_write(&iw, &word(3)), None);
}

#[test]
fn loading_twice_gives_same_logs() {
    let touched = vec![(key(4), word(1)), (key(2), H256::zero()), (key(6), word(0xff))];
    let iw = vec![(word(2), L1BatchNumber(1))];
    let a = L1BatchWithLogs::new(L1BatchNumber(3), Some(header(3)), &vec![key(6)], &touched, &iw);
    let b = L1BatchWithLogs::new(L1BatchNumber(3), Some(header(3)), &vec![key(6)], &touched, &iw);
    assert_eq!(a, b);
}
