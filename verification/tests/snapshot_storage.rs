use prest_host::error::StorageError;
use prest_host::snapshot::{Snapshot, WriteState};
use prest_host::storage::{
    begin_transaction, check_add_column, check_writable, commit_transaction, delete_snapshot,
    plan_rollback, recovered_tx_counter, update_cell, row_write_guard, start_write, upsert_snapshot,
    visible_row, AddColumnError, NewColumnValue, RowWrite, WriteRefusal,
};

fn st(tx_id: u64, in_progress: bool) -> WriteState {
    WriteState { tx_id, in_progress }
}

#[test]
fn new_snapshot_holds_data_only() {
    let s = Snapshot::new(3, "a".to_string());
    assert_eq!(s.data_txid, 3);
    assert_eq!(s.data.as_deref(), Some("a"));
    assert_eq!(s.backup, None);
    assert_eq!(s.backup_txid, None);
}

#[test]
fn update_in_later_tx_backs_up_committed_value() {
    let mut s = Snapshot::new(1, 10u32);
    s.update(st(2, true), 20);
    assert_eq!(s.data, Some(20));
    assert_eq!(s.data_txid, 2);
    assert_eq!(s.backup, Some(10));
    assert_eq!(s.backup_txid, Some(1));
    // readers inside the running transaction still see the committed value
    assert_eq!(s.get(st(2, true)), Some(10));
    // once committed, everyone sees the new value
    assert_eq!(s.get(st(2, false)), Some(20));
    assert_eq!(s.get(st(3, true)), Some(20));
}

#[test]
fn update_twice_in_same_tx_keeps_first_backup() {
    let mut s = Snapshot::new(1, 10u32);
    s.update(st(2, true), 20);
    s.update(st(2, true), 30);
    assert_eq!(s.data, Some(30));
    assert_eq!(s.backup, Some(10));
    assert_eq!(s.backup_txid, Some(1));
}

#[test]
fn rollback_restores_overwritten_value() {
    let mut s = Snapshot::new(1, 10u32);
    s.update(st(2, true), 20);
    let r = s.rollback(st(2, true)).expect("touched by the tx");
    let restored = r.expect("a value existed before");
    assert_eq!(restored.data, Some(10));
    assert_eq!(restored.data_txid, 1);
    assert_eq!(restored.backup, None);
    assert_eq!(restored.backup_txid, None);
}

#[test]
fn rollback_removes_created_value() {
    let s = Snapshot::new(5, 1u8);
    let r = s.rollback(st(5, true));
    assert!(matches!(r, Some(None)));
}

#[test]
fn rollback_ignores_older_snapshot() {
    let s = Snapshot::new(1, 1u8);
    assert!(s.rollback(st(2, true)).is_none());
}

#[test]
fn update_then_delete_then_rollback_restores() {
    let mut s = Snapshot::new(1, 7u32);
    s.update(st(4, true), 8);
    let d = s.delete(st(4, true)).expect("kept for rollback");
    assert_eq!(d.data, None);
    assert_eq!(d.get(st(4, false)), None);
    let restored = d.rollback(st(4, true)).unwrap().unwrap();
    assert_eq!(restored.data, Some(7));
    assert_eq!(restored.data_txid, 1);
}

#[test]
fn delete_in_later_tx_keeps_backup() {
    let s = Snapshot::new(1, 7u32);
    let d = s.delete(st(2, true)).expect("committed data is backed up");
    assert_eq!(d.data, None);
    assert_eq!(d.backup, Some(7));
    assert_eq!(d.backup_txid, Some(1));
    assert_eq!(d.data_txid, 1);
}

#[test]
fn delete_created_in_same_tx_removes() {
    let s = Snapshot::new(9, 7u32);
    assert!(s.delete(st(9, true)).is_none());
}

#[test]
fn delete_of_empty_older_snapshot_removes() {
    let s: Snapshot<u32> = Snapshot { data_txid: 1, data: None, backup_txid: None, backup: None };
    assert!(s.delete(st(2, true)).is_none());
}

#[test]
fn take_follows_reader_state() {
    let s = Snapshot { data_txid: 3, data: Some(2u8), backup_txid: Some(1), backup: Some(1u8) };
    assert_eq!(s.clone().take(st(3, true)), Some(1));
    assert_eq!(s.clone().take(st(3, false)), Some(2));
    assert_eq!(s.take(st(4, true)), Some(2));
}

#[test]
fn get_mut_edits_data() {
    let mut s = Snapshot::new(1, vec![1u8, 2]);
    if let Some(row) = s.get_mut(st(1, false)) {
        row[1] = 9;
    }
    assert_eq!(s.data, Some(vec![1, 9]));
    let mut e: Snapshot<u8> = Snapshot { data_txid: 1, data: None, backup_txid: None, backup: None };
    assert!(e.get_mut(st(1, false)).is_none());
}

#[test]
fn write_counter_wraps() {
    let (s, next) = start_write(41);
    assert_eq!((s.tx_id, s.in_progress, next), (41, true, 42));
    let (_, next) = start_write(u64::MAX);
    assert_eq!(next, 0);
}

#[test]
fn recovery_resumes_unfinished_write() {
    assert_eq!(recovered_tx_counter(Some(st(12, true))), Some(12));
    assert_eq!(recovered_tx_counter(Some(st(12, false))), None);
    assert_eq!(recovered_tx_counter(None), None);
}

#[test]
fn begin_requires_autocommit() {
    let mut s = st(1, false);
    match begin_transaction(&mut s, false, false) {
        Err(StorageError::Msg(m)) => {
            assert_eq!(m, "nested and non-autocommitted transactions are not supported")
        }
        _ => panic!("expected refusal"),
    }
    assert!(!s.in_progress);
    assert!(matches!(begin_transaction(&mut s, false, true), Ok(true)));
    assert!(s.in_progress);
    let mut r = st(1, false);
    assert!(matches!(begin_transaction(&mut r, true, true), Ok(true)));
    assert!(!r.in_progress);
    commit_transaction(&mut s, false);
    assert!(!s.in_progress);
}

#[test]
fn readonly_refuses_writes() {
    assert!(check_writable(false).is_ok());
    match check_writable(true) {
        Err(StorageError::Msg(m)) => assert_eq!(m, "can't write inside of read statement"),
        _ => panic!("expected refusal"),
    }
}

#[test]
fn upsert_creates_or_updates() {
    let s = upsert_snapshot(None, st(3, true), 5u8);
    assert_eq!((s.data_txid, s.data, s.backup), (3, Some(5), None));
    let s2 = upsert_snapshot(Some(s), st(4, true), 6u8);
    assert_eq!((s2.data_txid, s2.data, s2.backup, s2.backup_txid), (4, Some(6), Some(5), Some(3)));
    // a read after the write sees the written row
    assert_eq!(s2.get(st(4, false)), Some(6));
}

#[test]
fn delete_missing_row_is_an_error() {
    match delete_snapshot::<u8>(None, st(1, true)) {
        Err(StorageError::Msg(m)) => assert_eq!(m, "not found item to delete"),
        _ => panic!("expected error"),
    }
    let r = delete_snapshot(Some(Snapshot::new(1, 1u8)), st(1, true));
    assert!(matches!(r, Ok(None)));
}

#[test]
fn visible_row_errors_without_value() {
    assert!(matches!(visible_row(Snapshot::new(1, 3u8), st(2, false)), Ok(3)));
    let gone: Snapshot<u8> = Snapshot { data_txid: 1, data: None, backup_txid: None, backup: None };
    assert!(matches!(visible_row(gone, st(2, false)), Err(StorageError::Msg(_))));
}

#[test]
fn rollback_plan_in_store_order() {
    let mut updated = Snapshot::new(1, 10u32);
    updated.update(st(5, true), 11);
    let entries = vec![
        (vec![1u8], Snapshot::new(2, 1u32)),
        (vec![2u8], updated),
        (vec![3u8], Snapshot::new(5, 3u32)),
    ];
    let plan = plan_rollback(entries, st(5, true));
    assert_eq!(plan.len(), 2);
    assert_eq!(plan[0].0, vec![2u8]);
    let restored = plan[0].1.as_ref().unwrap();
    assert_eq!(restored.data, Some(10));
    assert_eq!(restored.data_txid, 1);
    assert_eq!(plan[1].0, vec![3u8]);
    assert!(plan[1].1.is_none());
}

#[test]
fn add_column_checks() {
    let cols = vec!["id".to_string(), "name".to_string()];
    assert!(matches!(check_add_column("t", None, "x", true, true), Err(AddColumnError::TableNotFound(t)) if t == "t"));
    assert!(matches!(check_add_column("t", Some(None), "x", true, true), Err(AddColumnError::SchemalessTableFound(t)) if t == "t"));
    assert!(matches!(check_add_column("t", Some(Some(&cols)), "name", true, true), Err(AddColumnError::AlreadyExistingColumn(c)) if c == "name"));
    assert!(matches!(check_add_column("t", Some(Some(&cols)), "age", true, false), Ok(NewColumnValue::EvaluateDefault)));
    assert!(matches!(check_add_column("t", Some(Some(&cols)), "age", false, true), Ok(NewColumnValue::Null)));
    assert!(matches!(check_add_column("t", Some(Some(&cols)), "age", false, false), Err(AddColumnError::DefaultValueRequired(c)) if c == "age"));
}

#[test]
fn insert_needs_a_free_key_and_delete_an_existing_row() {
    assert_eq!(row_write_guard(RowWrite::Insert, true), Err(WriteRefusal::DuplicateInsertion));
    assert_eq!(row_write_guard(RowWrite::Insert, false), Ok(()));
    assert_eq!(row_write_guard(RowWrite::Delete, false), Err(WriteRefusal::MissingRow));
    assert_eq!(row_write_guard(RowWrite::Delete, true), Ok(()));
    assert_eq!(row_write_guard(RowWrite::Save, true), Ok(()));
    assert_eq!(row_write_guard(RowWrite::Save, false), Ok(()));
    assert_eq!(row_write_guard(RowWrite::UpdateField, true), Ok(()));
}

#[test]
fn update_cell_changes_one_column_in_place() {
    let s = Snapshot::new(3, vec![1u32, 2, 3]);
    let u = update_cell(s, 1, 9).unwrap();
    assert_eq!(u.data, Some(vec![1, 9, 3]));
    assert_eq!(u.data_txid, 3);
    assert_eq!(u.backup, None);
    let mut gone = Snapshot::new(3, vec![1u32]);
    gone.data = None;
    assert!(update_cell(gone, 0, 5).is_none());
}

#[test]
fn get_gives_what_take_gives() {
    let mut s = Snapshot::new(1, 10u64);
    s.update(WriteState { tx_id: 2, in_progress: true }, 20);
    for state in [st(2, true), st(2, false), st(3, true)] {
        assert_eq!(s.get(state), s.clone().take(state));
    }
}
