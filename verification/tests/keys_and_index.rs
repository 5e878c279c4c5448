use gluesql_core::data::{Key, Value};
use prest_host::error::StorageError;
use prest_host::index_scan::{
    add_index_entry, increment_key, index_row_key, index_scan_rows, plan_index_scan,
    visible_index_entry, EmptyIndexValue, IndexOp, IndexScanBounds,
};
use prest_host::keys::{
    build_index_key, build_index_key_prefix, data_prefix, encode_u64, get_id_offset,
    get_txdata_key, schema_key, sled_key,
};
use prest_host::lock::{
    active_transaction, import_id_offset, release, unregister, Lock, SledState, TxData,
};
use prest_host::snapshot::{Snapshot, WriteState};

#[test]
fn data_prefix_wraps_table_name() {
    assert_eq!(data_prefix("users"), "/users/");
    assert_eq!(data_prefix(""), "//");
}

#[test]
fn index_prefix_layout() {
    assert_eq!(build_index_key_prefix("t", "by_name"), b"index/t/by_name/".to_vec());
}

#[test]
fn schema_key_layout() {
    assert_eq!(schema_key("Todo"), "schema/Todo");
}

#[test]
fn sled_key_appends_key_encoding() {
    let k = sled_key("t", &Key::I64(1)).ok().unwrap();
    let mut expected = b"/t/".to_vec();
    expected.extend(Key::I64(1).to_cmp_be_bytes().unwrap());
    assert_eq!(k, expected);
    // the encoding is not the key's plain bytes: a wrapper that handed back
    // nothing would fail here
    assert!(k.len() > 3);
    assert!(matches!(sled_key("t", &Key::F64(1.0.into())), Err(StorageError::Glue(_))));
}

#[test]
fn index_key_appends_value_encoding() {
    let k = build_index_key("t", "i", &Value::Str("ab".into())).ok().unwrap();
    assert_eq!(k, b"index/t/i/\x00ab".to_vec());
    assert!(build_index_key("t", "i", &Value::F64(1.5)).is_err());
}

#[test]
fn txdata_key_is_prefix_and_big_endian_id() {
    assert_eq!(
        get_txdata_key(0x0102030405060708),
        b"tx_data/\x01\x02\x03\x04\x05\x06\x07\x08".to_vec()
    );
    assert_ne!(get_txdata_key(1), get_txdata_key(2));
}

#[test]
fn id_offset_round_trip() {
    for x in [0u64, 1, 255, 256, 0xdead_beef, u64::MAX] {
        assert!(matches!(get_id_offset(Some(encode_u64(x))), Ok(v) if v == x));
    }
    assert!(matches!(get_id_offset(None), Ok(0)));
    match get_id_offset(Some(vec![1, 2, 3])) {
        Err(StorageError::Msg(m)) => assert_eq!(m, "could not convert slice to array"),
        _ => panic!("expected error"),
    }
}

#[test]
fn increment_key_examples() {
    assert_eq!(increment_key(vec![1, 2, 3]), vec![1, 2, 4]);
    assert_eq!(increment_key(vec![1, 255]), vec![2, 255]);
    assert_eq!(increment_key(vec![255, 255]), vec![255, 255]);
    assert_eq!(increment_key(vec![]), Vec::<u8>::new());
    // every key extending the prefix sorts below the increment
    let p = b"index/t/i/".to_vec();
    let up = increment_key(p.clone());
    assert!(b"index/t/i/\xff\xff".to_vec() < up);
    assert!(p < up);
}

#[test]
fn scan_plans() {
    let p = b"index/t/i/".to_vec();
    let plan = plan_index_scan("t", "i", None, None).ok().unwrap();
    assert!(matches!(plan.bounds, IndexScanBounds::Prefix(ref b) if *b == p));
    assert!(!plan.descending);
    assert_eq!(plan.prefix_len, p.len());

    let key = build_index_key("t", "i", &Value::I64(5)).ok().unwrap();
    let plan = plan_index_scan("t", "i", Some(false), Some((IndexOp::Eq, Value::I64(5)))).ok().unwrap();
    assert!(matches!(plan.bounds, IndexScanBounds::Exact(ref b) if *b == key));
    assert!(plan.descending);

    let plan = plan_index_scan("t", "i", Some(true), Some((IndexOp::Gt, Value::I64(5)))).ok().unwrap();
    match plan.bounds {
        IndexScanBounds::Range { start, end, end_inclusive } => {
            assert_eq!(start, increment_key(key.clone()));
            assert_eq!(end, increment_key(p.clone()));
            assert!(!end_inclusive);
        }
        _ => panic!("expected range"),
    }
    let plan = plan_index_scan("t", "i", None, Some((IndexOp::LtEq, Value::I64(5)))).ok().unwrap();
    match plan.bounds {
        IndexScanBounds::Range { start, end, end_inclusive } => {
            assert_eq!(start, p.clone());
            assert_eq!(end, key.clone());
            assert!(end_inclusive);
        }
        _ => panic!("expected range"),
    }
    let plan = plan_index_scan("t", "i", None, Some((IndexOp::Lt, Value::I64(5)))).ok().unwrap();
    assert!(matches!(plan.bounds, IndexScanBounds::Range { end_inclusive: false, .. }));
    let plan = plan_index_scan("t", "i", None, Some((IndexOp::GtEq, Value::I64(5)))).ok().unwrap();
    assert!(matches!(plan.bounds, IndexScanBounds::Range { ref start, .. } if *start == key));
    assert!(plan_index_scan("t", "i", None, Some((IndexOp::Eq, Value::F32(1.0)))).is_err());
}

#[test]
fn index_entries() {
    let mut entries = Vec::new();
    add_index_entry(&mut entries, 7, b"/t/k".to_vec());
    assert_eq!(entries.len(), 1);
    assert_eq!(entries[0].data_txid, 7);
    let st = WriteState { tx_id: 7, in_progress: true };
    assert_eq!(visible_index_entry(entries[0].clone(), st), None);
    let done = WriteState { tx_id: 7, in_progress: false };
    assert_eq!(visible_index_entry(entries[0].clone(), done), Some(b"/t/k".to_vec()));
    let _unused: Snapshot<Vec<u8>> = entries.pop().unwrap();
    assert_eq!(index_row_key(&vec![1, 2, 3, 4], 2), vec![3, 4]);
    assert_eq!(index_row_key(&vec![1, 2], 5), Vec::<u8>::new());
}

#[test]
fn release_frees_own_lock_only() {
    let held = Lock { lock_txid: Some(4), lock_created_at: 99, gc_txid: Some(2) };
    let tx = TxData { txid: 4, alive: true, created_at: 99 };
    let w = release(Some(held), 4, Some(tx));
    let l = w.lock.unwrap();
    assert_eq!((l.lock_txid, l.lock_created_at, l.gc_txid), (None, 0, Some(2)));
    assert!(!w.tx_data.unwrap().alive);
    let w = release(Some(held), 5, None);
    assert!(w.lock.is_none());
    assert!(w.tx_data.is_none());
    let w = release(None, 5, None);
    assert!(w.lock.is_none());
}

#[test]
fn unregister_needs_record() {
    let t = unregister(Some(TxData { txid: 1, alive: true, created_at: 3 })).ok().unwrap();
    assert!(!t.alive);
    assert_eq!(t.created_at, 3);
    match unregister(None) {
        Err(StorageError::Msg(m)) => assert_eq!(m, "conflict - lock does not exist"),
        _ => panic!("expected error"),
    }
}

#[test]
fn default_lock_is_free() {
    let l = Lock::default();
    assert_eq!((l.lock_txid, l.lock_created_at, l.gc_txid), (None, 0, None));
}

#[test]
fn id_offset_import_only_grows() {
    assert_eq!(import_id_offset(5, 9), Some(9));
    assert_eq!(import_id_offset(9, 5), None);
    assert_eq!(import_id_offset(5, 5), None);
}

#[test]
fn reads_need_a_transaction() {
    match active_transaction(&SledState::Idle, "scan_data") {
        Err(StorageError::Msg(m)) => assert_eq!(m, "conflict - scan_data failed, lock does not exist"),
        _ => panic!("expected conflict"),
    }
    let s = SledState::Transaction { txid: 3, created_at: 10, autocommit: true };
    assert!(matches!(active_transaction(&s, "scan_data"), Ok((3, 10))));
}

#[test]
fn index_scan_rows_walk_keys_in_scan_order_and_skip_hidden_entries() {
    let reader = WriteState { tx_id: 5, in_progress: false };
    let first = vec![
        (Snapshot::new(1, b"ab1".to_vec()), Some(Snapshot::new(1, 10u32))),
        (Snapshot::new(1, b"ab2".to_vec()), Some(Snapshot::new(1, 20u32))),
    ];
    let mut deleted = Snapshot::new(1, 0u32);
    deleted.data = None;
    let second = vec![
        (Snapshot::new(2, b"ab3".to_vec()), Some(Snapshot::new(2, 30u32))),
        (Snapshot::new(2, b"ab4".to_vec()), Some(deleted)),
    ];
    let asc = index_scan_rows(vec![first.clone(), second.clone()], false, reader, 2).unwrap();
    assert_eq!(asc, vec![(b"1".to_vec(), 10), (b"2".to_vec(), 20), (b"3".to_vec(), 30)]);
    let desc = index_scan_rows(vec![first, second], true, reader, 2).unwrap();
    assert_eq!(desc, vec![(b"3".to_vec(), 30), (b"1".to_vec(), 10), (b"2".to_vec(), 20)]);
}

#[test]
fn index_scan_rows_fail_on_an_entry_without_row() {
    let reader = WriteState { tx_id: 5, in_progress: false };
    let mut hidden = Snapshot::new(1, b"ab9".to_vec());
    hidden.data = None;
    let groups = vec![vec![
        (hidden, None),
        (Snapshot::new(1, b"ab1".to_vec()), Some(Snapshot::new(1, 10u32))),
        (Snapshot::new(1, b"ab2".to_vec()), None),
    ]];
    assert_eq!(index_scan_rows(groups, false, reader, 2), Err(EmptyIndexValue));
}
