use kv::codec::{decode_value, encode_value};
use kv::sleddb::{flip, ivec_to_key, pairs_from_scan};
use kv::{dispatch, CommandRequest, KvError, Kvpair, SledDb, Storage, Value, ValueKind};

fn temp_store() -> SledDb {
    SledDb::new(sled::Config::new().temporary(true).open().unwrap())
}

#[test]
fn sled_set_get_del() {
    let mut s = temp_store();
    assert_eq!(s.set("t", "k".to_string(), Value::from(1)), Ok(None));
    assert_eq!(s.set("t", "k".to_string(), Value::from(2)), Ok(Some(Value::from(1))));
    assert_eq!(s.get("t", "k"), Ok(Some(Value::from(2))));
    assert_eq!(s.contains("t", "k"), Ok(true));
    assert_eq!(s.del("t", "k"), Ok(Some(Value::from(2))));
    assert_eq!(s.del("t", "k"), Ok(None));
    assert_eq!(s.contains("t", "k"), Ok(false));
    assert_eq!(s.get("t", "k"), Ok(None));
}

#[test]
fn sled_get_all_uses_table_prefix() {
    let mut s = temp_store();
    s.set("t", "b".to_string(), Value::from(2)).unwrap();
    s.set("t", "a:x".to_string(), Value::from(1)).unwrap();
    s.set("tt", "c".to_string(), Value::from(3)).unwrap();
    s.set("u", "d".to_string(), Value::from(4)).unwrap();
    assert_eq!(
        s.get_all("t"),
        Ok(vec![
            Kvpair::new("a:x".to_string(), Value::from(1)),
            Kvpair::new("b".to_string(), Value::from(2)),
        ])
    );
    assert_eq!(s.get_all("none"), Ok(vec![]));
}

#[test]
fn sled_rejects_separator_in_table() {
    let mut s = temp_store();
    let r = s.set("a:b", "k".to_string(), Value::from(1));
    assert!(matches!(r, Err(KvError::InvalidCommand(_))));
    assert!(matches!(s.get_all("a:b"), Err(KvError::InvalidCommand(_))));
}

#[test]
fn sled_dispatch_round_trip() {
    let mut s = temp_store();
    let res = dispatch(CommandRequest::new_hset("t1", "hello", Value::from_str("world")), &mut s);
    assert_eq!(res.values, vec![Value::default()]);
    let res = dispatch(CommandRequest::new_hget("t1", "hello"), &mut s);
    assert_eq!(res.values, vec![Value::from_str("world")]);
    let res = dispatch(CommandRequest::new_hget("t1", "missing"), &mut s);
    assert_eq!(res.status, 404);
}

#[test]
fn codec_round_trip_each_kind() {
    let values = vec![
        Value::default(),
        Value::from_str("héllo"),
        Value { value: Some(ValueKind::Binary(vec![0, 255, 7])) },
        Value::from(-5),
        Value { value: Some(ValueKind::Integer(i64::MIN)) },
        Value { value: Some(ValueKind::Float(2.5f64.to_bits())) },
        Value::from_bool(true),
        Value::from_bool(false),
    ];
    for v in values {
        let b = encode_value(&v);
        assert_eq!(decode_value(&b), Ok(v));
    }
}

#[test]
fn codec_exact_bytes() {
    assert_eq!(encode_value(&Value::from(258)), vec![3, 2, 1, 0, 0, 0, 0, 0, 0]);
    assert_eq!(encode_value(&Value::from_str("ab")), vec![1, b'a', b'b']);
    assert_eq!(encode_value(&Value::default()), vec![0]);
    assert_eq!(encode_value(&Value::from_bool(true)), vec![5, 1]);
}

#[test]
fn codec_rejects_malformed_bytes() {
    assert_eq!(decode_value(&[]), Err(KvError::DecodeError));
    assert_eq!(decode_value(&[9]), Err(KvError::DecodeError));
    assert_eq!(decode_value(&[1, 0xff]), Err(KvError::DecodeError));
    assert_eq!(decode_value(&[3, 1, 2]), Err(KvError::DecodeError));
    assert_eq!(decode_value(&[5, 2]), Err(KvError::DecodeError));
}

#[test]
fn key_after_prefix() {
    assert_eq!(ivec_to_key(b"table:key:more", 6), Some("key:more".to_string()));
    assert_eq!(ivec_to_key(&[b't', b':', 0xff], 2), None);
}

#[test]
fn flip_swaps_layers() {
    assert_eq!(flip::<i32, ()>(None), Ok(None));
    assert_eq!(flip::<i32, ()>(Some(Ok(1))), Ok(Some(1)));
    assert_eq!(flip::<i32, ()>(Some(Err(()))), Err(()));
}

#[test]
fn scan_entries_become_pairs_or_decode_error() {
    let good = vec![
        (b"t:a".to_vec(), encode_value(&Value::from(1))),
        (b"t:b".to_vec(), encode_value(&Value::from_str("x"))),
    ];
    assert_eq!(
        pairs_from_scan(&good, 2),
        Ok(vec![
            Kvpair::new("a".to_string(), Value::from(1)),
            Kvpair::new("b".to_string(), Value::from_str("x")),
        ])
    );
    let bad_value = vec![(b"t:a".to_vec(), vec![9u8])];
    assert_eq!(pairs_from_scan(&bad_value, 2), Err(KvError::DecodeError));
    let bad_key = vec![(vec![b't', b':', 0xff], encode_value(&Value::from(1)))];
    assert_eq!(pairs_from_scan(&bad_key, 2), Err(KvError::DecodeError));
}

#[test]
fn sled_undecodable_entry_is_an_error() {
    let db = sled::Config::new().temporary(true).open().unwrap();
    db.insert(b"t:k", vec![9u8]).unwrap();
    let mut s = SledDb::new(db);
    assert_eq!(s.get("t", "k"), Err(KvError::DecodeError));
    assert_eq!(s.get_all("t"), Err(KvError::DecodeError));
    assert_eq!(s.set("t", "k".to_string(), Value::from(3)), Err(KvError::DecodeError));
    assert_eq!(s.get("t", "k"), Ok(Some(Value::from(3))));
}
