use kv::{Kvpair, MemTable, Storage, Value};

#[test]
fn overwrite_returns_previous_value() {
    let mut s = MemTable::new();
    assert_eq!(s.set("t", "k".to_string(), Value::from(1)), Ok(None));
    assert_eq!(s.set("t", "k".to_string(), Value::from(2)), Ok(Some(Value::from(1))));
    assert_eq!(s.get("t", "k"), Ok(Some(Value::from(2))));
}

#[test]
fn delete_of_absent_key_is_not_an_error() {
    let mut s = MemTable::new();
    assert_eq!(s.del("t", "nothing"), Ok(None));
    s.set("t", "k".to_string(), Value::from(1)).unwrap();
    assert_eq!(s.del("t", "k"), Ok(Some(Value::from(1))));
    assert_eq!(s.del("t", "k"), Ok(None));
}

#[test]
fn contains_follows_set_and_del() {
    let mut s = MemTable::new();
    assert_eq!(s.contains("t", "k"), Ok(false));
    s.set("t", "k".to_string(), Value::from(1)).unwrap();
    assert_eq!(s.contains("t", "k"), Ok(true));
    assert_eq!(s.contains("other", "k"), Ok(false));
    s.del("t", "k").unwrap();
    assert_eq!(s.contains("t", "k"), Ok(false));
}

#[test]
fn get_all_lists_each_key_once_with_last_value() {
    let mut s = MemTable::new();
    for (k, v) in [("a", 1), ("b", 2), ("c", 3), ("a", 4)] {
        s.set("t", k.to_string(), Value::from(v)).unwrap();
    }
    s.set("u", "z".to_string(), Value::from(9)).unwrap();
    let mut all = s.get_all("t").unwrap();
    all.sort_by(|x, y| x.key.cmp(&y.key));
    assert_eq!(
        all,
        vec![
            Kvpair::new("a".to_string(), Value::from(4)),
            Kvpair::new("b".to_string(), Value::from(2)),
            Kvpair::new("c".to_string(), Value::from(3)),
        ]
    );
}

#[test]
fn get_all_of_unknown_table_is_empty() {
    let s = MemTable::new();
    assert_eq!(s.get_all("none"), Ok(vec![]));
    assert_eq!(s.get("none", "k"), Ok(None));
}

#[test]
fn tables_are_separate() {
    let mut s = MemTable::new();
    s.set("t1", "k".to_string(), Value::from(1)).unwrap();
    s.set("t2", "k".to_string(), Value::from(2)).unwrap();
    assert_eq!(s.get("t1", "k"), Ok(Some(Value::from(1))));
    assert_eq!(s.get("t2", "k"), Ok(Some(Value::from(2))));
}
