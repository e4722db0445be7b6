use kv::{dispatch, CommandRequest, CommandResponse, Kvpair, MemTable, Storage, Value};

fn assert_res_ok(mut res: CommandResponse, values: &[Value], pairs: &[Kvpair]) {
    res.pairs.sort_by(|a, b| a.key.cmp(&b.key));
    assert_eq!(res.status, 200);
    assert_eq!(res.message, "");
    assert_eq!(res.values, values);
    assert_eq!(res.pairs, pairs);
}

fn assert_res_error(res: CommandResponse, code: u32, msg: &str) {
    assert_eq!(res.status, code);
    assert!(res.message.contains(msg));
    assert_eq!(res.values, &[]);
    assert_eq!(res.pairs, &[]);
}

fn hset_should_work<S: Storage>(store: &mut S) {
    let cmd = CommandRequest::new_hset("t1", "hello", Value::from(String::from("world")));
    let res = dispatch(cmd, store);
    assert_res_ok(res, &[Value::default()], &[]);

    let cmd = CommandRequest::new_hset("t1", "hello", Value::from(String::from("world")));
    let res = dispatch(cmd, store);
    assert_res_ok(res, &[Value::from(String::from("world"))], &[]);
}

fn hget_should_work<S: Storage>(store: &mut S) {
    let cmd = CommandRequest::new_hset("source", "u1", 10.into());
    let _res = dispatch(cmd, store);
    let cmd = CommandRequest::new_hget("source", "u1");
    let res = dispatch(cmd, store);
    assert_res_ok(res, &[10.into()], &[]);
}

fn hget_with_non_exist_key_should_return_404<S: Storage>(store: &mut S) {
    let cmd = CommandRequest::new_hget("t1", "non_exist_key");
    let res = dispatch(cmd, store);
    assert_res_error(res, 404, "Not found");
}

fn hgetall_should_work<S: Storage>(store: &mut S) {
    let cmds = vec![
        CommandRequest::new_hset("score", "u1", 10.into()),
        CommandRequest::new_hset("score", "u2", 8.into()),
        CommandRequest::new_hset("score", "u3", 11.into()),
        CommandRequest::new_hset("score", "u1", 6.into()),
    ];

    for cmd in cmds {
        dispatch(cmd, store);
    }

    let cmd = CommandRequest::new_hgetall("score");
    let res = dispatch(cmd, store);

    let pairs = &[
        Kvpair::new("u1".to_string(), 6.into()),
        Kvpair::new("u2".to_string(), 8.into()),
        Kvpair::new("u3".to_string(), 11.into()),
    ];
    assert_res_ok(res, &[], pairs);
}

#[test]
fn command_should_work_for_memtable() {
    let mut store = MemTable::new();
    hset_should_work(&mut store);
    hget_should_work(&mut store);
    hget_with_non_exist_key_should_return_404(&mut store);
    hgetall_should_work(&mut store);
}

#[test]
fn service_should_works() {
    let mut store = MemTable::new();
    let res = dispatch(CommandRequest::new_hget("t", "k"), &mut store);
    assert_eq!(res.status, 404);
}
