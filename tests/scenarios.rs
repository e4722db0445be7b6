use kv::service::{contains_response, get_all_response, get_response, previous_response};
use kv::{
    dispatch, CommandRequest, CommandResponse, Hset, KvError, Kvpair, MemTable, RequestData, Value,
};

#[test]
fn get_miss_reports_not_found() {
    let mut s = MemTable::new();
    let res = dispatch(CommandRequest::new_hget("t1", "missing"), &mut s);
    assert_eq!(res.status, 404);
    assert!(res.message.contains("Not found for table:t1, key:missing"));
}

#[test]
fn set_then_get() {
    let mut s = MemTable::new();
    let res = dispatch(CommandRequest::new_hset("t1", "hello", Value::from_str("world")), &mut s);
    assert_eq!(res.status, 200);
    assert_eq!(res.values, vec![Value::default()]);
    let res = dispatch(CommandRequest::new_hget("t1", "hello"), &mut s);
    assert_eq!(res.values, vec![Value::from_str("world")]);
}

#[test]
fn hgetall_as_a_set() {
    let mut s = MemTable::new();
    dispatch(CommandRequest::new_hset("score", "u1", 10.into()), &mut s);
    dispatch(CommandRequest::new_hset("score", "u2", 8.into()), &mut s);
    dispatch(CommandRequest::new_hset("score", "u1", 6.into()), &mut s);
    let mut res = dispatch(CommandRequest::new_hgetall("score"), &mut s);
    assert_eq!(res.status, 200);
    assert!(res.values.is_empty());
    res.pairs.sort_by(|a, b| a.key.cmp(&b.key));
    assert_eq!(
        res.pairs,
        vec![Kvpair::new("u1".to_string(), 6.into()), Kvpair::new("u2".to_string(), 8.into())]
    );
}

#[test]
fn hset_without_pair_is_bad_request() {
    let mut s = MemTable::new();
    let cmd = CommandRequest {
        request_data: Some(RequestData::Hset(Hset { table: "t".to_string(), pair: None })),
    };
    let res = dispatch(cmd, &mut s);
    assert_eq!(res.status, 400);
    assert_eq!(res.message, "Command parse command: `hset: pair is missing`");
}

#[test]
fn empty_request_is_bad_request() {
    let mut s = MemTable::new();
    let res = dispatch(CommandRequest { request_data: None }, &mut s);
    assert_eq!(res.status, 400);
    assert_eq!(res.message, "Command parse command: `request holds no command`");
}

#[test]
fn every_command_gets_a_status() {
    let mut s = MemTable::new();
    let cmds = vec![
        CommandRequest::new_hset("t", "k", Value::from_bool(true)),
        CommandRequest::new_hget("t", "k"),
        CommandRequest::new_hgetall("t"),
        CommandRequest::new_hcontains("t", "k"),
        CommandRequest::new_hdel("t", "k"),
        CommandRequest::new_hdel("t", "k"),
        CommandRequest::new_hcontains("t", "k"),
    ];
    let statuses: Vec<u32> = cmds.into_iter().map(|c| dispatch(c, &mut s).status).collect();
    assert_eq!(statuses, vec![200, 200, 200, 200, 200, 200, 200]);
}

#[test]
fn hexist_and_hdel_answers() {
    let mut s = MemTable::new();
    dispatch(CommandRequest::new_hset("t", "k", 5.into()), &mut s);
    let res = dispatch(CommandRequest::new_hcontains("t", "k"), &mut s);
    assert_eq!(res.values, vec![Value::from_bool(true)]);
    let res = dispatch(CommandRequest::new_hdel("t", "k"), &mut s);
    assert_eq!(res.values, vec![Value::from(5)]);
    let res = dispatch(CommandRequest::new_hcontains("t", "k"), &mut s);
    assert_eq!(res.values, vec![Value::from_bool(false)]);
    let res = dispatch(CommandRequest::new_hdel("t", "k"), &mut s);
    assert_eq!(res.values, vec![Value::default()]);
}

#[test]
fn error_responses_carry_status_and_text() {
    let cases = vec![
        (KvError::NotFound("a".to_string(), "b".to_string()), 404, "Not found for table:a, key:b"),
        (KvError::InvalidCommand("x".to_string()), 400, "Command parse command: `x`"),
        (KvError::ConvertError("s".to_string(), "i".to_string()), 500, "Cannot convert value s to i"),
        (
            KvError::StorageError("get".to_string(), "t".to_string(), "k".to_string(), "io".to_string()),
            500,
            "Cannot process command get with table: t, key: k. Error: io",
        ),
        (KvError::EncodeError, 500, "Failed to encode protobuf message"),
        (KvError::DecodeError, 500, "Failed to decode protobuf message"),
        (KvError::Internal("oops".to_string()), 500, "Internal error: oops"),
    ];
    for (e, status, text) in cases {
        assert_eq!(e.message(), text);
        let res = CommandResponse::from_error(e);
        assert_eq!(res.status, status);
        assert_eq!(res.message, text);
        assert!(res.values.is_empty() && res.pairs.is_empty());
    }
}

#[test]
fn value_response_has_status_ok() {
    let res = CommandResponse::from_value(Value::from(3));
    assert_eq!(res.status, 200);
    assert_eq!(res.message, "");
    assert_eq!(res.values, vec![Value::from(3)]);
}

#[test]
fn store_results_map_to_responses() {
    let err = || KvError::StorageError("get".to_string(), "t".to_string(), "k".to_string(), "io".to_string());
    let res = get_response("t".to_string(), "k".to_string(), Err(err()));
    assert_eq!(res.status, 500);
    assert_eq!(res.message, err().message());
    let res = get_response("t".to_string(), "k".to_string(), Ok(None));
    assert_eq!(res.status, 404);
    assert_eq!(res.message, "Not found for table:t, key:k");
    let res = get_response("t".to_string(), "k".to_string(), Ok(Some(Value::from(1))));
    assert_eq!(res.values, vec![Value::from(1)]);
    let res = previous_response(Ok(None));
    assert_eq!(res.values, vec![Value::default()]);
    let res = previous_response(Err(KvError::DecodeError));
    assert_eq!(res.status, 500);
    let res = contains_response("t".to_string(), "k".to_string(), Err(err()));
    assert_eq!(res.status, 404);
    assert_eq!(res.message, "Not found for table:t, key:k");
    let res = contains_response("t".to_string(), "k".to_string(), Ok(true));
    assert_eq!(res.values, vec![Value::from_bool(true)]);
    let res = get_all_response(Err(err()));
    assert_eq!(res.status, 500);
    assert!(res.pairs.is_empty());
    let res = get_all_response(Ok(vec![Kvpair::new("a".to_string(), Value::from(2))]));
    assert_eq!(res.status, 200);
    assert_eq!(res.pairs, vec![Kvpair::new("a".to_string(), Value::from(2))]);
}
