use mini_redis::dispatch::DispatchOutcome;
use mini_redis::request::{Request, RequestType, ResponseType};
use mini_redis::store::S;

fn fresh_store() -> S {
    S::new("redis.aof".to_string())
}

fn set_req(k: &str, v: &str) -> Request {
    Request {
        key: Some(vec![k.to_string()]),
        value: Some(v.to_string()),
        request_type: RequestType::SetCmd,
    }
}

fn get_req(k: &str) -> Request {
    Request { key: Some(vec![k.to_string()]), value: None, request_type: RequestType::Get }
}

fn del_req(keys: &[&str]) -> Request {
    Request {
        key: Some(keys.iter().map(|k| k.to_string()).collect()),
        value: None,
        request_type: RequestType::Del,
    }
}

fn reply_value(out: DispatchOutcome) -> String {
    match out {
        DispatchOutcome::Reply { resp, .. } => resp.value.expect("reply carries a value"),
        DispatchOutcome::Terminate => panic!("expected a reply, got terminate"),
    }
}

#[test]
fn set_get_del_scenario() {
    let mut s = fresh_store();
    assert_eq!(reply_value(s.redis_command(&set_req("a", "1"))), "OK!");
    assert_eq!(reply_value(s.redis_command(&get_req("a"))), "1");
    assert_eq!(reply_value(s.redis_command(&del_req(&["a"]))), "1");
    assert_eq!(reply_value(s.redis_command(&get_req("a"))), "NULL!");
}

#[test]
fn ping_answers_pong() {
    let mut s = fresh_store();
    match s.redis_command(&Request { key: None, value: None, request_type: RequestType::Ping }) {
        DispatchOutcome::Reply { resp, log_entry } => {
            assert_eq!(resp.value.as_deref(), Some("PONG"));
            assert_eq!(resp.response_type, ResponseType::Okay);
            assert!(log_entry.is_none());
        },
        DispatchOutcome::Terminate => panic!("ping must not terminate"),
    }
}

#[test]
fn del_two_keys_one_exists() {
    let mut s = fresh_store();
    s.redis_command(&set_req("a", "1"));
    assert_eq!(reply_value(s.redis_command(&del_req(&["a", "b"]))), "1");
}

#[test]
fn del_counts_each_present_key() {
    let mut s = fresh_store();
    s.redis_command(&set_req("a", "1"));
    s.redis_command(&set_req("b", "2"));
    s.redis_command(&set_req("c", "3"));
    assert_eq!(reply_value(s.redis_command(&del_req(&["a", "c", "missing"]))), "2");
    assert_eq!(reply_value(s.redis_command(&get_req("b"))), "2");
}

#[test]
fn last_write_wins_on_one_key() {
    let mut s = fresh_store();
    s.redis_command(&set_req("k", "1"));
    s.redis_command(&set_req("k", "2"));
    assert_eq!(reply_value(s.redis_command(&get_req("k"))), "2");
    s.redis_command(&del_req(&["k"]));
    assert_eq!(reply_value(s.redis_command(&get_req("k"))), "NULL!");
    s.redis_command(&set_req("k", "3"));
    assert_eq!(reply_value(s.redis_command(&get_req("k"))), "3");
}

#[test]
fn get_leaves_store_unchanged() {
    let mut s = fresh_store();
    s.redis_command(&set_req("a", "1"));
    s.redis_command(&get_req("missing"));
    assert_eq!(reply_value(s.redis_command(&get_req("a"))), "1");
}

#[test]
fn exit_terminates_without_mutation() {
    let mut s = fresh_store();
    s.redis_command(&set_req("a", "1"));
    match s.redis_command(&Request { key: None, value: None, request_type: RequestType::Exit }) {
        DispatchOutcome::Terminate => {},
        DispatchOutcome::Reply { .. } => panic!("exit must terminate"),
    }
    assert_eq!(reply_value(s.redis_command(&get_req("a"))), "1");
}

#[test]
fn illegal_gets_empty_default_reply() {
    let mut s = fresh_store();
    match s.redis_command(&Request { key: None, value: None, request_type: RequestType::Illegal })
    {
        DispatchOutcome::Reply { resp, log_entry } => {
            assert!(resp.value.is_none());
            assert!(log_entry.is_none());
        },
        DispatchOutcome::Terminate => panic!("illegal must not terminate"),
    }
}

#[test]
fn store_get_set_delete_directly() {
    let mut s = fresh_store();
    assert!(s.get(&"a".to_string()).is_none());
    s.set("a".to_string(), "1".to_string());
    assert_eq!(s.get(&"a".to_string()).map(|v| v.as_str()), Some("1"));
    s.set("a".to_string(), "2".to_string());
    assert_eq!(s.get(&"a".to_string()).map(|v| v.as_str()), Some("2"));
    let removed = s.delete(&vec!["a".to_string(), "b".to_string()]);
    assert_eq!(removed, 1);
    assert!(s.get(&"a".to_string()).is_none());
}

#[test]
fn delete_counts_duplicate_key_once() {
    let mut s = fresh_store();
    s.set("a".to_string(), "1".to_string());
    let removed = s.delete(&vec!["a".to_string(), "a".to_string()]);
    assert_eq!(removed, 1);
}

#[test]
fn delete_with_no_keys_removes_nothing() {
    let mut s = fresh_store();
    s.set("a".to_string(), "1".to_string());
    let removed = s.delete(&Vec::new());
    assert_eq!(removed, 0);
    assert_eq!(s.get(&"a".to_string()).map(|v| v.as_str()), Some("1"));
}
