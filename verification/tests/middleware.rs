use mini_redis::dispatch::DispatchOutcome;
use mini_redis::recovery::rebuild_data_from_aof;
use mini_redis::request::{ProtocolError, Request, RequestType};
use mini_redis::service::{LogLayer, LogService, Service};
use mini_redis::store::S;

fn fresh_service() -> LogService<S> {
    LogLayer.layer(S::new("redis.aof".to_string()))
}

fn set_req(k: &str, v: &str) -> Request {
    Request {
        key: Some(vec![k.to_string()]),
        value: Some(v.to_string()),
        request_type: RequestType::SetCmd,
    }
}

fn get_req(k: &str) -> Request {
    Request { key: Some(vec![k.to_string()]), value: None, request_type: RequestType::Get }
}

fn reply_value(r: Result<DispatchOutcome, ProtocolError>) -> String {
    match r.expect("expected the call to pass the middleware") {
        DispatchOutcome::Reply { resp, .. } => resp.value.expect("reply carries a value"),
        DispatchOutcome::Terminate => panic!("expected a reply, got terminate"),
    }
}

#[test]
fn middleware_rejects_illegal_command() {
    let mut svc = fresh_service();
    let r = svc.call(&Request { key: None, value: None, request_type: RequestType::Illegal });
    assert!(r.is_err());
    assert_eq!(r.unwrap_err().message(), "Illegal!");
}

#[test]
fn set_missing_value_rejected_before_store() {
    let mut svc = fresh_service();
    let bad = Request {
        key: Some(vec!["a".to_string()]),
        value: None,
        request_type: RequestType::SetCmd,
    };
    let r = svc.call(&bad);
    assert!(r.is_err());
    assert_eq!(reply_value(svc.call(&get_req("a"))), "NULL!");
}

#[test]
fn set_missing_key_rejected_before_store() {
    let mut svc = fresh_service();
    let bad = Request { key: None, value: Some("1".to_string()), request_type: RequestType::SetCmd };
    assert!(svc.call(&bad).is_err());
    let bad_two_keys = Request {
        key: Some(vec!["a".to_string(), "b".to_string()]),
        value: Some("1".to_string()),
        request_type: RequestType::SetCmd,
    };
    assert!(svc.call(&bad_two_keys).is_err());
}

#[test]
fn del_without_keys_rejected() {
    let mut svc = fresh_service();
    let bad = Request { key: Some(vec![]), value: None, request_type: RequestType::Del };
    assert!(svc.call(&bad).is_err());
    let none = Request { key: None, value: None, request_type: RequestType::Del };
    assert!(svc.call(&none).is_err());
}

#[test]
fn well_formed_commands_pass_through() {
    let mut svc = fresh_service();
    assert_eq!(reply_value(svc.call(&set_req("a", "1"))), "OK!");
    assert_eq!(reply_value(svc.call(&get_req("a"))), "1");
    let ping = Request { key: None, value: None, request_type: RequestType::Ping };
    assert_eq!(reply_value(svc.call(&ping)), "PONG");
}

#[test]
fn exit_passes_through_middleware() {
    let mut svc = fresh_service();
    let exit = Request { key: None, value: None, request_type: RequestType::Exit };
    match svc.call(&exit) {
        Ok(DispatchOutcome::Terminate) => {},
        _ => panic!("exit must reach the dispatcher and terminate"),
    }
}

#[test]
fn distinct_sets_all_visible_with_one_entry_each() {
    let mut svc = fresh_service();
    let keys = ["k1", "k2", "k3", "k4", "k5"];
    let mut log: Vec<String> = Vec::new();
    for (i, k) in keys.iter().enumerate() {
        match svc.call(&set_req(k, &format!("v{}", i))) {
            Ok(DispatchOutcome::Reply { log_entry, .. }) => {
                log.push(log_entry.expect("each set records exactly one log line"));
            },
            _ => panic!("set must produce a reply"),
        }
    }
    assert_eq!(log.len(), keys.len());
    for (i, k) in keys.iter().enumerate() {
        assert_eq!(reply_value(svc.call(&get_req(k))), format!("v{}", i));
    }
    let mut recovered = S::new("redis.aof".to_string());
    rebuild_data_from_aof(&mut recovered, &log);
    for (i, k) in keys.iter().enumerate() {
        assert_eq!(
            recovered.get(&k.to_string()).cloned(),
            Some(format!("v{}", i))
        );
    }
}
