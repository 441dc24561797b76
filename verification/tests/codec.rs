use mini_redis::aof::{operation, redis_operation};
use mini_redis::numfmt::usize_to_string;
use mini_redis::request::{Request, RequestType};

fn set_req(k: &str, v: &str) -> Request {
    Request {
        key: Some(vec![k.to_string()]),
        value: Some(v.to_string()),
        request_type: RequestType::SetCmd,
    }
}

#[test]
fn set_line_format_exact() {
    let line = redis_operation(&set_req("a", "1"));
    assert_eq!(line, "SET a 1");
}

#[test]
fn del_line_format_exact() {
    let req = Request {
        key: Some(vec!["a".to_string(), "b".to_string()]),
        value: None,
        request_type: RequestType::Del,
    };
    assert_eq!(redis_operation(&req), "DEL a b");
}

#[test]
fn non_mutating_request_has_empty_line() {
    let ping = Request { key: None, value: None, request_type: RequestType::Ping };
    assert_eq!(redis_operation(&ping), "");
    let bad_set = Request {
        key: Some(vec!["a".to_string()]),
        value: None,
        request_type: RequestType::SetCmd,
    };
    assert_eq!(redis_operation(&bad_set), "");
}

#[test]
fn parse_set_line() {
    let req = operation(&"SET a 1".to_string());
    assert_eq!(req.request_type, RequestType::SetCmd);
    assert_eq!(req.key, Some(vec!["a".to_string()]));
    assert_eq!(req.value, Some("1".to_string()));
}

#[test]
fn parse_del_line_many_keys() {
    let req = operation(&"DEL a b c".to_string());
    assert_eq!(req.request_type, RequestType::Del);
    assert_eq!(
        req.key,
        Some(vec!["a".to_string(), "b".to_string(), "c".to_string()])
    );
    assert_eq!(req.value, None);
}

#[test]
fn parse_unknown_keyword_is_illegal() {
    let req = operation(&"FLUSH a".to_string());
    assert_eq!(req.request_type, RequestType::Illegal);
    assert_eq!(req.key, None);
    assert_eq!(req.value, None);
}

#[test]
fn parse_empty_line_is_illegal() {
    let req = operation(&"".to_string());
    assert_eq!(req.request_type, RequestType::Illegal);
}

#[test]
fn parse_set_with_wrong_token_count_is_illegal() {
    assert_eq!(operation(&"SET a".to_string()).request_type, RequestType::Illegal);
    assert_eq!(operation(&"SET a 1 2".to_string()).request_type, RequestType::Illegal);
}

#[test]
fn parse_bare_del_has_no_keys() {
    let req = operation(&"DEL".to_string());
    assert_eq!(req.request_type, RequestType::Del);
    assert_eq!(req.key, Some(vec![]));
}

#[test]
fn set_then_parse_round_trip() {
    let line = redis_operation(&set_req("key", "value"));
    let back = operation(&line);
    assert_eq!(back.request_type, RequestType::SetCmd);
    assert_eq!(back.key, Some(vec!["key".to_string()]));
    assert_eq!(back.value, Some("value".to_string()));
}

#[test]
fn del_then_parse_round_trip() {
    let req = Request {
        key: Some(vec!["x".to_string(), "y".to_string()]),
        value: None,
        request_type: RequestType::Del,
    };
    let line = redis_operation(&req);
    let back = operation(&line);
    assert_eq!(back.request_type, RequestType::Del);
    assert_eq!(back.key, Some(vec!["x".to_string(), "y".to_string()]));
}

#[test]
fn decimal_formatting_exact() {
    assert_eq!(usize_to_string(0), "0");
    assert_eq!(usize_to_string(7), "7");
    assert_eq!(usize_to_string(10), "10");
    assert_eq!(usize_to_string(123), "123");
    assert_eq!(usize_to_string(1000), "1000");
}

#[test]
fn parse_set_with_empty_value() {
    let req = operation(&"SET a ".to_string());
    assert_eq!(req.request_type, RequestType::SetCmd);
    assert_eq!(req.key, Some(vec!["a".to_string()]));
    assert_eq!(req.value, Some("".to_string()));
}

#[test]
fn empty_value_round_trip() {
    let line = redis_operation(&set_req("a", ""));
    assert_eq!(line, "SET a ");
    let back = operation(&line);
    assert_eq!(back.request_type, RequestType::SetCmd);
    assert_eq!(back.value, Some("".to_string()));
}

#[test]
fn key_with_space_breaks_the_line_format() {
    // The space-delimited format cannot carry keys or values that contain a
    // space: the recorded line parses back as something else. The store
    // itself accepts such a key; only its durability is lost.
    let line = redis_operation(&set_req("a b", "1"));
    assert_eq!(line, "SET a b 1");
    let back = operation(&line);
    assert_ne!(back.key, Some(vec!["a b".to_string()]));
}
