use omnipaxos_kv::client::{classify_reply, request_for_operation, OpResult, ReplyOutcome, ServerRing};
use omnipaxos_kv::generator::Operation;

fn body(ok: bool, value: Option<&str>, error: &str) -> ReplyOutcome {
    ReplyOutcome::Body { ok, value: value.map(str::to_string), error: error.to_string() }
}

#[test]
fn replies_are_classified() {
    match classify_reply(body(true, Some("v1"), "")) {
        (OpResult::Success(Some(v)), false) => assert_eq!(v, "v1"),
        other => panic!("unexpected {other:?}"),
    }
    assert!(matches!(classify_reply(body(true, None, "")), (OpResult::Success(None), false)));
    assert!(matches!(classify_reply(body(false, None, "timeout")), (OpResult::Indeterminate, true)));
    assert!(matches!(classify_reply(body(false, None, "unavailable")), (OpResult::Indeterminate, true)));
    assert!(matches!(classify_reply(ReplyOutcome::TransportFailed), (OpResult::Indeterminate, true)));
    match classify_reply(body(false, Some("cur"), "precondition-failed")) {
        (OpResult::Fail(m), false) => assert_eq!(m, "precondition-failed"),
        other => panic!("unexpected {other:?}"),
    }
    match classify_reply(body(false, None, "")) {
        (OpResult::Fail(m), false) => assert_eq!(m, ""),
        other => panic!("unexpected {other:?}"),
    }
}

#[test]
fn requests_for_operations() {
    let r = request_for_operation(&Operation::Put { key: "k".into(), value: "v".into() });
    assert_eq!((r.op.as_str(), r.key.as_str(), r.value.as_deref(), r.expected.as_deref()), ("put", "k", Some("v"), None));
    let r = request_for_operation(&Operation::Get { key: "k".into() });
    assert_eq!((r.op.as_str(), r.value.as_deref(), r.expected.as_deref()), ("get", None, None));
    let r = request_for_operation(&Operation::Cas { key: "k".into(), expected: Some("e".into()), value: "n".into() });
    assert_eq!((r.op.as_str(), r.value.as_deref(), r.expected.as_deref()), ("cas", Some("n"), Some("e")));
}

#[test]
fn ring_rotates_through_servers() {
    let servers = vec!["http://a".to_string(), "http://b".to_string(), "http://c".to_string()];
    let mut ring = ServerRing::new(servers, 1);
    assert_eq!(ring.kv_url(), "http://b/kv");
    ring.rotate();
    assert_eq!(ring.kv_url(), "http://c/kv");
    ring.rotate();
    assert_eq!(ring.current_index(), 0);
    assert_eq!(ring.kv_url(), "http://a/kv");
    ring.rotate();
    assert_eq!(ring.current_index(), 1);
}

#[test]
fn reading_a_reply_rotates_only_on_open_outcomes() {
    let servers = vec!["http://a".to_string(), "http://b".to_string()];
    let mut ring = ServerRing::new(servers, 0);
    assert!(matches!(ring.read_reply(body(true, Some("x"), "")), OpResult::Success(_)));
    assert_eq!(ring.current_index(), 0);
    assert!(matches!(ring.read_reply(body(false, None, "precondition-failed")), OpResult::Fail(_)));
    assert_eq!(ring.current_index(), 0);
    assert!(matches!(ring.read_reply(body(false, None, "timeout")), OpResult::Indeterminate));
    assert_eq!(ring.current_index(), 1);
    assert!(matches!(ring.read_reply(ReplyOutcome::TransportFailed), OpResult::Indeterminate));
    assert_eq!(ring.current_index(), 0);
}
