use omnipaxos_kv::kv::{KVCommand, ServerMessage};
use omnipaxos_kv::shim::{command_for_request, next_command_id, reply_for_outcome, HttpStatus, KvRequest, ShimOutcome, FIRST_COMMAND_ID};

fn req(op: &str, key: &str, value: Option<&str>, expected: Option<&str>) -> KvRequest {
    KvRequest {
        op: op.to_string(),
        key: key.to_string(),
        value: value.map(str::to_string),
        expected: expected.map(str::to_string),
    }
}

#[test]
fn accepted_requests_become_commands() {
    match command_for_request(&req("put", "k1", Some("v1"), None)) {
        Ok(KVCommand::Put(k, v)) => assert_eq!((k.as_str(), v.as_str()), ("k1", "v1")),
        other => panic!("unexpected {other:?}"),
    }
    match command_for_request(&req("get", "k2", None, None)) {
        Ok(KVCommand::Get(k)) => assert_eq!(k, "k2"),
        other => panic!("unexpected {other:?}"),
    }
    match command_for_request(&req("cas", "k3", Some("new"), Some("old"))) {
        Ok(KVCommand::Cas(k, e, v)) => {
            assert_eq!(k, "k3");
            assert_eq!(e, Some("old".to_string()));
            assert_eq!(v, "new");
        }
        other => panic!("unexpected {other:?}"),
    }
    match command_for_request(&req("cas", "k3", Some("new"), None)) {
        Ok(KVCommand::Cas(_, e, _)) => assert_eq!(e, None),
        other => panic!("unexpected {other:?}"),
    }
}

#[test]
fn refused_requests_are_bad_requests() {
    match command_for_request(&req("put", "k1", None, None)) {
        Err((status, resp)) => {
            assert_eq!(status, HttpStatus::BadRequest);
            assert_eq!(status.code(), 400);
            assert!(!resp.ok);
            assert_eq!(resp.op, "put");
            assert_eq!(resp.key, "k1");
            assert_eq!(resp.error.as_deref(), Some("missing 'value' for put"));
        }
        other => panic!("unexpected {other:?}"),
    }
    match command_for_request(&req("cas", "k1", None, Some("x"))) {
        Err((_, resp)) => assert_eq!(resp.error.as_deref(), Some("missing 'value' for cas")),
        other => panic!("unexpected {other:?}"),
    }
    match command_for_request(&req("delete", "k1", None, None)) {
        Err((status, resp)) => {
            assert_eq!(status, HttpStatus::BadRequest);
            assert_eq!(resp.op, "delete");
            assert_eq!(resp.error.as_deref(), Some("unknown op: delete"));
            assert_eq!(resp.value, None);
        }
        other => panic!("unexpected {other:?}"),
    }
}

#[test]
fn outcomes_map_to_responses() {
    let (s, r) = reply_for_outcome("get".into(), "k".into(), ShimOutcome::Answered(ServerMessage::Read(3, Some("v".into()))));
    assert_eq!(s.code(), 200);
    assert!(r.ok);
    assert_eq!(r.value.as_deref(), Some("v"));
    assert_eq!(r.error, None);

    let (_, r) = reply_for_outcome("put".into(), "k".into(), ShimOutcome::Answered(ServerMessage::Write(3)));
    assert!(r.ok && r.value.is_none() && r.error.is_none());

    let (_, r) = reply_for_outcome("cas".into(), "k".into(), ShimOutcome::Answered(ServerMessage::CasOk(3)));
    assert!(r.ok);

    let (s, r) = reply_for_outcome("cas".into(), "k".into(), ShimOutcome::Answered(ServerMessage::CasFailed(3, Some("cur".into()))));
    assert_eq!(s, HttpStatus::Success);
    assert!(!r.ok);
    assert_eq!(r.value.as_deref(), Some("cur"));
    assert_eq!(r.error.as_deref(), Some("precondition-failed"));

    let (_, r) = reply_for_outcome("put".into(), "k".into(), ShimOutcome::Answered(ServerMessage::Error(3, "unavailable".into())));
    assert_eq!(r.error.as_deref(), Some("unavailable"));

    let (_, r) = reply_for_outcome("put".into(), "k".into(), ShimOutcome::Answered(ServerMessage::StartSignal(5)));
    assert_eq!(r.error.as_deref(), Some("unavailable"));

    let (s, r) = reply_for_outcome("put".into(), "k".into(), ShimOutcome::QueueClosed);
    assert_eq!(s.code(), 503);
    assert_eq!(r.error.as_deref(), Some("unavailable"));

    let (s, r) = reply_for_outcome("put".into(), "k".into(), ShimOutcome::ResponderDropped);
    assert_eq!(s.code(), 200);
    assert_eq!(r.error.as_deref(), Some("unavailable"));

    let (s, r) = reply_for_outcome("get".into(), "k".into(), ShimOutcome::TimedOut);
    assert_eq!(s.code(), 200);
    assert_eq!(r.error.as_deref(), Some("timeout"));
    assert_eq!(r.op, "get");
    assert_eq!(r.key, "k");
}

#[test]
fn command_ids_count_up_and_wrap() {
    let mut next = 1usize;
    assert_eq!(next_command_id(&mut next), 1);
    assert_eq!(next_command_id(&mut next), 2);
    assert_eq!(next, 3);
    let mut last = usize::MAX;
    assert_eq!(next_command_id(&mut last), usize::MAX);
    assert_eq!(last, 0);
}

#[test]
fn ids_from_the_first_count_up() {
    let mut next = FIRST_COMMAND_ID;
    for k in 0..100usize {
        assert_eq!(next_command_id(&mut next), k + 1);
    }
}
