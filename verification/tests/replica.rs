use omnipaxos_kv::kv::{Command, KVCommand, ServerMessage};
use omnipaxos_kv::replica::{
    leader_tick_action, start_signal_clients, start_time_after, startup_step, Delivery, LeaderAction, Replica,
    StartupAction, StartupEvent, SHIM_CLIENT_ID,
};

fn cmd(client_id: u64, coordinator_id: u64, id: usize, kv_cmd: KVCommand) -> Command {
    Command { client_id, coordinator_id, id, kv_cmd }
}

#[test]
fn decided_commands_are_applied_in_order_and_answered() {
    let mut r: Replica<&'static str> = Replica::new(1);
    assert_eq!(r.undecided_from(0), None);
    assert_eq!(r.undecided_from(3), Some(0));
    r.register_shim_request(7, "responder-7");
    let out = r.apply_decided(
        3,
        vec![
            cmd(5, 1, 1, KVCommand::Put("k".into(), "v1".into())),
            cmd(6, 2, 1, KVCommand::Put("k".into(), "v2".into())),
            cmd(SHIM_CLIENT_ID, 1, 7, KVCommand::Get("k".into())),
        ],
    );
    assert_eq!(r.undecided_from(3), None);
    assert_eq!(r.undecided_from(4), Some(3));
    assert_eq!(out.len(), 2);
    match &out[0] {
        Delivery::Client(5, ServerMessage::Write(1)) => {}
        _ => panic!("first answer should be the write to client 5"),
    }
    match &out[1] {
        Delivery::Shim(resp, ServerMessage::Read(7, Some(v))) => {
            assert_eq!(*resp, "responder-7");
            assert_eq!(v, "v2");
        }
        _ => panic!("second answer should be the shim read"),
    }
    let out = r.apply_decided(4, vec![cmd(SHIM_CLIENT_ID, 1, 7, KVCommand::Get("k".into()))]);
    assert_eq!(out.len(), 0, "a shim command is answered only while its responder waits");
}

#[test]
fn cas_answers_report_current_value() {
    let mut r: Replica<u8> = Replica::new(2);
    let out = r.apply_decided(4, vec![
        cmd(9, 2, 1, KVCommand::Cas("k".into(), None, "a".into())),
        cmd(9, 2, 2, KVCommand::Cas("k".into(), None, "b".into())),
        cmd(9, 2, 3, KVCommand::Delete("k".into())),
        cmd(9, 2, 4, KVCommand::Get("k".into())),
    ]);
    assert_eq!(out.len(), 4);
    assert!(matches!(&out[0], Delivery::Client(9, ServerMessage::CasOk(1))));
    match &out[1] {
        Delivery::Client(9, ServerMessage::CasFailed(2, Some(cur))) => assert_eq!(cur, "a"),
        _ => panic!("second cas should fail"),
    }
    assert!(matches!(&out[2], Delivery::Client(9, ServerMessage::Write(3))));
    assert!(matches!(&out[3], Delivery::Client(9, ServerMessage::Read(4, None))));
}

#[test]
fn rejected_shim_request_is_answered_unavailable() {
    let mut r: Replica<u32> = Replica::new(1);
    r.register_shim_request(4, 40);
    match r.reject_shim_request(4) {
        Some(Delivery::Shim(40, ServerMessage::Error(4, msg))) => assert_eq!(msg, "unavailable"),
        _ => panic!("expected an unavailable answer"),
    }
    assert!(r.reject_shim_request(4).is_none());
}

#[test]
fn leader_ticks_and_start_signals() {
    assert_eq!(leader_tick_action(1, Some((1, true))), LeaderAction::Start);
    assert_eq!(leader_tick_action(1, Some((1, false))), LeaderAction::TryTakeover);
    assert_eq!(leader_tick_action(1, Some((2, true))), LeaderAction::TryTakeover);
    assert_eq!(leader_tick_action(1, None), LeaderAction::TryTakeover);
    assert_eq!(start_signal_clients(3), vec![1, 2, 3]);
    assert!(start_signal_clients(0).is_empty());
    assert_eq!(start_time_after(1_000), 3_000);
}

#[test]
fn initial_leader_announces_start_to_peers_and_clients() {
    let peers = vec![2, 3];
    let tick = |current_leader, now| StartupEvent::TakeoverTick { current_leader, now };
    assert_eq!(
        startup_step(1, 1, &peers, 2, tick(Some((1, true)), 10_000)),
        StartupAction::AnnounceStart { start: 12_000, peers: vec![2, 3], clients: vec![1, 2] }
    );
    assert_eq!(startup_step(1, 1, &peers, 2, tick(Some((1, false)), 10_000)), StartupAction::TryTakeover);
    assert_eq!(startup_step(1, 1, &peers, 2, tick(Some((2, true)), 10_000)), StartupAction::TryTakeover);
    assert_eq!(startup_step(1, 1, &peers, 2, tick(None, 10_000)), StartupAction::TryTakeover);
}

#[test]
fn follower_passes_the_start_on_to_its_clients() {
    let peers = vec![1, 3];
    assert_eq!(
        startup_step(2, 1, &peers, 3, StartupEvent::LeaderStartSignal(12_000)),
        StartupAction::SignalClients { start: 12_000, clients: vec![1, 2, 3] }
    );
    assert_eq!(
        startup_step(2, 1, &peers, 3, StartupEvent::TakeoverTick { current_leader: Some((2, true)), now: 5 }),
        StartupAction::Wait
    );
}
