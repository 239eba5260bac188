use arena_server::config::{Config, ConfigError, ConfigResponse, IceServerConfig, IceUrls, feature_flags};
use arena_server::jobs::{
    claim_job, classify_job, elect_leader, finish_job, is_leader, record_delivery, Job, JobStatus,
    JobTask, NodeSeen, OutboxMail,
};
use arena_server::leaderboard::{check_run, verify_score, RunCheck};
use arena_server::payments::{claim, EntitlementStore};
use arena_server::room::{Room, SnapshotKind};
use arena_server::shard::{MemoryShardRegistry, ShardInfo, ShardRegistry};
use arena_server::signal::{
    close_reason, error_json, signal_step, socket_step, SignalAction, SignalEvent, SignalState,
    SocketStep, WsEvent,
};

fn uuid_text(id: u128) -> String {
    uuid::Uuid::from_u128(id).to_string()
}

#[test]
fn chooses_least_loaded_shard() {
    let mut registry = MemoryShardRegistry::new();
    registry.register(ShardInfo::new("s1".into(), "addr1".into(), 0));
    registry.register(ShardInfo::new("s2".into(), "addr2".into(), 0));
    registry.heartbeat("s1", 5);
    registry.heartbeat("s2", 1);
    let shard = registry.least_loaded().unwrap();
    assert_eq!(shard.id, "s2");
    assert_eq!(shard.addr, "addr2");
}

#[test]
fn shard_registry_edges() {
    let mut registry = MemoryShardRegistry::new();
    assert!(registry.least_loaded().is_none());
    registry.heartbeat("ghost", 3);
    assert!(registry.least_loaded().is_none());
    registry.register(ShardInfo::new("s1".into(), "a".into(), 4));
    registry.register(ShardInfo::new("s1".into(), "b".into(), 9));
    let s = registry.least_loaded().unwrap();
    assert_eq!((s.addr.as_str(), s.load), ("b", 9));
}

#[test]
fn verify_score_reads_le_i32() {
    assert_eq!(verify_score(&[1, 2, 3]), None);
    assert_eq!(verify_score(&10i32.to_le_bytes()), Some(10));
    let mut bytes = (-7i32).to_le_bytes().to_vec();
    bytes.extend_from_slice(b"xy");
    assert_eq!(verify_score(&bytes), Some(-7));
    assert_eq!(verify_score(&i32::MIN.to_le_bytes()), Some(i32::MIN));
}

#[test]
fn post_run_rejects_malformed_base64() {
    assert!(matches!(check_run("not base64", 42), RunCheck::MalformedReplay));
}

#[test]
fn post_run_rejects_invalid_score() {
    assert!(matches!(check_run("KQAAAHJlc3Q=", 42), RunCheck::ScoreMismatch));
    assert!(matches!(check_run("", 0), RunCheck::ScoreMismatch));
}

#[test]
fn post_run_accepts_matching_score() {
    match check_run("CgAAAA==", 10) {
        RunCheck::Accepted(bytes) => assert_eq!(bytes, 10i32.to_le_bytes().to_vec()),
        _ => panic!("expected the run to be accepted"),
    }
}

#[test]
fn grant_then_list() {
    let mut store = EntitlementStore::new();
    let user = 0x1234u128;
    store.grant(user, "sku".to_string(), 0);
    let list = store.list(&uuid_text(user));
    assert_eq!(list, vec!["sku".to_string()]);
}

#[test]
fn repeated_grant_listed_once() {
    let mut store = EntitlementStore::new();
    let user = 0xfeed_beefu128;
    store.grant(user, "sku".to_string(), 0);
    store.grant(user, "sku".to_string(), 5);
    store.grant(7, "other".to_string(), 6);
    let list = store.list(&uuid_text(user));
    assert_eq!(list, vec!["sku".to_string()]);
    assert!(store.list("not-a-user").is_empty());
}

#[test]
fn uuid_text_and_claims() {
    let text = "01234567-89ab-cdef-0011-223344556677";
    let mut store = EntitlementStore::new();
    assert_eq!(claim(&mut store, None, "basic".into(), 0), 401);
    assert_eq!(claim(&mut store, Some("nope"), "basic".into(), 0), 401);
    assert_eq!(claim(&mut store, Some(text), "basic".into(), 0), 200);
    assert_eq!(store.list(text), vec!["basic".to_string()]);
    assert_eq!(uuid_text(0x0123_4567_89ab_cdef_0011_2233_4455_6677), text);
    assert_eq!(claim(&mut store, Some("0123456789ABCDEF0011223344556677"), "pro".into(), 1), 200);
    assert_eq!(store.list(text), vec!["basic".to_string(), "pro".to_string()]);
    assert!(store.list("0123456789ABCDEF0011223344556677").is_empty());
}

#[test]
fn updates_snapshot_after_delta() {
    let mut room = Room::new();
    room.add_connector();
    for expected in 1..=3u32 {
        let frame = room.begin_tick();
        assert_eq!(frame, expected);
        let data = room.snapshot_data();
        let delta_ok = room.last_snapshot().is_some();
        let kind = room.commit_snapshot(data, delta_ok);
        let want = if expected == 1 { SnapshotKind::Baseline } else { SnapshotKind::Delta };
        assert_eq!(kind, want);
        assert_eq!(room.last_snapshot().unwrap().frame, expected);
    }
    assert_eq!(room.recipients(), vec![0]);
}

#[test]
fn multiplayer_scoring() {
    let mut room = Room::new();
    room.add_connector();
    room.add_connector();
    room.begin_tick();
    let data = room.snapshot_data();
    assert_eq!(room.commit_snapshot(data, true), SnapshotKind::Baseline);

    let frame = room.begin_tick();
    assert!(room.accepts_input(frame));
    assert!(!room.accepts_input(frame + 1));
    room.record_hit(0);
    let data = room.snapshot_data();
    let scores: Vec<u32> = postcard::from_bytes(&data).unwrap();
    assert_eq!(scores, vec![1, 0]);
    room.commit_snapshot(data, true);

    room.begin_tick();
    room.record_hit(1);
    room.record_hit(5);
    let data = room.snapshot_data();
    let scores: Vec<u32> = postcard::from_bytes(&data).unwrap();
    assert_eq!(scores, vec![1, 1]);
    assert_eq!(data, vec![2, 1, 1]);
}

#[test]
fn snapshot_encoding_uses_varints() {
    let mut room = Room::new();
    assert_eq!(room.snapshot_data(), vec![0]);
    room.add_connector();
    for _ in 0..200 {
        room.record_hit(0);
    }
    assert_eq!(room.snapshot_data(), vec![1, 0xC8, 0x01]);
}

#[test]
fn websocket_signaling_completes_handshake() {
    let mut state = SignalState::AwaitOffer;
    let mut actions = Vec::new();
    for e in [
        SignalEvent::Offer,
        SignalEvent::Succeeded,
        SignalEvent::Succeeded,
        SignalEvent::Succeeded,
        SignalEvent::Succeeded,
    ] {
        let (next, action) = signal_step(state, e);
        state = next;
        actions.push(action);
    }
    assert_eq!(state, SignalState::Finished);
    assert_eq!(
        actions,
        vec![
            SignalAction::CreateConnector,
            SignalAction::SetRemote,
            SignalAction::CreateAnswer,
            SignalAction::SetLocal,
            SignalAction::SendAnswerAndJoin,
        ]
    );
}

#[test]
fn websocket_signaling_invalid_sdp_logs_and_closes() {
    let (s, a) = signal_step(SignalState::AwaitOffer, SignalEvent::Offer);
    assert_eq!(a, SignalAction::CreateConnector);
    let (s, a) = signal_step(s, SignalEvent::Succeeded);
    assert_eq!(a, SignalAction::SetRemote);
    let (s, a) = signal_step(s, SignalEvent::Failed);
    assert_eq!(s, SignalState::Finished);
    assert_eq!(a, SignalAction::RejectOffer { code: 1002 });
    assert_eq!(close_reason(1002), "invalid SDP");
    let err: serde_json::Value = serde_json::from_str(error_json()).unwrap();
    assert_eq!(err["error"], "invalid SDP offer");
}

#[test]
fn websocket_signaling_unexpected_binary_logs_and_closes() {
    let (s, a) = signal_step(SignalState::AwaitOffer, SignalEvent::NonTextMessage);
    assert_eq!(s, SignalState::Finished);
    assert_eq!(a, SignalAction::RejectOffer { code: 1003 });
    assert_eq!(close_reason(1003), "invalid message");
    assert_eq!(close_reason(1011), "pc error");
}

#[test]
fn websocket_logs_unexpected_messages_and_closes() {
    assert_eq!(socket_step(WsEvent::Text), SocketStep::CloseOnText);
    assert_eq!(socket_step(WsEvent::Binary), SocketStep::CloseOnBinary);
    assert_eq!(socket_step(WsEvent::Ping), SocketStep::SendPong);
    assert_eq!(socket_step(WsEvent::Pong), SocketStep::Continue);
    assert_eq!(socket_step(WsEvent::Close), SocketStep::Stop);
    assert_eq!(socket_step(WsEvent::Error), SocketStep::StopOnError);
}

fn full_config() -> Config {
    Config {
        bind_addr: Some("127.0.0.1:3000".into()),
        public_base_url: Some("http://localhost".into()),
        signaling_ws_url: Some("ws://127.0.0.1".into()),
        db_url: Some("127.0.0.1:9042".into()),
        db_max_conns: Some(4),
        migrate_on_start: false,
        enable_coop_coep: true,
        static_dir: Some("static".into()),
        assets_dir: Some("assets".into()),
        enable_sw: false,
        csp: None,
    }
}

#[test]
fn missing_bind_addr_errors() {
    let mut cfg = full_config();
    cfg.bind_addr = None;
    let err = match cfg.resolve(Vec::new(), &Vec::new()) {
        Err(e) => e,
        Ok(_) => panic!("expected an error"),
    };
    assert_eq!(err, ConfigError::MissingBindAddr);
    assert_eq!(err.message(), "ARENA_BIND_ADDR not set");
}

#[test]
fn config_resolution_and_public_view() {
    let mut cfg = full_config();
    cfg.assets_dir = None;
    assert!(matches!(cfg.resolve(Vec::new(), &Vec::new()), Err(ConfigError::MissingAssetsDir)));
    let env = vec![
        ("ARENA_FEATURE_DUCKS".to_string(), "On".to_string()),
        ("ARENA_FEATURE_Night".to_string(), "0".to_string()),
        ("PATH".to_string(), "/bin".to_string()),
    ];
    let ice = vec![IceServerConfig {
        urls: IceUrls::Single("stun:stun.example.org".into()).into_list(),
        username: None,
        credential: None,
    }];
    let resolved = match full_config().resolve(ice, &env) {
        Ok(r) => r,
        Err(e) => panic!("{}", e.message()),
    };
    assert_eq!(
        resolved.feature_flags,
        vec![("ducks".to_string(), true), ("night".to_string(), false)]
    );
    let public = ConfigResponse::from_resolved(resolved);
    assert_eq!(public.signal_url, "ws://127.0.0.1");
    assert_eq!(public.api_base_url, "http://localhost");
    assert!(public.enable_coop_coep);
    assert_eq!(public.ice_servers[0].urls, vec!["stun:stun.example.org".to_string()]);
    assert!(feature_flags(&Vec::new()).is_empty());
}

fn job(kind: &str, payload: &str) -> Job {
    Job {
        id: 1,
        kind: kind.into(),
        payload: payload.into(),
        status: JobStatus::Pending,
        attempts: 0,
        run_at: 100,
        created_at: 50,
        updated_at: 50,
    }
}

#[test]
fn job_lifecycle() {
    let claimed = claim_job(job("x", ""), None, 200);
    assert_eq!(claimed.status, JobStatus::Running);
    assert_eq!(claimed.attempts, 1);
    assert_eq!(claimed.updated_at, 200);
    let claimed = claim_job(job("x", ""), Some(3), 200);
    assert_eq!(claimed.attempts, 4);
    let done = finish_job(job("x", ""), true, Some(1), 300);
    assert_eq!(done.status, JobStatus::Done);
    let retry = finish_job(job("x", ""), false, Some(4), 300);
    assert_eq!(retry.status, JobStatus::Pending);
    assert_eq!(retry.run_at, 60_300);
    let failed = finish_job(job("x", ""), false, Some(5), 300);
    assert_eq!(failed.status, JobStatus::Failed);
    assert_eq!(failed.run_at, 100);
}

#[test]
fn job_kinds() {
    assert_eq!(classify_job("send_mail", "12"), JobTask::SendMail(12));
    assert_eq!(classify_job("send_mail", "twelve"), JobTask::BadPayload);
    assert_eq!(classify_job("send_mail", "-5"), JobTask::SendMail(-5));
    assert_eq!(classify_job("send_mail", "+7"), JobTask::SendMail(7));
    assert_eq!(classify_job("send_mail", ""), JobTask::BadPayload);
    assert_eq!(classify_job("send_mail", "9223372036854775808"), JobTask::BadPayload);
    assert_eq!(classify_job("send_mail", " 1"), JobTask::BadPayload);
    assert_eq!(classify_job("fail", ""), JobTask::Fail);
    assert_eq!(classify_job("cleanup", ""), JobTask::Nothing);
}

#[test]
fn outbox_delivery_records() {
    let mail = OutboxMail {
        id: 3,
        recipient: "a@example.com".into(),
        subject: "s".into(),
        body: "b".into(),
        created_at: 1,
        sent_at: None,
        error: None,
    };
    let sent = record_delivery(mail, Ok(()), 9);
    assert_eq!(sent.sent_at, Some(9));
    let failed = record_delivery(sent, Err("rate limited".into()), 10);
    assert_eq!(failed.error, Some("rate limited".to_string()));
    assert_eq!(failed.sent_at, Some(9));
}

#[test]
fn leader_election() {
    let nodes = vec![
        NodeSeen { id: 9, last_seen: 100_000 },
        NodeSeen { id: 3, last_seen: 80_000 },
        NodeSeen { id: 5, last_seen: 99_000 },
    ];
    let leader = elect_leader(&nodes, 100_000);
    assert_eq!(leader, Some(5));
    assert!(is_leader(leader, 5));
    assert!(!is_leader(leader, 9));
    assert_eq!(elect_leader(&nodes, 1_000_000), None);
}

#[test]
fn tick_counts_hits_for_the_new_frame_only() {
    let mut room = Room::new();
    room.add_connector();
    room.add_connector();
    let inputs: Vec<(usize, u32, bool)> = vec![
        (0, 1, true),
        (0, 2, true),
        (1, 1, false),
        (1, 1, true),
        (5, 1, true),
        (0, 1, true),
        (1, 0, true),
    ];
    assert!(room.inputs_fit(&inputs));
    let (frame, data) = room.tick(&inputs);
    assert_eq!(frame, 1);
    assert_eq!(data, postcard::to_allocvec(&vec![2u32, 1u32]).unwrap());
    assert_eq!(data, vec![2, 2, 1]);
    let kind = room.commit_snapshot(data.clone(), false);
    assert_eq!(kind, SnapshotKind::Baseline);
    assert_eq!(room.last_snapshot().unwrap().frame, 1);
    assert_eq!(room.last_snapshot().unwrap().data, data);
    // Next tick: the old frame's input no longer counts.
    let (frame, data) = room.tick(&vec![(0, 1, true), (1, 2, true)]);
    assert_eq!(frame, 2);
    assert_eq!(data, vec![2, 2, 2]);
}

#[test]
fn feature_flags_later_variable_wins_in_map() {
    let vars = vec![
        ("ARENA_FEATURE_Chat".to_string(), "YES".to_string()),
        ("PATH".to_string(), "/bin".to_string()),
        ("ARENA_FEATURE_CHAT".to_string(), "off".to_string()),
        ("ARENA_FEATURE_duck".to_string(), "1".to_string()),
    ];
    let map: std::collections::HashMap<String, bool> = feature_flags(&vars).into_iter().collect();
    assert_eq!(map.len(), 2);
    assert_eq!(map.get("chat"), Some(&false));
    assert_eq!(map.get("duck"), Some(&true));
    assert_eq!(map.get("path"), None);
}
