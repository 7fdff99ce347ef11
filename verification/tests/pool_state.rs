use multiobs::config::{ObsInstanceConfig, TargetGroup};
use multiobs::pool::{classify_error, connected_status, status_text, Attempt, Backoff, CallError, ObsFailure, PoolOptions, PoolState};
use multiobs::status::ConnectionStatus;

fn instance(id: &str, port: u16, password: &str) -> ObsInstanceConfig {
    ObsInstanceConfig {
        id: id.into(),
        name: id.into(),
        host: " 127.0.0.1 ".into(),
        port,
        password: password.into(),
        color: "#4c8dff".into(),
        enabled: true,
    }
}

fn started_ids(plan: &multiobs::pool::ReconcilePlan) -> Vec<String> {
    plan.started.iter().map(|(id, _)| id.clone()).collect()
}

#[test]
fn options_for_defaults_and_tests() {
    let defaults = PoolOptions::default();
    assert_eq!((defaults.connect_timeout_ms, defaults.initial_backoff_ms, defaults.max_backoff_ms), (5000, 500, 30000));
    let fast = PoolOptions::for_tests();
    assert_eq!((fast.connect_timeout_ms, fast.initial_backoff_ms, fast.max_backoff_ms), (2000, 40, 200));
}

#[test]
fn backoff_doubles_up_to_the_cap_and_resets() {
    let mut backoff = Backoff::new(&PoolOptions::for_tests());
    let waits: Vec<u64> = (0..5).map(|_| backoff.next_delay()).collect();
    assert_eq!(waits, vec![40, 80, 160, 200, 200]);
    backoff.reset();
    assert_eq!(backoff.next_delay(), 40);
    let mut huge = Backoff { current_ms: u64::MAX, initial_ms: 1, max_ms: u64::MAX };
    assert_eq!(huge.next_delay(), u64::MAX);
    assert_eq!(huge.current_ms, u64::MAX);
}

#[test]
fn reconcile_starts_each_instance_once_and_keeps_live_ones() {
    let mut pool: PoolState<u32> = PoolState::new(PoolOptions::for_tests());
    let first = pool.reconcile(vec![instance("a", 1, ""), instance("b", 2, "")], vec![]);
    assert_eq!(started_ids(&first), vec!["a".to_string(), "b".to_string()]);
    assert!(first.stopped.is_empty());
    let again = pool.reconcile(vec![instance("a", 1, ""), instance("b", 2, "")], vec![]);
    assert!(again.started.is_empty());
    assert!(again.stopped.is_empty());
    let moved = pool.reconcile(vec![instance("a", 1, ""), instance("b", 3, "")], vec![TargetGroup { id: "g".into(), name: "G".into(), members: vec!["a".into()] }]);
    assert_eq!(started_ids(&moved), vec!["b".to_string()]);
    assert_eq!(moved.stopped, vec!["b".to_string()]);
    assert_eq!(pool.groups().len(), 1);
    let dropped = pool.reconcile(vec![instance("b", 3, "")], vec![]);
    assert_eq!(dropped.stopped, vec!["a".to_string()]);
    assert!(pool.config("a").is_none());
    assert_eq!(pool.configs().len(), 1);
}

#[test]
fn statuses_and_clients_follow_the_generation() {
    let mut pool: PoolState<u32> = PoolState::new(PoolOptions::for_tests());
    let plan = pool.reconcile(vec![instance("a", 1, "")], vec![]);
    let generation = plan.started[0].1;
    let id = "a".to_string();
    assert!(pool.generation_current("a", generation));
    assert!(!pool.generation_current("a", generation + 1));
    assert!(matches!(pool.client(&id), Err(CallError::Unavailable { .. })));
    assert!(matches!(pool.client(&"zzz".to_string()), Err(CallError::Unknown(_))));
    assert!(pool.publish_status(&id, generation, ConnectionStatus::Connecting).is_some());
    assert!(matches!(pool.status("a"), Some(ConnectionStatus::Connecting)));
    assert!(pool.publish_status(&id, generation + 1, ConnectionStatus::Disabled).is_none());
    assert!(matches!(pool.status("a"), Some(ConnectionStatus::Connecting)));
    assert!(pool.store_client(&id, generation, 7));
    assert_eq!(pool.client(&id).ok().copied(), Some(7));
    assert!(!pool.store_client(&id, generation + 1, 8));
    pool.clear_client("a", generation);
    assert!(pool.client(&id).is_err());
    let statuses = pool.statuses();
    assert_eq!(statuses.len(), 1);
    assert_eq!(statuses[0].id, "a");
    assert!(matches!(statuses[0].status, ConnectionStatus::Connecting));
}

#[test]
fn supervisors_stop_wait_or_connect() {
    let mut pool: PoolState<u32> = PoolState::new(PoolOptions::for_tests());
    let plan = pool.reconcile(
        vec![instance("a", 4455, "secret"), ObsInstanceConfig { enabled: false, ..instance("b", 4456, "") }],
        vec![],
    );
    let a = plan.started[0].1;
    let b = plan.started[1].1;
    let (attempt, snapshot) = pool.begin_attempt(&"a".to_string(), a, false);
    assert!(matches!(snapshot.unwrap().status, ConnectionStatus::Connecting));
    assert!(matches!(pool.status("a"), Some(ConnectionStatus::Connecting)));
    match attempt {
        Attempt::Connect(target) => {
            assert_eq!(target.host, "127.0.0.1");
            assert_eq!(target.port, 4455);
            assert_eq!(target.password, Some("secret".to_string()));
            assert_eq!(target.timeout_ms, 2000);
        },
        _ => panic!("an enabled instance connects"),
    }
    let (disabled, reported) = pool.begin_attempt(&"b".to_string(), b, false);
    assert!(matches!(disabled, Attempt::Disabled));
    assert!(matches!(reported.unwrap().status, ConnectionStatus::Disabled));
    let (stopped, none) = pool.begin_attempt(&"a".to_string(), a, true);
    assert!(matches!(stopped, Attempt::Stop));
    assert!(none.is_none());
    assert!(matches!(pool.begin_attempt(&"a".to_string(), a + 100, false).0, Attempt::Stop));
    let endpoint = pool.config("a").unwrap().endpoint_key();
    assert!(pool.endpoint_unchanged("a", &endpoint));
    pool.reconcile(vec![instance("a", 4455, "other")], vec![]);
    assert!(!pool.endpoint_unchanged("a", &endpoint));
}

#[test]
fn reconnect_replaces_the_supervisor() {
    let mut pool: PoolState<u32> = PoolState::new(PoolOptions::for_tests());
    let plan = pool.reconcile(
        vec![instance("a", 1, "")],
        vec![TargetGroup { id: "g".into(), name: "G".into(), members: vec!["a".into()] }],
    );
    let old = plan.started[0].1;
    assert!(pool.store_client(&"a".to_string(), old, 1));
    let again = pool.reconnect("a");
    assert_eq!(again.stopped, vec!["a".to_string()]);
    assert_eq!(again.started.len(), 1);
    assert!(again.started[0].1 > old);
    assert!(!pool.generation_current("a", old));
    assert!(pool.client(&"a".to_string()).is_err());
    assert_eq!(pool.groups().len(), 1);
    assert_eq!(pool.groups()[0].members, vec!["a".to_string()]);
    assert_eq!(pool.configs().len(), 1);
    assert_eq!(pool.options().initial_backoff_ms, 40);
}

#[test]
fn failed_connections_are_classified() {
    match classify_error(&ObsFailure::AuthFailed { message: "bad password".into() }) {
        ConnectionStatus::AuthFailed { message } => assert_eq!(message, "bad password"),
        _ => panic!("an authentication failure"),
    }
    match classify_error(&ObsFailure::Other { message: "refused".into() }) {
        ConnectionStatus::Unreachable { message } => assert_eq!(message, "refused"),
        _ => panic!("unreachable"),
    }
    match connected_status(None) {
        ConnectionStatus::Connected { obs_version, websocket_version } => {
            assert_eq!(obs_version, "unknown");
            assert_eq!(websocket_version, "unknown");
        },
        _ => panic!("connected"),
    }
    assert!(connected_status(Some(("31.0.0".into(), "5.5.0".into()))).is_connected());
}

#[test]
fn statuses_read_as_debug_text() {
    assert_eq!(status_text(&ConnectionStatus::Disabled), "Disabled");
    assert_eq!(
        status_text(&ConnectionStatus::AuthFailed { message: "say \"no\"".into() }),
        "AuthFailed { message: \"say \\\"no\\\"\" }"
    );
    assert_eq!(
        CallError::Unavailable { id: "a".into(), status: "Connecting".into() }.message(),
        "instance `a` is not connected (Connecting)"
    );
    assert_eq!(CallError::Unknown("x".into()).message(), "instance `x` is not configured");
}

#[test]
fn supervisor_transitions_report_status() {
    let mut pool: PoolState<u32> = PoolState::new(PoolOptions::for_tests());
    let plan = pool.reconcile(vec![instance("a", 1, "")], vec![]);
    let generation = plan.started[0].1;
    let id = "a".to_string();
    let snapshot = pool.on_connected(&id, generation, 3, None).unwrap();
    assert_eq!(snapshot.id, "a");
    match snapshot.status {
        ConnectionStatus::Connected { obs_version, websocket_version } => {
            assert_eq!(obs_version, "unknown");
            assert_eq!(websocket_version, "unknown");
        },
        _ => panic!("connected"),
    }
    assert_eq!(pool.client(&id).ok().copied(), Some(3));
    match pool.on_disconnected(&id, generation).unwrap().status {
        ConnectionStatus::Unreachable { message } => assert_eq!(message, "disconnected"),
        _ => panic!("unreachable"),
    }
    assert!(pool.client(&id).is_err());
    assert!(matches!(pool.begin_attempt(&id, generation, false).0, Attempt::Connect(_)));
    let refused = pool.on_connect_failed(&id, generation, &ObsFailure::AuthFailed { message: "nope".into() }).unwrap();
    assert!(matches!(refused.status, ConnectionStatus::AuthFailed { .. }));
    assert!(pool.on_connected(&id, generation + 1, 4, None).is_none());
    assert!(pool.client(&id).is_err());
    assert!(pool.on_disconnected(&id, generation + 1).is_none());
    assert!(matches!(pool.status("a"), Some(ConnectionStatus::AuthFailed { .. })));
}

#[test]
fn backoff_after_failures_in_a_row() {
    let options = PoolOptions { connect_timeout_ms: 1, initial_backoff_ms: 500, max_backoff_ms: 30000 };
    let mut backoff = Backoff::new(&options);
    let waits: Vec<u64> = (0..9).map(|_| backoff.next_delay()).collect();
    assert_eq!(waits, vec![500, 1000, 2000, 4000, 8000, 16000, 30000, 30000, 30000]);
}
