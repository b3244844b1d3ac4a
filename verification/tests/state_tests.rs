use tunnlto::state::{
    SupervisorError, TunnelStatus, WiresockState, WiresockStateStore, WiresockStatus,
};

fn states_equal(a: &WiresockState, b: &WiresockState) -> bool {
    a.tunnel_id == b.tunnel_id && a.wiresock_status == b.wiresock_status
        && a.tunnel_status == b.tunnel_status && a.logs == b.logs
}

#[test]
fn initial_state_is_stopped_disconnected_empty() {
    let store = WiresockStateStore::new();
    let s = store.snapshot();
    assert_eq!(s.tunnel_id, "");
    assert_eq!(s.wiresock_status, WiresockStatus::Stopped);
    assert_eq!(s.tunnel_status, TunnelStatus::Disconnected);
    assert!(s.logs.is_empty());
}

#[test]
fn begin_enable_moves_to_starting_with_fresh_logs() {
    let mut store = WiresockStateStore::new();
    let snap = store.begin_enable("t1").expect("enable from stopped must be accepted");
    assert_eq!(snap.tunnel_id, "t1");
    assert_eq!(snap.wiresock_status, WiresockStatus::Starting);
    assert_eq!(snap.tunnel_status, TunnelStatus::Disconnected);
    assert!(snap.logs.is_empty());
}

#[test]
fn enable_rejected_while_starting() {
    let mut store = WiresockStateStore::new();
    store.begin_enable("t1").unwrap();
    let before = store.snapshot();
    let r = store.begin_enable("t2");
    assert_eq!(r.err(), Some(SupervisorError::AlreadyRunning));
    assert!(states_equal(&before, &store.snapshot()));
}

#[test]
fn enable_rejected_while_running() {
    let mut store = WiresockStateStore::new();
    store.begin_enable("t1").unwrap();
    store.mark_running();
    let before = store.snapshot();
    let r = store.begin_enable("t2");
    assert_eq!(r.err(), Some(SupervisorError::AlreadyRunning));
    assert!(states_equal(&before, &store.snapshot()));
}

#[test]
fn blank_output_lines_are_discarded() {
    let mut store = WiresockStateStore::new();
    store.begin_enable("t1").unwrap();
    store.mark_running();
    let before = store.snapshot();
    let published = store.record_output_line("");
    assert!(published.is_none());
    assert!(states_equal(&before, &store.snapshot()));
}

#[test]
fn started_marker_connects_the_tunnel() {
    let mut store = WiresockStateStore::new();
    store.begin_enable("t1").unwrap();
    store.mark_running();
    let snap = store.record_output_line("plain log line").unwrap();
    assert_eq!(snap.tunnel_status, TunnelStatus::Disconnected);
    assert_eq!(snap.logs, vec![String::from("plain log line")]);
    let snap = store.record_output_line("2024-01-01 Tunnel has started, handshake done").unwrap();
    assert_eq!(snap.tunnel_status, TunnelStatus::Connected);
    assert_eq!(snap.logs.len(), 2);
}

#[test]
fn process_exit_resets_and_appends_terminal_line() {
    let mut store = WiresockStateStore::new();
    store.begin_enable("t1").unwrap();
    store.mark_running();
    store.record_output_line("Tunnel has started").unwrap();
    let snap = store.process_exited();
    assert_eq!(snap.wiresock_status, WiresockStatus::Stopped);
    assert_eq!(snap.tunnel_status, TunnelStatus::Disconnected);
    assert_eq!(
        snap.logs.last().map(String::as_str),
        Some("Tunnel Disabled. Wiresock process stopped")
    );
}

#[test]
fn failed_attempt_keeps_logs_until_next_enable() {
    let mut store = WiresockStateStore::new();
    store.begin_enable("t1").unwrap();
    store.mark_running();
    store.record_output_line("spawn went wrong").unwrap();
    // the guard closing the failed attempt: statuses reset, logs kept
    let snap = store.reset_after_attempt();
    assert_eq!(snap.wiresock_status, WiresockStatus::Stopped);
    assert_eq!(snap.tunnel_status, TunnelStatus::Disconnected);
    assert_eq!(snap.logs, vec![String::from("spawn went wrong")]);
    // the logs are cleared only on the next accepted enable
    let snap = store.begin_enable("t2").unwrap();
    assert!(snap.logs.is_empty());
    assert_eq!(snap.tunnel_id, "t2");
}

#[test]
fn disable_while_stopped_changes_nothing() {
    let mut store = WiresockStateStore::new();
    store.begin_enable("t1").unwrap();
    store.mark_running();
    store.process_exited();
    let before = store.snapshot();
    // disable only issues the kill command; it never touches the state, so
    // a disable with no process running is a no-op for the state machine
    // and appends no second terminal line.
    let (_program, _args) = tunnlto::launch::kill_command();
    let after = store.snapshot();
    assert!(states_equal(&before, &after));
    let terminal_lines = after
        .logs
        .iter()
        .filter(|l| l.as_str() == "Tunnel Disabled. Wiresock process stopped")
        .count();
    assert_eq!(terminal_lines, 1);
}

#[test]
fn status_codes_match_published_strings() {
    assert_eq!(WiresockStatus::Stopped.code(), "STOPPED");
    assert_eq!(WiresockStatus::Starting.code(), "STARTING");
    assert_eq!(WiresockStatus::Running.code(), "RUNNING");
    assert_eq!(TunnelStatus::Disconnected.code(), "DISCONNECTED");
    assert_eq!(TunnelStatus::Connected.code(), "CONNECTED");
}

#[test]
fn error_codes_are_machine_readable() {
    assert_eq!(SupervisorError::NotInstalled.code(), "WIRESOCK_NOT_INSTALLED");
    assert_eq!(SupervisorError::AlreadyRunning.code(), "ALREADY_RUNNING");
    assert_eq!(SupervisorError::ConfigWriteFailure.code(), "CONFIG_WRITE_FAILURE");
    assert_eq!(SupervisorError::SpawnFailure.code(), "SPAWN_FAILURE");
    assert_eq!(SupervisorError::TrackingFailure.code(), "TRACKING_FAILURE");
    assert_eq!(SupervisorError::WaitError.code(), "WAIT_ERROR");
}

#[test]
fn already_running_error_comes_only_from_busy_state() {
    let mut store = WiresockStateStore::new();
    assert!(store.begin_enable("t1").is_ok());
    assert_eq!(store.begin_enable("t1").err(), Some(SupervisorError::AlreadyRunning));
}

#[test]
fn publication_event_name_is_fixed() {
    assert_eq!(tunnlto::state::state_event_name(), "wiresock_state");
}
