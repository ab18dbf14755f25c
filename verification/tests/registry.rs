use lazy_proxy::registry::{
    owes_disconnect, ConnEvent, ConnectOutcome, ConnectionTracker, ProcessSlot, ProcessState,
};

#[test]
fn test_tracker_counts_connects_and_disconnects() {
    let mut t = ConnectionTracker::new(500);
    assert_eq!(t.active_connections(), 0);
    t.record_connect();
    t.record_connect();
    assert_eq!(t.active_connections(), 2);
    let remaining = t.record_disconnect(1_000);
    assert_eq!(remaining, 1);
    let remaining = t.record_disconnect(1_200);
    assert_eq!(remaining, 0);
    assert_eq!(t.active_connections(), 0);
}

#[test]
fn test_shutdown_due_only_after_full_window() {
    let mut t = ConnectionTracker::new(500);
    t.record_connect();
    let remaining = t.record_disconnect(1_000);
    assert_eq!(remaining, 0);
    // The window runs from the disconnect at 1000 for 500 ms.
    assert!(!t.shutdown_due(1_000));
    assert!(!t.shutdown_due(1_499));
    assert!(t.shutdown_due(1_500));
    assert!(t.shutdown_due(2_000));
}

#[test]
fn test_connect_during_wait_vetoes_shutdown() {
    let mut t = ConnectionTracker::new(500);
    t.record_connect();
    t.record_disconnect(1_000);
    // A new connection arrives during the debounce sleep: the re-check
    // must not shut the backend down, however much time has passed.
    t.record_connect();
    assert!(!t.shutdown_due(1_500));
    assert!(!t.shutdown_due(10_000));
}

#[test]
fn test_fresh_disconnect_during_wait_restarts_window() {
    let mut t = ConnectionTracker::new(500);
    t.record_connect();
    t.record_connect();
    t.record_disconnect(1_000);
    // The second disconnect lands at 1400: the woken sleeper from the
    // first disconnect re-checks at 1501 and must still hold off.
    t.record_disconnect(1_400);
    assert!(!t.shutdown_due(1_501));
    assert!(t.shutdown_due(1_900));
}

#[test]
fn test_apply_events_matches_net_count() {
    let mut t = ConnectionTracker::new(250);
    let events = vec![
        ConnEvent::Connect,
        ConnEvent::Connect,
        ConnEvent::Disconnect(100),
        ConnEvent::Connect,
        ConnEvent::Disconnect(220),
        ConnEvent::Disconnect(300),
        ConnEvent::Connect,
    ];
    t.apply_events(&events);
    // Four connects, three completed disconnects.
    assert_eq!(t.active_connections(), 1);
    assert_eq!(t.last_activity_millis, 300);
}

#[test]
fn test_process_slot_life_cycle() {
    let mut slot = ProcessSlot::new();
    assert_eq!(slot.state, ProcessState::Stopped);
    assert!(slot.needs_spawn());
    slot.begin_start();
    assert_eq!(slot.state, ProcessState::Starting);
    assert!(!slot.needs_spawn());
    slot.mark_ready();
    assert_eq!(slot.state, ProcessState::Ready);
    slot.begin_shutdown();
    assert_eq!(slot.state, ProcessState::Stopping);
    slot.finish_shutdown();
    // The slot is clear again: the next connect respawns.
    assert_eq!(slot.state, ProcessState::Stopped);
    assert!(slot.needs_spawn());
}

#[test]
fn test_only_proxied_outcome_owes_disconnect() {
    assert!(owes_disconnect(ConnectOutcome::Proxied));
    assert!(!owes_disconnect(ConnectOutcome::Cached));
    assert!(!owes_disconnect(ConnectOutcome::Failed));
}
