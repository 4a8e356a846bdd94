use zmk_battery_center::aggregator::MonitorConnectionState;

#[test]
fn new_state_is_disconnected() {
    let state = MonitorConnectionState::new();
    assert!(!state.is_connected());
    assert_eq!(state.connected_workers(), 0);
}

#[test]
fn first_worker_up_raises_the_status() {
    let mut state = MonitorConnectionState::new();
    assert_eq!(state.update(1, true), Some(true));
    assert!(state.is_connected());
    assert_eq!(state.connected_workers(), 1);
}

#[test]
fn second_worker_up_is_silent() {
    let mut state = MonitorConnectionState::new();
    assert_eq!(state.update(1, true), Some(true));
    assert_eq!(state.update(2, true), None);
    assert_eq!(state.connected_workers(), 2);
}

#[test]
fn status_falls_only_when_the_last_worker_drops() {
    let mut state = MonitorConnectionState::new();
    state.update(1, true);
    state.update(2, true);
    state.update(3, true);
    assert_eq!(state.update(1, false), None);
    assert_eq!(state.update(2, false), None);
    assert!(state.is_connected());
    assert_eq!(state.update(3, false), Some(false));
    assert!(!state.is_connected());
}

#[test]
fn repeated_reports_of_one_worker_are_silent() {
    let mut state = MonitorConnectionState::new();
    assert_eq!(state.update(7, false), None);
    assert_eq!(state.update(7, true), Some(true));
    assert_eq!(state.update(7, true), None);
    assert_eq!(state.update(7, false), Some(false));
    assert_eq!(state.update(7, false), None);
}

#[test]
fn events_equal_emptiness_transitions() {
    let edges: Vec<(u64, bool)> = vec![
        (1, true),
        (2, true),
        (1, false),
        (2, false),
        (2, false),
        (3, true),
        (3, true),
        (1, true),
        (3, false),
        (1, false),
    ];
    let mut state = MonitorConnectionState::new();
    let mut events: Vec<bool> = Vec::new();
    let mut transitions = 0;
    let mut was_empty = true;
    for (worker, connected) in edges {
        if let Some(event) = state.update(worker, connected) {
            events.push(event);
        }
        let is_empty = state.connected_workers() == 0;
        if is_empty != was_empty {
            transitions += 1;
        }
        was_empty = is_empty;
    }
    assert_eq!(events, vec![true, false, true, false]);
    assert_eq!(events.len(), transitions);
}

#[test]
fn announcement_raises_the_status_once() {
    let mut state = MonitorConnectionState::new();
    assert_eq!(state.announce(), Some(true));
    assert_eq!(state.announce(), None);
    assert!(state.is_connected());
    assert_eq!(state.connected_workers(), 0);
    assert_eq!(state.update(1, true), None);
    assert_eq!(state.update(1, false), Some(false));
}

#[test]
fn close_lowers_the_status_once() {
    let mut state = MonitorConnectionState::new();
    assert_eq!(state.close(), None);
    state.update(1, true);
    state.update(2, true);
    assert_eq!(state.close(), Some(false));
    assert_eq!(state.connected_workers(), 0);
    assert!(!state.is_connected());
    assert_eq!(state.close(), None);
    assert_eq!(state.update(2, false), None);
    assert_eq!(state.update(2, true), Some(true));
}

#[test]
fn status_events_never_repeat() {
    let mut state = MonitorConnectionState::new();
    let mut events: Vec<bool> = Vec::new();
    events.extend(state.announce());
    events.extend(state.update(1, true));
    events.extend(state.update(2, true));
    events.extend(state.announce());
    events.extend(state.update(1, false));
    events.extend(state.update(2, false));
    events.extend(state.close());
    events.extend(state.announce());
    events.extend(state.close());
    events.extend(state.update(3, true));
    events.extend(state.close());
    assert_eq!(events, vec![true, false, true, false, true, false]);
    for pair in events.windows(2) {
        assert_ne!(pair[0], pair[1]);
    }
}
