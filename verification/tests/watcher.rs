use zmk_battery_center::aggregator::MonitorConnectionState;
use zmk_battery_center::battery::BatteryInfo;
use zmk_battery_center::watcher::{
    monitorable, CharacteristicProperties, ConnectionWatcher, WatcherAction, WatcherEvent,
    WatcherPhase, WatcherState, WATCHER_BACKOFF_MS,
};
use zmk_battery_center::worker::{NotificationWorker, Recovery, WorkerAction, WorkerEvent};

fn pushing() -> CharacteristicProperties {
    CharacteristicProperties { notify: true, indicate: false }
}

fn polled() -> CharacteristicProperties {
    CharacteristicProperties { notify: false, indicate: false }
}

fn resolving_watcher() -> ConnectionWatcher {
    let mut watcher = ConnectionWatcher::new("kbd".to_string());
    watcher.handle(WatcherEvent::Discovered("kbd".to_string()));
    watcher.handle(WatcherEvent::Connected);
    watcher.handle(WatcherEvent::LinkChecked(true));
    watcher
}

#[test]
fn watcher_starts_by_discovering() {
    let watcher = ConnectionWatcher::new("kbd".to_string());
    assert_eq!(watcher.state(), WatcherState { phase: WatcherPhase::Discovering, workers: 0 });
    assert!(!watcher.is_stopped());
}

#[test]
fn watcher_backoff_is_three_seconds() {
    assert_eq!(WATCHER_BACKOFF_MS, 3000);
}

#[test]
fn watcher_ignores_other_devices() {
    let mut watcher = ConnectionWatcher::new("kbd".to_string());
    assert_eq!(watcher.handle(WatcherEvent::Discovered("mouse".to_string())), WatcherAction::Continue);
    assert_eq!(watcher.state().phase, WatcherPhase::Discovering);
}

#[test]
fn watcher_connects_when_the_device_appears() {
    let mut watcher = ConnectionWatcher::new("kbd".to_string());
    assert_eq!(watcher.handle(WatcherEvent::Discovered("kbd".to_string())), WatcherAction::Connect);
    assert_eq!(watcher.state().phase, WatcherPhase::Connecting);
}

#[test]
fn watcher_retries_discovery_until_stopped() {
    let mut watcher = ConnectionWatcher::new("kbd".to_string());
    for _ in 0..25 {
        assert_eq!(watcher.handle(WatcherEvent::ScanFailed), WatcherAction::Backoff);
        assert_eq!(watcher.state().phase, WatcherPhase::Backoff);
        assert_eq!(watcher.handle(WatcherEvent::BackoffElapsed), WatcherAction::Scan);
        assert_eq!(watcher.state().phase, WatcherPhase::Discovering);
    }
    assert_eq!(watcher.handle(WatcherEvent::Stop), WatcherAction::Finish);
    assert!(watcher.is_stopped());
}

#[test]
fn watcher_stops_during_backoff() {
    let mut watcher = ConnectionWatcher::new("kbd".to_string());
    watcher.handle(WatcherEvent::ScanFailed);
    assert_eq!(watcher.handle(WatcherEvent::Stop), WatcherAction::Finish);
    assert!(watcher.is_stopped());
}

#[test]
fn watcher_backs_off_when_connect_fails() {
    let mut watcher = ConnectionWatcher::new("kbd".to_string());
    watcher.handle(WatcherEvent::Discovered("kbd".to_string()));
    assert_eq!(watcher.handle(WatcherEvent::ConnectFailed), WatcherAction::Backoff);
    assert_eq!(watcher.state().phase, WatcherPhase::Backoff);
}

#[test]
fn watcher_checks_the_link_after_connecting() {
    let mut watcher = ConnectionWatcher::new("kbd".to_string());
    watcher.handle(WatcherEvent::Discovered("kbd".to_string()));
    assert_eq!(watcher.handle(WatcherEvent::Connected), WatcherAction::CheckLink);
    assert_eq!(watcher.state().phase, WatcherPhase::CheckingLink);
}

#[test]
fn watcher_resolves_when_link_is_already_up() {
    let mut watcher = ConnectionWatcher::new("kbd".to_string());
    watcher.handle(WatcherEvent::Discovered("kbd".to_string()));
    watcher.handle(WatcherEvent::Connected);
    assert_eq!(watcher.handle(WatcherEvent::LinkChecked(true)), WatcherAction::Resolve);
    assert_eq!(watcher.state().phase, WatcherPhase::Resolving);
}

#[test]
fn watcher_waits_for_the_link() {
    let mut watcher = ConnectionWatcher::new("kbd".to_string());
    watcher.handle(WatcherEvent::Discovered("kbd".to_string()));
    watcher.handle(WatcherEvent::Connected);
    assert_eq!(watcher.handle(WatcherEvent::LinkChecked(false)), WatcherAction::AwaitLink);
    assert_eq!(watcher.state().phase, WatcherPhase::AwaitingLink);
    assert_eq!(watcher.handle(WatcherEvent::LinkUp), WatcherAction::Resolve);
    assert_eq!(watcher.state().phase, WatcherPhase::Resolving);
}

#[test]
fn watcher_backs_off_when_link_drops_while_waiting() {
    let mut watcher = ConnectionWatcher::new("kbd".to_string());
    watcher.handle(WatcherEvent::Discovered("kbd".to_string()));
    watcher.handle(WatcherEvent::Connected);
    watcher.handle(WatcherEvent::LinkChecked(false));
    assert_eq!(watcher.handle(WatcherEvent::LinkDown), WatcherAction::Backoff);
    assert_eq!(watcher.state().phase, WatcherPhase::Backoff);
}

#[test]
fn watcher_launches_one_worker_for_each_pushing_characteristic() {
    let mut watcher = resolving_watcher();
    let properties = vec![
        pushing(),
        polled(),
        CharacteristicProperties { notify: false, indicate: true },
    ];
    assert_eq!(watcher.handle(WatcherEvent::Resolved(properties)), WatcherAction::Launch(vec![0, 2]));
    assert_eq!(watcher.state(), WatcherState { phase: WatcherPhase::Running, workers: 2 });
}

#[test]
fn watcher_backs_off_without_pushing_characteristic() {
    let mut watcher = resolving_watcher();
    assert_eq!(watcher.handle(WatcherEvent::Resolved(vec![polled()])), WatcherAction::Backoff);
    assert_eq!(watcher.state(), WatcherState { phase: WatcherPhase::Backoff, workers: 0 });
}

#[test]
fn watcher_backs_off_without_any_characteristic() {
    let mut watcher = resolving_watcher();
    assert_eq!(watcher.handle(WatcherEvent::Resolved(vec![])), WatcherAction::Backoff);
}

#[test]
fn watcher_backs_off_when_resolving_fails() {
    let mut watcher = resolving_watcher();
    assert_eq!(watcher.handle(WatcherEvent::ResolveFailed), WatcherAction::Backoff);
}

#[test]
fn watcher_restarts_when_all_workers_ended() {
    let mut watcher = resolving_watcher();
    watcher.handle(WatcherEvent::Resolved(vec![pushing(), pushing()]));
    assert_eq!(watcher.handle(WatcherEvent::WorkerFinished), WatcherAction::Continue);
    assert_eq!(watcher.state(), WatcherState { phase: WatcherPhase::Running, workers: 1 });
    assert_eq!(watcher.handle(WatcherEvent::WorkerFinished), WatcherAction::Retire);
    assert_eq!(watcher.state(), WatcherState { phase: WatcherPhase::Backoff, workers: 0 });
    assert_eq!(watcher.handle(WatcherEvent::BackoffElapsed), WatcherAction::Scan);
}

#[test]
fn watcher_drains_workers_before_stopping() {
    let mut watcher = resolving_watcher();
    watcher.handle(WatcherEvent::Resolved(vec![pushing(), pushing()]));
    assert_eq!(watcher.handle(WatcherEvent::Stop), WatcherAction::Continue);
    assert_eq!(watcher.state(), WatcherState { phase: WatcherPhase::Draining, workers: 2 });
    assert_eq!(watcher.handle(WatcherEvent::WorkerFinished), WatcherAction::Continue);
    assert_eq!(watcher.handle(WatcherEvent::WorkerFinished), WatcherAction::Disconnect);
    assert!(watcher.is_stopped());
}

#[test]
fn watcher_disconnects_when_stopped_with_a_device() {
    let mut watcher = resolving_watcher();
    assert_eq!(watcher.handle(WatcherEvent::Stop), WatcherAction::Disconnect);
    assert!(watcher.is_stopped());
}

#[test]
fn stopped_watcher_stays_stopped() {
    let mut watcher = ConnectionWatcher::new("kbd".to_string());
    watcher.handle(WatcherEvent::Stop);
    let events = vec![
        WatcherEvent::Discovered("kbd".to_string()),
        WatcherEvent::BackoffElapsed,
        WatcherEvent::WorkerFinished,
        WatcherEvent::Stop,
        WatcherEvent::Resolved(vec![pushing()]),
    ];
    for event in events {
        assert_eq!(watcher.handle(event), WatcherAction::Finish);
        assert!(watcher.is_stopped());
    }
}

#[test]
fn monitorable_lists_pushing_positions_in_order() {
    let properties = vec![
        polled(),
        pushing(),
        CharacteristicProperties { notify: true, indicate: true },
        polled(),
        CharacteristicProperties { notify: false, indicate: true },
    ];
    assert_eq!(monitorable(&properties), vec![1, 2, 4]);
    assert_eq!(monitorable(&vec![]), Vec::<usize>::new());
    assert!(pushing().can_push());
    assert!(!polled().can_push());
}

#[test]
fn device_with_one_labelled_characteristic_is_followed_until_its_stream_ends() {
    let mut watcher = ConnectionWatcher::new("kbd".to_string());
    assert_eq!(watcher.handle(WatcherEvent::Discovered("kbd".to_string())), WatcherAction::Connect);
    assert_eq!(watcher.handle(WatcherEvent::Connected), WatcherAction::CheckLink);
    assert_eq!(watcher.handle(WatcherEvent::LinkChecked(true)), WatcherAction::Resolve);
    let launch = watcher.handle(WatcherEvent::Resolved(vec![pushing()]));
    assert_eq!(launch, WatcherAction::Launch(vec![0]));

    let mut statuses: Vec<bool> = Vec::new();
    let mut readings: Vec<BatteryInfo> = Vec::new();
    let mut connection = MonitorConnectionState::new();
    statuses.extend(connection.announce());
    let mut worker = NotificationWorker::new(0, Some("Right".to_string()), Recovery::HandBack);
    let events = vec![
        WorkerEvent::Connected,
        WorkerEvent::Subscribed,
        WorkerEvent::Notification(vec![55]),
        WorkerEvent::NotificationsEnded,
    ];
    let mut last = WorkerAction::Connect;
    for event in events {
        let step = worker.handle(event);
        if let Some(edge) = step.report {
            statuses.extend(connection.update(worker.id(), edge));
        }
        readings.extend(step.reading);
        last = step.action;
    }
    assert_eq!(
        readings,
        vec![BatteryInfo { battery_level: Some(55), user_descriptor: Some("Right".to_string()) }]
    );
    assert_eq!(statuses, vec![true, false]);
    assert_eq!(last, WorkerAction::Finish);

    assert_eq!(watcher.handle(WatcherEvent::WorkerFinished), WatcherAction::Retire);
    statuses.extend(connection.close());
    assert_eq!(statuses, vec![true, false]);
    assert_eq!(watcher.handle(WatcherEvent::BackoffElapsed), WatcherAction::Scan);
    assert_eq!(watcher.state().phase, WatcherPhase::Discovering);
}

#[test]
fn device_whose_worker_never_comes_up_is_reported_down_when_its_workers_end() {
    let mut statuses: Vec<bool> = Vec::new();
    let mut connection = MonitorConnectionState::new();
    statuses.extend(connection.announce());
    let mut worker = NotificationWorker::new(0, None, Recovery::HandBack);
    let step = worker.handle(WorkerEvent::ConnectFailed);
    assert_eq!(step.action, WorkerAction::Finish);
    assert_eq!(step.report, None);
    statuses.extend(connection.close());
    assert_eq!(statuses, vec![true, false]);
}
