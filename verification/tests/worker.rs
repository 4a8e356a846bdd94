use zmk_battery_center::battery::BatteryInfo;
use zmk_battery_center::worker::{
    NotificationWorker, Recovery, WorkerAction, WorkerEvent, WorkerPhase, WorkerState, WorkerStep,
    WORKER_RETRY_DELAY_MS,
};

fn quiet(action: WorkerAction) -> WorkerStep {
    WorkerStep { action, report: None, reading: None }
}

fn active_worker() -> NotificationWorker {
    let mut worker = NotificationWorker::new(3, Some("Right".to_string()), Recovery::Reconnect);
    worker.handle(WorkerEvent::Connected);
    worker.handle(WorkerEvent::Subscribed);
    worker
}

#[test]
fn worker_starts_by_connecting() {
    let worker = NotificationWorker::new(3, None, Recovery::Reconnect);
    assert_eq!(worker.id(), 3);
    assert_eq!(worker.recovery(), Recovery::Reconnect);
    assert_eq!(worker.state(), WorkerState { phase: WorkerPhase::Connecting, up: false });
    assert_eq!(worker.pending_action(), WorkerAction::Connect);
}

#[test]
fn worker_retry_delay_is_two_seconds() {
    assert_eq!(WORKER_RETRY_DELAY_MS, 2000);
}

#[test]
fn worker_subscribes_after_connecting() {
    let mut worker = NotificationWorker::new(3, None, Recovery::Reconnect);
    assert_eq!(worker.handle(WorkerEvent::Connected), quiet(WorkerAction::Subscribe));
    assert_eq!(worker.state().phase, WorkerPhase::Subscribing);
}

#[test]
fn worker_reports_up_on_first_subscription() {
    let mut worker = NotificationWorker::new(3, None, Recovery::Reconnect);
    worker.handle(WorkerEvent::Connected);
    let step = worker.handle(WorkerEvent::Subscribed);
    assert_eq!(step, WorkerStep { action: WorkerAction::Listen, report: Some(true), reading: None });
    assert_eq!(worker.state(), WorkerState { phase: WorkerPhase::Active, up: true });
}

#[test]
fn worker_retries_when_connect_fails() {
    let mut worker = NotificationWorker::new(3, None, Recovery::Reconnect);
    assert_eq!(worker.handle(WorkerEvent::ConnectFailed), quiet(WorkerAction::Sleep));
    assert_eq!(worker.state().phase, WorkerPhase::Retrying);
    assert_eq!(worker.handle(WorkerEvent::RetryElapsed), quiet(WorkerAction::Connect));
    assert_eq!(worker.state().phase, WorkerPhase::Connecting);
}

#[test]
fn worker_retries_when_subscribe_fails() {
    let mut worker = NotificationWorker::new(3, None, Recovery::Reconnect);
    worker.handle(WorkerEvent::Connected);
    assert_eq!(worker.handle(WorkerEvent::SubscribeFailed), quiet(WorkerAction::Sleep));
    assert_eq!(worker.state(), WorkerState { phase: WorkerPhase::Retrying, up: false });
}

#[test]
fn worker_publishes_each_notification() {
    let mut worker = active_worker();
    let step = worker.handle(WorkerEvent::Notification(vec![77, 2]));
    assert_eq!(
        step,
        WorkerStep {
            action: WorkerAction::Listen,
            report: None,
            reading: Some(BatteryInfo {
                battery_level: Some(77),
                user_descriptor: Some("Right".to_string()),
            }),
        }
    );
    assert_eq!(worker.state().phase, WorkerPhase::Active);
}

#[test]
fn worker_publishes_absent_level_for_empty_notification() {
    let mut worker = active_worker();
    let step = worker.handle(WorkerEvent::Notification(vec![]));
    assert_eq!(
        step.reading,
        Some(BatteryInfo { battery_level: None, user_descriptor: Some("Right".to_string()) })
    );
}

#[test]
fn worker_reports_down_when_notifications_end() {
    let mut worker = active_worker();
    let step = worker.handle(WorkerEvent::NotificationsEnded);
    assert_eq!(step, WorkerStep { action: WorkerAction::Sleep, report: Some(false), reading: None });
    assert_eq!(worker.state(), WorkerState { phase: WorkerPhase::Retrying, up: false });
}

#[test]
fn worker_reports_down_when_link_drops() {
    let mut worker = active_worker();
    let step = worker.handle(WorkerEvent::LinkDown);
    assert_eq!(step, WorkerStep { action: WorkerAction::Sleep, report: Some(false), reading: None });
}

#[test]
fn worker_ignores_link_up_while_active() {
    let mut worker = active_worker();
    assert_eq!(worker.handle(WorkerEvent::LinkUp), quiet(WorkerAction::Listen));
    assert_eq!(worker.state(), WorkerState { phase: WorkerPhase::Active, up: true });
}

#[test]
fn worker_ignores_notifications_while_not_active() {
    let mut worker = NotificationWorker::new(3, None, Recovery::Reconnect);
    assert_eq!(worker.handle(WorkerEvent::Notification(vec![50])), quiet(WorkerAction::Connect));
    assert_eq!(worker.state().phase, WorkerPhase::Connecting);
}

#[test]
fn worker_reports_up_again_after_a_down_period() {
    let mut worker = active_worker();
    worker.handle(WorkerEvent::LinkDown);
    worker.handle(WorkerEvent::RetryElapsed);
    worker.handle(WorkerEvent::Connected);
    let step = worker.handle(WorkerEvent::Subscribed);
    assert_eq!(step.report, Some(true));
}

#[test]
fn worker_stops_from_every_phase() {
    let paths: Vec<Vec<WorkerEvent>> = vec![
        vec![],
        vec![WorkerEvent::Connected],
        vec![WorkerEvent::Connected, WorkerEvent::Subscribed],
        vec![WorkerEvent::ConnectFailed],
    ];
    for path in paths {
        let mut worker = NotificationWorker::new(1, None, Recovery::Reconnect);
        for event in path {
            worker.handle(event);
        }
        assert_eq!(worker.handle(WorkerEvent::Stop), quiet(WorkerAction::Disconnect));
        assert_eq!(worker.state().phase, WorkerPhase::Terminated);
    }
}

#[test]
fn terminated_worker_stays_terminated() {
    let mut worker = active_worker();
    worker.handle(WorkerEvent::Stop);
    let events = vec![
        WorkerEvent::Connected,
        WorkerEvent::Subscribed,
        WorkerEvent::Notification(vec![10]),
        WorkerEvent::RetryElapsed,
        WorkerEvent::Stop,
    ];
    for event in events {
        assert_eq!(worker.handle(event), quiet(WorkerAction::Finish));
        assert_eq!(worker.state().phase, WorkerPhase::Terminated);
    }
    assert_eq!(worker.pending_action(), WorkerAction::Finish);
}

#[test]
fn worker_reports_alternate() {
    let mut worker = NotificationWorker::new(1, None, Recovery::Reconnect);
    let events = vec![
        WorkerEvent::ConnectFailed,
        WorkerEvent::RetryElapsed,
        WorkerEvent::Connected,
        WorkerEvent::Subscribed,
        WorkerEvent::Notification(vec![9]),
        WorkerEvent::NotificationsEnded,
        WorkerEvent::LinkDown,
        WorkerEvent::RetryElapsed,
        WorkerEvent::Connected,
        WorkerEvent::SubscribeFailed,
        WorkerEvent::RetryElapsed,
        WorkerEvent::Connected,
        WorkerEvent::Subscribed,
        WorkerEvent::LinkDown,
    ];
    let mut reports: Vec<bool> = Vec::new();
    for event in events {
        if let Some(edge) = worker.handle(event).report {
            reports.push(edge);
        }
    }
    assert_eq!(reports, vec![true, false, true, false]);
}

#[test]
fn worker_that_hands_back_ends_when_its_stream_ends() {
    let mut worker = NotificationWorker::new(2, None, Recovery::HandBack);
    worker.handle(WorkerEvent::Connected);
    worker.handle(WorkerEvent::Subscribed);
    let step = worker.handle(WorkerEvent::NotificationsEnded);
    assert_eq!(step, WorkerStep { action: WorkerAction::Finish, report: Some(false), reading: None });
    assert_eq!(worker.state(), WorkerState { phase: WorkerPhase::Terminated, up: false });
    assert_eq!(worker.handle(WorkerEvent::RetryElapsed), quiet(WorkerAction::Finish));
}

#[test]
fn worker_that_hands_back_ends_on_every_failure() {
    let paths: Vec<Vec<WorkerEvent>> = vec![
        vec![WorkerEvent::ConnectFailed],
        vec![WorkerEvent::Connected, WorkerEvent::SubscribeFailed],
        vec![WorkerEvent::Connected, WorkerEvent::Subscribed, WorkerEvent::LinkDown],
    ];
    for path in paths {
        let mut worker = NotificationWorker::new(2, None, Recovery::HandBack);
        let mut last = WorkerAction::Connect;
        for event in path {
            last = worker.handle(event).action;
        }
        assert_eq!(last, WorkerAction::Finish);
        assert_eq!(worker.state(), WorkerState { phase: WorkerPhase::Terminated, up: false });
    }
}

#[test]
fn worker_that_hands_back_still_disconnects_on_stop() {
    let mut worker = NotificationWorker::new(2, None, Recovery::HandBack);
    worker.handle(WorkerEvent::Connected);
    assert_eq!(worker.handle(WorkerEvent::Stop), quiet(WorkerAction::Disconnect));
    assert_eq!(worker.state().phase, WorkerPhase::Terminated);
}
