//! The notification worker: the decisions of the task that follows one
//! notifying Battery Level characteristic through connects, subscriptions,
//! notifications and link losses until it is told to stop.
//!
//! The worker never touches the adapter. It is told what happened and answers
//! with what to do next, what to report to the connection state of the device
//! and which reading to publish.
//!
//! A worker that was started for a device that was already connected
//! reconnects by itself: after a failure it waits and connects again. A worker
//! that a connection watcher started hands the device back instead: after a
//! failure it ends, and the watcher looks for the device afresh.

use crate::battery::{level_of, parse_level, BatteryInfo};
use vstd::prelude::*;

verus! {

/// Milliseconds that a worker waits before it connects again.
pub const WORKER_RETRY_DELAY_MS: u64 = 2000;

/// What a worker does after a failure.
#[derive(Clone, Copy, Debug, PartialEq, Eq, Structural)]
pub enum Recovery {
    /// Wait for the retry delay and connect again.
    Reconnect,
    /// End, and leave it to the connection watcher to find the device again.
    HandBack,
}

/// Where a worker stands in its cycle.
#[derive(Clone, Copy, Debug, PartialEq, Eq, Structural)]
pub enum WorkerPhase {
    /// A connection to the device was requested.
    Connecting,
    /// The subscriptions to the characteristic were requested.
    Subscribing,
    /// Notifications, link events and the stop signal are awaited.
    Active,
    /// The retry delay runs.
    Retrying,
    /// The worker has ended.
    Terminated,
}

/// The part of a worker that changes: its phase and whether it last reported
/// its link as up.
#[derive(Clone, Copy, Debug, PartialEq, Eq, Structural)]
pub struct WorkerState {
    pub phase: WorkerPhase,
    pub up: bool,
}

/// What a worker is told.
#[derive(Clone, Debug, PartialEq, Eq)]
pub enum WorkerEvent {
    /// The connection request succeeded.
    Connected,
    /// The connection request failed.
    ConnectFailed,
    /// The subscription to the characteristic succeeded.
    Subscribed,
    /// The subscription to the characteristic failed.
    SubscribeFailed,
    /// The characteristic notified this value.
    Notification(Vec<u8>),
    /// The notification stream ended or gave an error.
    NotificationsEnded,
    /// The device reported that its link is up.
    LinkUp,
    /// The device reported that its link is down, or its event stream ended.
    LinkDown,
    /// The retry delay has passed.
    RetryElapsed,
    /// The stop signal was raised.
    Stop,
}

/// What the task that runs a worker does next.
#[derive(Clone, Copy, Debug, PartialEq, Eq, Structural)]
pub enum WorkerAction {
    /// Request a connection to the device.
    Connect,
    /// Subscribe to the link events of the device and to the characteristic.
    Subscribe,
    /// Wait for a notification, a link event or the stop signal.
    Listen,
    /// Wait for the retry delay or the stop signal.
    Sleep,
    /// Disconnect as far as the platform allows, then end.
    Disconnect,
    /// End: nothing is left to do.
    Finish,
}

/// What one event leads to.
#[derive(Clone, Debug, PartialEq, Eq)]
pub struct WorkerStep {
    /// What to do next.
    pub action: WorkerAction,
    /// The edge to hand to the connection state of the device, if any.
    pub report: Option<bool>,
    /// The reading to publish, if any.
    pub reading: Option<BatteryInfo>,
}

/// The action that a phase waits on.
pub open spec fn phase_action(phase: WorkerPhase) -> WorkerAction {
    match phase {
        WorkerPhase::Connecting => WorkerAction::Connect,
        WorkerPhase::Subscribing => WorkerAction::Subscribe,
        WorkerPhase::Active => WorkerAction::Listen,
        WorkerPhase::Retrying => WorkerAction::Sleep,
        WorkerPhase::Terminated => WorkerAction::Finish,
    }
}

/// Whether `event` is a failure in `phase`: a connection or a subscription
/// that failed, or a notification stream or a link that was lost while
/// active.
pub open spec fn is_failure(phase: WorkerPhase, event: WorkerEvent) -> bool {
    match (phase, event) {
        (WorkerPhase::Connecting, WorkerEvent::ConnectFailed) => true,
        (WorkerPhase::Subscribing, WorkerEvent::SubscribeFailed) => true,
        (WorkerPhase::Active, WorkerEvent::NotificationsEnded) => true,
        (WorkerPhase::Active, WorkerEvent::LinkDown) => true,
        _ => false,
    }
}

/// The phase that follows a failure.
pub open spec fn after_failure(recovery: Recovery) -> WorkerPhase {
    match recovery {
        Recovery::Reconnect => WorkerPhase::Retrying,
        Recovery::HandBack => WorkerPhase::Terminated,
    }
}

/// The phase that follows `phase` on `event`.
pub open spec fn next_phase(
    recovery: Recovery,
    phase: WorkerPhase,
    event: WorkerEvent,
) -> WorkerPhase {
    if phase == WorkerPhase::Terminated || event is Stop {
        WorkerPhase::Terminated
    } else if is_failure(phase, event) {
        after_failure(recovery)
    } else {
        match (phase, event) {
            (WorkerPhase::Connecting, WorkerEvent::Connected) => WorkerPhase::Subscribing,
            (WorkerPhase::Subscribing, WorkerEvent::Subscribed) => WorkerPhase::Active,
            (WorkerPhase::Retrying, WorkerEvent::RetryElapsed) => WorkerPhase::Connecting,
            _ => phase,
        }
    }
}

/// The edge that a worker in `state` reports on `event`: up when it becomes
/// active while down, down when it fails while up.
pub open spec fn report_on(state: WorkerState, event: WorkerEvent) -> Option<bool> {
    if state.phase == WorkerPhase::Subscribing && event is Subscribed && !state.up {
        Some(true)
    } else if is_failure(state.phase, event) && state.up {
        Some(false)
    } else {
        None
    }
}

/// The state that follows `state` on `event`.
pub open spec fn next_state(recovery: Recovery, state: WorkerState, event: WorkerEvent) -> WorkerState {
    WorkerState {
        phase: next_phase(recovery, state.phase, event),
        up: match report_on(state, event) {
            Some(up) => up,
            None => state.up,
        },
    }
}

/// What the task does after `event` arrived in `phase`.
pub open spec fn action_on(recovery: Recovery, phase: WorkerPhase, event: WorkerEvent) -> WorkerAction {
    if phase != WorkerPhase::Terminated && event is Stop {
        WorkerAction::Disconnect
    } else {
        phase_action(next_phase(recovery, phase, event))
    }
}

/// The level that a worker in `phase` publishes on `event`: that of a
/// notification which arrives while it is active.
pub open spec fn level_on(phase: WorkerPhase, event: WorkerEvent) -> Option<Option<u8>> {
    match (phase, event) {
        (WorkerPhase::Active, WorkerEvent::Notification(value)) => Some(level_of(value@)),
        _ => None,
    }
}

/// A worker has its link reported as up only while it is active, or after
/// it was stopped while active.
pub open spec fn state_wf(state: WorkerState) -> bool {
    state.up ==> state.phase == WorkerPhase::Active || state.phase == WorkerPhase::Terminated
}

/// The state of a worker after `events`, in order.
pub open spec fn state_after(
    recovery: Recovery,
    state: WorkerState,
    events: Seq<WorkerEvent>,
) -> WorkerState
    decreases events.len(),
{
    if events.len() == 0 {
        state
    } else {
        state_after(recovery, next_state(recovery, state, events[0]), events.drop_first())
    }
}

/// The edges that a worker reports over `events`, in order.
pub open spec fn reports_over(
    recovery: Recovery,
    state: WorkerState,
    events: Seq<WorkerEvent>,
) -> Seq<bool>
    decreases events.len(),
{
    if events.len() == 0 {
        Seq::empty()
    } else {
        let rest = reports_over(recovery, next_state(recovery, state, events[0]), events.drop_first());
        match report_on(state, events[0]) {
            Some(edge) => seq![edge] + rest,
            None => rest,
        }
    }
}

/// The worker of one notifying characteristic.
pub struct NotificationWorker {
    id: u64,
    label: Option<String>,
    recovery: Recovery,
    state: WorkerState,
}

impl NotificationWorker {
    /// The id under which the worker reports.
    pub closed spec fn spec_id(&self) -> u64 {
        self.id
    }

    /// The label of the characteristic.
    pub closed spec fn spec_label(&self) -> Option<String> {
        self.label
    }

    /// What the worker does after a failure.
    pub closed spec fn spec_recovery(&self) -> Recovery {
        self.recovery
    }

    /// The phase and the reported link.
    pub closed spec fn spec_state(&self) -> WorkerState {
        self.state
    }

    /// A worker that is about to connect and has reported nothing.
    pub fn new(id: u64, label: Option<String>, recovery: Recovery) -> (worker: NotificationWorker)
        ensures
            worker.spec_id() == id,
            worker.spec_label() == label,
            worker.spec_recovery() == recovery,
            worker.spec_state() == (WorkerState { phase: WorkerPhase::Connecting, up: false }),
    {
        NotificationWorker {
            id,
            label,
            recovery,
            state: WorkerState { phase: WorkerPhase::Connecting, up: false },
        }
    }

    /// The id under which the worker reports.
    #[verifier::when_used_as_spec(spec_id)]
    pub fn id(&self) -> (id: u64)
        ensures
            id == self.spec_id(),
    {
        self.id
    }

    /// What the worker does after a failure.
    #[verifier::when_used_as_spec(spec_recovery)]
    pub fn recovery(&self) -> (recovery: Recovery)
        ensures
            recovery == self.spec_recovery(),
    {
        self.recovery
    }

    /// The phase and the reported link.
    #[verifier::when_used_as_spec(spec_state)]
    pub fn state(&self) -> (state: WorkerState)
        ensures
            state == self.spec_state(),
    {
        self.state
    }

    /// What the task does while no event has arrived: the action of the
    /// current phase.
    pub fn pending_action(&self) -> (action: WorkerAction)
        ensures
            action == phase_action(self.spec_state().phase),
    {
        match self.state.phase {
            WorkerPhase::Connecting => WorkerAction::Connect,
            WorkerPhase::Subscribing => WorkerAction::Subscribe,
            WorkerPhase::Active => WorkerAction::Listen,
            WorkerPhase::Retrying => WorkerAction::Sleep,
            WorkerPhase::Terminated => WorkerAction::Finish,
        }
    }

    /// Takes in one event and says what follows from it.
    pub fn handle(&mut self, event: WorkerEvent) -> (step: WorkerStep)
        ensures
            final(self).spec_id() == old(self).spec_id(),
            final(self).spec_label() == old(self).spec_label(),
            final(self).spec_recovery() == old(self).spec_recovery(),
            final(self).spec_state() == next_state(
                old(self).spec_recovery(),
                old(self).spec_state(),
                event,
            ),
            step.action == action_on(old(self).spec_recovery(), old(self).spec_state().phase, event),
            step.report == report_on(old(self).spec_state(), event),
            match level_on(old(self).spec_state().phase, event) {
                Some(level) => step.reading == Some(
                    BatteryInfo { battery_level: level, user_descriptor: old(self).spec_label() },
                ),
                None => step.reading is None,
            },
    {
        let phase = self.state.phase;
        let up = self.state.up;
        if phase == WorkerPhase::Terminated {
            return WorkerStep { action: WorkerAction::Finish, report: None, reading: None };
        }
        match (phase, event) {
            (_, WorkerEvent::Stop) => {
                self.state.phase = WorkerPhase::Terminated;
                WorkerStep { action: WorkerAction::Disconnect, report: None, reading: None }
            },
            (WorkerPhase::Connecting, WorkerEvent::Connected) => {
                self.state.phase = WorkerPhase::Subscribing;
                WorkerStep { action: WorkerAction::Subscribe, report: None, reading: None }
            },
            (WorkerPhase::Subscribing, WorkerEvent::Subscribed) => {
                self.state.phase = WorkerPhase::Active;
                self.state.up = true;
                let report = if up {
                    None
                } else {
                    Some(true)
                };
                WorkerStep { action: WorkerAction::Listen, report, reading: None }
            },
            (WorkerPhase::Connecting, WorkerEvent::ConnectFailed)
            | (WorkerPhase::Subscribing, WorkerEvent::SubscribeFailed)
            | (WorkerPhase::Active, WorkerEvent::NotificationsEnded)
            | (WorkerPhase::Active, WorkerEvent::LinkDown) => {
                let report = if up {
                    Some(false)
                } else {
                    None
                };
                self.state.up = false;
                match self.recovery {
                    Recovery::Reconnect => {
                        self.state.phase = WorkerPhase::Retrying;
                        WorkerStep { action: WorkerAction::Sleep, report, reading: None }
                    },
                    Recovery::HandBack => {
                        self.state.phase = WorkerPhase::Terminated;
                        WorkerStep { action: WorkerAction::Finish, report, reading: None }
                    },
                }
            },
            (WorkerPhase::Active, WorkerEvent::Notification(value)) => {
                let reading = BatteryInfo {
                    battery_level: parse_level(value.as_slice()),
                    user_descriptor: clone_label(&self.label),
                };
                WorkerStep { action: WorkerAction::Listen, report: None, reading: Some(reading) }
            },
            (WorkerPhase::Retrying, WorkerEvent::RetryElapsed) => {
                self.state.phase = WorkerPhase::Connecting;
                WorkerStep { action: WorkerAction::Connect, report: None, reading: None }
            },
            _ => WorkerStep { action: self.pending_action(), report: None, reading: None },
        }
    }
}

/// A copy of an optional label.
pub fn clone_label(label: &Option<String>) -> (copy: Option<String>)
    ensures
        copy == *label,
{
    match label {
        Some(text) => Some(text.clone()),
        None => None,
    }
}

/// The stop signal ends a worker in whatever state it is, and a worker that
/// has ended stays so: it reports nothing, publishes nothing and asks for
/// nothing more.
pub proof fn lemma_stop_is_final(recovery: Recovery, state: WorkerState, event: WorkerEvent)
    ensures
        next_state(recovery, state, WorkerEvent::Stop).phase == WorkerPhase::Terminated,
        report_on(state, WorkerEvent::Stop) is None,
        state.phase != WorkerPhase::Terminated ==> action_on(
            recovery,
            state.phase,
            WorkerEvent::Stop,
        ) == WorkerAction::Disconnect,
        state.phase == WorkerPhase::Terminated ==> {
            &&& next_state(recovery, state, event) == state
            &&& action_on(recovery, state.phase, event) == WorkerAction::Finish
            &&& report_on(state, event) is None
            &&& level_on(state.phase, event) is None
        },
{
}

/// A worker that reconnects ends on the stop signal only; a worker that
/// hands the device back ends on every failure as well, with its link
/// reported as down.
pub proof fn lemma_failure_recovery(state: WorkerState, event: WorkerEvent)
    requires
        state.phase != WorkerPhase::Terminated,
    ensures
        next_state(Recovery::Reconnect, state, event).phase == WorkerPhase::Terminated
            <==> event is Stop,
        next_state(Recovery::HandBack, state, event).phase == WorkerPhase::Terminated <==> (
        event is Stop || is_failure(state.phase, event)),
        is_failure(state.phase, event) ==> !next_state(Recovery::HandBack, state, event).up
            && !next_state(Recovery::Reconnect, state, event).up,
{
}

/// No event takes a worker whose reported link fits its phase to a state
/// where it does not: while it connects, subscribes or waits to retry, its
/// link is reported as down.
pub proof fn lemma_step_keeps_wf(recovery: Recovery, state: WorkerState, event: WorkerEvent)
    requires
        state_wf(state),
    ensures
        state_wf(next_state(recovery, state, event)),
{
}

/// The edges of one worker alternate: the first negates what it last
/// reported, each later one negates the one before it, and the last one is
/// what it has reported in the end.
pub proof fn lemma_reports_alternate(
    recovery: Recovery,
    state: WorkerState,
    events: Seq<WorkerEvent>,
)
    ensures
        reports_over(recovery, state, events).len() > 0 ==> reports_over(
            recovery,
            state,
            events,
        )[0] == !state.up,
        forall|i: int|
            0 <= i < reports_over(recovery, state, events).len() - 1 ==> #[trigger] reports_over(
                recovery,
                state,
                events,
            )[i] != reports_over(recovery, state, events)[i + 1],
        reports_over(recovery, state, events).len() > 0 ==> reports_over(
            recovery,
            state,
            events,
        ).last() == state_after(recovery, state, events).up,
        reports_over(recovery, state, events).len() == 0 ==> state_after(
            recovery,
            state,
            events,
        ).up == state.up,
    decreases events.len(),
{
    if events.len() > 0 {
        let next = next_state(recovery, state, events[0]);
        let rest = reports_over(recovery, next, events.drop_first());
        lemma_reports_alternate(recovery, next, events.drop_first());
        match report_on(state, events[0]) {
            Some(edge) => {
                let all = reports_over(recovery, state, events);
                assert(all == seq![edge] + rest);
                assert(all[0] == edge);
                assert forall|i: int| 0 <= i < all.len() - 1 implies #[trigger] all[i] != all[i
                    + 1] by {
                    if i > 0 {
                        assert(all[i] == rest[i - 1]);
                        assert(all[i + 1] == rest[i - 1 + 1]);
                    } else {
                        assert(all[1] == rest[0]);
                    }
                }
                if rest.len() > 0 {
                    assert(all.last() == rest.last());
                }
            },
            None => {},
        }
    }
}

} // verus!
