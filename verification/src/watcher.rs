//! The connection watcher: the decisions of the task that finds one device,
//! connects it, waits for its link, starts a worker for each notifying
//! characteristic and begins again when they have all ended.
//!
//! The watcher never touches the adapter. It is told what happened and
//! answers with what to do next.

use crate::select::{lemma_positions, positions};
use vstd::prelude::*;

verus! {

/// Milliseconds that a watcher waits before it starts a new discovery.
pub const WATCHER_BACKOFF_MS: u64 = 3000;

/// What a characteristic says it can do, as far as monitoring asks.
#[derive(Clone, Copy, Debug, PartialEq, Eq, Structural)]
pub struct CharacteristicProperties {
    pub notify: bool,
    pub indicate: bool,
}

impl CharacteristicProperties {
    /// Whether the characteristic can push its value.
    pub open spec fn spec_can_push(&self) -> bool {
        self.notify || self.indicate
    }

    /// Whether the characteristic can push its value.
    #[verifier::when_used_as_spec(spec_can_push)]
    pub fn can_push(&self) -> (pushes: bool)
        ensures
            pushes == self.spec_can_push(),
    {
        self.notify || self.indicate
    }
}

/// For each characteristic, whether it can push its value.
pub open spec fn push_flags(properties: Seq<CharacteristicProperties>) -> Seq<bool> {
    properties.map_values(|p: CharacteristicProperties| p.spec_can_push())
}

/// The positions of the characteristics that can push their value.
pub fn monitorable(properties: &Vec<CharacteristicProperties>) -> (found: Vec<usize>)
    ensures
        found@ == positions(push_flags(properties@)),
{
    let mut found: Vec<usize> = Vec::new();
    let mut i: usize = 0;
    while i < properties.len()
        invariant
            i <= properties.len(),
            found@ == positions(push_flags(properties@.take(i as int))),
        decreases properties.len() - i,
    {
        proof {
            assert(push_flags(properties@.take(i + 1)).drop_last() == push_flags(
                properties@.take(i as int),
            ));
        }
        if properties[i].can_push() {
            found.push(i);
        }
        i += 1;
    }
    proof {
        assert(properties@.take(i as int) == properties@);
    }
    found
}

/// Where a watcher stands in its cycle.
#[derive(Clone, Copy, Debug, PartialEq, Eq, Structural)]
pub enum WatcherPhase {
    /// A discovery scan runs.
    Discovering,
    /// The device was found and a connection was requested.
    Connecting,
    /// The link events are subscribed and the link is being looked up.
    CheckingLink,
    /// The link is not up yet: a link event is awaited.
    AwaitingLink,
    /// The characteristics are being resolved.
    Resolving,
    /// Workers run.
    Running,
    /// The stop signal came while workers run: their end is awaited.
    Draining,
    /// The backoff delay runs.
    Backoff,
    /// The watcher has ended.
    Stopped,
}

/// The part of a watcher that changes: its phase and the number of its
/// workers that have not ended.
#[derive(Clone, Copy, Debug, PartialEq, Eq, Structural)]
pub struct WatcherState {
    pub phase: WatcherPhase,
    pub workers: usize,
}

/// What a watcher is told.
#[derive(Clone, Debug, PartialEq, Eq)]
pub enum WatcherEvent {
    /// The scan found a device with this id.
    Discovered(String),
    /// The scan gave an error or ended.
    ScanFailed,
    /// The connection request succeeded.
    Connected,
    /// The connection request failed.
    ConnectFailed,
    /// The link was looked up: whether the device is reported as connected.
    LinkChecked(bool),
    /// The device reported that its link is up.
    LinkUp,
    /// The device reported that its link is down, or its event stream ended.
    LinkDown,
    /// The characteristics were resolved: the properties of each.
    Resolved(Vec<CharacteristicProperties>),
    /// The characteristics could not be resolved.
    ResolveFailed,
    /// One worker has ended.
    WorkerFinished,
    /// The backoff delay has passed.
    BackoffElapsed,
    /// The stop signal was raised.
    Stop,
}

/// What the task that runs a watcher does next.
#[derive(Clone, Debug, PartialEq, Eq)]
pub enum WatcherAction {
    /// Start a discovery scan for the battery service.
    Scan,
    /// Stop the scan and request a connection to the device.
    Connect,
    /// Subscribe to the link events and look up whether the link is up.
    CheckLink,
    /// Wait for a link event or the stop signal.
    AwaitLink,
    /// Resolve the battery characteristics and their properties.
    Resolve,
    /// Publish a best-effort snapshot, announce the device as connected on a
    /// fresh connection state, then start one worker for the characteristic
    /// at each of these positions, all on that state and each handing the
    /// device back when it fails.
    Launch(Vec<usize>),
    /// Wait for the backoff delay or the stop signal.
    Backoff,
    /// Close the connection state of the workers, which have all ended, then
    /// wait for the backoff delay or the stop signal.
    Retire,
    /// Go on with what is under way.
    Continue,
    /// Disconnect as far as the platform allows, then end.
    Disconnect,
    /// End: nothing is left to do.
    Finish,
}

/// The mathematical content of a [`WatcherAction`].
pub enum ActionModel {
    Scan,
    Connect,
    CheckLink,
    AwaitLink,
    Resolve,
    Launch(Seq<usize>),
    Backoff,
    Retire,
    Continue,
    Disconnect,
    Finish,
}

impl View for WatcherAction {
    type V = ActionModel;

    open spec fn view(&self) -> ActionModel {
        match self {
            WatcherAction::Scan => ActionModel::Scan,
            WatcherAction::Connect => ActionModel::Connect,
            WatcherAction::CheckLink => ActionModel::CheckLink,
            WatcherAction::AwaitLink => ActionModel::AwaitLink,
            WatcherAction::Resolve => ActionModel::Resolve,
            WatcherAction::Launch(found) => ActionModel::Launch(found@),
            WatcherAction::Backoff => ActionModel::Backoff,
            WatcherAction::Retire => ActionModel::Retire,
            WatcherAction::Continue => ActionModel::Continue,
            WatcherAction::Disconnect => ActionModel::Disconnect,
            WatcherAction::Finish => ActionModel::Finish,
        }
    }
}

/// A state and the action that leads on from it.
pub struct Outcome {
    pub state: WatcherState,
    pub action: ActionModel,
}

/// The outcome that keeps `state` and asks for nothing new.
pub open spec fn unchanged(state: WatcherState) -> Outcome {
    Outcome { state, action: ActionModel::Continue }
}

/// The outcome that sends a watcher into its backoff delay.
pub open spec fn retreat() -> Outcome {
    Outcome {
        state: WatcherState { phase: WatcherPhase::Backoff, workers: 0 },
        action: ActionModel::Backoff,
    }
}

/// The outcome that moves a watcher without workers to `phase`.
pub open spec fn advance(phase: WatcherPhase, action: ActionModel) -> Outcome {
    Outcome { state: WatcherState { phase, workers: 0 }, action }
}

/// What the stop signal leads to in `state`.
pub open spec fn on_stop(state: WatcherState) -> Outcome {
    match state.phase {
        WatcherPhase::Stopped => Outcome { state, action: ActionModel::Finish },
        WatcherPhase::Discovering | WatcherPhase::Backoff => advance(
            WatcherPhase::Stopped,
            ActionModel::Finish,
        ),
        WatcherPhase::Running | WatcherPhase::Draining => if state.workers > 0 {
            Outcome {
                state: WatcherState { phase: WatcherPhase::Draining, workers: state.workers },
                action: ActionModel::Continue,
            }
        } else {
            advance(WatcherPhase::Stopped, ActionModel::Disconnect)
        },
        _ => advance(WatcherPhase::Stopped, ActionModel::Disconnect),
    }
}

/// What the end of one worker leads to in `state`.
pub open spec fn on_worker_finished(state: WatcherState) -> Outcome {
    match state.phase {
        WatcherPhase::Running => if state.workers > 1 {
            Outcome {
                state: WatcherState {
                    phase: WatcherPhase::Running,
                    workers: (state.workers - 1) as usize,
                },
                action: ActionModel::Continue,
            }
        } else {
            advance(WatcherPhase::Backoff, ActionModel::Retire)
        },
        WatcherPhase::Draining => if state.workers > 1 {
            Outcome {
                state: WatcherState {
                    phase: WatcherPhase::Draining,
                    workers: (state.workers - 1) as usize,
                },
                action: ActionModel::Continue,
            }
        } else {
            advance(WatcherPhase::Stopped, ActionModel::Disconnect)
        },
        WatcherPhase::Stopped => Outcome { state, action: ActionModel::Finish },
        _ => unchanged(state),
    }
}

/// What resolved characteristics with these properties lead to: workers for
/// those that can push their value, or the backoff delay when none can.
pub open spec fn on_resolved(properties: Seq<CharacteristicProperties>) -> Outcome {
    let found = positions(push_flags(properties));
    if found.len() == 0 {
        retreat()
    } else {
        Outcome {
            state: WatcherState { phase: WatcherPhase::Running, workers: found.len() as usize },
            action: ActionModel::Launch(found),
        }
    }
}

/// What `event` leads to for a watcher of the device `target` in `state`.
pub open spec fn outcome(state: WatcherState, target: Seq<char>, event: WatcherEvent) -> Outcome {
    match (state.phase, event) {
        (_, WatcherEvent::Stop) => on_stop(state),
        (_, WatcherEvent::WorkerFinished) => on_worker_finished(state),
        (WatcherPhase::Stopped, _) => Outcome { state, action: ActionModel::Finish },
        (WatcherPhase::Discovering, WatcherEvent::Discovered(id)) => if id@ == target {
            advance(WatcherPhase::Connecting, ActionModel::Connect)
        } else {
            unchanged(state)
        },
        (WatcherPhase::Discovering, WatcherEvent::ScanFailed) => retreat(),
        (WatcherPhase::Connecting, WatcherEvent::Connected) => advance(
            WatcherPhase::CheckingLink,
            ActionModel::CheckLink,
        ),
        (WatcherPhase::Connecting, WatcherEvent::ConnectFailed) => retreat(),
        (WatcherPhase::CheckingLink, WatcherEvent::LinkChecked(up)) => if up {
            advance(WatcherPhase::Resolving, ActionModel::Resolve)
        } else {
            advance(WatcherPhase::AwaitingLink, ActionModel::AwaitLink)
        },
        (WatcherPhase::AwaitingLink, WatcherEvent::LinkUp) => advance(
            WatcherPhase::Resolving,
            ActionModel::Resolve,
        ),
        (WatcherPhase::AwaitingLink, WatcherEvent::LinkDown) => retreat(),
        (WatcherPhase::Resolving, WatcherEvent::Resolved(properties)) => on_resolved(
            properties@,
        ),
        (WatcherPhase::Resolving, WatcherEvent::ResolveFailed) => retreat(),
        (WatcherPhase::Backoff, WatcherEvent::BackoffElapsed) => advance(
            WatcherPhase::Discovering,
            ActionModel::Scan,
        ),
        _ => unchanged(state),
    }
}

/// Workers are counted exactly while they run.
pub open spec fn state_wf(state: WatcherState) -> bool {
    (state.phase == WatcherPhase::Running || state.phase == WatcherPhase::Draining)
        <==> state.workers > 0
}

/// The state of a watcher of `target` after `events`, in order.
pub open spec fn state_after(
    state: WatcherState,
    target: Seq<char>,
    events: Seq<WatcherEvent>,
) -> WatcherState
    decreases events.len(),
{
    if events.len() == 0 {
        state
    } else {
        state_after(outcome(state, target, events[0]).state, target, events.drop_first())
    }
}

/// The watcher of one device.
pub struct ConnectionWatcher {
    device_id: String,
    state: WatcherState,
}

impl ConnectionWatcher {
    /// The id of the watched device.
    pub closed spec fn target(&self) -> Seq<char> {
        self.device_id@
    }

    /// The phase and the number of running workers.
    pub closed spec fn spec_state(&self) -> WatcherState {
        self.state
    }

    /// A watcher for the device `device_id` that is about to scan.
    pub fn new(device_id: String) -> (watcher: ConnectionWatcher)
        ensures
            watcher.target() == device_id@,
            watcher.spec_state() == (WatcherState { phase: WatcherPhase::Discovering, workers: 0 }),
            state_wf(watcher.spec_state()),
    {
        ConnectionWatcher {
            device_id,
            state: WatcherState { phase: WatcherPhase::Discovering, workers: 0 },
        }
    }

    /// The phase and the number of running workers.
    #[verifier::when_used_as_spec(spec_state)]
    pub fn state(&self) -> (state: WatcherState)
        ensures
            state == self.spec_state(),
    {
        self.state
    }

    /// Whether the watcher has ended.
    pub fn is_stopped(&self) -> (stopped: bool)
        ensures
            stopped == (self.spec_state().phase == WatcherPhase::Stopped),
    {
        self.state.phase == WatcherPhase::Stopped
    }

    fn go(&mut self, phase: WatcherPhase)
        ensures
            final(self).target() == old(self).target(),
            final(self).spec_state() == (WatcherState { phase, workers: 0 }),
    {
        self.state = WatcherState { phase, workers: 0 };
    }

    fn stop(&mut self) -> (action: WatcherAction)
        ensures
            final(self).target() == old(self).target(),
            final(self).spec_state() == on_stop(old(self).spec_state()).state,
            action@ == on_stop(old(self).spec_state()).action,
    {
        match self.state.phase {
            WatcherPhase::Stopped => WatcherAction::Finish,
            WatcherPhase::Discovering | WatcherPhase::Backoff => {
                self.go(WatcherPhase::Stopped);
                WatcherAction::Finish
            },
            WatcherPhase::Running | WatcherPhase::Draining => {
                if self.state.workers > 0 {
                    self.state.phase = WatcherPhase::Draining;
                    WatcherAction::Continue
                } else {
                    self.go(WatcherPhase::Stopped);
                    WatcherAction::Disconnect
                }
            },
            _ => {
                self.go(WatcherPhase::Stopped);
                WatcherAction::Disconnect
            },
        }
    }

    fn worker_finished(&mut self) -> (action: WatcherAction)
        ensures
            final(self).target() == old(self).target(),
            final(self).spec_state() == on_worker_finished(old(self).spec_state()).state,
            action@ == on_worker_finished(old(self).spec_state()).action,
    {
        match self.state.phase {
            WatcherPhase::Running => {
                if self.state.workers > 1 {
                    self.state.workers = self.state.workers - 1;
                    WatcherAction::Continue
                } else {
                    self.go(WatcherPhase::Backoff);
                    WatcherAction::Retire
                }
            },
            WatcherPhase::Draining => {
                if self.state.workers > 1 {
                    self.state.workers = self.state.workers - 1;
                    WatcherAction::Continue
                } else {
                    self.go(WatcherPhase::Stopped);
                    WatcherAction::Disconnect
                }
            },
            WatcherPhase::Stopped => WatcherAction::Finish,
            _ => WatcherAction::Continue,
        }
    }

    /// Takes in one event and says what to do next.
    pub fn handle(&mut self, event: WatcherEvent) -> (action: WatcherAction)
        ensures
            final(self).target() == old(self).target(),
            final(self).spec_state() == outcome(
                old(self).spec_state(),
                old(self).target(),
                event,
            ).state,
            action@ == outcome(old(self).spec_state(), old(self).target(), event).action,
    {
        match event {
            WatcherEvent::Stop => {
                return self.stop();
            },
            WatcherEvent::WorkerFinished => {
                return self.worker_finished();
            },
            _ => {},
        }
        match (self.state.phase, event) {
            (WatcherPhase::Stopped, _) => WatcherAction::Finish,
            (WatcherPhase::Discovering, WatcherEvent::Discovered(id)) => {
                if id == self.device_id {
                    self.go(WatcherPhase::Connecting);
                    WatcherAction::Connect
                } else {
                    WatcherAction::Continue
                }
            },
            (WatcherPhase::Connecting, WatcherEvent::Connected) => {
                self.go(WatcherPhase::CheckingLink);
                WatcherAction::CheckLink
            },
            (WatcherPhase::CheckingLink, WatcherEvent::LinkChecked(up)) => {
                if up {
                    self.go(WatcherPhase::Resolving);
                    WatcherAction::Resolve
                } else {
                    self.go(WatcherPhase::AwaitingLink);
                    WatcherAction::AwaitLink
                }
            },
            (WatcherPhase::AwaitingLink, WatcherEvent::LinkUp) => {
                self.go(WatcherPhase::Resolving);
                WatcherAction::Resolve
            },
            (WatcherPhase::Resolving, WatcherEvent::Resolved(properties)) => {
                let found = monitorable(&properties);
                if found.len() == 0 {
                    self.go(WatcherPhase::Backoff);
                    WatcherAction::Backoff
                } else {
                    self.state = WatcherState {
                        phase: WatcherPhase::Running,
                        workers: found.len(),
                    };
                    WatcherAction::Launch(found)
                }
            },
            (WatcherPhase::Discovering, WatcherEvent::ScanFailed)
            | (WatcherPhase::Connecting, WatcherEvent::ConnectFailed)
            | (WatcherPhase::AwaitingLink, WatcherEvent::LinkDown)
            | (WatcherPhase::Resolving, WatcherEvent::ResolveFailed) => {
                self.go(WatcherPhase::Backoff);
                WatcherAction::Backoff
            },
            (WatcherPhase::Backoff, WatcherEvent::BackoffElapsed) => {
                self.go(WatcherPhase::Discovering);
                WatcherAction::Scan
            },
            _ => WatcherAction::Continue,
        }
    }
}

/// No event takes a watcher that counts its workers exactly while they run
/// to a state where it does not.
pub proof fn lemma_step_keeps_wf(state: WatcherState, target: Seq<char>, event: WatcherEvent)
    requires
        state_wf(state),
    ensures
        state_wf(outcome(state, target, event).state),
{
    if let WatcherEvent::Resolved(properties) = event {
        assert(properties@.len() == properties.len());
        lemma_positions(push_flags(properties@));
    }
}

/// Workers are started only for characteristics that can push their value,
/// one for each of them and none twice, and a device without any sends the
/// watcher into its backoff delay.
pub proof fn lemma_launch_only_pushing(properties: Seq<CharacteristicProperties>)
    requires
        properties.len() <= usize::MAX,
    ensures
        match on_resolved(properties).action {
            ActionModel::Launch(found) => {
                &&& found.len() > 0
                &&& on_resolved(properties).state.workers == found.len()
                &&& forall|k: int|
                    0 <= k < found.len() ==> (#[trigger] found[k]) < properties.len()
                        && properties[found[k] as int].spec_can_push()
                &&& forall|i: int|
                    0 <= i < properties.len() && properties[i].spec_can_push()
                        ==> found.contains(i as usize)
                &&& forall|j: int, k: int| 0 <= j < k < found.len() ==> found[j] < found[k]
            },
            ActionModel::Backoff => forall|i: int|
                0 <= i < properties.len() ==> !properties[i].spec_can_push(),
            _ => false,
        },
{
    let flags = push_flags(properties);
    lemma_positions(flags);
    if positions(flags).len() == 0 {
        assert forall|i: int| 0 <= i < properties.len() implies !properties[i].spec_can_push() by {
            if properties[i].spec_can_push() {
                assert(flags[i]);
                assert(positions(flags).contains(i as usize));
            }
        }
    } else {
        let found = positions(flags);
        assert forall|i: int|
            0 <= i < properties.len() && properties[i].spec_can_push() implies found.contains(
            i as usize,
        ) by {
            assert(flags[i]);
        }
    }
}

/// The stop signal ends a watcher without running workers at once, and one
/// with running workers as soon as the last of them has ended; a watcher
/// that has ended stays so.
pub proof fn lemma_stop_is_final(state: WatcherState, target: Seq<char>, event: WatcherEvent)
    requires
        state_wf(state),
    ensures
        state.workers == 0 ==> outcome(state, target, WatcherEvent::Stop).state.phase
            == WatcherPhase::Stopped,
        state.workers > 0 ==> outcome(state, target, WatcherEvent::Stop).state == (WatcherState {
            phase: WatcherPhase::Draining,
            workers: state.workers,
        }),
        state.phase == WatcherPhase::Draining && state.workers == 1 ==> outcome(
            state,
            target,
            WatcherEvent::WorkerFinished,
        ).state.phase == WatcherPhase::Stopped,
        state.phase == WatcherPhase::Draining ==> outcome(state, target, event).state.phase
            == WatcherPhase::Draining || outcome(state, target, event).state.phase
            == WatcherPhase::Stopped,
        state.phase == WatcherPhase::Stopped ==> outcome(state, target, event).state == state
            && outcome(state, target, event).action == ActionModel::Finish,
{
}

/// One failed discovery followed by the backoff delay.
pub open spec fn failed_round() -> Seq<WatcherEvent> {
    seq![WatcherEvent::ScanFailed, WatcherEvent::BackoffElapsed]
}

/// `rounds` failed discoveries, each followed by the backoff delay.
pub open spec fn failed_rounds(rounds: nat) -> Seq<WatcherEvent>
    decreases rounds,
{
    if rounds == 0 {
        Seq::empty()
    } else {
        failed_round() + failed_rounds((rounds - 1) as nat)
    }
}

/// A watcher whose device never appears keeps retrying: after any number of
/// failed discoveries, each answered with the backoff delay and then a new
/// scan, it scans again, and the stop signal still ends it at once.
pub proof fn lemma_discovery_retries(target: Seq<char>, rounds: nat)
    ensures
        ({
            let scanning = WatcherState { phase: WatcherPhase::Discovering, workers: 0 };
            &&& outcome(scanning, target, WatcherEvent::ScanFailed) == retreat()
            &&& outcome(retreat().state, target, WatcherEvent::BackoffElapsed) == advance(
                WatcherPhase::Discovering,
                ActionModel::Scan,
            )
            &&& state_after(scanning, target, failed_rounds(rounds)) == scanning
            &&& outcome(scanning, target, WatcherEvent::Stop).state.phase == WatcherPhase::Stopped
            &&& outcome(retreat().state, target, WatcherEvent::Stop).state.phase
                == WatcherPhase::Stopped
        }),
    decreases rounds,
{
    let scanning = WatcherState { phase: WatcherPhase::Discovering, workers: 0 };
    if rounds > 0 {
        lemma_discovery_retries(target, (rounds - 1) as nat);
        let events = failed_rounds(rounds);
        let tail = failed_rounds((rounds - 1) as nat);
        assert(events == failed_round() + tail);
        assert(events[0] == WatcherEvent::ScanFailed);
        assert(events.drop_first()[0] == WatcherEvent::BackoffElapsed);
        assert(events.drop_first().drop_first() == tail);
        assert(state_after(scanning, target, events) == state_after(
            retreat().state,
            target,
            events.drop_first(),
        ));
        assert(state_after(retreat().state, target, events.drop_first()) == state_after(
            scanning,
            target,
            tail,
        ));
    }
}

/// A scan result for another device changes nothing.
pub proof fn lemma_other_device_ignored(target: Seq<char>, id: String)
    requires
        id@ != target,
    ensures
        ({
            let scanning = WatcherState { phase: WatcherPhase::Discovering, workers: 0 };
            outcome(scanning, target, WatcherEvent::Discovered(id)) == unchanged(scanning)
        }),
{
}

/// `count` workers ending, one after the other.
pub open spec fn workers_ending(count: nat) -> Seq<WatcherEvent> {
    Seq::new(count, |i: int| WatcherEvent::WorkerFinished)
}

/// A watcher whose workers have all ended looks for the device afresh: it
/// closes their connection state, waits for the backoff delay and scans
/// again.
pub proof fn lemma_restart_after_workers(target: Seq<char>, workers: usize)
    requires
        workers > 0,
    ensures
        ({
            let running = WatcherState { phase: WatcherPhase::Running, workers };
            let last = WatcherState { phase: WatcherPhase::Running, workers: 1 };
            &&& state_after(running, target, workers_ending(workers as nat)) == retreat().state
            &&& outcome(last, target, WatcherEvent::WorkerFinished) == advance(
                WatcherPhase::Backoff,
                ActionModel::Retire,
            )
            &&& outcome(retreat().state, target, WatcherEvent::BackoffElapsed) == advance(
                WatcherPhase::Discovering,
                ActionModel::Scan,
            )
        }),
    decreases workers,
{
    let running = WatcherState { phase: WatcherPhase::Running, workers };
    let events = workers_ending(workers as nat);
    assert(events[0] == WatcherEvent::WorkerFinished);
    if workers > 1 {
        lemma_restart_after_workers(target, (workers - 1) as usize);
        assert(events.drop_first() =~= workers_ending((workers - 1) as nat));
    } else {
        assert(events.drop_first() =~= Seq::<WatcherEvent>::empty());
        let next = outcome(running, target, events[0]).state;
        assert(state_after(next, target, events.drop_first()) == next);
    }
}

} // verus!
