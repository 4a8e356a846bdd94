//! The connection state of one monitored device, aggregated over the workers
//! that watch its characteristics.
//!
//! Each worker reports when its own link comes up or goes down. The device
//! counts as connected while at least one worker is up, and a status event is
//! owed only when that aggregate changes. A connection watcher may make the
//! device known as connected before any worker is up, and closes the state
//! when its workers have ended.

use std::collections::HashSet;
use vstd::prelude::*;

verus! {

broadcast use vstd::std_specs::hash::group_hash_axioms;

/// The mathematical content of a [`MonitorConnectionState`].
pub struct ConnectionModel {
    /// The workers that are up.
    pub up: Set<u64>,
    /// The aggregate that was last made known.
    pub published: bool,
}

/// What a connection state is told.
pub enum Signal {
    /// A worker reports whether its link is up.
    Worker { worker: u64, connected: bool },
    /// The link of the device is up, though no worker may be yet.
    Announced,
    /// The workers have ended.
    Closed,
}

impl ConnectionModel {
    /// The state before anything was reported.
    pub open spec fn initial() -> ConnectionModel {
        ConnectionModel { up: Set::empty(), published: false }
    }

    /// The published flag says whether some worker is up.
    pub open spec fn wf(self) -> bool {
        self.published == !self.up.is_empty()
    }

    /// The set of workers that are up once `signal` is taken in.
    pub open spec fn up_after(self, signal: Signal) -> Set<u64> {
        match signal {
            Signal::Worker { worker, connected } => if connected {
                self.up.insert(worker)
            } else {
                self.up.remove(worker)
            },
            Signal::Announced => self.up,
            Signal::Closed => Set::empty(),
        }
    }

    /// The aggregate once `signal` is taken in: whether some worker is up
    /// after a report of a worker, connected after an announcement, and not
    /// connected after the close.
    pub open spec fn aggregate_after(self, signal: Signal) -> bool {
        match signal {
            Signal::Worker { .. } => !self.up_after(signal).is_empty(),
            Signal::Announced => true,
            Signal::Closed => false,
        }
    }

    /// The state once `signal` is taken in.
    pub open spec fn after(self, signal: Signal) -> ConnectionModel {
        ConnectionModel { up: self.up_after(signal), published: self.aggregate_after(signal) }
    }

    /// The status event that `signal` causes: the new aggregate where it
    /// differs from the published one, nothing otherwise.
    pub open spec fn event(self, signal: Signal) -> Option<bool> {
        let next = self.aggregate_after(signal);
        if next != self.published {
            Some(next)
        } else {
            None
        }
    }

    /// The state once all of `signals` are taken in, in order.
    pub open spec fn after_all(self, signals: Seq<Signal>) -> ConnectionModel
        decreases signals.len(),
    {
        if signals.len() == 0 {
            self
        } else {
            self.after(signals[0]).after_all(signals.drop_first())
        }
    }

    /// The status events that `signals` cause, in order.
    pub open spec fn events(self, signals: Seq<Signal>) -> Seq<bool>
        decreases signals.len(),
    {
        if signals.len() == 0 {
            Seq::empty()
        } else {
            let rest = self.after(signals[0]).events(signals.drop_first());
            match self.event(signals[0]) {
                Some(e) => seq![e] + rest,
                None => rest,
            }
        }
    }

    /// How often the emptiness of the set of workers that are up changes
    /// while `signals` are taken in.
    pub open spec fn transitions(self, signals: Seq<Signal>) -> nat
        decreases signals.len(),
    {
        if signals.len() == 0 {
            0
        } else {
            let rest = self.after(signals[0]).transitions(signals.drop_first());
            if self.up.is_empty() != self.up_after(signals[0]).is_empty() {
                rest + 1
            } else {
                rest
            }
        }
    }
}

/// Whether all of `signals` are reports of workers.
pub open spec fn all_from_workers(signals: Seq<Signal>) -> bool {
    forall|i: int| 0 <= i < signals.len() ==> #[trigger] signals[i] is Worker
}

/// The connection state of one monitored device.
pub struct MonitorConnectionState {
    up: HashSet<u64>,
    published: bool,
}

impl View for MonitorConnectionState {
    type V = ConnectionModel;

    closed spec fn view(&self) -> ConnectionModel {
        ConnectionModel { up: self.up@, published: self.published }
    }
}

impl MonitorConnectionState {
    /// A state in which no worker is up and nothing was published.
    pub fn new() -> (state: MonitorConnectionState)
        ensures
            state@ == ConnectionModel::initial(),
            state@.wf(),
    {
        MonitorConnectionState { up: HashSet::new(), published: false }
    }

    /// Whether the device counts as connected.
    pub fn is_connected(&self) -> (connected: bool)
        ensures
            connected == self@.published,
    {
        self.published
    }

    /// The number of workers that are up.
    pub fn connected_workers(&self) -> (count: usize)
        ensures
            count == self@.up.len(),
    {
        self.up.len()
    }

    fn publish(&mut self, next: bool) -> (event: Option<bool>)
        ensures
            final(self)@ == (ConnectionModel { up: old(self)@.up, published: next }),
            event == if next != old(self)@.published {
                Some(next)
            } else {
                None
            },
    {
        if next != self.published {
            self.published = next;
            Some(next)
        } else {
            None
        }
    }

    /// Takes in the report of one worker and returns the status event that
    /// is owed to the user interface, if any.
    pub fn update(&mut self, worker_id: u64, connected: bool) -> (event: Option<bool>)
        ensures
            final(self)@ == old(self)@.after(Signal::Worker { worker: worker_id, connected }),
            event == old(self)@.event(Signal::Worker { worker: worker_id, connected }),
            final(self)@.wf(),
    {
        if connected {
            self.up.insert(worker_id);
        } else {
            self.up.remove(&worker_id);
        }
        let next = !self.up.is_empty();
        self.publish(next)
    }

    /// Takes in that the link of the device is up, before any worker may
    /// have said so, and returns the status event that is owed, if any.
    pub fn announce(&mut self) -> (event: Option<bool>)
        ensures
            final(self)@ == old(self)@.after(Signal::Announced),
            event == old(self)@.event(Signal::Announced),
    {
        self.publish(true)
    }

    /// Takes in that the workers have ended: none of them is up any more.
    /// Returns the status event that is owed, if any.
    pub fn close(&mut self) -> (event: Option<bool>)
        ensures
            final(self)@ == old(self)@.after(Signal::Closed),
            final(self)@ == ConnectionModel::initial(),
            event == old(self)@.event(Signal::Closed),
    {
        self.up.clear();
        self.publish(false)
    }
}

/// After the report of a worker, and after the close, the published flag
/// says whether some worker is up.
pub proof fn lemma_after_wf(state: ConnectionModel, signal: Signal)
    requires
        !(signal is Announced),
    ensures
        state.after(signal).wf(),
{
}

/// Flap suppression: over any sequence of reports of workers, the number of
/// status events equals the number of times the set of workers that are up
/// changes between empty and not empty.
pub proof fn lemma_events_count_transitions(state: ConnectionModel, signals: Seq<Signal>)
    requires
        state.wf(),
        all_from_workers(signals),
    ensures
        state.events(signals).len() == state.transitions(signals),
        state.after_all(signals).wf(),
    decreases signals.len(),
{
    if signals.len() > 0 {
        assert(signals[0] is Worker);
        lemma_after_wf(state, signals[0]);
        assert forall|i: int| 0 <= i < signals.drop_first().len() implies #[trigger] signals.drop_first()[i] is Worker by {
            assert(signals[i + 1] is Worker);
        }
        lemma_events_count_transitions(state.after(signals[0]), signals.drop_first());
    }
}

/// Status events are edge triggered, whatever is taken in: the first one
/// negates what was published before, each later one negates the one before
/// it, and the last one is what is published in the end.
pub proof fn lemma_events_alternate(state: ConnectionModel, signals: Seq<Signal>)
    ensures
        state.events(signals).len() > 0 ==> state.events(signals)[0] == !state.published,
        forall|i: int|
            0 <= i < state.events(signals).len() - 1 ==> #[trigger] state.events(signals)[i]
                != state.events(signals)[i + 1],
        state.events(signals).len() > 0 ==> state.events(signals).last() == state.after_all(
            signals,
        ).published,
        state.events(signals).len() == 0 ==> state.after_all(signals).published
            == state.published,
    decreases signals.len(),
{
    if signals.len() > 0 {
        let next = state.after(signals[0]);
        let rest = next.events(signals.drop_first());
        lemma_events_alternate(next, signals.drop_first());
        match state.event(signals[0]) {
            Some(e) => {
                let all = state.events(signals);
                assert(all == seq![e] + rest);
                assert(all[0] == e);
                assert forall|i: int| 0 <= i < all.len() - 1 implies #[trigger] all[i] != all[i
                    + 1] by {
                    if i > 0 {
                        assert(all[i] == rest[i - 1]);
                        assert(all[i + 1] == rest[i - 1 + 1]);
                    } else {
                        assert(all[1] == rest[0]);
                    }
                }
                if rest.len() > 0 {
                    assert(all.last() == rest.last());
                }
            },
            None => {},
        }
    }
}

} // verus!
