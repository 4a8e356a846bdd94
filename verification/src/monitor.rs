//! One monitor: how it is started and how it is fully stopped.
//!
//! A monitor is started on the direct path when its device is already
//! reachable, and by a connection watcher otherwise. It is fully stopped in
//! two phases: the stop signal is broadcast and the tasks are given a grace
//! period to end by themselves; whatever still runs after it is aborted.

use crate::select::{lemma_positions, positions};
use crate::watcher::{monitorable, push_flags, CharacteristicProperties};
use vstd::prelude::*;

verus! {

/// Milliseconds that the tasks of a monitor are given to end after the stop
/// signal.
pub const STOP_GRACE_MS: u64 = 2000;

/// How a monitor is started.
#[derive(Clone, Debug, PartialEq, Eq)]
pub enum StartPlan {
    /// The device is reachable: start one worker for the characteristic at
    /// each of these positions right away.
    Direct(Vec<usize>),
    /// The device is not reachable: start a connection watcher.
    Watch,
}

/// Why a monitor cannot be started.
#[derive(Clone, Copy, Debug, PartialEq, Eq, Structural)]
pub enum StartError {
    /// The device is reachable, but none of its battery characteristics can
    /// push its value.
    NoNotifyCharacteristic,
}

impl StartError {
    /// The text shown to the user.
    pub fn message(&self) -> (text: String)
        ensures
            text@ == "No battery characteristic supports notifications"@,
    {
        "No battery characteristic supports notifications".to_string()
    }
}

/// Decides how to start a monitor from what is known of the device: nothing
/// when it is not reachable, else the properties of its battery
/// characteristics.
pub fn plan_start(reachable: Option<&Vec<CharacteristicProperties>>) -> (plan: Result<
    StartPlan,
    StartError,
>)
    ensures
        match reachable {
            None => plan == Ok::<StartPlan, StartError>(StartPlan::Watch),
            Some(properties) => {
                let found = positions(push_flags(properties@));
                if found.len() == 0 {
                    plan == Err::<StartPlan, StartError>(StartError::NoNotifyCharacteristic)
                } else {
                    plan matches Ok(StartPlan::Direct(workers)) && workers@ == found
                }
            },
        },
{
    match reachable {
        None => Ok(StartPlan::Watch),
        Some(properties) => {
            let found = monitorable(properties);
            if found.len() == 0 {
                Err(StartError::NoNotifyCharacteristic)
            } else {
                Ok(StartPlan::Direct(found))
            }
        },
    }
}

/// What is known of one task of a monitor.
#[derive(Clone, Copy, Debug, PartialEq, Eq, Structural)]
pub enum TaskStatus {
    /// The task has not been seen to end.
    Running,
    /// The task ended by itself.
    Finished,
    /// The task was aborted.
    Aborted,
}

/// How far the stopping of a monitor has come.
#[derive(Clone, Copy, Debug, PartialEq, Eq, Structural)]
pub enum StopPhase {
    /// No stop was asked for.
    Live,
    /// The stop signal was broadcast and the grace period runs.
    Stopping,
    /// Every task has ended or was aborted.
    Stopped,
}

/// The mathematical content of a [`MonitorTask`].
pub struct TaskModel {
    pub phase: StopPhase,
    pub tasks: Seq<TaskStatus>,
}

/// What one step of stopping asks for.
#[derive(Clone, Debug, PartialEq, Eq)]
pub struct StopStep {
    /// Broadcast the stop signal and start the grace period.
    pub signal: bool,
    /// Abort the tasks at these positions.
    pub abort: Vec<usize>,
    /// The monitor is fully stopped.
    pub done: bool,
}

/// For each task, whether it has not been seen to end.
pub open spec fn running_flags(tasks: Seq<TaskStatus>) -> Seq<bool> {
    tasks.map_values(|t: TaskStatus| t == TaskStatus::Running)
}

/// Whether no task runs.
pub open spec fn all_ended(tasks: Seq<TaskStatus>) -> bool {
    forall|i: int| 0 <= i < tasks.len() ==> tasks[i] != TaskStatus::Running
}

/// The tasks once those that run are aborted.
pub open spec fn aborted(tasks: Seq<TaskStatus>) -> Seq<TaskStatus> {
    tasks.map_values(
        |t: TaskStatus|
            if t == TaskStatus::Running {
                TaskStatus::Aborted
            } else {
                t
            },
    )
}

impl TaskModel {
    /// A monitor of `count` running tasks for which no stop was asked.
    pub open spec fn started(count: nat) -> TaskModel {
        TaskModel { phase: StopPhase::Live, tasks: Seq::new(count, |i: int| TaskStatus::Running) }
    }

    /// A monitor counts as stopped only when none of its tasks runs.
    pub open spec fn wf(self) -> bool {
        self.phase == StopPhase::Stopped ==> all_ended(self.tasks)
    }

    /// The phase in which a monitor waits for `tasks` after the stop signal.
    pub open spec fn waiting_phase(tasks: Seq<TaskStatus>) -> StopPhase {
        if all_ended(tasks) {
            StopPhase::Stopped
        } else {
            StopPhase::Stopping
        }
    }

    /// The monitor once a stop is asked for.
    pub open spec fn stop_requested(self) -> TaskModel {
        match self.phase {
            StopPhase::Live => TaskModel { phase: Self::waiting_phase(self.tasks), ..self },
            _ => self,
        }
    }

    /// The monitor once the task at `position` is seen to have ended.
    pub open spec fn task_ended(self, position: int) -> TaskModel {
        if 0 <= position < self.tasks.len() && self.tasks[position] == TaskStatus::Running {
            let tasks = self.tasks.update(position, TaskStatus::Finished);
            TaskModel {
                phase: if self.phase == StopPhase::Stopping {
                    Self::waiting_phase(tasks)
                } else {
                    self.phase
                },
                tasks,
            }
        } else {
            self
        }
    }

    /// The monitor once the grace period is over.
    pub open spec fn grace_elapsed(self) -> TaskModel {
        match self.phase {
            StopPhase::Stopping => TaskModel {
                phase: StopPhase::Stopped,
                tasks: aborted(self.tasks),
            },
            _ => self,
        }
    }

    /// The tasks to abort when the grace period is over.
    pub open spec fn to_abort(self) -> Seq<usize> {
        match self.phase {
            StopPhase::Stopping => positions(running_flags(self.tasks)),
            _ => Seq::empty(),
        }
    }

    /// The monitor after the tasks at `positions` are seen to have ended, in
    /// order.
    pub open spec fn tasks_ended(self, ended: Seq<int>) -> TaskModel
        decreases ended.len(),
    {
        if ended.len() == 0 {
            self
        } else {
            self.task_ended(ended[0]).tasks_ended(ended.drop_first())
        }
    }
}

/// The stop signal and the tasks of one monitor.
pub struct MonitorTask {
    phase: StopPhase,
    tasks: Vec<TaskStatus>,
}

impl View for MonitorTask {
    type V = TaskModel;

    closed spec fn view(&self) -> TaskModel {
        TaskModel { phase: self.phase, tasks: self.tasks@ }
    }
}

impl MonitorTask {
    /// A monitor of `count` running tasks.
    pub fn new(count: usize) -> (monitor: MonitorTask)
        ensures
            monitor@ == TaskModel::started(count as nat),
            monitor@.wf(),
    {
        let mut tasks: Vec<TaskStatus> = Vec::new();
        let mut i: usize = 0;
        while i < count
            invariant
                i <= count,
                tasks@ == Seq::new(i as nat, |j: int| TaskStatus::Running),
            decreases count - i,
        {
            tasks.push(TaskStatus::Running);
            i += 1;
            proof {
                assert(tasks@ =~= Seq::new(i as nat, |j: int| TaskStatus::Running));
            }
        }
        MonitorTask { phase: StopPhase::Live, tasks }
    }

    /// How far the stopping has come.
    pub fn phase(&self) -> (phase: StopPhase)
        ensures
            phase == self@.phase,
    {
        self.phase
    }

    /// The number of tasks.
    pub fn task_count(&self) -> (count: usize)
        ensures
            count == self@.tasks.len(),
    {
        self.tasks.len()
    }

    /// What is known of the task at `position`.
    pub fn status(&self, position: usize) -> (status: Option<TaskStatus>)
        ensures
            status == if position < self@.tasks.len() {
                Some(self@.tasks[position as int])
            } else {
                None
            },
    {
        if position < self.tasks.len() {
            Some(self.tasks[position])
        } else {
            None
        }
    }

    fn none_running(&self) -> (ended: bool)
        ensures
            ended == all_ended(self@.tasks),
    {
        let mut i: usize = 0;
        while i < self.tasks.len()
            invariant
                i <= self.tasks.len(),
                forall|j: int| 0 <= j < i ==> self.tasks@[j] != TaskStatus::Running,
            decreases self.tasks.len() - i,
        {
            if self.tasks[i] == TaskStatus::Running {
                return false;
            }
            i += 1;
        }
        true
    }

    /// Asks for the monitor to stop. The first call has the stop signal
    /// broadcast; any later one changes nothing.
    pub fn request_stop(&mut self) -> (step: StopStep)
        ensures
            final(self)@ == old(self)@.stop_requested(),
            step.signal == (old(self)@.phase == StopPhase::Live),
            step.abort@.len() == 0,
            step.done == (final(self)@.phase == StopPhase::Stopped),
    {
        let signal = self.phase == StopPhase::Live;
        if signal {
            self.phase = if self.none_running() {
                StopPhase::Stopped
            } else {
                StopPhase::Stopping
            };
        }
        StopStep { signal, abort: Vec::new(), done: self.phase == StopPhase::Stopped }
    }

    /// Takes in that the task at `position` has ended.
    pub fn task_ended(&mut self, position: usize) -> (step: StopStep)
        ensures
            final(self)@ == old(self)@.task_ended(position as int),
            !step.signal,
            step.abort@.len() == 0,
            step.done == (final(self)@.phase == StopPhase::Stopped),
    {
        if position < self.tasks.len() && self.tasks[position] == TaskStatus::Running {
            self.tasks.set(position, TaskStatus::Finished);
            if self.phase == StopPhase::Stopping && self.none_running() {
                self.phase = StopPhase::Stopped;
            }
        }
        StopStep { signal: false, abort: Vec::new(), done: self.phase == StopPhase::Stopped }
    }

    /// Takes in that the grace period is over: every task that still runs is
    /// to be aborted, and the monitor counts as stopped.
    pub fn grace_elapsed(&mut self) -> (step: StopStep)
        ensures
            final(self)@ == old(self)@.grace_elapsed(),
            !step.signal,
            step.abort@ == old(self)@.to_abort(),
            step.done == (final(self)@.phase == StopPhase::Stopped),
    {
        let mut abort: Vec<usize> = Vec::new();
        if self.phase == StopPhase::Stopping {
            let mut i: usize = 0;
            while i < self.tasks.len()
                invariant
                    i <= self.tasks.len(),
                    self.tasks@.len() == old(self).tasks@.len(),
                    self.phase == old(self).phase,
                    abort@ == positions(running_flags(old(self).tasks@.take(i as int))),
                    forall|j: int|
                        0 <= j < i ==> self.tasks@[j] == aborted(old(self).tasks@)[j],
                    forall|j: int|
                        i <= j < self.tasks.len() ==> self.tasks@[j] == old(self).tasks@[j],
                decreases self.tasks.len() - i,
            {
                proof {
                    assert(running_flags(old(self).tasks@.take(i + 1)).drop_last()
                        == running_flags(old(self).tasks@.take(i as int)));
                }
                if self.tasks[i] == TaskStatus::Running {
                    abort.push(i);
                    self.tasks.set(i, TaskStatus::Aborted);
                }
                i += 1;
            }
            proof {
                assert(old(self).tasks@.take(i as int) == old(self).tasks@);
                assert(self.tasks@ =~= aborted(old(self).tasks@));
            }
            self.phase = StopPhase::Stopped;
        }
        StopStep { signal: false, abort, done: self.phase == StopPhase::Stopped }
    }
}

/// Stopping is bounded: once a stop was asked for, whatever tasks end during
/// the grace period and whatever tasks never end, the monitor is stopped when
/// the grace period is over and none of its tasks runs; the tasks aborted are
/// exactly those that still ran.
pub proof fn lemma_stop_is_bounded(monitor: TaskModel, ended: Seq<int>)
    requires
        monitor.wf(),
        monitor.tasks.len() <= usize::MAX,
    ensures
        ({
            let waited = monitor.stop_requested().tasks_ended(ended);
            let stopped = waited.grace_elapsed();
            &&& stopped.phase == StopPhase::Stopped
            &&& all_ended(stopped.tasks)
            &&& stopped.tasks.len() == monitor.tasks.len()
            &&& forall|i: int|
                0 <= i < waited.tasks.len() ==> (waited.tasks[i] == TaskStatus::Running
                    <==> #[trigger] waited.to_abort().contains(i as usize))
            &&& forall|i: int|
                0 <= i < waited.tasks.len() && waited.tasks[i] != TaskStatus::Running
                    ==> #[trigger] stopped.tasks[i] == waited.tasks[i]
        }),
{
    let requested = monitor.stop_requested();
    lemma_waiting_keeps(requested, ended);
    let waited = requested.tasks_ended(ended);
    let flags = running_flags(waited.tasks);
    lemma_positions(flags);
    if waited.phase == StopPhase::Stopping {
        assert forall|i: int| 0 <= i < waited.tasks.len() implies (waited.tasks[i]
            == TaskStatus::Running <==> #[trigger] waited.to_abort().contains(i as usize)) by {
            if waited.tasks[i] == TaskStatus::Running {
                assert(flags[i]);
            }
            if waited.to_abort().contains(i as usize) {
                let k = choose|k: int|
                    0 <= k < positions(flags).len() && positions(flags)[k] == i as usize;
                assert(flags[positions(flags)[k] as int]);
            }
        }
    }
}

/// While tasks end, a monitor that is not live stays so, keeps the number of
/// its tasks and counts as stopped only when none of them runs.
pub proof fn lemma_waiting_keeps(monitor: TaskModel, ended: Seq<int>)
    requires
        monitor.wf(),
        monitor.phase != StopPhase::Live,
    ensures
        monitor.tasks_ended(ended).wf(),
        monitor.tasks_ended(ended).phase != StopPhase::Live,
        monitor.tasks_ended(ended).tasks.len() == monitor.tasks.len(),
    decreases ended.len(),
{
    if ended.len() > 0 {
        lemma_waiting_keeps(monitor.task_ended(ended[0]), ended.drop_first());
    }
}

/// The stop signal is broadcast once: asking twice for a stop is the same as
/// asking once.
pub proof fn lemma_stop_request_is_idempotent(monitor: TaskModel)
    ensures
        monitor.stop_requested().phase != StopPhase::Live,
        monitor.stop_requested().stop_requested() == monitor.stop_requested(),
{
}

} // verus!
