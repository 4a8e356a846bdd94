//! The battery reader: one-shot reads of resolved characteristics.
//!
//! A strict read gives up at the first characteristic that cannot be read
//! and hands its error on. A best-effort read goes through all of them and
//! leaves the level absent where a read failed.
//!
//! The reads themselves are made by the caller. A [`ReadSession`] says which
//! characteristic to read next and takes in what came of it, so that no read
//! is made that the mode does not ask for.

use crate::battery::{level_of, parse_level, BatteryInfo};
use crate::worker::clone_label;
use vstd::prelude::*;

verus! {

/// What came of reading one characteristic: its raw value, or the error of
/// the adapter as text.
pub type ReadOutcome = Result<Vec<u8>, String>;

/// How failures are dealt with.
#[derive(Clone, Copy, Debug, PartialEq, Eq, Structural)]
pub enum ReadMode {
    /// The first failure ends the read and is handed on.
    Strict,
    /// A failure leaves the level of that characteristic absent.
    BestEffort,
}

/// The reading that `outcome` gives for a characteristic labelled `label`.
pub open spec fn info_of(label: Option<String>, outcome: ReadOutcome) -> BatteryInfo {
    BatteryInfo {
        battery_level: match outcome {
            Ok(value) => level_of(value@),
            Err(_) => None,
        },
        user_descriptor: label,
    }
}

/// The number of characteristics for which an outcome is at hand.
pub open spec fn paired(labels: Seq<Option<String>>, outcomes: Seq<ReadOutcome>) -> int {
    if labels.len() <= outcomes.len() {
        labels.len() as int
    } else {
        outcomes.len() as int
    }
}

/// The readings of the first `count` characteristics, each from its outcome.
pub open spec fn readings(
    labels: Seq<Option<String>>,
    outcomes: Seq<ReadOutcome>,
    count: int,
) -> Seq<BatteryInfo> {
    Seq::new(count as nat, |i: int| info_of(labels[i], outcomes[i]))
}

/// The position of the first failure among `outcomes`, if there is one.
pub open spec fn first_failure(outcomes: Seq<ReadOutcome>) -> Option<int>
    decreases outcomes.len(),
{
    if outcomes.len() == 0 {
        None
    } else {
        match first_failure(outcomes.drop_last()) {
            Some(i) => Some(i),
            None => if outcomes.last() is Err {
                Some(outcomes.len() - 1)
            } else {
                None
            },
        }
    }
}

/// What a best-effort read gives: one reading for each characteristic.
pub open spec fn best_effort_result(
    labels: Seq<Option<String>>,
    outcomes: Seq<ReadOutcome>,
) -> Seq<BatteryInfo> {
    readings(labels, outcomes, paired(labels, outcomes))
}

/// What a strict read gives: the error of the first failure, or one reading
/// for each characteristic when none failed.
pub open spec fn strict_result(labels: Seq<Option<String>>, outcomes: Seq<ReadOutcome>) -> Result<
    Seq<BatteryInfo>,
    String,
> {
    let count = paired(labels, outcomes);
    match first_failure(outcomes.take(count)) {
        Some(i) => Err(outcomes[i]->Err_0),
        None => Ok(readings(labels, outcomes, count)),
    }
}

/// The number of reads that a strict read makes: up to and with the first
/// failure.
pub open spec fn strict_attempts(labels: Seq<Option<String>>, outcomes: Seq<ReadOutcome>) -> int {
    let count = paired(labels, outcomes);
    match first_failure(outcomes.take(count)) {
        Some(i) => i + 1,
        None => count,
    }
}

/// The first failure is a failure, and nothing before it is.
pub proof fn lemma_first_failure(outcomes: Seq<ReadOutcome>)
    ensures
        match first_failure(outcomes) {
            Some(i) => {
                &&& 0 <= i < outcomes.len()
                &&& outcomes[i] is Err
                &&& forall|j: int| 0 <= j < i ==> outcomes[j] is Ok
            },
            None => forall|j: int| 0 <= j < outcomes.len() ==> outcomes[j] is Ok,
        },
    decreases outcomes.len(),
{
    if outcomes.len() > 0 {
        let front = outcomes.drop_last();
        lemma_first_failure(front);
        assert forall|j: int| 0 <= j < front.len() implies (front[j] is Ok) == (
        #[trigger] outcomes[j] is Ok) by {
            assert(front[j] == outcomes[j]);
        }
        match first_failure(front) {
            Some(i) => {
                assert(front[i] == outcomes[i]);
            },
            None => {},
        }
    }
}

/// The mathematical content of a [`ReadSession`].
pub struct ReadModel {
    pub mode: ReadMode,
    /// The label of each characteristic, in the order of the reads.
    pub labels: Seq<Option<String>>,
    /// The readings so far.
    pub infos: Seq<BatteryInfo>,
    /// The error that ended the read.
    pub failure: Option<String>,
}

impl ReadModel {
    /// A read of the characteristics labelled `labels` that has not begun.
    pub open spec fn start(mode: ReadMode, labels: Seq<Option<String>>) -> ReadModel {
        ReadModel { mode, labels, infos: Seq::empty(), failure: None }
    }

    /// There is at most one reading for each characteristic, and only a
    /// strict read fails.
    pub open spec fn wf(self) -> bool {
        &&& self.infos.len() <= self.labels.len()
        &&& self.failure is Some ==> self.mode == ReadMode::Strict
    }

    /// The characteristic to read next, if any.
    pub open spec fn next_read(self) -> Option<usize> {
        if self.failure is None && self.infos.len() < self.labels.len() {
            Some(self.infos.len() as usize)
        } else {
            None
        }
    }

    /// The session once the outcome of the read it asked for is taken in.
    pub open spec fn recorded(self, outcome: ReadOutcome) -> ReadModel {
        if self.next_read() is None {
            self
        } else if outcome is Err && self.mode == ReadMode::Strict {
            ReadModel { failure: Some(outcome->Err_0), ..self }
        } else {
            ReadModel {
                infos: self.infos.push(info_of(self.labels[self.infos.len() as int], outcome)),
                ..self
            }
        }
    }

    /// The session once `outcomes` are taken in, in order.
    pub open spec fn fed(self, outcomes: Seq<ReadOutcome>) -> ReadModel
        decreases outcomes.len(),
    {
        if outcomes.len() == 0 {
            self
        } else {
            self.fed(outcomes.drop_last()).recorded(outcomes.last())
        }
    }

    /// What the read gives.
    pub open spec fn result(self) -> Result<Seq<BatteryInfo>, String> {
        match self.failure {
            Some(error) => Err(error),
            None => Ok(self.infos),
        }
    }

    /// The number of reads made so far.
    pub open spec fn attempts(self) -> int {
        if self.failure is Some {
            self.infos.len() as int + 1
        } else {
            self.infos.len() as int
        }
    }
}

/// A one-shot read of some characteristics, one step at a time.
pub struct ReadSession {
    mode: ReadMode,
    labels: Vec<Option<String>>,
    infos: Vec<BatteryInfo>,
    failure: Option<String>,
}

impl View for ReadSession {
    type V = ReadModel;

    closed spec fn view(&self) -> ReadModel {
        ReadModel {
            mode: self.mode,
            labels: self.labels@,
            infos: self.infos@,
            failure: self.failure,
        }
    }
}

impl ReadSession {
    /// A read of the characteristics labelled `labels`, in that order.
    pub fn new(mode: ReadMode, labels: Vec<Option<String>>) -> (session: ReadSession)
        ensures
            session@ == ReadModel::start(mode, labels@),
            session@.wf(),
    {
        ReadSession { mode, labels, infos: Vec::new(), failure: None }
    }

    /// The characteristic to read next, or nothing when the read is over.
    pub fn next_read(&self) -> (next: Option<usize>)
        ensures
            next == self@.next_read(),
    {
        if self.failure.is_none() && self.infos.len() < self.labels.len() {
            Some(self.infos.len())
        } else {
            None
        }
    }

    /// Takes in what came of the read that [`ReadSession::next_read`] asked
    /// for. When the read is over, nothing changes.
    pub fn record(&mut self, outcome: &ReadOutcome)
        requires
            old(self)@.wf(),
        ensures
            final(self)@ == old(self)@.recorded(*outcome),
            final(self)@.wf(),
    {
        if self.failure.is_none() && self.infos.len() < self.labels.len() {
            let label = clone_label(&self.labels[self.infos.len()]);
            match outcome {
                Ok(value) => {
                    self.infos.push(
                        BatteryInfo {
                            battery_level: parse_level(value.as_slice()),
                            user_descriptor: label,
                        },
                    );
                },
                Err(error) => {
                    match self.mode {
                        ReadMode::Strict => {
                            self.failure = Some(error.clone());
                        },
                        ReadMode::BestEffort => {
                            self.infos.push(
                                BatteryInfo { battery_level: None, user_descriptor: label },
                            );
                        },
                    }
                },
            }
        }
    }

    /// Ends the read and gives its result: the error that ended it, or the
    /// readings so far.
    pub fn finish(self) -> (result: Result<Vec<BatteryInfo>, String>)
        ensures
            match result {
                Ok(infos) => self@.result() == Ok::<Seq<BatteryInfo>, String>(infos@),
                Err(error) => self@.result() == Err::<Seq<BatteryInfo>, String>(error),
            },
    {
        match self.failure {
            Some(error) => Err(error),
            None => Ok(self.infos),
        }
    }
}

/// A copy of the labels of `labels`.
fn clone_labels(labels: &Vec<Option<String>>) -> (copy: Vec<Option<String>>)
    ensures
        copy@ == labels@,
{
    let mut copy: Vec<Option<String>> = Vec::new();
    let mut i: usize = 0;
    while i < labels.len()
        invariant
            i <= labels.len(),
            copy@ == labels@.take(i as int),
        decreases labels.len() - i,
    {
        copy.push(clone_label(&labels[i]));
        i += 1;
        proof {
            assert(copy@ =~= labels@.take(i as int));
        }
    }
    proof {
        assert(labels@.take(i as int) == labels@);
    }
    copy
}

fn read_all(mode: ReadMode, labels: &Vec<Option<String>>, outcomes: &Vec<ReadOutcome>) -> (session:
    ReadSession)
    ensures
        session@ == ReadModel::start(mode, labels@).fed(outcomes@),
{
    let mut session = ReadSession::new(mode, clone_labels(labels));
    let mut i: usize = 0;
    while i < outcomes.len()
        invariant
            i <= outcomes.len(),
            session@.wf(),
            session@ == ReadModel::start(mode, labels@).fed(outcomes@.take(i as int)),
        decreases outcomes.len() - i,
    {
        proof {
            assert(outcomes@.take(i + 1).drop_last() == outcomes@.take(i as int));
        }
        session.record(&outcomes[i]);
        i += 1;
    }
    proof {
        assert(outcomes@.take(i as int) == outcomes@);
    }
    session
}

/// Reads the characteristics labelled `labels` strictly, where `outcomes`
/// holds what comes of each read, in order: the first failure is handed on
/// and nothing after it is looked at.
pub fn read_strict(labels: &Vec<Option<String>>, outcomes: &Vec<ReadOutcome>) -> (result: Result<
    Vec<BatteryInfo>,
    String,
>)
    ensures
        match result {
            Ok(infos) => strict_result(labels@, outcomes@) == Ok::<Seq<BatteryInfo>, String>(
                infos@,
            ),
            Err(error) => strict_result(labels@, outcomes@) == Err::<Seq<BatteryInfo>, String>(
                error,
            ),
        },
{
    let session = read_all(ReadMode::Strict, labels, outcomes);
    proof {
        lemma_strict_session(labels@, outcomes@);
    }
    session.finish()
}

/// Reads the characteristics labelled `labels` as far as they can be read,
/// where `outcomes` holds what comes of each read, in order: a failure
/// leaves the level of that reading absent.
pub fn read_best_effort(labels: &Vec<Option<String>>, outcomes: &Vec<ReadOutcome>) -> (infos: Vec<
    BatteryInfo,
>)
    ensures
        infos@ == best_effort_result(labels@, outcomes@),
{
    let session = read_all(ReadMode::BestEffort, labels, outcomes);
    proof {
        lemma_best_effort_session(labels@, outcomes@);
    }
    session.infos
}

/// A strict session that is fed the outcomes of its reads ends with the
/// error of the first failure, or with one reading for each characteristic;
/// it asks for no read after the first failure.
pub proof fn lemma_strict_session(labels: Seq<Option<String>>, outcomes: Seq<ReadOutcome>)
    ensures
        ({
            let session = ReadModel::start(ReadMode::Strict, labels).fed(outcomes);
            &&& session.wf()
            &&& session.mode == ReadMode::Strict
            &&& session.labels == labels
            &&& session.result() == strict_result(labels, outcomes)
            &&& session.attempts() == strict_attempts(labels, outcomes)
            &&& session.failure is Some ==> session.next_read() is None
            &&& session.failure is None ==> session.infos == readings(
                labels,
                outcomes,
                paired(labels, outcomes),
            )
        }),
    decreases outcomes.len(),
{
    let count = paired(labels, outcomes);
    if outcomes.len() == 0 {
        assert(outcomes.take(count) =~= Seq::<ReadOutcome>::empty());
        assert(readings(labels, outcomes, count) =~= Seq::<BatteryInfo>::empty());
    } else {
        let front = outcomes.drop_last();
        let before = ReadModel::start(ReadMode::Strict, labels).fed(front);
        let before_count = paired(labels, front);
        lemma_strict_session(labels, front);
        lemma_first_failure(front.take(before_count));
        lemma_first_failure(outcomes.take(count));
        if outcomes.len() > labels.len() {
            assert(outcomes.take(count) =~= front.take(before_count));
            assert(readings(labels, outcomes, count) =~= readings(labels, front, before_count));
        } else {
            assert(outcomes.take(count) =~= outcomes);
            assert(front.take(before_count) =~= front);
            match first_failure(front) {
                Some(i) => {
                    assert(outcomes[i] == front[i]);
                },
                None => {
                    assert(before.infos.len() == front.len());
                    if outcomes.last() is Ok {
                        assert(before.recorded(outcomes.last()).infos =~= readings(
                            labels,
                            outcomes,
                            count,
                        ));
                    }
                },
            }
        }
    }
}

/// A best-effort session never fails: fed the outcomes of its reads, it
/// holds one reading for each characteristic, with the level absent where
/// the read failed.
pub proof fn lemma_best_effort_session(labels: Seq<Option<String>>, outcomes: Seq<ReadOutcome>)
    ensures
        ({
            let session = ReadModel::start(ReadMode::BestEffort, labels).fed(outcomes);
            &&& session.wf()
            &&& session.mode == ReadMode::BestEffort
            &&& session.labels == labels
            &&& session.failure is None
            &&& session.infos == best_effort_result(labels, outcomes)
            &&& forall|i: int|
                0 <= i < paired(labels, outcomes) ==> (#[trigger] session.infos[i]).user_descriptor
                    == labels[i] && (outcomes[i] is Err ==> session.infos[i].battery_level is None)
        }),
    decreases outcomes.len(),
{
    let count = paired(labels, outcomes);
    if outcomes.len() == 0 {
        assert(readings(labels, outcomes, count) =~= Seq::<BatteryInfo>::empty());
    } else {
        let front = outcomes.drop_last();
        let before = ReadModel::start(ReadMode::BestEffort, labels).fed(front);
        lemma_best_effort_session(labels, front);
        if outcomes.len() > labels.len() {
            assert(readings(labels, outcomes, count) =~= readings(
                labels,
                front,
                paired(labels, front),
            ));
        } else {
            assert(before.recorded(outcomes.last()).infos =~= readings(labels, outcomes, count));
        }
    }
}

/// Once a strict read has failed, it is over: it asks for no further read,
/// takes nothing more in and gives the error that ended it.
pub proof fn lemma_failure_is_final(session: ReadModel, outcome: ReadOutcome)
    requires
        session.failure is Some,
    ensures
        session.next_read() is None,
        session.recorded(outcome) == session,
        session.result() == Err::<Seq<BatteryInfo>, String>(session.failure->Some_0),
{
}

} // verus!
