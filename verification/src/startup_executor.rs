//! Applying the repairs of a reconciliation in order, one at a time.
use vstd::prelude::*;
use crate::reconcile::{DeferredTerminalSessionRepair, StartupReconciliation};
use crate::session::{SchedulerRestoreBatch, SessionQueueTransition};
use crate::shutdown::{result_code, session_result_code, SessionCommandResult};
use crate::startup::{SchedulerRestoreError, SessionAuthorityRepair, StartupRecoveryError};
use crate::startup_messages::ErrorSubject;
use crate::startup_restore::{restore_reconciliation, startup_of, EngineStartup};

verus! {

/// One bounded unit of progress.
#[derive(Clone, Copy, Debug, PartialEq, Eq, Structural)]
pub enum StartupSessionRepairPoll {
    Progressed,
    Backpressured,
    WaitingForCompletion,
    Complete,
    Faulted,
}

/// Why the owner of the session store did not do as it was asked.
#[derive(Clone, Copy, Debug, PartialEq, Eq, Structural)]
pub enum SessionOwnerError {
    QueueFull,
    Unavailable,
    /// Any other failure, under a code of its own.
    Other { code: u16 },
}

/// Why a repair failed.
#[derive(Clone, Copy, Debug, PartialEq, Eq)]
pub enum StartupSessionRepairError {
    Owner(SessionOwnerError),
    UnexpectedResult(&'static str),
    InternalInvariant,
}

impl StartupSessionRepairError {
    /// The text of an error; `detail` is the text of the owner's error.
    pub open spec fn spec_message(self, detail: Seq<char>) -> Seq<char> {
        match self {
            StartupSessionRepairError::Owner(_) => "startup session repair failed: "@ + detail,
            StartupSessionRepairError::UnexpectedResult(result) => {
                "startup session repair returned unexpected "@ + result@
            },
            StartupSessionRepairError::InternalInvariant => "startup session repair internal invariant failed"@,
        }
    }

    pub fn message(&self, detail: &str) -> (r: String)
        ensures
            r@ == self.spec_message(detail@),
    {
        match *self {
            StartupSessionRepairError::Owner(_) => {
                let mut r = "startup session repair failed: ".to_owned();
                r.append(detail);
                r
            },
            StartupSessionRepairError::UnexpectedResult(result) => {
                let mut r = "startup session repair returned unexpected ".to_owned();
                r.append(result);
                r
            },
            StartupSessionRepairError::InternalInvariant => {
                "startup session repair internal invariant failed".to_owned()
            },
        }
    }
}

/// Why there is no restored scheduler yet.
#[derive(Clone, Copy, Debug, PartialEq, Eq)]
pub enum StartupSessionRepairFinishError {
    NotComplete,
    Faulted(StartupSessionRepairError),
    Restore(StartupRecoveryError),
}

impl StartupSessionRepairFinishError {
    /// The text of an error, around the GID that a refused restore is about; `detail`
    /// is the text of what refused it, or of the owner's error.
    pub open spec fn spec_message(self, gid: Seq<char>, detail: Seq<char>) -> Seq<char> {
        match self {
            StartupSessionRepairFinishError::NotComplete => "startup session repairs are not complete"@,
            StartupSessionRepairFinishError::Faulted(error) => error.spec_message(detail),
            StartupSessionRepairFinishError::Restore(error) => "scheduler restore failed after repairs: "@
                + error.spec_message(gid, detail),
        }
    }

    pub fn message(&self, subject: &ErrorSubject<'_>) -> (r: String)
        ensures
            r@ == self.spec_message(subject.gid@, subject.detail@),
    {
        match self {
            StartupSessionRepairFinishError::NotComplete => "startup session repairs are not complete".to_owned(),
            StartupSessionRepairFinishError::Faulted(error) => error.message(subject.detail),
            StartupSessionRepairFinishError::Restore(error) => {
                let mut r = "scheduler restore failed after repairs: ".to_owned();
                r.append(error.message(subject).as_str());
                r
            },
        }
    }
}

/// The kind of repair that is being applied.
#[derive(Clone, Copy, Debug, PartialEq, Eq, Structural)]
pub enum RepairPhase {
    Queue,
    Terminal,
    Authority,
    Complete,
}

/// The kind that follows.
pub open spec fn phase_after(phase: RepairPhase) -> RepairPhase {
    match phase {
        RepairPhase::Queue => RepairPhase::Terminal,
        RepairPhase::Terminal => RepairPhase::Authority,
        _ => RepairPhase::Complete,
    }
}

/// A repair as it is sent to the owner of the session store.
#[derive(Debug, PartialEq, Eq)]
pub enum RepairCommand<'a> {
    TransitionTaskQueue(&'a SessionQueueTransition),
    PersistStoppedResult(&'a DeferredTerminalSessionRepair),
    ReconcileJournalAuthority(&'a SessionAuthorityRepair),
}

/// How many repairs of a kind there are.
pub open spec fn repairs_in(reconciliation: StartupReconciliation, phase: RepairPhase) -> nat {
    match phase {
        RepairPhase::Queue => reconciliation.queue_session_repairs@.len(),
        RepairPhase::Terminal => reconciliation.terminal_session_repairs@.len(),
        RepairPhase::Authority => reconciliation.authority_repairs@.len(),
        RepairPhase::Complete => 0,
    }
}

/// What is done with a repair.
#[derive(Clone, Copy, Debug, PartialEq, Eq, Structural)]
pub enum RepairStand {
    /// There is none.
    Idle,
    /// It is offered to the owner.
    Offered,
    /// The owner has accepted it and has not answered.
    Accepted,
}

/// What has to be asked outside before the next unit of progress.
#[derive(Clone, Copy, Debug, PartialEq, Eq, Structural)]
pub enum RepairNeed {
    Nothing,
    /// The offered repair is submitted.
    Submit,
    /// The answer to the accepted repair is looked for.
    Wait,
}

/// What came of asking.
#[derive(Clone, Copy, Debug, PartialEq, Eq, Structural)]
pub enum RepairAnswer {
    Nothing,
    Accepted,
    Rejected(SessionOwnerError),
    Pending,
    Answered(SessionCommandResult),
    Failed(SessionOwnerError),
}

/// How far repairs have come.
#[derive(Clone, Copy, Debug, PartialEq, Eq)]
pub struct RepairState {
    pub phase: RepairPhase,
    pub index: usize,
    pub stand: RepairStand,
    pub fault: Option<StartupSessionRepairError>,
}

impl RepairState {
    /// Nothing has been applied.
    pub open spec fn initial() -> RepairState {
        RepairState { phase: RepairPhase::Queue, index: 0, stand: RepairStand::Idle, fault: None }
    }

    pub open spec fn failed(self, error: StartupSessionRepairError) -> (RepairState, StartupSessionRepairPoll) {
        (
            RepairState { stand: RepairStand::Idle, fault: Some(error), ..self },
            StartupSessionRepairPoll::Faulted,
        )
    }

    /// What has to be asked.
    pub open spec fn need(self) -> RepairNeed {
        if self.fault is Some {
            RepairNeed::Nothing
        } else {
            match self.stand {
                RepairStand::Idle => RepairNeed::Nothing,
                RepairStand::Offered => RepairNeed::Submit,
                RepairStand::Accepted => RepairNeed::Wait,
            }
        }
    }

    /// The next state, where `count` is how many repairs of the present kind
    /// there are.
    pub open spec fn stepped(self, count: nat, answer: RepairAnswer) -> (RepairState, StartupSessionRepairPoll) {
        if self.fault is Some {
            (self, StartupSessionRepairPoll::Faulted)
        } else {
            match (self.stand, answer) {
                (RepairStand::Accepted, RepairAnswer::Pending) => (
                    self,
                    StartupSessionRepairPoll::WaitingForCompletion,
                ),
                (RepairStand::Accepted, RepairAnswer::Answered(SessionCommandResult::Unit)) => if self.phase
                    is Complete || self.index == usize::MAX {
                    self.failed(StartupSessionRepairError::InternalInvariant)
                } else {
                    (
                        RepairState { stand: RepairStand::Idle, index: (self.index + 1) as usize, ..self },
                        StartupSessionRepairPoll::Progressed,
                    )
                },
                (RepairStand::Accepted, RepairAnswer::Answered(result)) => self.failed(
                    StartupSessionRepairError::UnexpectedResult(result_code(result)),
                ),
                (RepairStand::Accepted, RepairAnswer::Failed(error)) => self.failed(
                    StartupSessionRepairError::Owner(error),
                ),
                (RepairStand::Offered, RepairAnswer::Accepted) => (
                    RepairState { stand: RepairStand::Accepted, ..self },
                    StartupSessionRepairPoll::WaitingForCompletion,
                ),
                (RepairStand::Offered, RepairAnswer::Rejected(SessionOwnerError::QueueFull)) => (
                    self,
                    StartupSessionRepairPoll::Backpressured,
                ),
                (RepairStand::Offered, RepairAnswer::Rejected(error)) => self.failed(
                    StartupSessionRepairError::Owner(error),
                ),
                (RepairStand::Idle, RepairAnswer::Nothing) => if self.phase is Complete {
                    (self, StartupSessionRepairPoll::Complete)
                } else if self.index < count {
                    (
                        RepairState { stand: RepairStand::Offered, ..self },
                        StartupSessionRepairPoll::Progressed,
                    )
                } else {
                    (
                        RepairState { phase: phase_after(self.phase), index: 0, ..self },
                        StartupSessionRepairPoll::Progressed,
                    )
                },
                _ => self.failed(StartupSessionRepairError::InternalInvariant),
            }
        }
    }

    /// Whether every repair has been applied.
    pub open spec fn complete(self) -> bool {
        self.fault is None && self.phase is Complete && self.stand is Idle
    }
}

/// Applies all repairs of a reconciliation through the owner of the session store
/// before a scheduler is built. A repair that was not accepted stays offered.
#[derive(Debug)]
pub struct StartupSessionRepairExecutor {
    pub reconciliation: StartupReconciliation,
    pub state: RepairState,
}

impl StartupSessionRepairExecutor {
    pub fn new(reconciliation: StartupReconciliation) -> (r: Self)
        ensures
            r.reconciliation == reconciliation,
            r.state == RepairState::initial(),
    {
        StartupSessionRepairExecutor {
            reconciliation,
            state: RepairState { phase: RepairPhase::Queue, index: 0, stand: RepairStand::Idle, fault: None },
        }
    }

    pub fn fault(&self) -> (r: Option<StartupSessionRepairError>)
        ensures
            r == self.state.fault,
    {
        self.state.fault
    }

    pub fn is_complete(&self) -> (r: bool)
        ensures
            r == self.state.complete(),
    {
        self.state.fault.is_none() && matches!(self.state.phase, RepairPhase::Complete) && matches!(
            self.state.stand,
            RepairStand::Idle
        )
    }

    /// What has to be asked before the next poll.
    pub fn need(&self) -> (r: RepairNeed)
        ensures
            r == self.state.need(),
    {
        if self.state.fault.is_some() {
            RepairNeed::Nothing
        } else {
            match self.state.stand {
                RepairStand::Idle => RepairNeed::Nothing,
                RepairStand::Offered => RepairNeed::Submit,
                RepairStand::Accepted => RepairNeed::Wait,
            }
        }
    }

    /// The repair that is to be applied next.
    pub fn next_command(&self) -> (r: Option<RepairCommand<'_>>)
        ensures
            r is Some <==> self.state.index < repairs_in(self.reconciliation, self.state.phase),
            r is Some ==> (match self.state.phase {
                RepairPhase::Queue => r->0 == RepairCommand::TransitionTaskQueue(
                    &self.reconciliation.queue_session_repairs@[self.state.index as int],
                ),
                RepairPhase::Terminal => r->0 == RepairCommand::PersistStoppedResult(
                    &self.reconciliation.terminal_session_repairs@[self.state.index as int],
                ),
                RepairPhase::Authority => r->0 == RepairCommand::ReconcileJournalAuthority(
                    &self.reconciliation.authority_repairs@[self.state.index as int],
                ),
                RepairPhase::Complete => false,
            }),
    {
        let index = self.state.index;
        match self.state.phase {
            RepairPhase::Queue => {
                if index < self.reconciliation.queue_session_repairs.len() {
                    Some(RepairCommand::TransitionTaskQueue(&self.reconciliation.queue_session_repairs[index]))
                } else {
                    None
                }
            },
            RepairPhase::Terminal => {
                if index < self.reconciliation.terminal_session_repairs.len() {
                    Some(RepairCommand::PersistStoppedResult(&self.reconciliation.terminal_session_repairs[index]))
                } else {
                    None
                }
            },
            RepairPhase::Authority => {
                if index < self.reconciliation.authority_repairs.len() {
                    Some(RepairCommand::ReconcileJournalAuthority(&self.reconciliation.authority_repairs[index]))
                } else {
                    None
                }
            },
            RepairPhase::Complete => None,
        }
    }

    fn fail(&mut self, error: StartupSessionRepairError) -> (r: StartupSessionRepairPoll)
        ensures
            final(self).reconciliation == old(self).reconciliation,
            (final(self).state, r) == old(self).state.failed(error),
    {
        self.state.stand = RepairStand::Idle;
        self.state.fault = Some(error);
        StartupSessionRepairPoll::Faulted
    }

    /// One unit of progress, from what came of asking as `need` says.
    pub fn poll(&mut self, answer: RepairAnswer) -> (r: StartupSessionRepairPoll)
        ensures
            final(self).reconciliation == old(self).reconciliation,
            (final(self).state, r) == old(self).state.stepped(
                repairs_in(old(self).reconciliation, old(self).state.phase),
                answer,
            ),
    {
        if self.state.fault.is_some() {
            return StartupSessionRepairPoll::Faulted;
        }
        match (self.state.stand, answer) {
            (RepairStand::Accepted, RepairAnswer::Pending) => StartupSessionRepairPoll::WaitingForCompletion,
            (RepairStand::Accepted, RepairAnswer::Answered(SessionCommandResult::Unit)) => {
                if matches!(self.state.phase, RepairPhase::Complete) || self.state.index == usize::MAX {
                    self.fail(StartupSessionRepairError::InternalInvariant)
                } else {
                    self.state.stand = RepairStand::Idle;
                    self.state.index = self.state.index + 1;
                    StartupSessionRepairPoll::Progressed
                }
            },
            (RepairStand::Accepted, RepairAnswer::Answered(result)) => {
                self.fail(StartupSessionRepairError::UnexpectedResult(session_result_code(result)))
            },
            (RepairStand::Accepted, RepairAnswer::Failed(error)) => {
                self.fail(StartupSessionRepairError::Owner(error))
            },
            (RepairStand::Offered, RepairAnswer::Accepted) => {
                self.state.stand = RepairStand::Accepted;
                StartupSessionRepairPoll::WaitingForCompletion
            },
            (RepairStand::Offered, RepairAnswer::Rejected(SessionOwnerError::QueueFull)) => {
                StartupSessionRepairPoll::Backpressured
            },
            (RepairStand::Offered, RepairAnswer::Rejected(error)) => {
                self.fail(StartupSessionRepairError::Owner(error))
            },
            (RepairStand::Idle, RepairAnswer::Nothing) => {
                if matches!(self.state.phase, RepairPhase::Complete) {
                    return StartupSessionRepairPoll::Complete;
                }
                if self.next_command().is_some() {
                    self.state.stand = RepairStand::Offered;
                } else {
                    self.state.phase = match self.state.phase {
                        RepairPhase::Queue => RepairPhase::Terminal,
                        RepairPhase::Terminal => RepairPhase::Authority,
                        _ => RepairPhase::Complete,
                    };
                    self.state.index = 0;
                }
                StartupSessionRepairPoll::Progressed
            },
            _ => self.fail(StartupSessionRepairError::InternalInvariant),
        }
    }

    /// The reconciliation once every repair has been acknowledged. It holds no
    /// repairs any more, so that none can be applied twice.
    pub fn finish_reconciliation(self) -> (r: Result<StartupReconciliation, StartupSessionRepairFinishError>)
        ensures
            finished(self, r),
    {
        match self.state.fault {
            Some(error) => return Err(StartupSessionRepairFinishError::Faulted(error)),
            None => {},
        }
        if !self.is_complete() {
            return Err(StartupSessionRepairFinishError::NotComplete);
        }
        let reconciliation = self.reconciliation;
        Ok(
            StartupReconciliation {
                scheduler_batch: reconciliation.scheduler_batch,
                tasks: reconciliation.tasks,
                authority_repairs: Vec::new(),
                appender_recoveries: reconciliation.appender_recoveries,
                journal_install_recoveries: reconciliation.journal_install_recoveries,
                no_space_probe_targets: reconciliation.no_space_probe_targets,
                queue_session_repairs: Vec::new(),
                terminal_session_repairs: Vec::new(),
            },
        )
    }

    /// The restored scheduler once every repair has been acknowledged.
    pub fn finish<S, P, R: Fn(SchedulerRestoreBatch) -> Result<(S, P), SchedulerRestoreError>>(self, restore: R) -> (r:
        Result<EngineStartup<S, P>, StartupSessionRepairFinishError>)
        requires
            forall|batch: SchedulerRestoreBatch| #[trigger] restore.requires((batch,)),
        ensures
            exists|handed: Result<StartupReconciliation, StartupSessionRepairFinishError>|
                #[trigger] finished(self, handed) && match handed {
                    Err(error) => r == Err::<EngineStartup<S, P>, StartupSessionRepairFinishError>(error),
                    Ok(done) => exists|restored: Result<(S, P), SchedulerRestoreError>|
                        #[trigger] restore.ensures((done.scheduler_batch,), restored) && r == (match startup_of(
                            done,
                            restored,
                        ) {
                            Ok(startup) => Ok::<EngineStartup<S, P>, StartupSessionRepairFinishError>(startup),
                            Err(error) => Err(StartupSessionRepairFinishError::Restore(error)),
                        }),
                },
    {
        let handed = self.finish_reconciliation();
        let ghost given = handed;
        assert(finished(self, given));
        match handed {
            Err(error) => Err(error),
            Ok(done) => match restore_reconciliation(done, restore) {
                Ok(startup) => Ok(startup),
                Err(error) => Err(StartupSessionRepairFinishError::Restore(error)),
            },
        }
    }
}

/// What is handed on after the repairs.
pub open spec fn finished(
    executor: StartupSessionRepairExecutor,
    r: Result<StartupReconciliation, StartupSessionRepairFinishError>,
) -> bool {
    match executor.state.fault {
        Some(error) => r == Err::<StartupReconciliation, StartupSessionRepairFinishError>(
            StartupSessionRepairFinishError::Faulted(error),
        ),
        None => if !executor.state.complete() {
            r == Err::<StartupReconciliation, StartupSessionRepairFinishError>(
                StartupSessionRepairFinishError::NotComplete,
            )
        } else {
            &&& r is Ok
            &&& r->Ok_0.queue_session_repairs@.len() == 0
            &&& r->Ok_0.terminal_session_repairs@.len() == 0
            &&& r->Ok_0.authority_repairs@.len() == 0
            &&& r->Ok_0.scheduler_batch == executor.reconciliation.scheduler_batch
            &&& r->Ok_0.tasks == executor.reconciliation.tasks
            &&& r->Ok_0.appender_recoveries == executor.reconciliation.appender_recoveries
            &&& r->Ok_0.journal_install_recoveries == executor.reconciliation.journal_install_recoveries
            &&& r->Ok_0.no_space_probe_targets == executor.reconciliation.no_space_probe_targets
        },
    }
}

/// How many repairs of each kind a reconciliation has.
#[verifier::ext_equal]
pub struct RepairCounts {
    pub queue: nat,
    pub terminal: nat,
    pub authority: nat,
}

impl RepairCounts {
    pub open spec fn of(self, phase: RepairPhase) -> nat {
        match phase {
            RepairPhase::Queue => self.queue,
            RepairPhase::Terminal => self.terminal,
            RepairPhase::Authority => self.authority,
            RepairPhase::Complete => 0,
        }
    }
}

/// The state after a run of answers.
pub open spec fn repair_run(counts: RepairCounts, answers: Seq<RepairAnswer>) -> RepairState
    decreases answers.len(),
{
    if answers.len() == 0 {
        RepairState::initial()
    } else {
        let before = repair_run(counts, answers.drop_last());
        before.stepped(counts.of(before.phase), answers.last()).0
    }
}

/// The repairs that have been acknowledged after a run of answers, each as its
/// kind and place, in the order of acknowledgement.
pub open spec fn acknowledged(counts: RepairCounts, answers: Seq<RepairAnswer>) -> Seq<(RepairPhase, int)>
    decreases answers.len(),
{
    if answers.len() == 0 {
        Seq::empty()
    } else {
        let before = repair_run(counts, answers.drop_last());
        let done = acknowledged(counts, answers.drop_last());
        if before.fault is None && before.stand is Accepted && answers.last() == RepairAnswer::Answered(
            SessionCommandResult::Unit,
        ) && repair_run(counts, answers).fault is None {
            done.push((before.phase, before.index as int))
        } else {
            done
        }
    }
}

/// The repairs of a kind up to a place.
pub open spec fn places(phase: RepairPhase, count: nat) -> Seq<(RepairPhase, int)> {
    Seq::new(count, |i: int| (phase, i))
}

/// The repairs before a place of a kind, in order.
pub open spec fn places_before(counts: RepairCounts, phase: RepairPhase, index: nat) -> Seq<(RepairPhase, int)> {
    match phase {
        RepairPhase::Queue => places(phase, index),
        RepairPhase::Terminal => places(RepairPhase::Queue, counts.queue) + places(phase, index),
        RepairPhase::Authority => places(RepairPhase::Queue, counts.queue) + places(
            RepairPhase::Terminal,
            counts.terminal,
        ) + places(phase, index),
        RepairPhase::Complete => places(RepairPhase::Queue, counts.queue) + places(
            RepairPhase::Terminal,
            counts.terminal,
        ) + places(RepairPhase::Authority, counts.authority),
    }
}

/// When repairs are complete, every one has been acknowledged exactly once: all
/// of the queues first, then all of the terminal results, then all of the
/// authorities, each kind in its order. And at every time those acknowledged are
/// a beginning of that order.
pub proof fn law_repairs_are_applied_once_in_order(counts: RepairCounts, answers: Seq<RepairAnswer>)
    ensures
        acknowledged(counts, answers) == places_before(
            counts,
            repair_run(counts, answers).phase,
            repair_run(counts, answers).index as nat,
        ),
        repair_run(counts, answers).complete() ==> acknowledged(counts, answers) == places(
            RepairPhase::Queue,
            counts.queue,
        ) + places(RepairPhase::Terminal, counts.terminal) + places(RepairPhase::Authority, counts.authority),
    decreases answers.len(),
{
    lemma_within_kind(counts, answers);
    if answers.len() > 0 {
        let before = repair_run(counts, answers.drop_last());
        law_repairs_are_applied_once_in_order(counts, answers.drop_last());
        lemma_within_kind(counts, answers.drop_last());
        let after = repair_run(counts, answers);
        let was = places_before(counts, before.phase, before.index as nat);
        let now = places_before(counts, after.phase, after.index as nat);
        if after.phase == before.phase {
            if after.index == before.index {
                assert(acknowledged(counts, answers) =~= now);
            } else {
                assert(now =~= was.push((before.phase, before.index as int)));
            }
        } else {
            assert(before.index == counts.of(before.phase));
            assert(places(after.phase, 0) =~= Seq::<(RepairPhase, int)>::empty());
            assert(now =~= was);
        }
    } else {
        assert(places(RepairPhase::Queue, 0) =~= Seq::<(RepairPhase, int)>::empty());
    }
}

/// A place is one of its kind, or behind the last.
proof fn lemma_within_kind(counts: RepairCounts, answers: Seq<RepairAnswer>)
    ensures
        ({
            let state = repair_run(counts, answers);
            &&& state.index <= counts.of(state.phase)
            &&& !(state.stand is Idle) ==> state.index < counts.of(state.phase)
        }),
    decreases answers.len(),
{
    if answers.len() > 0 {
        lemma_within_kind(counts, answers.drop_last());
    }
}

/// A repair that was turned away because the owner's queue was full stays the one
/// that is offered.
pub proof fn law_backpressure_keeps_the_command(state: RepairState, count: nat)
    requires
        state.fault is None,
        state.stand is Offered,
    ensures
        state.stepped(count, RepairAnswer::Rejected(SessionOwnerError::QueueFull)) == (
            state,
            StartupSessionRepairPoll::Backpressured,
        ),
{
}

/// After a fault nothing changes any more, and nothing is asked.
pub proof fn law_a_fault_is_final(state: RepairState, count: nat, answer: RepairAnswer)
    requires
        state.fault is Some,
    ensures
        state.stepped(count, answer) == (state, StartupSessionRepairPoll::Faulted),
        state.need() is Nothing,
        !state.complete(),
{
}

} // verus!
