//! How a process starts: a machine that leads through every stage of recovery
//! before anything is published, and closes the session owner where one fails.
use vstd::prelude::*;
use crate::bytes::{big_endian, low_bytes, push_bytes, push_u64, read_u128, sha256, sha256_of};
use crate::credentials::SessionLimits;
use crate::effects::TaskEventEnvelope;
use crate::json::capped;
use crate::reconcile::{
    derives, reconcile_startup_derived, DerivedStartupError, StartupReconciliation, StartupRecoveryConfig,
};
use crate::runtime_effects::{polled, RuntimeEffectConfig, RuntimeEffectConfigError, RuntimeEffectHandle};
use crate::session::{MonotonicInstant, RecoveredTaskJournal, SessionId, SessionRecord, SessionStartupSnapshot};
use crate::shutdown::{later, result_code, session_result_code, SessionCommandResult};
use crate::startup_executor::{
    finished, repairs_in, RepairAnswer, RepairState, StartupSessionRepairExecutor, StartupSessionRepairFinishError,
    StartupSessionRepairPoll,
};
use crate::text::{decimal_digits, decimal_text};
use vstd::utf8::encode_utf8;

verus! {

/// An error that the driver holds, by its number.
#[derive(Clone, Copy, Debug, PartialEq, Eq, Structural)]
pub struct Cause(pub u64);

/// Why a process did not start.
#[derive(Clone, Copy, Debug)]
pub enum ProcessBootstrapFailure {
    Owner(Cause),
    UnexpectedSessionResult(&'static str),
    Filesystem(Cause),
    Reconciliation(DerivedStartupError),
    Repairs(StartupSessionRepairFinishError),
    Native(Cause),
    RuntimeConfig(RuntimeEffectConfigError),
    ShutdownCoordinator(Cause),
    PersistenceCatalog(Cause),
    RuntimeRequestCapacity { required: usize, configured: usize },
    RuntimeTimerCapacity { required: usize, configured: usize },
    DriverInput(Cause),
    DriverFault(Cause),
    RestoreBackpressured,
    RestoreDidNotComplete,
    StartupProbeAuthorityRemaining(usize),
}

impl ProcessBootstrapFailure {
    /// The message, with the text of the error that the failure holds or numbers.
    pub open spec fn spec_message(self, cause: Seq<char>) -> Seq<char> {
        match self {
            ProcessBootstrapFailure::Owner(_) => "session owner startup failed: "@ + cause,
            ProcessBootstrapFailure::UnexpectedSessionResult(result) =>
                "session initialization returned unexpected "@ + result@,
            ProcessBootstrapFailure::Filesystem(_) => "native filesystem startup failed: "@ + cause,
            ProcessBootstrapFailure::Reconciliation(_) => "startup reconciliation failed: "@ + cause,
            ProcessBootstrapFailure::Repairs(_) => "startup SQLite repair failed: "@ + cause,
            ProcessBootstrapFailure::Native(_) => "native startup failed: "@ + cause,
            ProcessBootstrapFailure::RuntimeConfig(error) => error.spec_message(),
            ProcessBootstrapFailure::ShutdownCoordinator(_) => "shutdown coordinator configuration failed: "@ + cause,
            ProcessBootstrapFailure::PersistenceCatalog(_) => "persistence catalog configuration failed: "@ + cause,
            ProcessBootstrapFailure::RuntimeRequestCapacity { required, configured } => "runtime request capacity "@
                + decimal_digits(configured as nat) + " cannot retain "@ + decimal_digits(required as nat)
                + " restored probes"@,
            ProcessBootstrapFailure::RuntimeTimerCapacity { required, configured } => "runtime timer capacity "@
                + decimal_digits(configured as nat) + " cannot retain "@ + decimal_digits(required as nat)
                + " restored timers"@,
            ProcessBootstrapFailure::DriverInput(_) => "scheduler restore input failed: "@ + cause,
            ProcessBootstrapFailure::DriverFault(_) => "scheduler restore faulted: "@ + cause,
            ProcessBootstrapFailure::RestoreBackpressured => "scheduler restore unexpectedly backpressured"@,
            ProcessBootstrapFailure::RestoreDidNotComplete =>
                "scheduler restore exceeded its bounded progress budget"@,
            ProcessBootstrapFailure::StartupProbeAuthorityRemaining(count) => decimal_digits(count as nat)
                + " startup no-space probe targets were not consumed"@,
        }
    }

    pub fn message(&self, cause: &str) -> (r: String)
        ensures
            r@ == self.spec_message(cause@),
    {
        match self {
            ProcessBootstrapFailure::Owner(_) => joined("session owner startup failed: ", cause),
            ProcessBootstrapFailure::UnexpectedSessionResult(result) => {
                joined("session initialization returned unexpected ", result)
            },
            ProcessBootstrapFailure::Filesystem(_) => joined("native filesystem startup failed: ", cause),
            ProcessBootstrapFailure::Reconciliation(_) => joined("startup reconciliation failed: ", cause),
            ProcessBootstrapFailure::Repairs(_) => joined("startup SQLite repair failed: ", cause),
            ProcessBootstrapFailure::Native(_) => joined("native startup failed: ", cause),
            ProcessBootstrapFailure::RuntimeConfig(error) => error.message(),
            ProcessBootstrapFailure::ShutdownCoordinator(_) => {
                joined("shutdown coordinator configuration failed: ", cause)
            },
            ProcessBootstrapFailure::PersistenceCatalog(_) => {
                joined("persistence catalog configuration failed: ", cause)
            },
            ProcessBootstrapFailure::RuntimeRequestCapacity { required, configured } => {
                capacity_message("runtime request capacity ", *configured, *required, " restored probes")
            },
            ProcessBootstrapFailure::RuntimeTimerCapacity { required, configured } => {
                capacity_message("runtime timer capacity ", *configured, *required, " restored timers")
            },
            ProcessBootstrapFailure::DriverInput(_) => joined("scheduler restore input failed: ", cause),
            ProcessBootstrapFailure::DriverFault(_) => joined("scheduler restore faulted: ", cause),
            ProcessBootstrapFailure::RestoreBackpressured => {
                "scheduler restore unexpectedly backpressured".to_owned()
            },
            ProcessBootstrapFailure::RestoreDidNotComplete => {
                "scheduler restore exceeded its bounded progress budget".to_owned()
            },
            ProcessBootstrapFailure::StartupProbeAuthorityRemaining(count) => {
                let mut r = decimal_text(*count as u64);
                r.append(" startup no-space probe targets were not consumed");
                r
            },
        }
    }
}

fn joined(prefix: &str, rest: &str) -> (r: String)
    ensures
        r@ == prefix@ + rest@,
{
    let mut r = prefix.to_owned();
    r.append(rest);
    r
}

fn capacity_message(prefix: &str, configured: usize, required: usize, suffix: &str) -> (r: String)
    ensures
        r@ == prefix@ + decimal_digits(configured as nat) + " cannot retain "@ + decimal_digits(required as nat)
            + suffix@,
{
    let mut r = joined(prefix, decimal_text(configured as u64).as_str());
    r.append(" cannot retain ");
    r.append(decimal_text(required as u64).as_str());
    r.append(suffix);
    r
}

/// A failed start, and what went wrong when the owner was closed after it.
#[derive(Clone, Copy, Debug)]
pub struct ProcessBootstrapError {
    pub failure: ProcessBootstrapFailure,
    pub shutdown: Option<Cause>,
}

impl ProcessBootstrapError {
    pub fn failure(&self) -> (r: &ProcessBootstrapFailure)
        ensures
            *r == self.failure,
    {
        &self.failure
    }

    pub fn shutdown_error(&self) -> (r: Option<Cause>)
        ensures
            r == self.shutdown,
    {
        self.shutdown
    }

    pub fn message(&self, cause: &str, shutdown_cause: &str) -> (r: String)
        ensures
            r@ == self.failure.spec_message(cause@) + (if self.shutdown is Some {
                "; owner cleanup also failed: "@ + shutdown_cause@
            } else {
                Seq::empty()
            }),
    {
        let mut r = self.failure.message(cause);
        if self.shutdown.is_some() {
            let rest = joined("; owner cleanup also failed: ", shutdown_cause);
            r.append(rest.as_str());
        } else {
            assert(r@ + Seq::<char>::empty() =~= r@);
        }
        r
    }
}

/// What a process is started with.
#[derive(Debug)]
pub struct ProcessBootstrapConfig {
    /// Where the session is stored.
    pub database_path: String,
    /// The number of the process.
    pub process: u32,
    pub recovery: StartupRecoveryConfig,
    pub session_limits: SessionLimits,
    pub runtime: RuntimeEffectConfig,
    pub updated_ms: u64,
    pub recovery_created_at_unix_ms: u64,
}

impl ProcessBootstrapConfig {
    /// The identity of the session where none is stored.
    pub open spec fn fresh_session(self) -> SessionId {
        session_identity(self.database_path@, self.recovery_created_at_unix_ms, self.process)
    }
}

/// The session as it runs: not clean, and its time does not run backwards.
pub open spec fn running_record(stored: Option<SessionRecord>, config: ProcessBootstrapConfig) -> SessionRecord {
    match stored {
        Some(record) => SessionRecord {
            updated_ms: later(later(record.updated_ms, record.created_ms), config.updated_ms),
            clean_shutdown: false,
            ..record
        },
        None => SessionRecord {
            session_id: config.fresh_session(),
            created_ms: config.recovery_created_at_unix_ms,
            updated_ms: config.updated_ms,
            clean_shutdown: false,
        },
    }
}

fn record_to_run(stored: Option<SessionRecord>, config: &ProcessBootstrapConfig) -> (r: SessionRecord)
    ensures
        r == running_record(stored, *config),
{
    match stored {
        Some(record) => {
            let mut next = record;
            if record.created_ms > next.updated_ms {
                next.updated_ms = record.created_ms;
            }
            if config.updated_ms > next.updated_ms {
                next.updated_ms = config.updated_ms;
            }
            next.clean_shutdown = false;
            next
        },
        None => SessionRecord {
            session_id: derive_process_session_id(
                config.database_path.as_str(),
                config.recovery_created_at_unix_ms,
                config.process,
            ),
            created_ms: config.recovery_created_at_unix_ms,
            updated_ms: config.updated_ms,
            clean_shutdown: false,
        },
    }
}

/// What the recovery of the native side leaves to restore.
#[derive(Clone, Debug)]
pub struct NativeStartup {
    pub probe_targets: usize,
    /// For each task the timers that the scheduler has for it, if it knows it.
    pub timers: Vec<Option<TaskTimers>>,
    pub restore_effects: usize,
}

/// The timers of a restored task.
#[derive(Clone, Copy, Debug, PartialEq, Eq, Structural)]
pub struct TaskTimers {
    pub retry: bool,
    pub slow: bool,
}

/// How many timers tasks have; a task that the scheduler does not know has none.
pub open spec fn timers_of(tasks: Seq<Option<TaskTimers>>) -> int
    decreases tasks.len(),
{
    if tasks.len() == 0 {
        0
    } else {
        timers_of(tasks.drop_last()) + timers_of_one(tasks.last())
    }
}

pub open spec fn timers_of_one(task: Option<TaskTimers>) -> int {
    match task {
        None => 0,
        Some(timers) => (if timers.retry {
            1int
        } else {
            0
        }) + (if timers.slow {
            1int
        } else {
            0
        }),
    }
}

proof fn lemma_timers(tasks: Seq<Option<TaskTimers>>)
    ensures
        timers_of(tasks) >= 0,
    decreases tasks.len(),
{
    if tasks.len() > 0 {
        lemma_timers(tasks.drop_last());
    }
}

/// Counts the timers of restored tasks, as far as the machine can count.
pub fn restored_timers(tasks: &Vec<Option<TaskTimers>>) -> (r: usize)
    ensures
        r == capped(timers_of(tasks@)),
{
    let mut count: usize = 0;
    let mut i: usize = 0;
    while i < tasks.len()
        invariant
            i <= tasks.len(),
            count == capped(timers_of(tasks@.take(i as int))),
        decreases tasks.len() - i,
    {
        proof {
            assert(tasks@.take(i as int + 1).drop_last() =~= tasks@.take(i as int));
            lemma_timers(tasks@.take(i as int));
        }
        if let Some(timers) = tasks[i] {
            if timers.retry {
                count = count.saturating_add(1);
            }
            if timers.slow {
                count = count.saturating_add(1);
            }
        }
        i = i + 1;
    }
    assert(tasks@.take(i as int) =~= tasks@);
    count
}

/// How often the driver is polled at most while it restores.
pub open spec fn restore_budget(native: NativeStartup) -> int {
    capped(capped(capped(native.restore_effects * 4) + capped(native.timers@.len() as int * 2)) + 32)
}

fn polls_to_restore(native: &NativeStartup) -> (r: usize)
    ensures
        r == restore_budget(*native),
        r > 0,
{
    let effects: usize = match native.restore_effects.checked_mul(4) {
        Some(product) => product,
        None => usize::MAX,
    };
    let tasks: usize = match native.timers.len().checked_mul(2) {
        Some(product) => product,
        None => usize::MAX,
    };
    effects.saturating_add(tasks).saturating_add(32)
}

/// What keeps the runtime from holding what is restored.
pub open spec fn restore_fault(native: NativeStartup, config: ProcessBootstrapConfig) -> Option<
    ProcessBootstrapFailure,
> {
    if native.probe_targets > config.runtime.request_capacity {
        Some(
            ProcessBootstrapFailure::RuntimeRequestCapacity {
                required: native.probe_targets,
                configured: config.runtime.request_capacity,
            },
        )
    } else if capped(timers_of(native.timers@)) > config.runtime.timer_capacity {
        Some(
            ProcessBootstrapFailure::RuntimeTimerCapacity {
                required: capped(timers_of(native.timers@)) as usize,
                configured: config.runtime.timer_capacity,
            },
        )
    } else {
        match config.runtime.fault() {
            Some(error) => Some(ProcessBootstrapFailure::RuntimeConfig(error)),
            None => None,
        }
    }
}

fn check_restore(native: &NativeStartup, config: &ProcessBootstrapConfig) -> (r: Option<ProcessBootstrapFailure>)
    ensures
        r == restore_fault(*native, *config),
{
    if native.probe_targets > config.runtime.request_capacity {
        return Some(
            ProcessBootstrapFailure::RuntimeRequestCapacity {
                required: native.probe_targets,
                configured: config.runtime.request_capacity,
            },
        );
    }
    let timers = restored_timers(&native.timers);
    proof {
        lemma_timers(native.timers@);
    }
    if timers > config.runtime.timer_capacity {
        return Some(
            ProcessBootstrapFailure::RuntimeTimerCapacity {
                required: timers,
                configured: config.runtime.timer_capacity,
            },
        );
    }
    match config.runtime.validate() {
        Ok(_) => None,
        Err(error) => Some(ProcessBootstrapFailure::RuntimeConfig(error)),
    }
}

/// What a poll of the scheduler driver says.
#[derive(Clone, Copy, Debug, PartialEq, Eq, Structural)]
pub enum DriverPoll {
    Completed,
    Faulted(Cause),
    Backpressured,
    Idle,
    Progressed,
    WaitingForCompletion,
}

/// Why restoring could not begin.
#[derive(Clone, Copy, Debug, PartialEq, Eq, Structural)]
pub enum RestoreRefusal {
    Catalog(Cause),
    Input(Cause),
}

/// What the start waits for.
#[derive(Debug)]
pub enum BootstrapStage {
    Spawning,
    PuttingSession(SessionStartupSnapshot),
    Filesystem(SessionStartupSnapshot),
    Journals(SessionStartupSnapshot),
    /// For the store, which applies the repairs that reconciliation called for.
    Repairing(StartupSessionRepairExecutor),
    Native,
    Preparing(usize),
    /// For the driver, with so many polls left.
    Restoring(usize),
    Inspecting,
    Coordinating,
    /// For the owner to close after a failure.
    Closing(ProcessBootstrapFailure),
    Ended,
}

/// What the driver of the start has to do next.
#[derive(Debug)]
pub enum BootstrapAction {
    SpawnOwner,
    PutSession(SessionRecord),
    OpenFilesystem,
    /// The journals of the tasks in the snapshot.
    RecoverJournals,
    /// To ask the store what the repairs need.
    Repair,
    /// What is left once the repairs have been applied.
    StartNative(StartupReconciliation),
    BeginRestore,
    PollDriver,
    InspectDriver,
    BuildCoordinator,
    /// Everything has been recovered: the engine may be handed out.
    Publish(SessionRecord),
    CloseOwner,
    Fail(ProcessBootstrapError),
    /// The event does not belong to what is waited for.
    Refuse,
}

/// What came of it.
#[derive(Debug)]
pub enum BootstrapEvent {
    Spawned(Result<SessionStartupSnapshot, Cause>),
    SessionPut(Result<SessionCommandResult, Cause>),
    FilesystemOpened(Result<(), Cause>),
    JournalsRecovered(Result<Vec<RecoveredTaskJournal>, Cause>),
    Repaired(RepairAnswer),
    NativeStarted(Result<NativeStartup, Cause>),
    RestoreBegun(Result<(), RestoreRefusal>),
    Polled(DriverPoll),
    Inspected { idle: bool, remaining_targets: usize },
    CoordinatorBuilt(Result<(), Cause>),
    OwnerClosed(Option<Cause>),
}

/// A start under way.
#[derive(Debug)]
pub struct ProcessBootstrap {
    pub config: ProcessBootstrapConfig,
    pub record: SessionRecord,
    pub stage: BootstrapStage,
}

/// A snapshot of a session that was written since.
pub open spec fn with_session(snapshot: SessionStartupSnapshot, record: SessionRecord) -> SessionStartupSnapshot {
    SessionStartupSnapshot { session: Some(record), ..snapshot }
}

impl ProcessBootstrap {
    pub open spec fn at(self, stage: BootstrapStage, action: BootstrapAction) -> (Self, BootstrapAction) {
        (ProcessBootstrap { stage, ..self }, action)
    }

    /// A failure once there is an owner: it is closed first.
    pub open spec fn failed(self, failure: ProcessBootstrapFailure) -> (Self, BootstrapAction) {
        self.at(BootstrapStage::Closing(failure), BootstrapAction::CloseOwner)
    }

    /// Whether what the journals say leads to the next stage: where the records
    /// reconcile, to the repairs that this calls for.
    pub open spec fn reconciles(
        self,
        snapshot: SessionStartupSnapshot,
        journals: Vec<RecoveredTaskJournal>,
        r: (Self, BootstrapAction),
    ) -> bool {
        exists|outcome: Result<StartupReconciliation, DerivedStartupError>|
            #[trigger] derives(outcome, snapshot, journals, self.config.recovery, self.config.session_limits) && r
                == (match outcome {
                Err(error) => self.failed(ProcessBootstrapFailure::Reconciliation(error)),
                Ok(reconciliation) => self.at(
                    BootstrapStage::Repairing(
                        StartupSessionRepairExecutor { reconciliation, state: RepairState::initial() },
                    ),
                    BootstrapAction::Repair,
                ),
            })
    }

    /// Whether an answer of the store leads to the next stage: once every repair has
    /// been applied or one has failed, the repairs are over.
    pub open spec fn repairs_on(
        self,
        executor: StartupSessionRepairExecutor,
        answer: RepairAnswer,
        r: (Self, BootstrapAction),
    ) -> bool {
        let (state, poll) = executor.state.stepped(
            repairs_in(executor.reconciliation, executor.state.phase),
            answer,
        );
        let after = StartupSessionRepairExecutor { state, ..executor };
        if poll is Complete || poll is Faulted {
            exists|handed: Result<StartupReconciliation, StartupSessionRepairFinishError>|
                #[trigger] finished(after, handed) && r == (match handed {
                    Err(error) => self.failed(ProcessBootstrapFailure::Repairs(error)),
                    Ok(left) => self.at(BootstrapStage::Native, BootstrapAction::StartNative(left)),
                })
        } else {
            r == self.at(BootstrapStage::Repairing(after), BootstrapAction::Repair)
        }
    }

    /// After a poll of the driver.
    pub open spec fn after_poll(self, left: usize, poll: DriverPoll) -> (Self, BootstrapAction) {
        match poll {
            DriverPoll::Completed => self.at(BootstrapStage::Inspecting, BootstrapAction::InspectDriver),
            DriverPoll::Faulted(cause) => self.failed(ProcessBootstrapFailure::DriverFault(cause)),
            DriverPoll::Backpressured => self.failed(ProcessBootstrapFailure::RestoreBackpressured),
            DriverPoll::Idle => self.failed(ProcessBootstrapFailure::RestoreDidNotComplete),
            DriverPoll::Progressed | DriverPoll::WaitingForCompletion => if left <= 1 {
                self.failed(ProcessBootstrapFailure::RestoreDidNotComplete)
            } else {
                self.at(BootstrapStage::Restoring((left - 1) as usize), BootstrapAction::PollDriver)
            },
        }
    }

    /// Whether an event leads to the next stage and to what to do in it.
    pub open spec fn steps(self, event: BootstrapEvent, r: (Self, BootstrapAction)) -> bool {
        match (self.stage, event) {
            (BootstrapStage::Spawning, BootstrapEvent::Spawned(Err(cause))) => r == self.at(
                BootstrapStage::Ended,
                BootstrapAction::Fail(
                    ProcessBootstrapError { failure: ProcessBootstrapFailure::Owner(cause), shutdown: None },
                ),
            ),
            (BootstrapStage::Spawning, BootstrapEvent::Spawned(Ok(snapshot))) => {
                let record = running_record(snapshot.session, self.config);
                let next = ProcessBootstrap { record, ..self };
                r == (if snapshot.session == Some(record) {
                    next.at(BootstrapStage::Filesystem(snapshot), BootstrapAction::OpenFilesystem)
                } else {
                    next.at(BootstrapStage::PuttingSession(snapshot), BootstrapAction::PutSession(record))
                })
            },
            (BootstrapStage::PuttingSession(snapshot), BootstrapEvent::SessionPut(Ok(result))) => r == (if result
                == SessionCommandResult::Unit {
                self.at(
                    BootstrapStage::Filesystem(with_session(snapshot, self.record)),
                    BootstrapAction::OpenFilesystem,
                )
            } else {
                self.failed(ProcessBootstrapFailure::UnexpectedSessionResult(result_code(result)))
            }),
            (BootstrapStage::PuttingSession(_), BootstrapEvent::SessionPut(Err(cause))) => r == self.failed(
                ProcessBootstrapFailure::Owner(cause),
            ),
            (BootstrapStage::Filesystem(snapshot), BootstrapEvent::FilesystemOpened(result)) => r == (match result {
                Ok(_) => self.at(BootstrapStage::Journals(snapshot), BootstrapAction::RecoverJournals),
                Err(cause) => self.failed(ProcessBootstrapFailure::Filesystem(cause)),
            }),
            (BootstrapStage::Journals(snapshot), BootstrapEvent::JournalsRecovered(Ok(journals))) => self.reconciles(
                snapshot,
                journals,
                r,
            ),
            (BootstrapStage::Journals(_), BootstrapEvent::JournalsRecovered(Err(cause))) => r == self.failed(
                ProcessBootstrapFailure::Filesystem(cause),
            ),
            (BootstrapStage::Repairing(executor), BootstrapEvent::Repaired(answer)) => self.repairs_on(
                executor,
                answer,
                r,
            ),
            (BootstrapStage::Native, BootstrapEvent::NativeStarted(Err(cause))) => r == self.failed(
                ProcessBootstrapFailure::Native(cause),
            ),
            (BootstrapStage::Native, BootstrapEvent::NativeStarted(Ok(native))) => r == (match restore_fault(
                native,
                self.config,
            ) {
                Some(failure) => self.failed(failure),
                None => self.at(
                    BootstrapStage::Preparing(restore_budget(native) as usize),
                    BootstrapAction::BeginRestore,
                ),
            }),
            (BootstrapStage::Preparing(budget), BootstrapEvent::RestoreBegun(result)) => r == (match result {
                Ok(_) => self.at(BootstrapStage::Restoring(budget), BootstrapAction::PollDriver),
                Err(RestoreRefusal::Catalog(cause)) => self.failed(
                    ProcessBootstrapFailure::PersistenceCatalog(cause),
                ),
                Err(RestoreRefusal::Input(cause)) => self.failed(ProcessBootstrapFailure::DriverInput(cause)),
            }),
            (BootstrapStage::Restoring(left), BootstrapEvent::Polled(poll)) => r == self.after_poll(left, poll),
            (BootstrapStage::Inspecting, BootstrapEvent::Inspected { idle, remaining_targets }) => r == (if !idle {
                self.failed(ProcessBootstrapFailure::RestoreDidNotComplete)
            } else if remaining_targets != 0 {
                self.failed(ProcessBootstrapFailure::StartupProbeAuthorityRemaining(remaining_targets))
            } else {
                self.at(BootstrapStage::Coordinating, BootstrapAction::BuildCoordinator)
            }),
            (BootstrapStage::Coordinating, BootstrapEvent::CoordinatorBuilt(result)) => r == (match result {
                Ok(_) => self.at(BootstrapStage::Ended, BootstrapAction::Publish(self.record)),
                Err(cause) => self.failed(ProcessBootstrapFailure::ShutdownCoordinator(cause)),
            }),
            (BootstrapStage::Closing(failure), BootstrapEvent::OwnerClosed(shutdown)) => r == self.at(
                BootstrapStage::Ended,
                BootstrapAction::Fail(ProcessBootstrapError { failure, shutdown }),
            ),
            _ => r == (self, BootstrapAction::Refuse),
        }
    }

    /// The snapshot whose journals are to be recovered.
    pub fn snapshot(&self) -> (r: Option<&SessionStartupSnapshot>)
        ensures
            r == (match self.stage {
                BootstrapStage::Journals(snapshot) => Some(&snapshot),
                _ => None,
            }),
    {
        match &self.stage {
            BootstrapStage::Journals(snapshot) => Some(snapshot),
            _ => None,
        }
    }

    /// The repairs under way.
    pub fn repairs(&self) -> (r: Option<&StartupSessionRepairExecutor>)
        ensures
            r == (match self.stage {
                BootstrapStage::Repairing(executor) => Some(&executor),
                _ => None,
            }),
    {
        match &self.stage {
            BootstrapStage::Repairing(executor) => Some(executor),
            _ => None,
        }
    }

    fn go(self, stage: BootstrapStage, action: BootstrapAction) -> (r: (Self, BootstrapAction))
        ensures
            r == self.at(stage, action),
    {
        let mut next = self;
        next.stage = stage;
        (next, action)
    }

    fn fail(self, failure: ProcessBootstrapFailure) -> (r: (Self, BootstrapAction))
        ensures
            r == self.failed(failure),
    {
        self.go(BootstrapStage::Closing(failure), BootstrapAction::CloseOwner)
    }

    fn take_snapshot(self, snapshot: SessionStartupSnapshot) -> (r: (Self, BootstrapAction))
        requires
            self.stage is Spawning,
        ensures
            self.steps(BootstrapEvent::Spawned(Ok(snapshot)), r),
    {
        let record = record_to_run(snapshot.session, &self.config);
        let mut next = self;
        next.record = record;
        let same = match snapshot.session {
            Some(before) => before == record,
            None => false,
        };
        if same {
            next.go(BootstrapStage::Filesystem(snapshot), BootstrapAction::OpenFilesystem)
        } else {
            next.go(BootstrapStage::PuttingSession(snapshot), BootstrapAction::PutSession(record))
        }
    }

    fn take_journals(self, snapshot: SessionStartupSnapshot, journals: Vec<RecoveredTaskJournal>) -> (r: (
        Self,
        BootstrapAction,
    ))
        ensures
            self.reconciles(snapshot, journals, r),
    {
        let outcome = reconcile_startup_derived(snapshot, journals, self.config.recovery, self.config.session_limits);
        let ghost given = outcome;
        assert(derives(given, snapshot, journals, self.config.recovery, self.config.session_limits));
        match outcome {
            Err(error) => self.fail(ProcessBootstrapFailure::Reconciliation(error)),
            Ok(reconciliation) => {
                let executor = StartupSessionRepairExecutor::new(reconciliation);
                self.go(BootstrapStage::Repairing(executor), BootstrapAction::Repair)
            },
        }
    }

    fn take_repair(self, executor: StartupSessionRepairExecutor, answer: RepairAnswer) -> (r: (Self, BootstrapAction))
        ensures
            self.repairs_on(executor, answer, r),
    {
        let mut after = executor;
        let poll = after.poll(answer);
        match poll {
            StartupSessionRepairPoll::Complete | StartupSessionRepairPoll::Faulted => {
                let ghost ended = after;
                let handed = after.finish_reconciliation();
                let ghost given = handed;
                assert(finished(ended, given));
                match handed {
                    Err(error) => self.fail(ProcessBootstrapFailure::Repairs(error)),
                    Ok(left) => self.go(BootstrapStage::Native, BootstrapAction::StartNative(left)),
                }
            },
            _ => self.go(BootstrapStage::Repairing(after), BootstrapAction::Repair),
        }
    }

    fn take_poll(self, left: usize, poll: DriverPoll) -> (r: (Self, BootstrapAction))
        ensures
            r == self.after_poll(left, poll),
    {
        match poll {
            DriverPoll::Completed => self.go(BootstrapStage::Inspecting, BootstrapAction::InspectDriver),
            DriverPoll::Faulted(cause) => self.fail(ProcessBootstrapFailure::DriverFault(cause)),
            DriverPoll::Backpressured => self.fail(ProcessBootstrapFailure::RestoreBackpressured),
            DriverPoll::Idle => self.fail(ProcessBootstrapFailure::RestoreDidNotComplete),
            DriverPoll::Progressed | DriverPoll::WaitingForCompletion => {
                if left <= 1 {
                    self.fail(ProcessBootstrapFailure::RestoreDidNotComplete)
                } else {
                    self.go(BootstrapStage::Restoring(left - 1), BootstrapAction::PollDriver)
                }
            },
        }
    }

    /// Takes an event on and says what to do next.
    pub fn step(self, event: BootstrapEvent) -> (r: (Self, BootstrapAction))
        ensures
            self.steps(event, r),
    {
        let ProcessBootstrap { config, record, stage } = self;
        // What the stage holds moves on; the rest stays.
        let rest = ProcessBootstrap { config, record, stage: BootstrapStage::Spawning };
        match (stage, event) {
            (BootstrapStage::Spawning, BootstrapEvent::Spawned(Err(cause))) => {
                rest.go(
                    BootstrapStage::Ended,
                    BootstrapAction::Fail(
                        ProcessBootstrapError { failure: ProcessBootstrapFailure::Owner(cause), shutdown: None },
                    ),
                )
            },
            (BootstrapStage::Spawning, BootstrapEvent::Spawned(Ok(snapshot))) => rest.take_snapshot(snapshot),
            (BootstrapStage::PuttingSession(snapshot), BootstrapEvent::SessionPut(Ok(result))) => {
                if result == SessionCommandResult::Unit {
                    let mut written = snapshot;
                    written.session = Some(record);
                    rest.go(BootstrapStage::Filesystem(written), BootstrapAction::OpenFilesystem)
                } else {
                    rest.fail(ProcessBootstrapFailure::UnexpectedSessionResult(session_result_code(result)))
                }
            },
            (BootstrapStage::PuttingSession(_), BootstrapEvent::SessionPut(Err(cause))) => {
                rest.fail(ProcessBootstrapFailure::Owner(cause))
            },
            (BootstrapStage::Filesystem(snapshot), BootstrapEvent::FilesystemOpened(result)) => match result {
                Ok(_) => rest.go(BootstrapStage::Journals(snapshot), BootstrapAction::RecoverJournals),
                Err(cause) => rest.fail(ProcessBootstrapFailure::Filesystem(cause)),
            },
            (BootstrapStage::Journals(snapshot), BootstrapEvent::JournalsRecovered(Ok(journals))) => {
                rest.take_journals(snapshot, journals)
            },
            (BootstrapStage::Journals(_), BootstrapEvent::JournalsRecovered(Err(cause))) => {
                rest.fail(ProcessBootstrapFailure::Filesystem(cause))
            },
            (BootstrapStage::Repairing(executor), BootstrapEvent::Repaired(answer)) => {
                rest.take_repair(executor, answer)
            },
            (BootstrapStage::Native, BootstrapEvent::NativeStarted(Err(cause))) => {
                rest.fail(ProcessBootstrapFailure::Native(cause))
            },
            (BootstrapStage::Native, BootstrapEvent::NativeStarted(Ok(native))) => {
                match check_restore(&native, &rest.config) {
                    Some(failure) => rest.fail(failure),
                    None => {
                        let budget = polls_to_restore(&native);
                        rest.go(BootstrapStage::Preparing(budget), BootstrapAction::BeginRestore)
                    },
                }
            },
            (BootstrapStage::Preparing(budget), BootstrapEvent::RestoreBegun(result)) => match result {
                Ok(_) => rest.go(BootstrapStage::Restoring(budget), BootstrapAction::PollDriver),
                Err(RestoreRefusal::Catalog(cause)) => {
                    rest.fail(ProcessBootstrapFailure::PersistenceCatalog(cause))
                },
                Err(RestoreRefusal::Input(cause)) => rest.fail(ProcessBootstrapFailure::DriverInput(cause)),
            },
            (BootstrapStage::Restoring(left), BootstrapEvent::Polled(poll)) => rest.take_poll(left, poll),
            (BootstrapStage::Inspecting, BootstrapEvent::Inspected { idle, remaining_targets }) => {
                if !idle {
                    rest.fail(ProcessBootstrapFailure::RestoreDidNotComplete)
                } else if remaining_targets != 0 {
                    rest.fail(ProcessBootstrapFailure::StartupProbeAuthorityRemaining(remaining_targets))
                } else {
                    rest.go(BootstrapStage::Coordinating, BootstrapAction::BuildCoordinator)
                }
            },
            (BootstrapStage::Coordinating, BootstrapEvent::CoordinatorBuilt(result)) => match result {
                Ok(_) => rest.go(BootstrapStage::Ended, BootstrapAction::Publish(record)),
                Err(cause) => rest.fail(ProcessBootstrapFailure::ShutdownCoordinator(cause)),
            },
            (BootstrapStage::Closing(failure), BootstrapEvent::OwnerClosed(shutdown)) => {
                rest.go(BootstrapStage::Ended, BootstrapAction::Fail(ProcessBootstrapError { failure, shutdown }))
            },
            (stage, _) => rest.go(stage, BootstrapAction::Refuse),
        }
    }
}

/// A start that has not begun, and its first action.
pub fn bootstrap_process(config: ProcessBootstrapConfig) -> (r: (ProcessBootstrap, BootstrapAction))
    ensures
        r.0.config == config,
        r.0.record == running_record(None, config),
        r.0.stage == BootstrapStage::Spawning,
        r.1 == BootstrapAction::SpawnOwner,
{
    let record = record_to_run(None, &config);
    (ProcessBootstrap { config, record, stage: BootstrapStage::Spawning }, BootstrapAction::SpawnOwner)
}

/// Whether a persisted option map may be admitted: it is not too long, and the
/// owner's policy permits each of its names.
pub fn permits_persisted_options(permitted: &Vec<bool>, most: usize) -> (r: bool)
    ensures
        r == (permitted@.len() <= most && forall|i: int| 0 <= i < permitted@.len() ==> #[trigger] permitted@[i]),
{
    if permitted.len() > most {
        return false;
    }
    let mut i: usize = 0;
    while i < permitted.len()
        invariant
            i <= permitted.len(),
            forall|k: int| 0 <= k < i ==> #[trigger] permitted@[k],
        decreases permitted.len() - i,
    {
        if !permitted[i] {
            return false;
        }
        i = i + 1;
    }
    true
}

/// The scheduler driver has work in hand.
#[derive(Clone, Copy, Debug, PartialEq, Eq, Structural)]
pub struct DriverBusy;

/// The next event of the runtime, which leaves it only where the driver can take
/// it.
pub fn next_runtime_event_at(runtime: &mut RuntimeEffectHandle, driver_idle: bool, at: MonotonicInstant) -> (r:
    Result<Option<TaskEventEnvelope>, DriverBusy>)
    ensures
        old(runtime)@.bounded() ==> final(runtime)@.bounded(),
        !driver_idle ==> r == Err::<Option<TaskEventEnvelope>, DriverBusy>(DriverBusy) && final(runtime)@
            == old(runtime)@,
        driver_idle ==> r == Ok::<Option<TaskEventEnvelope>, DriverBusy>(polled(old(runtime)@, at).0)
            && final(runtime)@ == polled(old(runtime)@, at).1,
{
    if !driver_idle {
        return Err(DriverBusy);
    }
    Ok(runtime.poll_event_at(at))
}

/// The domain of session identities.
pub open spec fn session_domain() -> Seq<u8> {
    encode_utf8("ariax/process-session/v1"@).push(0)
}

/// What a session identity is derived from.
pub open spec fn session_material(path: Seq<char>, created_unix_ms: u64, process: u32) -> Seq<u8> {
    session_domain() + encode_utf8(path) + low_bytes(created_unix_ms as nat, 8) + low_bytes(process as nat, 8)
}

/// The identity of a session: the first half of the digest of where the
/// session is stored, when it began and the number of the process.
pub open spec fn session_identity(path: Seq<char>, created_unix_ms: u64, process: u32) -> SessionId {
    SessionId(big_endian(sha256_of(session_material(path, created_unix_ms, process)).take(16)) as u128)
}

/// A session identity for this process.
pub fn derive_process_session_id(path: &str, created_unix_ms: u64, process: u32) -> (r: SessionId)
    ensures
        r == session_identity(path@, created_unix_ms, process),
{
    let mut material: Vec<u8> = Vec::new();
    push_bytes(&mut material, "ariax/process-session/v1".as_bytes());
    material.push(0);
    assert(material@ =~= session_domain());
    push_bytes(&mut material, path.as_bytes());
    push_u64(&mut material, created_unix_ms);
    push_u64(&mut material, process as u64);
    assert(material@ =~= session_material(path@, created_unix_ms, process));
    let digest = sha256(material.as_slice());
    SessionId(read_u128(&digest, 16))
}

/// How far a start has come.
pub open spec fn stage_rank(stage: BootstrapStage) -> int {
    match stage {
        BootstrapStage::Spawning => 0,
        BootstrapStage::PuttingSession(_) => 1,
        BootstrapStage::Filesystem(_) => 2,
        BootstrapStage::Journals(_) => 3,
        BootstrapStage::Repairing(_) => 4,
        BootstrapStage::Native => 5,
        BootstrapStage::Preparing(_) => 6,
        BootstrapStage::Restoring(_) => 7,
        BootstrapStage::Inspecting => 8,
        BootstrapStage::Coordinating => 9,
        BootstrapStage::Closing(_) => -1,
        BootstrapStage::Ended => 10,
    }
}

/// Nothing is published before every stage has succeeded: a start goes forward
/// by one stage at a time (the session is not written where it is stored as it
/// runs), and publishes only out of the last.
pub proof fn law_publication_follows_every_stage(
    state: ProcessBootstrap,
    event: BootstrapEvent,
    r: (ProcessBootstrap, BootstrapAction),
)
    requires
        state.steps(event, r),
    ensures
        r.1 is Publish ==> state.stage is Coordinating && event is CoordinatorBuilt && event->CoordinatorBuilt_0 is Ok,
        stage_rank(r.0.stage) <= stage_rank(state.stage) + 1 || r.1 is Fail || (state.stage is Spawning
            && r.0.stage is Filesystem),
{
}

/// A start that fails once the session owner runs closes the owner before it
/// reports the failure, and reports that very failure.
pub proof fn law_failed_start_closes_the_owner(
    state: ProcessBootstrap,
    event: BootstrapEvent,
    r: (ProcessBootstrap, BootstrapAction),
)
    requires
        state.steps(event, r),
    ensures
        r.1 is Fail ==> (state.stage is Closing && r.1->Fail_0.failure == state.stage->Closing_0) || (
        state.stage is Spawning && r.1->Fail_0.shutdown is None),
        r.0.stage is Closing && !(state.stage is Closing) ==> r.1 is CloseOwner,
{
}

/// The native side starts only when the records have been reconciled and every
/// repair that this called for has been applied: what it is handed holds the tasks
/// of the reconciliation and no repair.
pub proof fn law_native_start_follows_the_repairs(
    state: ProcessBootstrap,
    event: BootstrapEvent,
    r: (ProcessBootstrap, BootstrapAction),
)
    requires
        state.steps(event, r),
        r.1 is StartNative,
    ensures
        state.stage is Repairing,
        r.1->StartNative_0.tasks == state.stage->Repairing_0.reconciliation.tasks,
        r.1->StartNative_0.scheduler_batch == state.stage->Repairing_0.reconciliation.scheduler_batch,
        r.1->StartNative_0.queue_session_repairs@.len() == 0,
        r.1->StartNative_0.terminal_session_repairs@.len() == 0,
        r.1->StartNative_0.authority_repairs@.len() == 0,
{
}

/// Restoring ends: every poll that does not end it leaves fewer polls.
pub proof fn law_restoring_is_bounded(
    state: ProcessBootstrap,
    poll: DriverPoll,
    r: (ProcessBootstrap, BootstrapAction),
)
    requires
        state.stage is Restoring,
        state.steps(BootstrapEvent::Polled(poll), r),
    ensures
        r.0.stage matches BootstrapStage::Restoring(left) ==> left < state.stage->Restoring_0,
{
}

} // verus!
