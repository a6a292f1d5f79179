//! How a process shuts down: a machine that says what to do next and takes what
//! came of it. The clock, the coordinator, the journals and the store are its
//! driver's.
use vstd::prelude::*;
use crate::session::{MonotonicInstant, SessionRecord};

verus! {

/// How long a step of the shutdown may take unless configured otherwise.
pub const DEFAULT_PROCESS_SHUTDOWN_STEP_TIMEOUT_MS: u64 = 5_000;

/// A step of the shutdown sequence.
#[derive(Clone, Copy, Debug, PartialEq, Eq, Structural)]
pub enum ShutdownStep {
    StopAdmission,
    DrainDiskCpu,
    FlushJournal,
    PersistSession,
    /// A step that the minimal sequence does not hold.
    Other(u8),
}

/// Leave to carry out one step.
#[derive(Clone, Copy, Debug, PartialEq, Eq, Structural)]
pub struct ShutdownTicket {
    pub step: ShutdownStep,
    pub deadline: MonotonicInstant,
    /// Whether a step before this one failed or timed out.
    pub checkpoint_dirty: bool,
}

/// What the coordinator reports at the end.
#[derive(Clone, Copy, Debug, PartialEq, Eq, Structural)]
pub struct ShutdownReport {
    pub clean: bool,
    /// The steps that failed, a bit for each.
    pub failed_steps: u8,
    /// The steps that timed out, a bit for each.
    pub timed_out_steps: u8,
}

/// Where the coordinator stands after a step.
#[derive(Clone, Copy, Debug, PartialEq, Eq, Structural)]
pub enum ShutdownProgress {
    Idle,
    Waiting(ShutdownTicket),
    Advanced(ShutdownTicket),
    Complete(ShutdownReport),
}

/// An error of the coordinator, by its number.
#[derive(Clone, Copy, Debug, PartialEq, Eq, Structural)]
pub struct ShutdownCoordinatorError(pub u16);

/// Why the session owner did not do what it was asked.
#[derive(Clone, Copy, Debug)]
pub struct SessionOwnerFault {
    pub code: &'static str,
    /// Whether it did not stop in time.
    pub timed_out: bool,
}

/// What a command to the session owner returns.
#[derive(Clone, Copy, Debug, PartialEq, Eq, Structural)]
pub enum SessionCommandResult {
    Unit,
    Tasks,
    StoppedResults,
    TaskSources,
    TaskOptions,
    HostKeyChallenge,
    HostKeyChallenges,
    QueueOrder,
    JournalAppended,
    JournalFlushed,
    JournalsFlushed(usize),
    JournalsClosed(usize),
    JournalSnapshot,
}

/// The name of a result.
pub open spec fn result_code(result: SessionCommandResult) -> &'static str {
    match result {
        SessionCommandResult::Unit => "unit",
        SessionCommandResult::Tasks => "tasks",
        SessionCommandResult::StoppedResults => "stopped_results",
        SessionCommandResult::TaskSources => "task_sources",
        SessionCommandResult::TaskOptions => "task_options",
        SessionCommandResult::HostKeyChallenge => "host_key_challenge",
        SessionCommandResult::HostKeyChallenges => "host_key_challenges",
        SessionCommandResult::QueueOrder => "queue_order",
        SessionCommandResult::JournalAppended => "journal_appended",
        SessionCommandResult::JournalFlushed => "journal_flushed",
        SessionCommandResult::JournalsFlushed(_) => "journals_flushed",
        SessionCommandResult::JournalsClosed(_) => "journals_closed",
        SessionCommandResult::JournalSnapshot => "journal_snapshot",
    }
}

pub fn session_result_code(result: SessionCommandResult) -> (r: &'static str)
    ensures
        r == result_code(result),
{
    match result {
        SessionCommandResult::Unit => "unit",
        SessionCommandResult::Tasks => "tasks",
        SessionCommandResult::StoppedResults => "stopped_results",
        SessionCommandResult::TaskSources => "task_sources",
        SessionCommandResult::TaskOptions => "task_options",
        SessionCommandResult::HostKeyChallenge => "host_key_challenge",
        SessionCommandResult::HostKeyChallenges => "host_key_challenges",
        SessionCommandResult::QueueOrder => "queue_order",
        SessionCommandResult::JournalAppended => "journal_appended",
        SessionCommandResult::JournalFlushed => "journal_flushed",
        SessionCommandResult::JournalsFlushed(_) => "journals_flushed",
        SessionCommandResult::JournalsClosed(_) => "journals_closed",
        SessionCommandResult::JournalSnapshot => "journal_snapshot",
    }
}

/// What came of waiting for a command.
#[derive(Clone, Copy, Debug)]
pub enum SessionCommandWait {
    Completed(SessionCommandResult),
    Failed(SessionOwnerFault),
    TimedOut,
}

/// What waiting for a command does next: nothing has come so far.
#[derive(Clone, Copy, Debug, PartialEq, Eq, Structural)]
pub enum CommandPatience {
    TimedOut,
    /// Look again after so many nanoseconds.
    Park(u64),
}

/// Waiting ends at the deadline and looks again at least once a millisecond.
pub fn command_patience(now: MonotonicInstant, deadline: MonotonicInstant) -> (r: CommandPatience)
    ensures
        r == (if now.0 >= deadline.0 {
            CommandPatience::TimedOut
        } else if deadline.0 - now.0 < 1_000_000 {
            CommandPatience::Park((deadline.0 - now.0) as u64)
        } else {
            CommandPatience::Park(1_000_000)
        }),
{
    if now.0 >= deadline.0 {
        CommandPatience::TimedOut
    } else if deadline.0 - now.0 < 1_000_000 {
        CommandPatience::Park(deadline.0 - now.0)
    } else {
        CommandPatience::Park(1_000_000)
    }
}

/// What is left until a deadline, and never less than a millisecond.
pub open spec fn time_left(deadline: MonotonicInstant, now: MonotonicInstant) -> int {
    if deadline.0 - now.0 < 1_000_000 {
        1_000_000
    } else {
        deadline.0 - now.0
    }
}

/// The clock as it may be persisted: a clock that cannot be read, or reads more
/// milliseconds than 64 bits hold, reads zero.
pub fn current_unix_ms(since_epoch_ms: Option<u128>, greatest: u64) -> (r: u64)
    ensures
        r == (match since_epoch_ms {
            Some(millis) => if millis > u64::MAX {
                0
            } else if millis > greatest {
                greatest as int
            } else {
                millis as int
            },
            None => 0,
        }),
{
    match since_epoch_ms {
        Some(millis) => {
            if millis > u64::MAX as u128 {
                0
            } else if millis > greatest as u128 {
                greatest
            } else {
                millis as u64
            }
        },
        None => 0,
    }
}

/// How draining the transfer lanes went.
#[derive(Clone, Copy, Debug, PartialEq, Eq, Structural)]
pub enum ProcessDrainOutcome {
    Drained,
    Failed,
    TimedOut,
}

/// How the whole shutdown went.
#[derive(Clone, Copy, Debug)]
pub struct ProcessShutdownReport {
    pub journals_closed: usize,
    pub journals_flushed: usize,
    pub shutdown: ShutdownReport,
    pub journal_failure: Option<&'static str>,
    pub session_failure: Option<&'static str>,
}

impl ProcessShutdownReport {
    pub fn is_clean(&self) -> (r: bool)
        ensures
            r == self.shutdown.clean,
    {
        self.shutdown.clean
    }

    pub fn shutdown(&self) -> (r: ShutdownReport)
        ensures
            r == self.shutdown,
    {
        self.shutdown
    }

    pub fn journal_failure(&self) -> (r: Option<&'static str>)
        ensures
            r == self.journal_failure,
    {
        self.journal_failure
    }

    pub fn session_failure(&self) -> (r: Option<&'static str>)
        ensures
            r == self.session_failure,
    {
        self.session_failure
    }
}

/// Why a shutdown did not end in a report.
#[derive(Clone, Copy, Debug)]
pub enum ProcessShutdownError {
    Coordinator(ShutdownCoordinatorError),
    CoordinatorAlreadyTaken,
    UnexpectedStep { expected: ShutdownStep, actual: Option<ShutdownStep> },
    Owner { report: ProcessShutdownReport, error: SessionOwnerFault },
}

impl ProcessShutdownError {
    pub fn report(&self) -> (r: Option<&ProcessShutdownReport>)
        ensures
            match *self {
                ProcessShutdownError::Owner { report, .. } => r == Some(&report),
                _ => r is None,
            },
    {
        match self {
            ProcessShutdownError::Owner { report, .. } => Some(report),
            _ => None,
        }
    }

    /// The message. The texts are those of the coordinator's or owner's error, of
    /// the step that was expected and of the step that was reached.
    pub open spec fn spec_message(self, cause: Seq<char>, expected: Seq<char>, reached: Seq<char>) -> Seq<char> {
        match self {
            ProcessShutdownError::Coordinator(_) => "shutdown coordinator failed: "@ + cause,
            ProcessShutdownError::CoordinatorAlreadyTaken => "shutdown coordinator authority is unavailable"@,
            ProcessShutdownError::UnexpectedStep { actual, .. } => "shutdown expected "@ + expected
                + " but reached "@ + (if actual is None {
                "complete"@
            } else {
                reached
            }),
            ProcessShutdownError::Owner { .. } => "session owner shutdown failed: "@ + cause,
        }
    }

    pub fn message(&self, cause: &str, expected: &str, reached: &str) -> (r: String)
        ensures
            r@ == self.spec_message(cause@, expected@, reached@),
    {
        match self {
            ProcessShutdownError::Coordinator(_) => {
                let mut r = "shutdown coordinator failed: ".to_owned();
                r.append(cause);
                r
            },
            ProcessShutdownError::CoordinatorAlreadyTaken => {
                "shutdown coordinator authority is unavailable".to_owned()
            },
            ProcessShutdownError::UnexpectedStep { actual, .. } => {
                let mut r = "shutdown expected ".to_owned();
                r.append(expected);
                r.append(" but reached ");
                if actual.is_none() {
                    r.append("complete");
                } else {
                    r.append(reached);
                }
                r
            },
            ProcessShutdownError::Owner { .. } => {
                let mut r = "session owner shutdown failed: ".to_owned();
                r.append(cause);
                r
            },
        }
    }
}

/// The ticket for the step that has to come next.
pub open spec fn expected_ticket(progress: ShutdownProgress, expected: ShutdownStep) -> Result<
    ShutdownTicket,
    ProcessShutdownError,
> {
    match progress {
        ShutdownProgress::Advanced(next) => if next.step == expected {
            Ok(next)
        } else {
            Err(ProcessShutdownError::UnexpectedStep { expected, actual: Some(next.step) })
        },
        ShutdownProgress::Waiting(next) => Err(
            ProcessShutdownError::UnexpectedStep { expected, actual: Some(next.step) },
        ),
        ShutdownProgress::Idle | ShutdownProgress::Complete(_) => Err(
            ProcessShutdownError::UnexpectedStep { expected, actual: None },
        ),
    }
}

pub fn next_shutdown_ticket(progress: ShutdownProgress, expected: ShutdownStep) -> (r: Result<
    ShutdownTicket,
    ProcessShutdownError,
>)
    ensures
        r == expected_ticket(progress, expected),
{
    match progress {
        ShutdownProgress::Advanced(next) => {
            if next.step == expected {
                Ok(next)
            } else {
                Err(ProcessShutdownError::UnexpectedStep { expected, actual: Some(next.step) })
            }
        },
        ShutdownProgress::Waiting(next) => {
            Err(ProcessShutdownError::UnexpectedStep { expected, actual: Some(next.step) })
        },
        ShutdownProgress::Idle => Err(ProcessShutdownError::UnexpectedStep { expected, actual: None }),
        ShutdownProgress::Complete(_) => Err(ProcessShutdownError::UnexpectedStep { expected, actual: None }),
    }
}

/// The report that has to have come.
pub open spec fn expected_report(progress: ShutdownProgress) -> Result<ShutdownReport, ProcessShutdownError> {
    let expected = ShutdownStep::PersistSession;
    match progress {
        ShutdownProgress::Complete(report) => Ok(report),
        ShutdownProgress::Advanced(next) | ShutdownProgress::Waiting(next) => Err(
            ProcessShutdownError::UnexpectedStep { expected, actual: Some(next.step) },
        ),
        ShutdownProgress::Idle => Err(ProcessShutdownError::UnexpectedStep { expected, actual: None }),
    }
}

pub fn completed_shutdown_report(progress: ShutdownProgress) -> (r: Result<ShutdownReport, ProcessShutdownError>)
    ensures
        r == expected_report(progress),
{
    let expected = ShutdownStep::PersistSession;
    match progress {
        ShutdownProgress::Complete(report) => Ok(report),
        ShutdownProgress::Advanced(next) => {
            Err(ProcessShutdownError::UnexpectedStep { expected, actual: Some(next.step) })
        },
        ShutdownProgress::Waiting(next) => {
            Err(ProcessShutdownError::UnexpectedStep { expected, actual: Some(next.step) })
        },
        ShutdownProgress::Idle => Err(ProcessShutdownError::UnexpectedStep { expected, actual: None }),
    }
}

/// What the shutdown waits for.
#[derive(Clone, Copy, Debug)]
pub enum ShutdownPhase {
    /// For the coordinator to hand out its first ticket.
    Beginning,
    /// For the coordinator to take note that nothing is admitted any more.
    Stopping,
    /// For the transfer lanes.
    Draining(ShutdownTicket),
    /// For the coordinator to take note of how draining went.
    Drained,
    /// For the journals to be flushed.
    Flushing(ShutdownTicket),
    /// For the journals to be closed.
    Closing(ShutdownTicket),
    /// For the coordinator to take note of how the journals went.
    JournalsSettled,
    /// For the session owner to stop.
    OwnerStopping(ShutdownTicket),
    /// For the coordinator to take note that the owner did not stop.
    OwnerFailed(SessionOwnerFault),
    /// For the store to open.
    StoreOpening(ShutdownTicket),
    /// For the session to be written.
    Persisting(ShutdownTicket),
    /// For the coordinator to take note of how writing went, and whether the
    /// store is open.
    SessionSettled(bool),
    /// For the session to be written again, as not clean.
    Amending(ShutdownReport),
    Done,
}

/// What the driver has to do next.
#[derive(Clone, Copy, Debug)]
pub enum ShutdownAction {
    BeginCoordinator,
    /// Close the runtime, then tell the coordinator that the step succeeded.
    StopAdmission(ShutdownTicket),
    DrainLanes(ShutdownTicket),
    /// Tell the coordinator how a step went.
    Complete { ticket: ShutdownTicket, succeeded: bool },
    /// Tell the coordinator that the deadline of a step has passed.
    Expire(ShutdownTicket),
    FlushJournals(ShutdownTicket),
    CloseJournals(ShutdownTicket),
    StopOwner(ShutdownTicket),
    OpenStore,
    PutSession(SessionRecord),
    Finish(Result<ProcessShutdownReport, ProcessShutdownError>),
    /// The event does not belong to what is waited for.
    Refuse,
}

/// What came of it.
#[derive(Clone, Copy, Debug)]
pub enum ShutdownEvent {
    Began(Result<ShutdownTicket, ShutdownCoordinatorError>),
    /// Where the coordinator stands, and the clock.
    Progress { result: Result<ShutdownProgress, ShutdownCoordinatorError>, now_unix_ms: u64 },
    Drained(ProcessDrainOutcome),
    Session(SessionCommandWait),
    OwnerStopped(Result<(), SessionOwnerFault>),
    StoreOpened(Result<(), &'static str>),
    Stored(Result<(), &'static str>),
}

/// A shutdown under way.
#[derive(Clone, Copy, Debug)]
pub struct ProcessShutdown {
    pub phase: ShutdownPhase,
    pub record: SessionRecord,
    pub journals_flushed: usize,
    pub journals_closed: usize,
    pub journal_failure: Option<&'static str>,
    pub session_failure: Option<&'static str>,
}

/// The later of two times.
pub open spec fn later(a: u64, b: u64) -> u64 {
    if a >= b {
        a
    } else {
        b
    }
}

fn later_of(a: u64, b: u64) -> (r: u64)
    ensures
        r == later(a, b),
{
    if a >= b {
        a
    } else {
        b
    }
}

/// The session as it is written at the end: its time does not run backwards, and
/// it is clean where no step has failed.
pub open spec fn closing_record(record: SessionRecord, now_unix_ms: u64, checkpoint_dirty: bool) -> SessionRecord {
    SessionRecord {
        updated_ms: later(later(now_unix_ms, record.created_ms), record.updated_ms),
        clean_shutdown: !checkpoint_dirty,
        ..record
    }
}

impl ProcessShutdown {
    pub open spec fn in_phase(self, phase: ShutdownPhase) -> Self {
        ProcessShutdown { phase, ..self }
    }

    /// The end, with an error.
    pub open spec fn failed(self, error: ProcessShutdownError) -> (Self, ShutdownAction) {
        (self.in_phase(ShutdownPhase::Done), ShutdownAction::Finish(Err(error)))
    }

    pub open spec fn report_of(self, shutdown: ShutdownReport) -> ProcessShutdownReport {
        ProcessShutdownReport {
            journals_closed: self.journals_closed,
            journals_flushed: self.journals_flushed,
            shutdown,
            journal_failure: self.journal_failure,
            session_failure: self.session_failure,
        }
    }

    /// The journals are done with, well or not.
    pub open spec fn journals_failed(self, ticket: ShutdownTicket, code: &'static str, timed_out: bool) -> (
        Self,
        ShutdownAction,
    ) {
        (
            ProcessShutdown {
                phase: ShutdownPhase::JournalsSettled,
                journal_failure: Some(code),
                ..self
            },
            if timed_out {
                ShutdownAction::Expire(ticket)
            } else {
                ShutdownAction::Complete { ticket, succeeded: false }
            },
        )
    }

    /// After the journals were asked to flush.
    pub open spec fn after_flush(self, ticket: ShutdownTicket, wait: SessionCommandWait) -> (Self, ShutdownAction) {
        match wait {
            SessionCommandWait::Completed(SessionCommandResult::JournalsFlushed(count)) => (
                ProcessShutdown { phase: ShutdownPhase::Closing(ticket), journals_flushed: count, ..self },
                ShutdownAction::CloseJournals(ticket),
            ),
            SessionCommandWait::Completed(result) => self.journals_failed(ticket, result_code(result), false),
            SessionCommandWait::Failed(error) => self.journals_failed(ticket, error.code, false),
            SessionCommandWait::TimedOut => self.journals_failed(ticket, "timed_out", true),
        }
    }

    /// After the flushed journals were asked to close.
    pub open spec fn after_close(self, ticket: ShutdownTicket, wait: SessionCommandWait) -> (Self, ShutdownAction) {
        match wait {
            SessionCommandWait::Completed(SessionCommandResult::JournalsClosed(count)) => (
                ProcessShutdown { phase: ShutdownPhase::JournalsSettled, journals_closed: count, ..self },
                ShutdownAction::Complete { ticket, succeeded: true },
            ),
            SessionCommandWait::Completed(result) => self.journals_failed(ticket, result_code(result), false),
            SessionCommandWait::Failed(error) => self.journals_failed(ticket, error.code, false),
            SessionCommandWait::TimedOut => self.journals_failed(ticket, "timed_out", true),
        }
    }

    /// After the owner was asked to stop.
    pub open spec fn after_owner(self, ticket: ShutdownTicket, result: Result<(), SessionOwnerFault>) -> (
        Self,
        ShutdownAction,
    ) {
        match result {
            Ok(_) => (self.in_phase(ShutdownPhase::StoreOpening(ticket)), ShutdownAction::OpenStore),
            Err(error) => (
                ProcessShutdown {
                    phase: ShutdownPhase::OwnerFailed(error),
                    session_failure: Some(error.code),
                    ..self
                },
                if error.timed_out {
                    ShutdownAction::Expire(ticket)
                } else {
                    ShutdownAction::Complete { ticket, succeeded: false }
                },
            ),
        }
    }

    /// After the coordinator took note of how writing the session went: a session
    /// that was written as clean and is not is written again.
    pub open spec fn after_report(self, report: ShutdownReport, store_open: bool) -> (Self, ShutdownAction) {
        if self.record.clean_shutdown && !report.clean {
            let record = SessionRecord { clean_shutdown: false, ..self.record };
            if store_open {
                (
                    ProcessShutdown { phase: ShutdownPhase::Amending(report), record, ..self },
                    ShutdownAction::PutSession(record),
                )
            } else {
                let next = ProcessShutdown {
                    phase: ShutdownPhase::Done,
                    record,
                    session_failure: if self.session_failure is None {
                        Some("store")
                    } else {
                        self.session_failure
                    },
                    ..self
                };
                (next, ShutdownAction::Finish(Ok(next.report_of(report))))
            }
        } else {
            (self.in_phase(ShutdownPhase::Done), ShutdownAction::Finish(Ok(self.report_of(report))))
        }
    }

    /// After the coordinator said where it stands.
    pub open spec fn after_progress(self, progress: ShutdownProgress, now_unix_ms: u64) -> (Self, ShutdownAction) {
        match self.phase {
            ShutdownPhase::Stopping => match expected_ticket(progress, ShutdownStep::DrainDiskCpu) {
                Ok(ticket) => (
                    self.in_phase(ShutdownPhase::Draining(ticket)),
                    ShutdownAction::DrainLanes(ticket),
                ),
                Err(error) => self.failed(error),
            },
            ShutdownPhase::Drained => match expected_ticket(progress, ShutdownStep::FlushJournal) {
                Ok(ticket) => (
                    self.in_phase(ShutdownPhase::Flushing(ticket)),
                    ShutdownAction::FlushJournals(ticket),
                ),
                Err(error) => self.failed(error),
            },
            ShutdownPhase::JournalsSettled => match expected_ticket(progress, ShutdownStep::PersistSession) {
                Ok(ticket) => (
                    ProcessShutdown {
                        phase: ShutdownPhase::OwnerStopping(ticket),
                        record: closing_record(self.record, now_unix_ms, ticket.checkpoint_dirty),
                        ..self
                    },
                    ShutdownAction::StopOwner(ticket),
                ),
                Err(error) => self.failed(error),
            },
            ShutdownPhase::OwnerFailed(error) => match expected_report(progress) {
                Ok(report) => self.failed(
                    ProcessShutdownError::Owner { report: self.report_of(report), error },
                ),
                Err(error) => self.failed(error),
            },
            ShutdownPhase::SessionSettled(store_open) => match expected_report(progress) {
                Ok(report) => self.after_report(report, store_open),
                Err(error) => self.failed(error),
            },
            _ => (self, ShutdownAction::Refuse),
        }
    }

    /// The next phase and what to do in it.
    pub open spec fn stepped(self, event: ShutdownEvent) -> (Self, ShutdownAction) {
        match (self.phase, event) {
            (ShutdownPhase::Beginning, ShutdownEvent::Began(Ok(ticket))) => if ticket.step
                == ShutdownStep::StopAdmission {
                (self.in_phase(ShutdownPhase::Stopping), ShutdownAction::StopAdmission(ticket))
            } else {
                self.failed(
                    ProcessShutdownError::UnexpectedStep {
                        expected: ShutdownStep::StopAdmission,
                        actual: Some(ticket.step),
                    },
                )
            },
            (ShutdownPhase::Beginning, ShutdownEvent::Began(Err(error))) => self.failed(
                ProcessShutdownError::Coordinator(error),
            ),
            (ShutdownPhase::Draining(ticket), ShutdownEvent::Drained(outcome)) => (
                self.in_phase(ShutdownPhase::Drained),
                match outcome {
                    ProcessDrainOutcome::Drained => ShutdownAction::Complete { ticket, succeeded: true },
                    ProcessDrainOutcome::Failed => ShutdownAction::Complete { ticket, succeeded: false },
                    ProcessDrainOutcome::TimedOut => ShutdownAction::Expire(ticket),
                },
            ),
            (ShutdownPhase::Flushing(ticket), ShutdownEvent::Session(wait)) => self.after_flush(ticket, wait),
            (ShutdownPhase::Closing(ticket), ShutdownEvent::Session(wait)) => self.after_close(ticket, wait),
            (ShutdownPhase::OwnerStopping(ticket), ShutdownEvent::OwnerStopped(result)) => self.after_owner(
                ticket,
                result,
            ),
            (ShutdownPhase::StoreOpening(ticket), ShutdownEvent::StoreOpened(Ok(_))) => (
                self.in_phase(ShutdownPhase::Persisting(ticket)),
                ShutdownAction::PutSession(self.record),
            ),
            (ShutdownPhase::StoreOpening(ticket), ShutdownEvent::StoreOpened(Err(code))) => (
                ProcessShutdown {
                    phase: ShutdownPhase::SessionSettled(false),
                    session_failure: Some(code),
                    ..self
                },
                ShutdownAction::Complete { ticket, succeeded: false },
            ),
            (ShutdownPhase::Persisting(ticket), ShutdownEvent::Stored(Ok(_))) => (
                self.in_phase(ShutdownPhase::SessionSettled(true)),
                ShutdownAction::Complete { ticket, succeeded: true },
            ),
            (ShutdownPhase::Persisting(ticket), ShutdownEvent::Stored(Err(code))) => (
                ProcessShutdown {
                    phase: ShutdownPhase::SessionSettled(true),
                    session_failure: Some(code),
                    ..self
                },
                ShutdownAction::Complete { ticket, succeeded: false },
            ),
            (ShutdownPhase::Amending(report), ShutdownEvent::Stored(result)) => {
                let next = ProcessShutdown {
                    phase: ShutdownPhase::Done,
                    session_failure: match result {
                        Ok(_) => self.session_failure,
                        Err(code) => Some(code),
                    },
                    ..self
                };
                (next, ShutdownAction::Finish(Ok(next.report_of(report))))
            },
            (_, ShutdownEvent::Progress { result: Ok(progress), now_unix_ms }) => self.after_progress(
                progress,
                now_unix_ms,
            ),
            (ShutdownPhase::Stopping, ShutdownEvent::Progress { result: Err(error), .. })
            | (ShutdownPhase::Drained, ShutdownEvent::Progress { result: Err(error), .. })
            | (ShutdownPhase::JournalsSettled, ShutdownEvent::Progress { result: Err(error), .. })
            | (ShutdownPhase::OwnerFailed(_), ShutdownEvent::Progress { result: Err(error), .. })
            | (ShutdownPhase::SessionSettled(_), ShutdownEvent::Progress { result: Err(error), .. }) => self.failed(
                ProcessShutdownError::Coordinator(error),
            ),
            _ => (self, ShutdownAction::Refuse),
        }
    }

    /// Begins to shut down, where nobody has begun before.
    pub fn begin_shutdown(record: SessionRecord, coordinator_available: bool) -> (r: Result<
        (Self, ShutdownAction),
        ProcessShutdownError,
    >)
        ensures
            r == (if coordinator_available {
                Ok::<(Self, ShutdownAction), ProcessShutdownError>(
                    (
                        ProcessShutdown {
                            phase: ShutdownPhase::Beginning,
                            record,
                            journals_flushed: 0,
                            journals_closed: 0,
                            journal_failure: None,
                            session_failure: None,
                        },
                        ShutdownAction::BeginCoordinator,
                    ),
                )
            } else {
                Err::<(Self, ShutdownAction), ProcessShutdownError>(ProcessShutdownError::CoordinatorAlreadyTaken)
            }),
    {
        if !coordinator_available {
            return Err(ProcessShutdownError::CoordinatorAlreadyTaken);
        }
        let shutdown = ProcessShutdown {
            phase: ShutdownPhase::Beginning,
            record,
            journals_flushed: 0,
            journals_closed: 0,
            journal_failure: None,
            session_failure: None,
        };
        Ok((shutdown, ShutdownAction::BeginCoordinator))
    }

    fn fail(self, error: ProcessShutdownError) -> (r: (Self, ShutdownAction))
        ensures
            r == self.failed(error),
    {
        let mut next = self;
        next.phase = ShutdownPhase::Done;
        (next, ShutdownAction::Finish(Err(error)))
    }

    fn report_with(&self, shutdown: ShutdownReport) -> (r: ProcessShutdownReport)
        ensures
            r == self.report_of(shutdown),
    {
        ProcessShutdownReport {
            journals_closed: self.journals_closed,
            journals_flushed: self.journals_flushed,
            shutdown,
            journal_failure: self.journal_failure,
            session_failure: self.session_failure,
        }
    }

    fn fail_journals(self, ticket: ShutdownTicket, code: &'static str, timed_out: bool) -> (r: (
        Self,
        ShutdownAction,
    ))
        ensures
            r == self.journals_failed(ticket, code, timed_out),
    {
        let mut next = self;
        next.phase = ShutdownPhase::JournalsSettled;
        next.journal_failure = Some(code);
        let action = if timed_out {
            ShutdownAction::Expire(ticket)
        } else {
            ShutdownAction::Complete { ticket, succeeded: false }
        };
        (next, action)
    }

    fn take_flush(self, ticket: ShutdownTicket, wait: SessionCommandWait) -> (r: (Self, ShutdownAction))
        ensures
            r == self.after_flush(ticket, wait),
    {
        let mut next = self;
        match wait {
            SessionCommandWait::Completed(SessionCommandResult::JournalsFlushed(count)) => {
                next.phase = ShutdownPhase::Closing(ticket);
                next.journals_flushed = count;
                (next, ShutdownAction::CloseJournals(ticket))
            },
            SessionCommandWait::Completed(result) => {
                next.fail_journals(ticket, session_result_code(result), false)
            },
            SessionCommandWait::Failed(error) => next.fail_journals(ticket, error.code, false),
            SessionCommandWait::TimedOut => next.fail_journals(ticket, "timed_out", true),
        }
    }

    fn take_close(self, ticket: ShutdownTicket, wait: SessionCommandWait) -> (r: (Self, ShutdownAction))
        ensures
            r == self.after_close(ticket, wait),
    {
        let mut next = self;
        match wait {
            SessionCommandWait::Completed(SessionCommandResult::JournalsClosed(count)) => {
                next.phase = ShutdownPhase::JournalsSettled;
                next.journals_closed = count;
                (next, ShutdownAction::Complete { ticket, succeeded: true })
            },
            SessionCommandWait::Completed(result) => {
                next.fail_journals(ticket, session_result_code(result), false)
            },
            SessionCommandWait::Failed(error) => next.fail_journals(ticket, error.code, false),
            SessionCommandWait::TimedOut => next.fail_journals(ticket, "timed_out", true),
        }
    }

    fn take_owner(self, ticket: ShutdownTicket, result: Result<(), SessionOwnerFault>) -> (r: (
        Self,
        ShutdownAction,
    ))
        ensures
            r == self.after_owner(ticket, result),
    {
        let mut next = self;
        match result {
            Ok(_) => {
                next.phase = ShutdownPhase::StoreOpening(ticket);
                (next, ShutdownAction::OpenStore)
            },
            Err(error) => {
                next.phase = ShutdownPhase::OwnerFailed(error);
                next.session_failure = Some(error.code);
                let action = if error.timed_out {
                    ShutdownAction::Expire(ticket)
                } else {
                    ShutdownAction::Complete { ticket, succeeded: false }
                };
                (next, action)
            },
        }
    }

    fn take_report(self, report: ShutdownReport, store_open: bool) -> (r: (Self, ShutdownAction))
        ensures
            r == self.after_report(report, store_open),
    {
        let mut next = self;
        if next.record.clean_shutdown && !report.clean {
            next.record.clean_shutdown = false;
            if store_open {
                next.phase = ShutdownPhase::Amending(report);
                let record = next.record;
                (next, ShutdownAction::PutSession(record))
            } else {
                next.phase = ShutdownPhase::Done;
                if next.session_failure.is_none() {
                    next.session_failure = Some("store");
                }
                let result = next.report_with(report);
                (next, ShutdownAction::Finish(Ok(result)))
            }
        } else {
            next.phase = ShutdownPhase::Done;
            let result = next.report_with(report);
            (next, ShutdownAction::Finish(Ok(result)))
        }
    }

    fn take_progress(self, progress: ShutdownProgress, now_unix_ms: u64) -> (r: (Self, ShutdownAction))
        ensures
            r == self.after_progress(progress, now_unix_ms),
    {
        let mut next = self;
        match next.phase {
            ShutdownPhase::Stopping => match next_shutdown_ticket(progress, ShutdownStep::DrainDiskCpu) {
                Ok(ticket) => {
                    next.phase = ShutdownPhase::Draining(ticket);
                    (next, ShutdownAction::DrainLanes(ticket))
                },
                Err(error) => next.fail(error),
            },
            ShutdownPhase::Drained => match next_shutdown_ticket(progress, ShutdownStep::FlushJournal) {
                Ok(ticket) => {
                    next.phase = ShutdownPhase::Flushing(ticket);
                    (next, ShutdownAction::FlushJournals(ticket))
                },
                Err(error) => next.fail(error),
            },
            ShutdownPhase::JournalsSettled => match next_shutdown_ticket(progress, ShutdownStep::PersistSession) {
                Ok(ticket) => {
                    next.phase = ShutdownPhase::OwnerStopping(ticket);
                    next.record.updated_ms = later_of(
                        later_of(now_unix_ms, next.record.created_ms),
                        next.record.updated_ms,
                    );
                    next.record.clean_shutdown = !ticket.checkpoint_dirty;
                    (next, ShutdownAction::StopOwner(ticket))
                },
                Err(error) => next.fail(error),
            },
            ShutdownPhase::OwnerFailed(error) => match completed_shutdown_report(progress) {
                Ok(report) => {
                    let report = next.report_with(report);
                    next.fail(ProcessShutdownError::Owner { report, error })
                },
                Err(error) => next.fail(error),
            },
            ShutdownPhase::SessionSettled(store_open) => match completed_shutdown_report(progress) {
                Ok(report) => next.take_report(report, store_open),
                Err(error) => next.fail(error),
            },
            _ => (next, ShutdownAction::Refuse),
        }
    }

    /// Takes an event on and says what to do next.
    pub fn step(self, event: ShutdownEvent) -> (r: (Self, ShutdownAction))
        ensures
            r == self.stepped(event),
    {
        let mut next = self;
        match (self.phase, event) {
            (ShutdownPhase::Beginning, ShutdownEvent::Began(Ok(ticket))) => {
                if ticket.step == ShutdownStep::StopAdmission {
                    next.phase = ShutdownPhase::Stopping;
                    (next, ShutdownAction::StopAdmission(ticket))
                } else {
                    self.fail(
                        ProcessShutdownError::UnexpectedStep {
                            expected: ShutdownStep::StopAdmission,
                            actual: Some(ticket.step),
                        },
                    )
                }
            },
            (ShutdownPhase::Beginning, ShutdownEvent::Began(Err(error))) => {
                self.fail(ProcessShutdownError::Coordinator(error))
            },
            (ShutdownPhase::Draining(ticket), ShutdownEvent::Drained(outcome)) => {
                next.phase = ShutdownPhase::Drained;
                let action = match outcome {
                    ProcessDrainOutcome::Drained => ShutdownAction::Complete { ticket, succeeded: true },
                    ProcessDrainOutcome::Failed => ShutdownAction::Complete { ticket, succeeded: false },
                    ProcessDrainOutcome::TimedOut => ShutdownAction::Expire(ticket),
                };
                (next, action)
            },
            (ShutdownPhase::Flushing(ticket), ShutdownEvent::Session(wait)) => self.take_flush(ticket, wait),
            (ShutdownPhase::Closing(ticket), ShutdownEvent::Session(wait)) => self.take_close(ticket, wait),
            (ShutdownPhase::OwnerStopping(ticket), ShutdownEvent::OwnerStopped(result)) => {
                self.take_owner(ticket, result)
            },
            (ShutdownPhase::StoreOpening(ticket), ShutdownEvent::StoreOpened(Ok(_))) => {
                next.phase = ShutdownPhase::Persisting(ticket);
                (next, ShutdownAction::PutSession(self.record))
            },
            (ShutdownPhase::StoreOpening(ticket), ShutdownEvent::StoreOpened(Err(code))) => {
                next.phase = ShutdownPhase::SessionSettled(false);
                next.session_failure = Some(code);
                (next, ShutdownAction::Complete { ticket, succeeded: false })
            },
            (ShutdownPhase::Persisting(ticket), ShutdownEvent::Stored(Ok(_))) => {
                next.phase = ShutdownPhase::SessionSettled(true);
                (next, ShutdownAction::Complete { ticket, succeeded: true })
            },
            (ShutdownPhase::Persisting(ticket), ShutdownEvent::Stored(Err(code))) => {
                next.phase = ShutdownPhase::SessionSettled(true);
                next.session_failure = Some(code);
                (next, ShutdownAction::Complete { ticket, succeeded: false })
            },
            (ShutdownPhase::Amending(report), ShutdownEvent::Stored(result)) => {
                next.phase = ShutdownPhase::Done;
                if let Err(code) = result {
                    next.session_failure = Some(code);
                }
                let report = next.report_with(report);
                (next, ShutdownAction::Finish(Ok(report)))
            },
            (_, ShutdownEvent::Progress { result: Ok(progress), now_unix_ms }) => {
                self.take_progress(progress, now_unix_ms)
            },
            (phase, ShutdownEvent::Progress { result: Err(error), .. }) => match phase {
                ShutdownPhase::Stopping
                | ShutdownPhase::Drained
                | ShutdownPhase::JournalsSettled
                | ShutdownPhase::OwnerFailed(_)
                | ShutdownPhase::SessionSettled(_) => self.fail(ProcessShutdownError::Coordinator(error)),
                _ => (self, ShutdownAction::Refuse),
            },
            _ => (self, ShutdownAction::Refuse),
        }
    }

    /// How long the driver may wait for the lanes or the owner.
    pub fn drain_timeout(ticket: ShutdownTicket, now: MonotonicInstant) -> (r: u64)
        ensures
            r == time_left(ticket.deadline, now),
    {
        if ticket.deadline.0 < now.0 || ticket.deadline.0 - now.0 < 1_000_000 {
            1_000_000
        } else {
            ticket.deadline.0 - now.0
        }
    }
}

/// What a shutdown under way keeps to: where it has written a session again, that
/// one is not clean.
pub open spec fn keeps_to_its_report(state: ProcessShutdown) -> bool {
    state.phase matches ShutdownPhase::Amending(report) ==> !state.record.clean_shutdown && !report.clean
}

/// A session is left marked as cleanly shut down only where the report is clean
/// too, and a report of success says so of itself.
pub proof fn law_clean_session_means_clean_report(state: ProcessShutdown, event: ShutdownEvent)
    requires
        keeps_to_its_report(state),
    ensures
        keeps_to_its_report(state.stepped(event).0),
        state.stepped(event).1 matches ShutdownAction::Finish(Ok(report)) ==> (state.stepped(
            event,
        ).0.record.clean_shutdown ==> report.shutdown.clean),
{
}

/// The session is written only once its owner has stopped, the owner is stopped
/// only once the journals are done with, and they close only once flushed.
pub proof fn law_shutdown_order(state: ProcessShutdown, event: ShutdownEvent)
    ensures
        state.stepped(event).1 is OpenStore ==> state.phase is OwnerStopping && event matches ShutdownEvent::OwnerStopped(
            Ok(_),
        ),
        state.stepped(event).1 is PutSession ==> state.phase is StoreOpening || state.phase is SessionSettled,
        state.stepped(event).1 is StopOwner ==> state.phase is JournalsSettled,
        state.stepped(event).1 is CloseJournals ==> state.phase is Flushing && event matches ShutdownEvent::Session(
            SessionCommandWait::Completed(SessionCommandResult::JournalsFlushed(_)),
        ),
        state.stepped(event).1 is FlushJournals ==> state.phase is Drained,
{
}

/// A step that failed before the session is written leaves the session dirty,
/// whatever comes after.
pub proof fn law_failed_step_leaves_the_session_dirty(
    state: ProcessShutdown,
    ticket: ShutdownTicket,
    now_unix_ms: u64,
)
    requires
        state.phase is JournalsSettled,
        ticket.step == ShutdownStep::PersistSession,
        ticket.checkpoint_dirty,
    ensures
        ({
            let (next, action) = state.stepped(
                ShutdownEvent::Progress { result: Ok(ShutdownProgress::Advanced(ticket)), now_unix_ms },
            );
            action == ShutdownAction::StopOwner(ticket) && !next.record.clean_shutdown
        }),
{
}

} // verus!
