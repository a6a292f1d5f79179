//! Reconciliation of one persisted task with its recovered journal.
use vstd::prelude::*;
use crate::probe_targets::NoSpaceProbeTargetEntry;
use crate::queues::{queue_state_for_class, state_of_class, QueueMembership, QueueRepairCandidate};
use crate::session::{
    Aria2Status, CredentialRequirement, DelayRecovery, Generation, Gid, JournalHash, JournalId, JournalInstallIntent,
    JournalInstallPhase, MonotonicInstant, NoSpaceCondition, PersistedDelay, PersistedDelayError, PlatformPath,
    PresentedHostKeyChallenge, PresentedHostKeyChallengeError, PublicError, QueueClass, RecoveredCheckpoint,
    RecoveredDelayDecision, RecoveredJournalState, RecoveredRetryState, RecoveredSchedulerTask, RecoveredTaskJournal,
    RecoveredTerminal, RetryClass, RetryScope, SessionHostKeyChallengeRecord, SessionJournalCache,
    SessionNoSpaceCondition, SessionQueueState, SessionSlowSlotState, SessionStoppedResultRecord, SessionTaskRecord,
    SessionTerminalStatus, SlowReadmissionDecision, SlowSlotPersistence, TaskConditions, TaskId, TaskPauseReason,
    TaskState,
};

verus! {

/// What a restored task shows in place of its output path.
pub const REDACTED_NO_SPACE_TARGET: &'static str = "<persisted output target>";

/// Which persisted wall-clock decision failed validation.
#[derive(Clone, Copy, Debug, PartialEq, Eq, Structural)]
pub enum StartupDeadlineKind {
    Retry,
    SlowReadmission,
    NoSpace,
}

impl StartupDeadlineKind {
    /// The stable code of a deadline kind.
    pub open spec fn spec_code(self) -> Seq<char> {
        match self {
            StartupDeadlineKind::Retry => "retry"@,
            StartupDeadlineKind::SlowReadmission => "slow_readmission"@,
            StartupDeadlineKind::NoSpace => "no_space"@,
        }
    }

    pub fn code(self) -> (r: &'static str)
        ensures
            r@ == self.spec_code(),
    {
        match self {
            StartupDeadlineKind::Retry => "retry",
            StartupDeadlineKind::SlowReadmission => "slow_readmission",
            StartupDeadlineKind::NoSpace => "no_space",
        }
    }
}

/// Why the scheduler refused a restore batch.
#[derive(Clone, Copy, Debug, PartialEq, Eq, Structural)]
pub struct SchedulerRestoreError {
    pub code: u16,
}

/// Fail-closed startup reconciliation errors.
#[derive(Clone, Copy, Debug, PartialEq, Eq, Structural)]
pub enum StartupRecoveryError {
    TaskLimitReached,
    AllocationFailed,
    MissingSession,
    TaskSessionMismatch(Gid),
    DuplicateTask(Gid),
    DuplicateJournalGid(Gid),
    MissingJournal(Gid),
    ExtraJournal(Gid),
    DuplicateJournalId(JournalId),
    DuplicatePersistedTaskId(TaskId),
    DuplicateCredentialAdmission(Gid),
    MissingCredentialAdmission(Gid),
    ExtraCredentialAdmission(Gid),
    JournalIdMismatch(Gid),
    ReplicaAheadOfPrimary(Gid),
    QueueNotDense { state: SessionQueueState, expected: u32, actual: u32 },
    MissingCurrentOptions(Gid),
    DuplicateStoppedResult(Gid),
    MissingStoppedResult(Gid),
    ExtraStoppedResult(Gid),
    TerminalQueueMismatch(Gid),
    StoppedResultMismatch(Gid),
    DuplicateHostKeyChallenge(Gid),
    HostKeyChallengeMismatch(Gid),
    InvalidHostKeyChallenge { gid: Gid, source: PresentedHostKeyChallengeError },
    DuplicateJournalInstall(Gid),
    JournalInstallMismatch(Gid),
    JournalInstallIdentityConflict(Gid),
    JournalInstallSourceAhead(Gid),
    InstalledCheckpointMismatch(Gid),
    InvalidTaskRetryIdentity(Gid),
    DuplicateTaskRetry(Gid),
    MissingSlowDeadline(Gid),
    ConflictingDeadlines(Gid),
    InvalidDeadline { gid: Gid, kind: StartupDeadlineKind, source: PersistedDelayError },
    TaskIdExhausted,
    QueueRepairInvariant,
    SchedulerRestore(SchedulerRestoreError),
}

/// The journal evidence from which a missing stopped result is rebuilt.
#[derive(Clone, Copy, Debug, PartialEq, Eq, Structural)]
pub struct CompletionEvidence {
    pub final_length: u64,
    pub layout_hash: JournalHash,
    pub completed_ms: u64,
}

/// A task that its journal has ended.
#[derive(Clone, Debug, PartialEq, Eq)]
pub struct ReconciledTerminal {
    pub status: Aria2Status,
    pub error: Option<PublicError>,
    pub repair: Option<CompletionEvidence>,
}

/// Whether a stopped result says exactly what a completed journal says.
pub open spec fn completes(result: SessionStoppedResultRecord, evidence: CompletionEvidence) -> bool {
    &&& result.status == SessionTerminalStatus::Complete
    &&& result.error_kind is None
    &&& result.safe_message@.len() == 0
    &&& result.total_length == Some(evidence.final_length)
    &&& result.layout_hash == Some(evidence.layout_hash)
    &&& result.completed_ms == evidence.completed_ms
}

/// How a journal's end and the stored result of a task fit together. Only a
/// completed journal may repair the store; an error or a removal must already
/// have its stored result.
pub open spec fn terminal_outcome(
    gid: Gid,
    queue_state: SessionQueueState,
    terminal: Option<RecoveredTerminal>,
    result: Option<SessionStoppedResultRecord>,
) -> Result<Option<ReconciledTerminal>, StartupRecoveryError> {
    let stopped = queue_state == SessionQueueState::Stopped;
    match terminal {
        None => if stopped {
            Err(StartupRecoveryError::TerminalQueueMismatch(gid))
        } else if result is Some {
            Err(StartupRecoveryError::ExtraStoppedResult(gid))
        } else {
            Ok(None)
        },
        Some(end) => if !stopped && result is Some {
            Err(StartupRecoveryError::TerminalQueueMismatch(gid))
        } else {
            match end {
                RecoveredTerminal::Complete { layout_hash, final_length, completed_at_unix_ms } => {
                    let evidence = CompletionEvidence {
                        final_length,
                        layout_hash,
                        completed_ms: completed_at_unix_ms,
                    };
                    if result is Some && !completes(result->0, evidence) {
                        Err(StartupRecoveryError::StoppedResultMismatch(gid))
                    } else {
                        Ok(
                            Some(
                                ReconciledTerminal {
                                    status: Aria2Status::Complete,
                                    error: None,
                                    repair: if result is None {
                                        Some(evidence)
                                    } else {
                                        None
                                    },
                                },
                            ),
                        )
                    }
                },
                RecoveredTerminal::Error { error_class, retriable, diagnostic_id } => match result {
                    None => Err(StartupRecoveryError::MissingStoppedResult(gid)),
                    Some(stored) => if stored.status != SessionTerminalStatus::Error
                        || stored.error_kind != Some(error_class) || stored.total_length is Some
                        || stored.layout_hash is Some {
                        Err(StartupRecoveryError::StoppedResultMismatch(gid))
                    } else {
                        Ok(
                            Some(
                                ReconciledTerminal {
                                    status: Aria2Status::Error,
                                    error: Some(
                                        PublicError {
                                            kind: error_class,
                                            message: stored.safe_message,
                                            retry: if retriable {
                                                RetryClass::UserAction
                                            } else {
                                                RetryClass::Never
                                            },
                                            diagnostic_id: Some(diagnostic_id),
                                        },
                                    ),
                                    repair: None,
                                },
                            ),
                        )
                    },
                },
                RecoveredTerminal::Removed => match result {
                    None => Err(StartupRecoveryError::MissingStoppedResult(gid)),
                    Some(stored) => if stored.status != SessionTerminalStatus::Removed
                        || stored.error_kind is Some || stored.safe_message@.len() > 0
                        || stored.total_length is Some || stored.layout_hash is Some {
                        Err(StartupRecoveryError::StoppedResultMismatch(gid))
                    } else {
                        Ok(
                            Some(
                                ReconciledTerminal {
                                    status: Aria2Status::Removed,
                                    error: None,
                                    repair: None,
                                },
                            ),
                        )
                    },
                },
            }
        },
    }
}

/// Pairs a journal's end with the stored result of its task.
pub fn reconcile_terminal(
    gid: Gid,
    queue_state: SessionQueueState,
    terminal: Option<RecoveredTerminal>,
    result: Option<SessionStoppedResultRecord>,
) -> (r: Result<Option<ReconciledTerminal>, StartupRecoveryError>)
    ensures
        r == terminal_outcome(gid, queue_state, terminal, result),
{
    let stopped = queue_state == SessionQueueState::Stopped;
    let end = match terminal {
        Some(end) => end,
        None => {
            if stopped {
                return Err(StartupRecoveryError::TerminalQueueMismatch(gid));
            }
            if result.is_some() {
                return Err(StartupRecoveryError::ExtraStoppedResult(gid));
            }
            return Ok(None);
        },
    };
    if !stopped && result.is_some() {
        return Err(StartupRecoveryError::TerminalQueueMismatch(gid));
    }
    match end {
        RecoveredTerminal::Complete { layout_hash, final_length, completed_at_unix_ms } => {
            let mut repair = Some(
                CompletionEvidence { final_length, layout_hash, completed_ms: completed_at_unix_ms },
            );
            if let Some(stored) = &result {
                if stored.status != SessionTerminalStatus::Complete || stored.error_kind.is_some()
                    || !stored.safe_message.as_str().is_empty() || stored.total_length != Some(
                    final_length,
                ) || stored.layout_hash != Some(layout_hash) || stored.completed_ms
                    != completed_at_unix_ms {
                    return Err(StartupRecoveryError::StoppedResultMismatch(gid));
                }
                repair = None;
            }
            Ok(Some(ReconciledTerminal { status: Aria2Status::Complete, error: None, repair }))
        },
        RecoveredTerminal::Error { error_class, retriable, diagnostic_id } => {
            let stored = match result {
                Some(stored) => stored,
                None => return Err(StartupRecoveryError::MissingStoppedResult(gid)),
            };
            if stored.status != SessionTerminalStatus::Error || stored.error_kind != Some(
                error_class,
            ) || stored.total_length.is_some() || stored.layout_hash.is_some() {
                return Err(StartupRecoveryError::StoppedResultMismatch(gid));
            }
            let retry = if retriable {
                RetryClass::UserAction
            } else {
                RetryClass::Never
            };
            Ok(
                Some(
                    ReconciledTerminal {
                        status: Aria2Status::Error,
                        error: Some(
                            PublicError {
                                kind: error_class,
                                message: stored.safe_message,
                                retry,
                                diagnostic_id: Some(diagnostic_id),
                            },
                        ),
                        repair: None,
                    },
                ),
            )
        },
        RecoveredTerminal::Removed => {
            let stored = match result {
                Some(stored) => stored,
                None => return Err(StartupRecoveryError::MissingStoppedResult(gid)),
            };
            if stored.status != SessionTerminalStatus::Removed || stored.error_kind.is_some()
                || !stored.safe_message.as_str().is_empty() || stored.total_length.is_some()
                || stored.layout_hash.is_some() {
                return Err(StartupRecoveryError::StoppedResultMismatch(gid));
            }
            Ok(Some(ReconciledTerminal { status: Aria2Status::Removed, error: None, repair: None }))
        },
    }
}

/// When a stored host-key challenge belongs to a task: its journal is paused
/// for approval, its row is paused, and the challenge itself is valid.
pub open spec fn challenge_outcome(
    gid: Gid,
    queue_state: SessionQueueState,
    ended: bool,
    paused: Option<TaskPauseReason>,
    challenge: Option<SessionHostKeyChallengeRecord>,
) -> Result<Option<PresentedHostKeyChallenge>, StartupRecoveryError> {
    let awaits = !ended && paused == Some(TaskPauseReason::HostKeyApproval);
    match challenge {
        None => if awaits {
            Err(StartupRecoveryError::HostKeyChallengeMismatch(gid))
        } else {
            Ok(None)
        },
        Some(stored) => if !awaits || queue_state != SessionQueueState::Paused {
            Err(StartupRecoveryError::HostKeyChallengeMismatch(gid))
        } else {
            match stored.fault {
                Some(source) => Err(StartupRecoveryError::InvalidHostKeyChallenge { gid, source }),
                None => Ok(
                    Some(
                        PresentedHostKeyChallenge {
                            id: stored.challenge_id,
                            canonical_host: stored.canonical_host,
                            port: stored.port,
                            algorithm: stored.algorithm,
                            fingerprint_sha256: stored.fingerprint_sha256,
                            presented_public_key: stored.presented_public_key,
                        },
                    ),
                ),
            }
        },
    }
}

/// Pairs a stored host-key challenge with the journal that asked for it.
pub fn reconcile_host_key(
    gid: Gid,
    queue_state: SessionQueueState,
    ended: bool,
    paused: Option<TaskPauseReason>,
    challenge: Option<SessionHostKeyChallengeRecord>,
) -> (r: Result<Option<PresentedHostKeyChallenge>, StartupRecoveryError>)
    ensures
        r == challenge_outcome(gid, queue_state, ended, paused, challenge),
{
    let awaits = !ended && paused == Some(TaskPauseReason::HostKeyApproval);
    match challenge {
        None => {
            if awaits {
                return Err(StartupRecoveryError::HostKeyChallengeMismatch(gid));
            }
            Ok(None)
        },
        Some(stored) => {
            if !awaits || queue_state != SessionQueueState::Paused {
                return Err(StartupRecoveryError::HostKeyChallengeMismatch(gid));
            }
            if let Some(source) = stored.fault {
                return Err(StartupRecoveryError::InvalidHostKeyChallenge { gid, source });
            }
            Ok(
                Some(
                    PresentedHostKeyChallenge {
                        id: stored.challenge_id,
                        canonical_host: stored.canonical_host,
                        port: stored.port,
                        algorithm: stored.algorithm,
                        fingerprint_sha256: stored.fingerprint_sha256,
                        presented_public_key: stored.presented_public_key,
                    },
                ),
            )
        },
    }
}

/// The retry decisions that a journal records for its whole task.
pub open spec fn task_scope(states: Seq<RecoveredRetryState>) -> Seq<RecoveredRetryState>
    decreases states.len(),
{
    if states.len() == 0 {
        Seq::empty()
    } else {
        let rest = task_scope(states.drop_last());
        if states.last().scope == RetryScope::Task {
            rest.push(states.last())
        } else {
            rest
        }
    }
}

/// The one task-wide retry decision of a journal, which must name the task itself.
pub open spec fn task_retry_outcome(
    gid: Gid,
    task: TaskId,
    states: Seq<RecoveredRetryState>,
) -> Result<Option<RecoveredRetryState>, StartupRecoveryError> {
    let own = task_scope(states);
    if own.len() == 0 {
        Ok(None)
    } else if own[0].scope_id != task.0 {
        Err(StartupRecoveryError::InvalidTaskRetryIdentity(gid))
    } else if own.len() == 1 {
        Ok(Some(own[0]))
    } else if own[1].scope_id != task.0 {
        Err(StartupRecoveryError::InvalidTaskRetryIdentity(gid))
    } else {
        Err(StartupRecoveryError::DuplicateTaskRetry(gid))
    }
}

/// Later decisions do not change the first task-wide ones.
proof fn lemma_task_scope_prefix(states: Seq<RecoveredRetryState>, count: int)
    requires
        0 <= count <= states.len(),
    ensures
        task_scope(states.take(count)).len() <= task_scope(states).len(),
        task_scope(states.take(count)) == task_scope(states).take(
            task_scope(states.take(count)).len() as int,
        ),
    decreases states.len() - count,
{
    if count == states.len() {
        assert(states.take(count) =~= states);
        assert(task_scope(states).take(task_scope(states).len() as int) =~= task_scope(states));
    } else {
        lemma_task_scope_prefix(states, count + 1);
        assert(states.take(count + 1).drop_last() =~= states.take(count));
        let a = task_scope(states.take(count));
        let b = task_scope(states.take(count + 1));
        assert(a =~= b.take(a.len() as int));
        assert(a =~= task_scope(states).take(a.len() as int));
    }
}

/// Finds the one task-wide retry decision of a journal.
pub fn task_retry(gid: Gid, task: TaskId, states: &Vec<RecoveredRetryState>) -> (r: Result<
    Option<RecoveredRetryState>,
    StartupRecoveryError,
>)
    ensures
        r == task_retry_outcome(gid, task, states@),
{
    let mut found: Option<RecoveredRetryState> = None;
    let mut i: usize = 0;
    while i < states.len()
        invariant
            i <= states.len(),
            task_scope(states@.take(i as int)).len() <= 1,
            found is Some <==> task_scope(states@.take(i as int)).len() == 1,
            found matches Some(f) ==> f == task_scope(states@.take(i as int))[0] && f.scope_id == task.0,
        decreases states.len() - i,
    {
        let state = states[i];
        proof {
            assert(states@.take(i as int + 1).drop_last() =~= states@.take(i as int));
            lemma_task_scope_prefix(states@, i as int + 1);
            let seen = task_scope(states@.take(i as int + 1));
            assert forall|j: int| 0 <= j < seen.len() implies task_scope(states@)[j] == seen[j] by {
                assert(seen[j] == task_scope(states@).take(seen.len() as int)[j]);
            }
            assert(seen.len() > 0 ==> task_scope(states@)[0] == seen[0]);
            assert(seen.len() > 1 ==> task_scope(states@)[1] == seen[1]);
        }
        if state.scope == RetryScope::Task {
            if state.scope_id != task.0 {
                return Err(StartupRecoveryError::InvalidTaskRetryIdentity(gid));
            }
            if found.is_some() {
                return Err(StartupRecoveryError::DuplicateTaskRetry(gid));
            }
            found = Some(state);
        }
        i = i + 1;
    }
    assert(states@.take(i as int) =~= states@);
    Ok(found)
}

/// The deadline of a persisted delay, or the error that names it.
pub open spec fn delay_outcome(
    gid: Gid,
    kind: StartupDeadlineKind,
    delay: PersistedDelay,
) -> Result<RecoveredDelayDecision, StartupRecoveryError> {
    match delay.recovery {
        DelayRecovery::Valid(decision) => Ok(decision),
        DelayRecovery::Invalid(source) => Err(
            StartupRecoveryError::InvalidDeadline { gid, kind, source },
        ),
    }
}

pub fn recover_delay(gid: Gid, kind: StartupDeadlineKind, delay: PersistedDelay) -> (r: Result<
    RecoveredDelayDecision,
    StartupRecoveryError,
>)
    ensures
        r == delay_outcome(gid, kind, delay),
{
    match delay.recovery {
        DelayRecovery::Valid(decision) => Ok(decision),
        DelayRecovery::Invalid(source) => Err(
            StartupRecoveryError::InvalidDeadline { gid, kind, source },
        ),
    }
}

/// The slow-slot state of a demoted task; every demoted task needs a decision.
pub open spec fn slow_outcome(
    gid: Gid,
    queue_state: SessionQueueState,
    slow_slot: Option<SessionSlowSlotState>,
    demotion_count: u32,
) -> Result<Option<SlowSlotPersistence>, StartupRecoveryError> {
    if queue_state != SessionQueueState::Demoted {
        Ok(None)
    } else {
        match slow_slot {
            Some(SessionSlowSlotState { original_position, retry: Some(delay) }) => {
                match delay_outcome(gid, StartupDeadlineKind::SlowReadmission, delay) {
                    Ok(decision) => Ok(
                        Some(
                            SlowSlotPersistence {
                                original_position,
                                demotion_count,
                                decision: SlowReadmissionDecision {
                                    readmit_at: decision.deadline,
                                    scheduled_at_ms: delay.scheduled_at_ms,
                                    delay_ms: delay.delay_ms,
                                },
                            },
                        ),
                    ),
                    Err(error) => Err(error),
                }
            },
            _ => Err(StartupRecoveryError::MissingSlowDeadline(gid)),
        }
    }
}

pub fn recover_slow_slot(
    gid: Gid,
    queue_state: SessionQueueState,
    slow_slot: Option<SessionSlowSlotState>,
    demotion_count: u32,
) -> (r: Result<Option<SlowSlotPersistence>, StartupRecoveryError>)
    ensures
        r == slow_outcome(gid, queue_state, slow_slot, demotion_count),
{
    if queue_state != SessionQueueState::Demoted {
        return Ok(None);
    }
    let slow = match slow_slot {
        Some(slow) => slow,
        None => return Err(StartupRecoveryError::MissingSlowDeadline(gid)),
    };
    let retry = match slow.retry {
        Some(retry) => retry,
        None => return Err(StartupRecoveryError::MissingSlowDeadline(gid)),
    };
    match recover_delay(gid, StartupDeadlineKind::SlowReadmission, retry) {
        Ok(decision) => Ok(
            Some(
                SlowSlotPersistence {
                    original_position: slow.original_position,
                    demotion_count,
                    decision: SlowReadmissionDecision {
                        readmit_at: decision.deadline,
                        scheduled_at_ms: retry.scheduled_at_ms,
                        delay_ms: retry.delay_ms,
                    },
                },
            ),
        ),
        Err(error) => Err(error),
    }
}

/// The out-of-space condition of a live task and the target that its probe gets.
#[derive(Debug, PartialEq, Eq)]
pub struct RecoveredNoSpace {
    pub condition: Option<NoSpaceCondition>,
    pub target: Option<NoSpaceProbeTargetEntry>,
}

pub open spec fn no_space_outcome(
    gid: Gid,
    task_id: TaskId,
    generation: Generation,
    no_space: Option<SessionNoSpaceCondition>,
) -> Result<RecoveredNoSpace, StartupRecoveryError> {
    match no_space {
        None => Ok(RecoveredNoSpace { condition: None, target: None }),
        Some(stored) => match delay_outcome(gid, StartupDeadlineKind::NoSpace, stored.delay) {
            Ok(decision) => Ok(
                RecoveredNoSpace {
                    condition: Some(
                        NoSpaceCondition {
                            redacted_path: REDACTED_NO_SPACE_TARGET,
                            retry_at: Some(decision.deadline),
                        },
                    ),
                    target: Some(
                        NoSpaceProbeTargetEntry {
                            task_id,
                            gid,
                            generation,
                            decision,
                            target: Some(stored.target),
                        },
                    ),
                },
            ),
            Err(error) => Err(error),
        },
    }
}

pub fn recover_no_space(
    gid: Gid,
    task_id: TaskId,
    generation: Generation,
    no_space: Option<SessionNoSpaceCondition>,
) -> (r: Result<RecoveredNoSpace, StartupRecoveryError>)
    ensures
        r == no_space_outcome(gid, task_id, generation, no_space),
{
    let stored = match no_space {
        Some(stored) => stored,
        None => return Ok(RecoveredNoSpace { condition: None, target: None }),
    };
    match recover_delay(gid, StartupDeadlineKind::NoSpace, stored.delay) {
        Ok(decision) => Ok(
            RecoveredNoSpace {
                condition: Some(
                    NoSpaceCondition {
                        redacted_path: REDACTED_NO_SPACE_TARGET,
                        retry_at: Some(decision.deadline),
                    },
                ),
                target: Some(
                    NoSpaceProbeTargetEntry {
                        task_id,
                        gid,
                        generation,
                        decision,
                        target: Some(stored.target),
                    },
                ),
            },
        ),
        Err(error) => Err(error),
    }
}

/// The scheduler place of a restored task.
#[derive(Clone, Debug, PartialEq, Eq)]
pub struct NormalizedTask {
    pub state: TaskState,
    pub queue: QueueClass,
    pub slow_slot: Option<SlowSlotPersistence>,
    pub retry_at: Option<MonotonicInstant>,
    pub challenge: Option<PresentedHostKeyChallenge>,
    pub error: Option<PublicError>,
    pub stopped_status: Option<Aria2Status>,
}

/// A live task in a state and a queue, with nothing else attached.
pub open spec fn plain_task(state: TaskState, queue: QueueClass) -> NormalizedTask {
    NormalizedTask {
        state,
        queue,
        slow_slot: None,
        retry_at: None,
        challenge: None,
        error: None,
        stopped_status: None,
    }
}

/// Where a task resumes: an ended task stops, a challenged one waits for its
/// host key, a wish to pause wins over any queue, a demoted task keeps its slow
/// slot, and everything that was waiting or active waits again.
pub open spec fn normalized(
    gid: Gid,
    queue_state: SessionQueueState,
    desired_paused: bool,
    paused: Option<TaskPauseReason>,
    terminal: Option<ReconciledTerminal>,
    challenge: Option<PresentedHostKeyChallenge>,
    slow_slot: Option<SlowSlotPersistence>,
    retry: Option<RecoveredDelayDecision>,
) -> Result<NormalizedTask, StartupRecoveryError> {
    let rest = if paused == Some(TaskPauseReason::SlowSlot) {
        TaskState::PausedSlow
    } else {
        TaskState::Paused
    };
    if terminal is Some {
        if challenge is Some || slow_slot is Some || retry is Some {
            Err(StartupRecoveryError::TerminalQueueMismatch(gid))
        } else {
            Ok(
                NormalizedTask {
                    error: terminal->0.error,
                    stopped_status: Some(terminal->0.status),
                    ..plain_task(TaskState::StoppedResult, QueueClass::Stopped)
                },
            )
        }
    } else if challenge is Some {
        Ok(NormalizedTask { challenge, ..plain_task(TaskState::PausedHostKey, QueueClass::Paused) })
    } else if desired_paused || queue_state == SessionQueueState::Paused {
        Ok(plain_task(rest, QueueClass::Paused))
    } else {
        match queue_state {
            SessionQueueState::Stopped => Err(StartupRecoveryError::TerminalQueueMismatch(gid)),
            SessionQueueState::Demoted => Ok(
                NormalizedTask { slow_slot, ..plain_task(TaskState::WaitingSlow, QueueClass::Demoted) },
            ),
            _ => match retry {
                Some(decision) => Ok(
                    NormalizedTask {
                        retry_at: Some(decision.deadline),
                        ..plain_task(TaskState::RetryWait, QueueClass::Waiting)
                    },
                ),
                None => Ok(plain_task(TaskState::Waiting, QueueClass::Waiting)),
            },
        }
    }
}

fn new_plain_task(state: TaskState, queue: QueueClass) -> (r: NormalizedTask)
    ensures
        r == plain_task(state, queue),
{
    NormalizedTask {
        state,
        queue,
        slow_slot: None,
        retry_at: None,
        challenge: None,
        error: None,
        stopped_status: None,
    }
}

/// Chooses the scheduler place of a restored task.
pub fn normalize_task(
    gid: Gid,
    queue_state: SessionQueueState,
    desired_paused: bool,
    paused: Option<TaskPauseReason>,
    terminal: Option<ReconciledTerminal>,
    challenge: Option<PresentedHostKeyChallenge>,
    slow_slot: Option<SlowSlotPersistence>,
    retry: Option<RecoveredDelayDecision>,
) -> (r: Result<NormalizedTask, StartupRecoveryError>)
    ensures
        r == normalized(
            gid,
            queue_state,
            desired_paused,
            paused,
            terminal,
            challenge,
            slow_slot,
            retry,
        ),
{
    if let Some(terminal) = terminal {
        if challenge.is_some() || slow_slot.is_some() || retry.is_some() {
            return Err(StartupRecoveryError::TerminalQueueMismatch(gid));
        }
        let mut task = new_plain_task(TaskState::StoppedResult, QueueClass::Stopped);
        task.error = terminal.error;
        task.stopped_status = Some(terminal.status);
        return Ok(task);
    }
    if challenge.is_some() {
        let mut task = new_plain_task(TaskState::PausedHostKey, QueueClass::Paused);
        task.challenge = challenge;
        return Ok(task);
    }
    let rest = if paused == Some(TaskPauseReason::SlowSlot) {
        TaskState::PausedSlow
    } else {
        TaskState::Paused
    };
    if desired_paused {
        return Ok(new_plain_task(rest, QueueClass::Paused));
    }
    match queue_state {
        SessionQueueState::Stopped => Err(StartupRecoveryError::TerminalQueueMismatch(gid)),
        SessionQueueState::Demoted => {
            let mut task = new_plain_task(TaskState::WaitingSlow, QueueClass::Demoted);
            task.slow_slot = slow_slot;
            Ok(task)
        },
        SessionQueueState::Paused => Ok(new_plain_task(rest, QueueClass::Paused)),
        SessionQueueState::Waiting | SessionQueueState::Active => match retry {
            Some(decision) => {
                let mut task = new_plain_task(TaskState::RetryWait, QueueClass::Waiting);
                task.retry_at = Some(decision.deadline);
                Ok(task)
            },
            None => Ok(new_plain_task(TaskState::Waiting, QueueClass::Waiting)),
        },
    }
}

/// Journal-owned session values that differ from the startup snapshot.
#[derive(Clone, Debug, PartialEq, Eq)]
pub struct SessionAuthorityRepair {
    pub gid: Gid,
    pub expected_journal_id: JournalId,
    pub cache: Option<SessionJournalCache>,
    pub root_display: Option<PlatformPath>,
    pub updated_ms: u64,
}

/// A bounded replica checkpoint that may be considered only after primary validation.
#[derive(Clone, Debug, PartialEq, Eq)]
pub struct DeferredReplicaRecovery {
    pub path: PlatformPath,
    pub copied_through_sequence: u64,
}

/// Exact descriptor-opening work that still requires a native filesystem layer.
#[derive(Clone, Debug, PartialEq, Eq)]
pub struct DeferredAppenderRecovery {
    pub task_id: TaskId,
    pub gid: Gid,
    pub journal_id: JournalId,
    pub primary_path: PlatformPath,
    pub replica: Option<DeferredReplicaRecovery>,
    pub expected_last_sequence: u64,
}

/// A persisted install protocol row requiring native resolution before use.
///
/// For `Installing`, no direct appender request is emitted: native recovery
/// must either reject the candidate and return an old-set appender request or
/// install the validated checkpoint and return a new-set request.
#[derive(Clone, Debug, PartialEq, Eq)]
pub struct DeferredJournalInstallRecovery {
    pub task_id: TaskId,
    pub intent: JournalInstallIntent,
    pub authoritative_journal_id: JournalId,
    pub authoritative_last_sequence: u64,
    pub authoritative_checkpoint: Option<RecoveredCheckpoint>,
}

/// Task-local durable state retained beside the fresh scheduler identity.
#[derive(Clone, Debug, PartialEq, Eq)]
pub struct RecoveredEngineTask {
    pub task_id: TaskId,
    pub gid: Gid,
    pub journal_id: JournalId,
    pub journal: RecoveredJournalState,
    pub recovered_retry_budget_elapsed_ms: Option<u64>,
}

/// A completed task whose stored result has to be written.
#[derive(Clone, Copy, Debug, PartialEq, Eq, Structural)]
pub struct TerminalRepairCandidate {
    pub evidence: CompletionEvidence,
    pub change: QueueRepairCandidate,
}

/// Everything that startup derives for one task.
pub struct TaskPlan {
    pub scheduler: RecoveredSchedulerTask,
    pub engine: RecoveredEngineTask,
    pub authority: Option<SessionAuthorityRepair>,
    pub appender: Option<DeferredAppenderRecovery>,
    pub install: Option<DeferredJournalInstallRecovery>,
    pub target: Option<NoSpaceProbeTargetEntry>,
    pub member: QueueMembership,
    pub queue_repair: Option<QueueRepairCandidate>,
    pub terminal_repair: Option<TerminalRepairCandidate>,
}

/// The persisted records of one task, brought together by GID.
pub struct TaskInputs {
    pub task: SessionTaskRecord,
    pub journal: RecoveredTaskJournal,
    pub requirement: Option<CredentialRequirement>,
    pub stopped: Option<SessionStoppedResultRecord>,
    pub challenge: Option<SessionHostKeyChallengeRecord>,
    pub install: Option<JournalInstallIntent>,
}

/// What a journal says the session store should cache.
pub open spec fn authoritative_cache(state: RecoveredJournalState) -> SessionJournalCache {
    SessionJournalCache {
        layout_hash: match state.layout {
            Some(layout) => Some(layout.layout_hash),
            None => None,
        },
        root_binding_hash: match state.layout {
            Some(layout) => Some(layout.root_binding_hash),
            None => None,
        },
        snapshot_hash: state.current_options->0,
    }
}

/// What the session store caches.
pub open spec fn persisted_cache(task: SessionTaskRecord) -> SessionJournalCache {
    SessionJournalCache {
        layout_hash: task.cached_layout_hash,
        root_binding_hash: task.cached_root_binding_hash,
        snapshot_hash: task.cached_snapshot_hash,
    }
}

/// The root path of the journal's layout where the store shows another.
pub open spec fn root_repair(task: SessionTaskRecord, state: RecoveredJournalState) -> Option<PlatformPath> {
    match state.layout {
        Some(layout) => if layout.root_path.text@ != task.root_display.text@ {
            Some(layout.root_path)
        } else {
            None
        },
        None => None,
    }
}

/// The correction of journal-owned store values, if any differs.
pub open spec fn authority_repair(
    task: SessionTaskRecord,
    journal: RecoveredTaskJournal,
    updated_ms: u64,
) -> Option<SessionAuthorityRepair> {
    let wanted = authoritative_cache(journal.state);
    let stale = persisted_cache(task) != wanted;
    let root = root_repair(task, journal.state);
    if stale || root is Some {
        Some(
            SessionAuthorityRepair {
                gid: task.gid,
                expected_journal_id: journal.journal_id,
                cache: if stale {
                    Some(wanted)
                } else {
                    None
                },
                root_display: root,
                updated_ms,
            },
        )
    } else {
        None
    }
}

/// The appender work of a task whose journal is not being replaced.
pub open spec fn appender_recovery(inputs: TaskInputs, task_id: TaskId) -> Option<DeferredAppenderRecovery> {
    if inputs.install matches Some(intent) && intent.phase == JournalInstallPhase::Installing {
        None
    } else {
        Some(
            DeferredAppenderRecovery {
                task_id,
                gid: inputs.task.gid,
                journal_id: inputs.journal.journal_id,
                primary_path: inputs.task.primary_journal_path,
                replica: match (inputs.task.replica_journal_path, inputs.task.replica_sequence) {
                    (Some(path), Some(sequence)) => Some(
                        DeferredReplicaRecovery { path, copied_through_sequence: sequence },
                    ),
                    _ => None,
                },
                expected_last_sequence: inputs.journal.state.last_sequence,
            },
        )
    }
}

/// The plan of one task from its reconciled parts.
pub open spec fn assembled_plan(
    inputs: TaskInputs,
    task_id: TaskId,
    updated_ms: u64,
    terminal: Option<ReconciledTerminal>,
    no_space: RecoveredNoSpace,
    retry: Option<RecoveredDelayDecision>,
    place: NormalizedTask,
) -> TaskPlan {
    let task = inputs.task;
    let state = inputs.journal.state;
    let target_state = state_of_class(place.queue);
    let change = QueueRepairCandidate {
        gid: task.gid,
        expected_state: task.queue_state,
        target_state,
        desired_paused: task.desired_paused,
        slow_demotion_count: task.slow_demotion_count,
        updated_ms,
    };
    TaskPlan {
        scheduler: RecoveredSchedulerTask {
            task_id,
            gid: task.gid,
            state: place.state,
            generation: state.generation,
            generation_started: true,
            desired_paused: task.desired_paused,
            conditions: TaskConditions {
                needs_credentials: inputs.requirement,
                no_space: no_space.condition,
            },
            slow_demotion_count: task.slow_demotion_count,
            slow_slot: place.slow_slot,
            retry_at: place.retry_at,
            host_key_challenge: place.challenge,
            error: place.error,
            stopped_status: place.stopped_status,
        },
        engine: RecoveredEngineTask {
            task_id,
            gid: task.gid,
            journal_id: inputs.journal.journal_id,
            journal: state,
            recovered_retry_budget_elapsed_ms: match retry {
                Some(decision) => Some(decision.budget_elapsed_ms),
                None => None,
            },
        },
        authority: authority_repair(task, inputs.journal, updated_ms),
        appender: appender_recovery(inputs, task_id),
        install: match inputs.install {
            Some(intent) => Some(
                DeferredJournalInstallRecovery {
                    task_id,
                    intent,
                    authoritative_journal_id: inputs.journal.journal_id,
                    authoritative_last_sequence: state.last_sequence,
                    authoritative_checkpoint: state.checkpoint,
                },
            ),
            None => None,
        },
        target: no_space.target,
        member: QueueMembership {
            gid: task.gid,
            class: place.queue,
            source: task.queue_state,
            position: task.queue_position,
        },
        queue_repair: if terminal is None && target_state != task.queue_state {
            Some(change)
        } else {
            None
        },
        terminal_repair: match terminal {
            Some(ReconciledTerminal { repair: Some(evidence), .. }) => Some(
                TerminalRepairCandidate {
                    evidence,
                    change: QueueRepairCandidate {
                        target_state: SessionQueueState::Stopped,
                        desired_paused: false,
                        updated_ms: if updated_ms >= evidence.completed_ms {
                            updated_ms
                        } else {
                            evidence.completed_ms
                        },
                        ..change
                    },
                },
            ),
            _ => None,
        },
    }
}

/// The plan of one task, or the first reason why its records do not fit
/// together. An ended task has no deadlines; a live one may not wait for a retry
/// and for a slow slot at once.
pub open spec fn task_plan(inputs: TaskInputs, task_id: TaskId, updated_ms: u64) -> Result<
    TaskPlan,
    StartupRecoveryError,
> {
    let task = inputs.task;
    let gid = task.gid;
    let state = inputs.journal.state;
    if inputs.journal.journal_id != task.primary_journal_id {
        Err(StartupRecoveryError::JournalIdMismatch(gid))
    } else if task.replica_sequence is Some && task.replica_sequence->0 > state.last_sequence {
        Err(StartupRecoveryError::ReplicaAheadOfPrimary(gid))
    } else if state.current_options is None {
        Err(StartupRecoveryError::MissingCurrentOptions(gid))
    } else {
        match terminal_outcome(gid, task.queue_state, state.terminal, inputs.stopped) {
            Err(error) => Err(error),
            Ok(terminal) => match challenge_outcome(
                gid,
                task.queue_state,
                state.terminal is Some,
                state.paused,
                inputs.challenge,
            ) {
                Err(error) => Err(error),
                Ok(challenge) => if terminal is Some {
                    let no_space = RecoveredNoSpace { condition: None, target: None };
                    match normalized(
                        gid,
                        task.queue_state,
                        task.desired_paused,
                        state.paused,
                        terminal,
                        challenge,
                        None,
                        None,
                    ) {
                        Err(error) => Err(error),
                        Ok(place) => Ok(
                            assembled_plan(inputs, task_id, updated_ms, terminal, no_space, None, place),
                        ),
                    }
                } else {
                    live_plan(inputs, task_id, updated_ms, challenge)
                },
            },
        }
    }
}

/// The plan of a task that has not ended.
pub open spec fn live_plan(
    inputs: TaskInputs,
    task_id: TaskId,
    updated_ms: u64,
    challenge: Option<PresentedHostKeyChallenge>,
) -> Result<TaskPlan, StartupRecoveryError> {
    let task = inputs.task;
    let gid = task.gid;
    let state = inputs.journal.state;
    match task_retry_outcome(gid, state.task, state.retry_states@) {
        Err(error) => Err(error),
        Ok(own_retry) => match no_space_outcome(gid, task_id, state.generation, task.no_space) {
            Err(error) => Err(error),
            Ok(no_space) => match slow_outcome(
                gid,
                task.queue_state,
                task.slow_slot,
                task.slow_demotion_count,
            ) {
                Err(error) => Err(error),
                Ok(slow_slot) => if slow_slot is Some && own_retry is Some {
                    Err(StartupRecoveryError::ConflictingDeadlines(gid))
                } else {
                    match retry_decision(gid, own_retry) {
                        Err(error) => Err(error),
                        Ok(retry) => match normalized(
                            gid,
                            task.queue_state,
                            task.desired_paused,
                            state.paused,
                            None,
                            challenge,
                            slow_slot,
                            retry,
                        ) {
                            Err(error) => Err(error),
                            Ok(place) => Ok(
                                assembled_plan(inputs, task_id, updated_ms, None, no_space, retry, place),
                            ),
                        },
                    }
                },
            },
        },
    }
}

/// The deadline of a task-wide retry decision.
pub open spec fn retry_decision(gid: Gid, retry: Option<RecoveredRetryState>) -> Result<
    Option<RecoveredDelayDecision>,
    StartupRecoveryError,
> {
    match retry {
        None => Ok(None),
        Some(state) => match delay_outcome(gid, StartupDeadlineKind::Retry, state.delay) {
            Ok(decision) => Ok(Some(decision)),
            Err(error) => Err(error),
        },
    }
}

pub fn recover_retry(gid: Gid, retry: Option<RecoveredRetryState>) -> (r: Result<
    Option<RecoveredDelayDecision>,
    StartupRecoveryError,
>)
    ensures
        r == retry_decision(gid, retry),
{
    match retry {
        None => Ok(None),
        Some(state) => match recover_delay(gid, StartupDeadlineKind::Retry, state.delay) {
            Ok(decision) => Ok(Some(decision)),
            Err(error) => Err(error),
        },
    }
}

/// Finds the store values that the journal corrects.
fn find_authority_repair(
    task: &SessionTaskRecord,
    journal: &RecoveredTaskJournal,
    options: JournalHash,
    updated_ms: u64,
) -> (r: Option<SessionAuthorityRepair>)
    requires
        journal.state.current_options == Some(options),
    ensures
        r == authority_repair(*task, *journal, updated_ms),
{
    let mut wanted = SessionJournalCache {
        layout_hash: None,
        root_binding_hash: None,
        snapshot_hash: options,
    };
    let mut root: Option<PlatformPath> = None;
    if let Some(layout) = &journal.state.layout {
        wanted.layout_hash = Some(layout.layout_hash);
        wanted.root_binding_hash = Some(layout.root_binding_hash);
        if !layout.root_path.same(&task.root_display) {
            root = Some(layout.root_path.clone());
        }
    }
    let persisted = SessionJournalCache {
        layout_hash: task.cached_layout_hash,
        root_binding_hash: task.cached_root_binding_hash,
        snapshot_hash: task.cached_snapshot_hash,
    };
    let stale = persisted != wanted;
    if !stale && root.is_none() {
        return None;
    }
    let cache = if stale {
        Some(wanted)
    } else {
        None
    };
    Some(
        SessionAuthorityRepair {
            gid: task.gid,
            expected_journal_id: journal.journal_id,
            cache,
            root_display: root,
            updated_ms,
        },
    )
}

/// Reconciles the records of one task.
pub fn plan_task(inputs: TaskInputs, task_id: TaskId, updated_ms: u64) -> (r: Result<
    TaskPlan,
    StartupRecoveryError,
>)
    ensures
        r == task_plan(inputs, task_id, updated_ms),
{
    let ghost given = inputs;
    let TaskInputs { task, journal, requirement, stopped, challenge, install } = inputs;
    let gid = task.gid;
    if journal.journal_id != task.primary_journal_id {
        return Err(StartupRecoveryError::JournalIdMismatch(gid));
    }
    if let Some(sequence) = task.replica_sequence {
        if sequence > journal.state.last_sequence {
            return Err(StartupRecoveryError::ReplicaAheadOfPrimary(gid));
        }
    }
    let options = match journal.state.current_options {
        Some(options) => options,
        None => return Err(StartupRecoveryError::MissingCurrentOptions(gid)),
    };
    let authority = find_authority_repair(&task, &journal, options, updated_ms);
    let terminal = match reconcile_terminal(gid, task.queue_state, journal.state.terminal, stopped) {
        Ok(terminal) => terminal,
        Err(error) => return Err(error),
    };
    let challenge = match reconcile_host_key(
        gid,
        task.queue_state,
        journal.state.terminal.is_some(),
        journal.state.paused,
        challenge,
    ) {
        Ok(challenge) => challenge,
        Err(error) => return Err(error),
    };
    let ended = terminal.is_some();
    let mut completion: Option<CompletionEvidence> = None;
    if let Some(terminal) = &terminal {
        completion = terminal.repair;
    }
    let mut no_space = RecoveredNoSpace { condition: None, target: None };
    let mut slow_slot: Option<SlowSlotPersistence> = None;
    let mut retry: Option<RecoveredDelayDecision> = None;
    if !ended {
        let own_retry = match task_retry(gid, journal.state.task, &journal.state.retry_states) {
            Ok(own_retry) => own_retry,
            Err(error) => return Err(error),
        };
        no_space = match recover_no_space(gid, task_id, journal.state.generation, task.no_space) {
            Ok(no_space) => no_space,
            Err(error) => return Err(error),
        };
        slow_slot = match recover_slow_slot(
            gid,
            task.queue_state,
            task.slow_slot,
            task.slow_demotion_count,
        ) {
            Ok(slow_slot) => slow_slot,
            Err(error) => return Err(error),
        };
        if slow_slot.is_some() && own_retry.is_some() {
            return Err(StartupRecoveryError::ConflictingDeadlines(gid));
        }
        retry = match recover_retry(gid, own_retry) {
            Ok(retry) => retry,
            Err(error) => return Err(error),
        };
    }
    let place = match normalize_task(
        gid,
        task.queue_state,
        task.desired_paused,
        journal.state.paused,
        terminal,
        challenge,
        slow_slot,
        retry,
    ) {
        Ok(place) => place,
        Err(error) => return Err(error),
    };
    let target_state = queue_state_for_class(place.queue);
    let change = QueueRepairCandidate {
        gid,
        expected_state: task.queue_state,
        target_state,
        desired_paused: task.desired_paused,
        slow_demotion_count: task.slow_demotion_count,
        updated_ms,
    };
    let mut queue_repair: Option<QueueRepairCandidate> = None;
    if !ended && target_state != task.queue_state {
        queue_repair = Some(change);
    }
    let mut terminal_repair: Option<TerminalRepairCandidate> = None;
    if let Some(evidence) = completion {
        let latest = if updated_ms >= evidence.completed_ms {
            updated_ms
        } else {
            evidence.completed_ms
        };
        terminal_repair = Some(
            TerminalRepairCandidate {
                evidence,
                change: QueueRepairCandidate {
                    gid,
                    expected_state: task.queue_state,
                    target_state: SessionQueueState::Stopped,
                    desired_paused: false,
                    slow_demotion_count: task.slow_demotion_count,
                    updated_ms: latest,
                },
            },
        );
    }
    let member = QueueMembership {
        gid,
        class: place.queue,
        source: task.queue_state,
        position: task.queue_position,
    };
    let mut deferred_install: Option<DeferredJournalInstallRecovery> = None;
    let mut opens = true;
    if let Some(intent) = install {
        opens = intent.phase != JournalInstallPhase::Installing;
        deferred_install = Some(
            DeferredJournalInstallRecovery {
                task_id,
                intent,
                authoritative_journal_id: journal.journal_id,
                authoritative_last_sequence: journal.state.last_sequence,
                authoritative_checkpoint: journal.state.checkpoint,
            },
        );
    }
    let mut appender: Option<DeferredAppenderRecovery> = None;
    if opens {
        let replica = match (task.replica_journal_path, task.replica_sequence) {
            (Some(path), Some(sequence)) => Some(
                DeferredReplicaRecovery { path, copied_through_sequence: sequence },
            ),
            _ => None,
        };
        appender = Some(
            DeferredAppenderRecovery {
                task_id,
                gid,
                journal_id: journal.journal_id,
                primary_path: task.primary_journal_path,
                replica,
                expected_last_sequence: journal.state.last_sequence,
            },
        );
    }
    let budget = match retry {
        Some(decision) => Some(decision.budget_elapsed_ms),
        None => None,
    };
    let plan = TaskPlan {
        scheduler: RecoveredSchedulerTask {
            task_id,
            gid,
            state: place.state,
            generation: journal.state.generation,
            generation_started: true,
            desired_paused: task.desired_paused,
            conditions: TaskConditions {
                needs_credentials: requirement,
                no_space: no_space.condition,
            },
            slow_demotion_count: task.slow_demotion_count,
            slow_slot: place.slow_slot,
            retry_at: place.retry_at,
            host_key_challenge: place.challenge,
            error: place.error,
            stopped_status: place.stopped_status,
        },
        engine: RecoveredEngineTask {
            task_id,
            gid,
            journal_id: journal.journal_id,
            journal: journal.state,
            recovered_retry_budget_elapsed_ms: budget,
        },
        authority,
        appender,
        install: deferred_install,
        target: no_space.target,
        member,
        queue_repair,
        terminal_repair,
    };
    Ok(plan)
}

} // verus!
