//! Plain records of the persisted session and of recovered journals.
use vstd::prelude::*;

verus! {

/// Public task identifier.
#[derive(Clone, Copy, Debug, PartialEq, Eq, PartialOrd, Ord, Hash, Structural)]
pub struct Gid(pub u64);

/// In-memory task identifier, fresh for each process.
#[derive(Clone, Copy, Debug, PartialEq, Eq, PartialOrd, Ord, Hash, Structural)]
pub struct TaskId(pub u64);

/// Attempt number of one task.
#[derive(Clone, Copy, Debug, PartialEq, Eq, PartialOrd, Ord, Hash, Structural)]
pub struct Generation(pub u64);

/// Identity of one no-space probe.
#[derive(Clone, Copy, Debug, PartialEq, Eq, PartialOrd, Ord, Hash, Structural)]
pub struct NoSpaceProbeId(pub u64);

/// Identity of one source URI within a task.
#[derive(Clone, Copy, Debug, PartialEq, Eq, PartialOrd, Ord, Hash, Structural)]
pub struct UriId(pub u32);

/// A reading of the monotonic clock, in nanoseconds.
#[derive(Clone, Copy, Debug, PartialEq, Eq, PartialOrd, Ord, Hash, Structural)]
pub struct MonotonicInstant(pub u64);

/// Identity of one journal.
#[derive(Clone, Copy, Debug, PartialEq, Eq, PartialOrd, Ord, Hash, Structural)]
pub struct JournalId(pub u128);

/// Identity of one journal checkpoint.
#[derive(Clone, Copy, Debug, PartialEq, Eq, PartialOrd, Ord, Hash, Structural)]
pub struct CheckpointId(pub u128);

/// Identity of one session database.
#[derive(Clone, Copy, Debug, PartialEq, Eq, PartialOrd, Ord, Hash, Structural)]
pub struct SessionId(pub u128);

/// Identity of one host-key challenge.
#[derive(Clone, Copy, Debug, PartialEq, Eq, PartialOrd, Ord, Hash, Structural)]
pub struct HostKeyChallengeId(pub u128);

/// A 256-bit hash as two words.
#[derive(Clone, Copy, Debug, PartialEq, Eq, PartialOrd, Ord, Hash, Structural)]
pub struct JournalHash {
    pub high: u128,
    pub low: u128,
}

/// A native path in a lossless text form.
#[derive(Debug, PartialEq, Eq)]
pub struct PlatformPath {
    pub text: String,
}

impl Clone for PlatformPath {
    fn clone(&self) -> (copy: Self)
        ensures
            copy == *self,
    {
        PlatformPath { text: self.text.clone() }
    }
}

impl PlatformPath {
    /// Whether two paths are the same text.
    pub fn same(&self, other: &PlatformPath) -> (r: bool)
        ensures
            r == (self.text@ == other.text@),
    {
        self.text == other.text
    }
}

/// The persisted queue of a task.
#[derive(Clone, Copy, Debug, PartialEq, Eq, Structural)]
pub enum SessionQueueState {
    Waiting,
    Active,
    Paused,
    Stopped,
    Demoted,
}

/// The scheduler queue of a task.
#[derive(Clone, Copy, Debug, PartialEq, Eq, Structural)]
pub enum QueueClass {
    Waiting,
    Demoted,
    Paused,
    Active,
    Stopped,
}

/// Scheduler lifecycle states that a restored task can take.
#[derive(Clone, Copy, Debug, PartialEq, Eq, Structural)]
pub enum TaskState {
    Waiting,
    WaitingSlow,
    RetryWait,
    Paused,
    PausedSlow,
    PausedHostKey,
    StoppedResult,
}

/// Outward task status.
#[derive(Clone, Copy, Debug, PartialEq, Eq, Structural)]
pub enum Aria2Status {
    Active,
    Waiting,
    Paused,
    Complete,
    Error,
    Removed,
}

/// How a task ended, as persisted.
#[derive(Clone, Copy, Debug, PartialEq, Eq, Structural)]
pub enum SessionTerminalStatus {
    Complete,
    Error,
    Removed,
}

/// Error classes that cross the persistence boundary.
#[derive(Clone, Copy, Debug, PartialEq, Eq, Structural)]
pub enum ErrorKind {
    Network,
    Timeout,
    Cancelled,
    ResourceLimit,
    Permission,
    NeedsCredentials,
    HostKeyApprovalRequired,
    StaleValidator,
    Other(u16),
}

/// Whether and how a failure may be retried.
#[derive(Clone, Copy, Debug, PartialEq, Eq, Structural)]
pub enum RetryClass {
    Never,
    AnotherSource,
    UserAction,
}

/// A reportable error.
#[derive(Clone, Debug, PartialEq, Eq)]
pub struct PublicError {
    pub kind: ErrorKind,
    pub message: String,
    pub retry: RetryClass,
    pub diagnostic_id: Option<u64>,
}

/// Why a journal recorded a pause.
#[derive(Clone, Copy, Debug, PartialEq, Eq, Structural)]
pub enum TaskPauseReason {
    User,
    SlowSlot,
    HostKeyApproval,
    Other,
}

/// The owner of a persisted retry decision.
#[derive(Clone, Copy, Debug, PartialEq, Eq, Structural)]
pub enum RetryScope {
    Task,
    Source,
    Other,
}

/// Why a persisted delay cannot be turned into a deadline.
#[derive(Clone, Copy, Debug, PartialEq, Eq, Structural)]
pub enum PersistedDelayError {
    ZeroDelay,
    Rejected(u8),
}

/// Why a persisted host-key challenge is not a valid presentation.
#[derive(Clone, Copy, Debug, PartialEq, Eq, Structural)]
pub struct PresentedHostKeyChallengeError {
    pub code: u8,
}

/// A persisted delay brought onto the monotonic clock of this process.
#[derive(Clone, Copy, Debug, PartialEq, Eq, Structural)]
pub struct RecoveredDelayDecision {
    pub deadline: MonotonicInstant,
    pub expired: bool,
    /// Retry budget spent when the wait began plus what passed since.
    pub budget_elapsed_ms: u64,
}

/// The outcome of recovering one persisted delay.
#[derive(Clone, Copy, Debug, PartialEq, Eq, Structural)]
pub enum DelayRecovery {
    Valid(RecoveredDelayDecision),
    Invalid(PersistedDelayError),
}

/// A persisted wait and its recovery.
#[derive(Clone, Copy, Debug, PartialEq, Eq, Structural)]
pub struct PersistedDelay {
    pub scheduled_at_ms: u64,
    pub delay_ms: u64,
    pub recovery: DelayRecovery,
}

/// A persisted out-of-space wait.
#[derive(Clone, Debug, PartialEq, Eq)]
pub struct SessionNoSpaceCondition {
    pub target: PlatformPath,
    pub delay: PersistedDelay,
}

/// A persisted slow-slot demotion.
#[derive(Clone, Copy, Debug, PartialEq, Eq, Structural)]
pub struct SessionSlowSlotState {
    pub original_position: u32,
    pub retry: Option<PersistedDelay>,
}

/// One persisted task row.
#[derive(Clone, Debug, PartialEq, Eq)]
pub struct SessionTaskRecord {
    pub gid: Gid,
    pub session_id: SessionId,
    pub queue_state: SessionQueueState,
    pub queue_position: u32,
    pub desired_paused: bool,
    pub slow_demotion_count: u32,
    pub slow_slot: Option<SessionSlowSlotState>,
    pub primary_journal_id: JournalId,
    pub primary_journal_path: PlatformPath,
    pub replica_journal_path: Option<PlatformPath>,
    pub replica_sequence: Option<u64>,
    pub root_display: PlatformPath,
    pub cached_layout_hash: Option<JournalHash>,
    pub cached_root_binding_hash: Option<JournalHash>,
    pub cached_snapshot_hash: JournalHash,
    pub no_space: Option<SessionNoSpaceCondition>,
    pub updated_ms: u64,
}

/// One persisted session row.
#[derive(Clone, Copy, Debug, PartialEq, Eq, Structural)]
pub struct SessionRecord {
    pub session_id: SessionId,
    pub created_ms: u64,
    pub updated_ms: u64,
    pub clean_shutdown: bool,
}

/// One persisted source of a task.
#[derive(Clone, Debug, PartialEq, Eq)]
pub struct SessionTaskSourceRecord {
    pub uri_id: u32,
    pub persistence_safe_uri: Option<String>,
    pub redacted_fingerprint: JournalHash,
    pub needs_credentials: bool,
    pub priority: i64,
}

/// All persisted sources of one task.
#[derive(Clone, Debug, PartialEq, Eq)]
pub struct SessionTaskSourceSet {
    pub gid: Gid,
    pub sources: Vec<SessionTaskSourceRecord>,
}

/// One persisted stopped result.
#[derive(Clone, Debug, PartialEq, Eq)]
pub struct SessionStoppedResultRecord {
    pub gid: Gid,
    pub status: SessionTerminalStatus,
    pub error_kind: Option<ErrorKind>,
    pub safe_message: String,
    pub total_length: Option<u64>,
    pub layout_hash: Option<JournalHash>,
    pub completed_ms: u64,
}

/// One persisted host-key challenge; `fault` is set where it is not a valid presentation.
#[derive(Clone, Debug, PartialEq, Eq)]
pub struct SessionHostKeyChallengeRecord {
    pub gid: Gid,
    pub challenge_id: HostKeyChallengeId,
    pub canonical_host: String,
    pub port: u16,
    pub algorithm: String,
    pub presented_public_key: Vec<u8>,
    pub fingerprint_sha256: JournalHash,
    pub fault: Option<PresentedHostKeyChallengeError>,
}

/// A validated host-key challenge.
#[derive(Clone, Debug, PartialEq, Eq)]
pub struct PresentedHostKeyChallenge {
    pub id: HostKeyChallengeId,
    pub canonical_host: String,
    pub port: u16,
    pub algorithm: String,
    pub fingerprint_sha256: JournalHash,
    pub presented_public_key: Vec<u8>,
}

/// Progress of replacing one journal by a checkpointed successor.
#[derive(Clone, Copy, Debug, PartialEq, Eq, Structural)]
pub enum JournalInstallPhase {
    Installing,
    Installed,
}

/// One persisted journal replacement.
#[derive(Clone, Debug, PartialEq, Eq)]
pub struct JournalInstallIntent {
    pub gid: Gid,
    pub checkpoint_id: CheckpointId,
    pub old_journal_id: JournalId,
    pub old_path: PlatformPath,
    pub new_journal_id: JournalId,
    pub new_path: PlatformPath,
    pub source_last_sequence: u64,
    pub phase: JournalInstallPhase,
}

/// Everything the session store hands out at startup.
#[derive(Clone, Debug, PartialEq, Eq)]
pub struct SessionStartupSnapshot {
    pub session: Option<SessionRecord>,
    pub tasks: Vec<SessionTaskRecord>,
    pub task_sources: Vec<SessionTaskSourceSet>,
    pub stopped_results: Vec<SessionStoppedResultRecord>,
    pub host_key_challenges: Vec<SessionHostKeyChallengeRecord>,
    pub journal_installs: Vec<JournalInstallIntent>,
}

/// The committed file layout of a journal.
#[derive(Clone, Debug, PartialEq, Eq)]
pub struct RecoveredLayout {
    pub layout_hash: JournalHash,
    pub root_binding_hash: JournalHash,
    pub root_path: PlatformPath,
}

/// The terminal record of a journal.
#[derive(Clone, Copy, Debug, PartialEq, Eq, Structural)]
pub enum RecoveredTerminal {
    Complete { layout_hash: JournalHash, final_length: u64, completed_at_unix_ms: u64 },
    Error { error_class: ErrorKind, retriable: bool, diagnostic_id: u64 },
    Removed,
}

/// One retry decision of a journal.
#[derive(Clone, Copy, Debug, PartialEq, Eq, Structural)]
pub struct RecoveredRetryState {
    pub scope: RetryScope,
    pub scope_id: u64,
    pub delay: PersistedDelay,
}

/// The checkpoint that a journal starts from.
#[derive(Clone, Copy, Debug, PartialEq, Eq, Structural)]
pub struct RecoveredCheckpoint {
    pub checkpoint_id: CheckpointId,
    pub source_last_sequence: u64,
    pub end_sequence: u64,
    /// A digest of all else that the checkpoint records.
    pub envelope: JournalHash,
}

/// The replayed state of one journal.
#[derive(Clone, Debug, PartialEq, Eq)]
pub struct RecoveredJournalState {
    pub task: TaskId,
    pub generation: Generation,
    pub last_sequence: u64,
    pub current_options: Option<JournalHash>,
    pub layout: Option<RecoveredLayout>,
    pub terminal: Option<RecoveredTerminal>,
    pub paused: Option<TaskPauseReason>,
    pub retry_states: Vec<RecoveredRetryState>,
    pub checkpoint: Option<RecoveredCheckpoint>,
}

/// One journal whose structural and semantic replay already completed.
#[derive(Clone, Debug, PartialEq, Eq)]
pub struct RecoveredTaskJournal {
    pub gid: Gid,
    pub journal_id: JournalId,
    pub state: RecoveredJournalState,
}

/// Journal-owned values that the session store caches.
#[derive(Clone, Copy, Debug, PartialEq, Eq, Structural)]
pub struct SessionJournalCache {
    pub layout_hash: Option<JournalHash>,
    pub root_binding_hash: Option<JournalHash>,
    pub snapshot_hash: JournalHash,
}

/// The order of one persisted queue.
#[derive(Clone, Debug, PartialEq, Eq)]
pub struct SessionQueueOrder {
    pub state: SessionQueueState,
    pub gids: Vec<Gid>,
}

/// One transactional queue move in the session store. It ends any slow slot that
/// the task has.
#[derive(Clone, Debug, PartialEq, Eq)]
pub struct SessionQueueTransition {
    pub gid: Gid,
    pub expected_state: SessionQueueState,
    pub target_state: SessionQueueState,
    pub desired_paused: bool,
    pub slow_demotion_count: u32,
    pub final_orders: Vec<SessionQueueOrder>,
    pub updated_ms: u64,
}

/// The order of one scheduler queue.
#[derive(Clone, Debug, PartialEq, Eq)]
pub struct QueueOrder {
    pub class: QueueClass,
    pub order: Vec<Gid>,
}

/// What kind of credential a task waits for.
#[derive(Clone, Copy, Debug, PartialEq, Eq, Structural)]
pub enum CredentialKind {
    HttpAuthentication,
    FtpAuthentication,
    SftpAuthentication,
    SourceUri,
    ProxyAuthentication,
    PrivateKeyPassphrase,
}

/// A credential that must be supplied before a task can run.
#[derive(Clone, Debug, PartialEq, Eq)]
pub struct CredentialRequirement {
    pub kind: CredentialKind,
    pub source: Option<UriId>,
    pub safe_description: String,
}

/// An out-of-space condition on a restored task.
#[derive(Clone, Copy, Debug, PartialEq, Eq)]
pub struct NoSpaceCondition {
    pub redacted_path: &'static str,
    pub retry_at: Option<MonotonicInstant>,
}

/// Admission blockers on a restored task.
#[derive(Clone, Debug, PartialEq, Eq)]
pub struct TaskConditions {
    pub needs_credentials: Option<CredentialRequirement>,
    pub no_space: Option<NoSpaceCondition>,
}

/// When a demoted task may be readmitted.
#[derive(Clone, Copy, Debug, PartialEq, Eq, Structural)]
pub struct SlowReadmissionDecision {
    pub readmit_at: MonotonicInstant,
    pub scheduled_at_ms: u64,
    pub delay_ms: u64,
}

/// The slow-slot state of a restored task.
#[derive(Clone, Copy, Debug, PartialEq, Eq, Structural)]
pub struct SlowSlotPersistence {
    pub original_position: u32,
    pub demotion_count: u32,
    pub decision: SlowReadmissionDecision,
}

/// One task as handed to the scheduler.
#[derive(Clone, Debug, PartialEq, Eq)]
pub struct RecoveredSchedulerTask {
    pub task_id: TaskId,
    pub gid: Gid,
    pub state: TaskState,
    pub generation: Generation,
    pub generation_started: bool,
    pub desired_paused: bool,
    pub conditions: TaskConditions,
    pub slow_demotion_count: u32,
    pub slow_slot: Option<SlowSlotPersistence>,
    pub retry_at: Option<MonotonicInstant>,
    pub host_key_challenge: Option<PresentedHostKeyChallenge>,
    pub error: Option<PublicError>,
    pub stopped_status: Option<Aria2Status>,
}

/// The complete scheduler input.
#[derive(Clone, Debug, PartialEq, Eq)]
pub struct SchedulerRestoreBatch {
    pub tasks: Vec<RecoveredSchedulerTask>,
    pub queues: Vec<QueueOrder>,
}

/// Where a no-space probe came from.
#[derive(Clone, Copy, Debug, PartialEq, Eq, Structural)]
pub enum NoSpaceProbeOrigin {
    AutomaticRetry,
    ExplicitResume,
}

} // verus!
