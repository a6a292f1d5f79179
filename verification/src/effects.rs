//! Scheduler effects and the events that answer them.
use vstd::prelude::*;
use crate::session::{
    CredentialKind, Generation, Gid, MonotonicInstant, NoSpaceProbeId, NoSpaceProbeOrigin, PresentedHostKeyChallenge,
    PublicError, TaskId, UriId,
};

verus! {

/// Identity of one option patch.
#[derive(Clone, Copy, Debug, PartialEq, Eq, Structural)]
pub struct OptionPatchId(pub u64);

/// Identity of one retry timer.
#[derive(Clone, Copy, Debug, PartialEq, Eq, Structural)]
pub struct RetryTimerId(pub u64);

/// Identity of one slow readmission.
#[derive(Clone, Copy, Debug, PartialEq, Eq, Structural)]
pub struct SlowReadmissionId(pub u64);

/// Identity of one dispatched effect.
#[derive(Clone, Copy, Debug, PartialEq, Eq, Structural)]
pub struct EffectDispatchId(pub u64);

/// Which credential a patch supplies.
#[derive(Clone, Copy, Debug, PartialEq, Eq, Structural)]
pub struct CredentialRequirementKey {
    pub kind: CredentialKind,
    pub source: Option<UriId>,
}

/// One attempt of one task.
#[derive(Clone, Copy, Debug, PartialEq, Eq, Structural)]
pub struct RuntimeIdentity {
    pub task_id: TaskId,
    pub gid: Gid,
    pub generation: Generation,
}

/// A scheduler request to probe for free space.
#[derive(Clone, Copy, Debug, PartialEq, Eq, Structural)]
pub struct ProbeNoSpace {
    pub identity: RuntimeIdentity,
    pub probe_id: NoSpaceProbeId,
    pub origin: NoSpaceProbeOrigin,
    pub at: MonotonicInstant,
}

/// What a scheduler transition asks to be done.
#[derive(Clone, Copy, Debug, PartialEq, Eq, Structural)]
pub enum TransitionEffect {
    ApplyOptionPatch {
        task_id: TaskId,
        gid: Gid,
        patch_id: OptionPatchId,
        satisfies_credentials: Option<CredentialRequirementKey>,
    },
    StartAllocation { identity: RuntimeIdentity },
    CancelGeneration { identity: RuntimeIdentity, force: bool },
    ReleaseSlot,
    ScheduleRetry { identity: RuntimeIdentity, retry_timer_id: RetryTimerId, at: MonotonicInstant },
    CancelRetry { identity: RuntimeIdentity, retry_timer_id: RetryTimerId },
    ScheduleSlowReadmission {
        identity: RuntimeIdentity,
        readmission_id: SlowReadmissionId,
        at: MonotonicInstant,
    },
    CancelSlowReadmission { identity: RuntimeIdentity, readmission_id: SlowReadmissionId },
    ProbeNoSpace(ProbeNoSpace),
    PersistTask,
    PersistQueueTransition,
    StageOptionPatch,
    PersistGenerationStarted,
    PersistConditions,
    PersistHostKeyChallenge,
    PersistHostKeyPinAndClearChallenge,
    PersistHostKeyChallengeRejected,
    PersistTerminal,
    DeleteStoppedTaskMetadata,
    PublishSnapshot,
}

/// What happened to a task.
#[derive(Clone, Debug, PartialEq, Eq)]
pub enum TaskEvent {
    AllocationSucceeded { gid: Gid, generation: Generation },
    AllocationRetryable { gid: Gid, generation: Generation, retry_at: MonotonicInstant },
    AllocationHostKeyChallenge { gid: Gid, generation: Generation, challenge: PresentedHostKeyChallenge },
    AllocationFailed { gid: Gid, generation: Generation, error: PublicError },
    ActiveHostKeyChallenge { gid: Gid, generation: Generation, challenge: PresentedHostKeyChallenge },
    ActiveRetryIdle { gid: Gid, generation: Generation, retry_at: MonotonicInstant },
    ActiveRepresentationRestart { gid: Gid, generation: Generation },
    TerminalFailure { gid: Gid, generation: Generation, error: PublicError },
    DataComplete { gid: Gid, generation: Generation, seed: bool },
    VerificationSucceeded { gid: Gid, generation: Generation },
    VerificationRecoverable { gid: Gid, generation: Generation },
    VerificationFailed { gid: Gid, generation: Generation, error: PublicError },
    SeedingComplete { gid: Gid, generation: Generation },
    SeedingFailed { gid: Gid, generation: Generation, error: PublicError },
    CancellationDrained { gid: Gid, generation: Generation },
    NoSpaceProbeCompleted {
        gid: Gid,
        generation: Generation,
        probe_id: NoSpaceProbeId,
        origin: NoSpaceProbeOrigin,
        ready: bool,
        next_retry_at: Option<MonotonicInstant>,
    },
    RetryReady { gid: Gid, generation: Generation, retry_timer_id: RetryTimerId },
    SlowReadmit { gid: Gid, generation: Generation, readmission_id: SlowReadmissionId },
    OptionPatchApplied { gid: Gid, generation: Generation, patch_id: OptionPatchId },
    OptionPatchApplicationFailed {
        gid: Gid,
        generation: Generation,
        patch_id: OptionPatchId,
        error: PublicError,
    },
}

/// An event and the task it is for.
#[derive(Clone, Debug, PartialEq, Eq)]
pub struct TaskEventEnvelope {
    pub task_id: TaskId,
    pub event: TaskEvent,
}

/// An effect on its way to the runtime.
#[derive(Clone, Copy, Debug, PartialEq, Eq, Structural)]
pub struct DispatchedEffect {
    pub dispatch_id: EffectDispatchId,
    pub task_generation: Generation,
    pub effect: TransitionEffect,
}

/// The answer to a dispatched effect.
#[derive(Clone, Debug, PartialEq, Eq)]
pub enum EffectCompletion {
    Completed { dispatch_id: EffectDispatchId, acknowledgement: Option<TaskEventEnvelope> },
    UnrepresentableFailure { dispatch_id: EffectDispatchId },
}

/// Whether an effect was taken on.
#[derive(Clone, Copy, Debug, PartialEq, Eq, Structural)]
pub enum DispatchPoll {
    /// No room yet; the same effect has to be offered again.
    Pending,
    Accepted,
    Failed,
    Closed,
}

} // verus!
