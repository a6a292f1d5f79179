//! Which journals native startup accepts.
use vstd::prelude::*;
use crate::session::{Gid, JournalId, JournalInstallPhase, PlatformPath, RecoveredCheckpoint, TaskId};
use crate::startup::{DeferredAppenderRecovery, DeferredJournalInstallRecovery};
use crate::text::{decimal_digits, decimal_text};

verus! {

/// Why a directory cannot be used.
#[derive(Clone, Copy, Debug, PartialEq, Eq, Structural)]
pub enum NativeCapabilityError {
    OutsideAllowedRoot,
    TooManyAllowedRoots,
    /// Any other failure, under a code of its own.
    Other { code: u16 },
}

/// Why a journal cannot be opened, under a code of its own.
#[derive(Clone, Copy, Debug, PartialEq, Eq, Structural)]
pub struct JournalAppenderError {
    pub code: u16,
}

/// Where the replay of a journal's records stopped.
#[derive(Clone, Copy, Debug, PartialEq, Eq, Structural)]
pub enum JournalStateStop {
    CleanEnd,
    /// Before the end, under a code of its own.
    Other { code: u16 },
}

#[derive(Clone, Copy, Debug, PartialEq, Eq, Structural)]
pub enum NativeFilesystemError {
    Capability(NativeCapabilityError),
    Journal(JournalAppenderError),
    MissingRootBinding,
    UnsupportedJournalLocation,
    DirectoryIdentityChanged,
    SequenceMismatch { expected: u64, actual: u64 },
    CheckpointMismatch,
    SemanticReplay(JournalStateStop),
}

impl NativeFilesystemError {
    /// The code of an error.
    pub open spec fn spec_code(self) -> Seq<char> {
        match self {
            NativeFilesystemError::Capability(_) => "capability"@,
            NativeFilesystemError::Journal(_) => "journal"@,
            NativeFilesystemError::MissingRootBinding => "missing_root_binding"@,
            NativeFilesystemError::UnsupportedJournalLocation => "unsupported_journal_location"@,
            NativeFilesystemError::DirectoryIdentityChanged => "directory_identity_changed"@,
            NativeFilesystemError::SequenceMismatch { .. } => "sequence_mismatch"@,
            NativeFilesystemError::CheckpointMismatch => "checkpoint_mismatch"@,
            NativeFilesystemError::SemanticReplay(_) => "semantic_replay"@,
        }
    }

    pub fn code(&self) -> (r: &'static str)
        ensures
            r@ == self.spec_code(),
    {
        match self {
            NativeFilesystemError::Capability(_) => "capability",
            NativeFilesystemError::Journal(_) => "journal",
            NativeFilesystemError::MissingRootBinding => "missing_root_binding",
            NativeFilesystemError::UnsupportedJournalLocation => "unsupported_journal_location",
            NativeFilesystemError::DirectoryIdentityChanged => "directory_identity_changed",
            NativeFilesystemError::SequenceMismatch { .. } => "sequence_mismatch",
            NativeFilesystemError::CheckpointMismatch => "checkpoint_mismatch",
            NativeFilesystemError::SemanticReplay(_) => "semantic_replay",
        }
    }

    /// The text of an error; `detail` is the text of the failure that it passes
    /// on, or of the place where a replay stopped.
    pub fn message(&self, detail: &str) -> (r: String)
        ensures
            r@ == (match *self {
                NativeFilesystemError::Capability(_) | NativeFilesystemError::Journal(_) => detail@,
                NativeFilesystemError::MissingRootBinding => {
                    "recovered layout is missing its native root binding"@
                },
                NativeFilesystemError::UnsupportedJournalLocation => {
                    "native startup supports only central journal sets"@
                },
                NativeFilesystemError::DirectoryIdentityChanged => {
                    "journal directory identity changed during recovery"@
                },
                NativeFilesystemError::SequenceMismatch { expected, actual } => "journal sequence "@
                    + decimal_digits(actual as nat) + " does not match expected sequence "@ + decimal_digits(
                    expected as nat,
                ),
                NativeFilesystemError::CheckpointMismatch => {
                    "journal checkpoint does not match its install intent"@
                },
                NativeFilesystemError::SemanticReplay(_) => "journal semantic replay stopped at "@ + detail@,
            }),
    {
        match *self {
            NativeFilesystemError::Capability(_) | NativeFilesystemError::Journal(_) => detail.to_owned(),
            NativeFilesystemError::MissingRootBinding => {
                "recovered layout is missing its native root binding".to_owned()
            },
            NativeFilesystemError::UnsupportedJournalLocation => {
                "native startup supports only central journal sets".to_owned()
            },
            NativeFilesystemError::DirectoryIdentityChanged => {
                "journal directory identity changed during recovery".to_owned()
            },
            NativeFilesystemError::SequenceMismatch { expected, actual } => {
                let mut r = "journal sequence ".to_owned();
                r.append(decimal_text(actual).as_str());
                r.append(" does not match expected sequence ");
                r.append(decimal_text(expected).as_str());
                r
            },
            NativeFilesystemError::CheckpointMismatch => {
                "journal checkpoint does not match its install intent".to_owned()
            },
            NativeFilesystemError::SemanticReplay(_) => {
                let mut r = "journal semantic replay stopped at ".to_owned();
                r.append(detail);
                r
            },
        }
    }
}

/// What opening and replaying a set of journals found.
#[derive(Clone, Copy, Debug, PartialEq, Eq, Structural)]
pub struct PreparedJournal {
    /// Whether the directory is still the one that was opened first.
    pub same_directory: bool,
    pub last_sequence: u64,
    pub records: usize,
    pub accepted_records: usize,
    pub stop: JournalStateStop,
    pub checkpoint: Option<RecoveredCheckpoint>,
}

/// Whether every record was replayed, to the end.
pub open spec fn replayed(prepared: PreparedJournal) -> bool {
    prepared.accepted_records == prepared.records && prepared.stop is CleanEnd
}

/// What is wrong with a set of journals whose last sequence may be known.
pub open spec fn set_fault(prepared: PreparedJournal, expected: Option<u64>) -> Option<NativeFilesystemError> {
    if !prepared.same_directory {
        Some(NativeFilesystemError::DirectoryIdentityChanged)
    } else if expected is Some && expected->0 != prepared.last_sequence {
        Some(NativeFilesystemError::SequenceMismatch { expected: expected->0, actual: prepared.last_sequence })
    } else if !replayed(prepared) {
        Some(NativeFilesystemError::SemanticReplay(prepared.stop))
    } else {
        None
    }
}

/// A set of journals that was opened, unless something is wrong with it.
pub open spec fn set_checked(
    opened: Result<PreparedJournal, NativeFilesystemError>,
    expected: Option<u64>,
) -> Result<PreparedJournal, NativeFilesystemError> {
    match opened {
        Err(error) => Err(error),
        Ok(prepared) => match set_fault(prepared, expected) {
            Some(error) => Err(error),
            None => Ok(prepared),
        },
    }
}

/// A set of journals that was opened, unless something is wrong with it.
pub fn prepare_set(opened: Result<PreparedJournal, NativeFilesystemError>, expected: Option<u64>) -> (r: Result<
    PreparedJournal,
    NativeFilesystemError,
>)
    ensures
        r == set_checked(opened, expected),
{
    let prepared = match opened {
        Ok(prepared) => prepared,
        Err(error) => return Err(error),
    };
    if !prepared.same_directory {
        return Err(NativeFilesystemError::DirectoryIdentityChanged);
    }
    match expected {
        Some(expected) => {
            if prepared.last_sequence != expected {
                return Err(NativeFilesystemError::SequenceMismatch { expected, actual: prepared.last_sequence });
            }
        },
        None => {},
    }
    if prepared.accepted_records != prepared.records || !matches!(prepared.stop, JournalStateStop::CleanEnd) {
        return Err(NativeFilesystemError::SemanticReplay(prepared.stop));
    }
    Ok(prepared)
}

/// Whether a request contradicts its own intent.
pub open spec fn request_conflicts(request: DeferredJournalInstallRecovery) -> bool {
    match request.intent.phase {
        JournalInstallPhase::Installing => request.authoritative_journal_id != request.intent.old_journal_id
            || request.authoritative_last_sequence > request.intent.source_last_sequence,
        JournalInstallPhase::Installed => request.authoritative_journal_id != request.intent.new_journal_id,
    }
}

/// Whether a checkpoint is the one that a request installs.
pub open spec fn checkpoint_fits(
    request: DeferredJournalInstallRecovery,
    checkpoint: RecoveredCheckpoint,
    last_sequence: u64,
) -> bool {
    &&& checkpoint.checkpoint_id == request.intent.checkpoint_id
    &&& checkpoint.source_last_sequence == request.intent.source_last_sequence
    &&& checkpoint.end_sequence <= last_sequence
    &&& request.intent.phase is Installed ==> request.authoritative_checkpoint == Some(checkpoint)
}

/// What is wrong with a candidate.
pub open spec fn candidate_fault(
    request: DeferredJournalInstallRecovery,
    prepared: PreparedJournal,
) -> Option<NativeFilesystemError> {
    if request_conflicts(request) {
        Some(NativeFilesystemError::CheckpointMismatch)
    } else if !replayed(prepared) {
        Some(NativeFilesystemError::SemanticReplay(prepared.stop))
    } else if prepared.checkpoint is None || !checkpoint_fits(
        request,
        prepared.checkpoint->0,
        prepared.last_sequence,
    ) {
        Some(NativeFilesystemError::CheckpointMismatch)
    } else {
        None
    }
}

/// Whether a set of journals is the one that a request installs.
pub fn candidate_is_acceptable(request: &DeferredJournalInstallRecovery, prepared: &PreparedJournal) -> (r: Result<
    (),
    NativeFilesystemError,
>)
    ensures
        match candidate_fault(*request, *prepared) {
            Some(error) => r == Err::<(), NativeFilesystemError>(error),
            None => r is Ok,
        },
{
    let installed = match request.intent.phase {
        JournalInstallPhase::Installing => {
            if request.authoritative_journal_id != request.intent.old_journal_id
                || request.authoritative_last_sequence > request.intent.source_last_sequence {
                return Err(NativeFilesystemError::CheckpointMismatch);
            }
            false
        },
        JournalInstallPhase::Installed => {
            if request.authoritative_journal_id != request.intent.new_journal_id {
                return Err(NativeFilesystemError::CheckpointMismatch);
            }
            true
        },
    };
    if prepared.accepted_records != prepared.records || !matches!(prepared.stop, JournalStateStop::CleanEnd) {
        return Err(NativeFilesystemError::SemanticReplay(prepared.stop));
    }
    let checkpoint = match prepared.checkpoint {
        Some(checkpoint) => checkpoint,
        None => return Err(NativeFilesystemError::CheckpointMismatch),
    };
    let known = match request.authoritative_checkpoint {
        Some(known) => known == checkpoint,
        None => false,
    };
    if checkpoint.checkpoint_id != request.intent.checkpoint_id || checkpoint.source_last_sequence
        != request.intent.source_last_sequence || checkpoint.end_sequence > prepared.last_sequence || (installed
        && !known) {
        return Err(NativeFilesystemError::CheckpointMismatch);
    }
    Ok(())
}

/// What became of an install.
#[derive(Clone, Copy, Debug, PartialEq, Eq, Structural)]
pub enum NativeInstallOutcome {
    AcceptedCandidate(PreparedJournal),
    RejectedCandidate(PreparedJournal),
    ValidatedInstalled(PreparedJournal),
}

/// What recovering an install waits for.
#[derive(Clone, Copy, Debug, PartialEq, Eq, Structural)]
pub enum InstallStage {
    /// The candidate is being opened.
    Candidate,
    /// The candidate's segments are being removed.
    Cleanup,
    /// The old set is being opened.
    Old,
    /// The installed set is being opened.
    Installed,
    Ended,
}

/// What came of the last action.
#[derive(Clone, Copy, Debug, PartialEq, Eq)]
pub enum InstallEvent {
    Opened(Result<PreparedJournal, NativeFilesystemError>),
    Cleaned(Result<(), NativeFilesystemError>),
}

/// What recovering an install does next.
#[derive(Clone, Copy, Debug, PartialEq, Eq, Structural)]
pub enum InstallAction {
    /// The journals under the intent's new path are opened.
    OpenNew,
    /// The owned segments under the intent's new path are removed.
    CleanNew,
    /// The journals under the intent's old path are opened.
    OpenOld,
    Finish(NativeInstallOutcome),
    Fail(NativeFilesystemError),
}

/// The first stage and action of recovering an install.
pub open spec fn install_start(request: DeferredJournalInstallRecovery) -> (InstallStage, InstallAction) {
    match request.intent.phase {
        JournalInstallPhase::Installing => (InstallStage::Candidate, InstallAction::OpenNew),
        JournalInstallPhase::Installed => (InstallStage::Installed, InstallAction::OpenNew),
    }
}

/// The next stage and action of recovering an install. A candidate that cannot be
/// opened or is not acceptable is removed before the old set takes its place; an
/// installed set has to be acceptable.
pub open spec fn install_step(
    request: DeferredJournalInstallRecovery,
    stage: InstallStage,
    event: InstallEvent,
) -> (InstallStage, InstallAction) {
    let last = Some(request.authoritative_last_sequence);
    match (stage, event) {
        (InstallStage::Candidate, InstallEvent::Opened(opened)) => match set_checked(opened, None) {
            Ok(prepared) => if candidate_fault(request, prepared) is None {
                (InstallStage::Ended, InstallAction::Finish(NativeInstallOutcome::AcceptedCandidate(prepared)))
            } else {
                (InstallStage::Cleanup, InstallAction::CleanNew)
            },
            Err(_) => (InstallStage::Cleanup, InstallAction::CleanNew),
        },
        (InstallStage::Cleanup, InstallEvent::Cleaned(cleaned)) => match cleaned {
            Ok(_) => (InstallStage::Old, InstallAction::OpenOld),
            Err(error) => (InstallStage::Ended, InstallAction::Fail(error)),
        },
        (InstallStage::Old, InstallEvent::Opened(opened)) => match set_checked(opened, last) {
            Ok(prepared) => (
                InstallStage::Ended,
                InstallAction::Finish(NativeInstallOutcome::RejectedCandidate(prepared)),
            ),
            Err(error) => (InstallStage::Ended, InstallAction::Fail(error)),
        },
        (InstallStage::Installed, InstallEvent::Opened(opened)) => match set_checked(opened, last) {
            Ok(prepared) => match candidate_fault(request, prepared) {
                None => (
                    InstallStage::Ended,
                    InstallAction::Finish(NativeInstallOutcome::ValidatedInstalled(prepared)),
                ),
                Some(error) => (InstallStage::Ended, InstallAction::Fail(error)),
            },
            Err(error) => (InstallStage::Ended, InstallAction::Fail(error)),
        },
        _ => (InstallStage::Ended, InstallAction::Fail(NativeFilesystemError::CheckpointMismatch)),
    }
}

/// The recovery of an install.
#[derive(Clone, Copy, Debug, PartialEq, Eq, Structural)]
pub struct JournalInstallRecovery {
    pub stage: InstallStage,
}

impl JournalInstallRecovery {
    /// Starts the recovery of an install.
    pub fn recover_journal_install(request: &DeferredJournalInstallRecovery) -> (r: (Self, InstallAction))
        ensures
            (r.0.stage, r.1) == install_start(*request),
    {
        match request.intent.phase {
            JournalInstallPhase::Installing => (
                JournalInstallRecovery { stage: InstallStage::Candidate },
                InstallAction::OpenNew,
            ),
            JournalInstallPhase::Installed => (
                JournalInstallRecovery { stage: InstallStage::Installed },
                InstallAction::OpenNew,
            ),
        }
    }

    /// Takes the recovery one step on.
    pub fn step(&mut self, request: &DeferredJournalInstallRecovery, event: InstallEvent) -> (r: InstallAction)
        ensures
            (final(self).stage, r) == install_step(*request, old(self).stage, event),
    {
        let (stage, action) = match (self.stage, event) {
            (InstallStage::Candidate, InstallEvent::Opened(opened)) => match prepare_set(opened, None) {
                Ok(prepared) => {
                    if candidate_is_acceptable(request, &prepared).is_ok() {
                        (
                            InstallStage::Ended,
                            InstallAction::Finish(NativeInstallOutcome::AcceptedCandidate(prepared)),
                        )
                    } else {
                        (InstallStage::Cleanup, InstallAction::CleanNew)
                    }
                },
                Err(_) => (InstallStage::Cleanup, InstallAction::CleanNew),
            },
            (InstallStage::Cleanup, InstallEvent::Cleaned(cleaned)) => match cleaned {
                Ok(_) => (InstallStage::Old, InstallAction::OpenOld),
                Err(error) => (InstallStage::Ended, InstallAction::Fail(error)),
            },
            (InstallStage::Old, InstallEvent::Opened(opened)) => {
                match prepare_set(opened, Some(request.authoritative_last_sequence)) {
                    Ok(prepared) => (
                        InstallStage::Ended,
                        InstallAction::Finish(NativeInstallOutcome::RejectedCandidate(prepared)),
                    ),
                    Err(error) => (InstallStage::Ended, InstallAction::Fail(error)),
                }
            },
            (InstallStage::Installed, InstallEvent::Opened(opened)) => {
                match prepare_set(opened, Some(request.authoritative_last_sequence)) {
                    Ok(prepared) => match candidate_is_acceptable(request, &prepared) {
                        Ok(_) => (
                            InstallStage::Ended,
                            InstallAction::Finish(NativeInstallOutcome::ValidatedInstalled(prepared)),
                        ),
                        Err(error) => (InstallStage::Ended, InstallAction::Fail(error)),
                    },
                    Err(error) => (InstallStage::Ended, InstallAction::Fail(error)),
                }
            },
            _ => (InstallStage::Ended, InstallAction::Fail(NativeFilesystemError::CheckpointMismatch)),
        };
        self.stage = stage;
        action
    }
}

/// A set of journals that is to be opened.
#[derive(Debug, PartialEq, Eq)]
pub struct JournalOpening<'a> {
    pub path: &'a PlatformPath,
    pub task_id: TaskId,
    pub gid: Gid,
    pub journal_id: JournalId,
    pub expected_last_sequence: Option<u64>,
}

/// The set that an action of an install's recovery opens.
pub open spec fn opening_of(request: DeferredJournalInstallRecovery, stage: InstallStage) -> Option<
    (PlatformPath, JournalId, Option<u64>),
> {
    match stage {
        InstallStage::Candidate => Some((request.intent.new_path, request.intent.new_journal_id, None)),
        InstallStage::Installed => Some(
            (request.intent.new_path, request.intent.new_journal_id, Some(request.authoritative_last_sequence)),
        ),
        InstallStage::Old => Some(
            (request.intent.old_path, request.intent.old_journal_id, Some(request.authoritative_last_sequence)),
        ),
        _ => None,
    }
}

/// The set that an action of an install's recovery opens.
pub fn install_opening<'a>(request: &'a DeferredJournalInstallRecovery, stage: InstallStage) -> (r: Option<
    JournalOpening<'a>,
>)
    ensures
        match opening_of(*request, stage) {
            None => r is None,
            Some((path, journal_id, expected)) => r == Some(
                JournalOpening {
                    path: &path,
                    task_id: request.task_id,
                    gid: request.intent.gid,
                    journal_id,
                    expected_last_sequence: expected,
                },
            ),
        },
{
    let (path, journal_id, expected_last_sequence) = match stage {
        InstallStage::Candidate => (&request.intent.new_path, request.intent.new_journal_id, None),
        InstallStage::Installed => (
            &request.intent.new_path,
            request.intent.new_journal_id,
            Some(request.authoritative_last_sequence),
        ),
        InstallStage::Old => (
            &request.intent.old_path,
            request.intent.old_journal_id,
            Some(request.authoritative_last_sequence),
        ),
        _ => return None,
    };
    Some(
        JournalOpening {
            path,
            task_id: request.task_id,
            gid: request.intent.gid,
            journal_id,
            expected_last_sequence,
        },
    )
}

/// The set that is opened for a recovered journal; only central sets are
/// supported.
pub fn prepare_recovered_journal<'a>(request: &'a DeferredAppenderRecovery) -> (r: Result<
    JournalOpening<'a>,
    NativeFilesystemError,
>)
    ensures
        r == (if request.replica is Some {
            Err::<JournalOpening<'a>, NativeFilesystemError>(NativeFilesystemError::UnsupportedJournalLocation)
        } else {
            Ok(
                JournalOpening {
                    path: &request.primary_path,
                    task_id: request.task_id,
                    gid: request.gid,
                    journal_id: request.journal_id,
                    expected_last_sequence: Some(request.expected_last_sequence),
                },
            )
        }),
{
    if request.replica.is_some() {
        return Err(NativeFilesystemError::UnsupportedJournalLocation);
    }
    Ok(
        JournalOpening {
            path: &request.primary_path,
            task_id: request.task_id,
            gid: request.gid,
            journal_id: request.journal_id,
            expected_last_sequence: Some(request.expected_last_sequence),
        },
    )
}

/// How many entries a directory of journals may hold when its segments are
/// removed.
pub fn retired_entries(max_segments: usize) -> (r: usize)
    ensures
        r == (if 2 * max_segments > usize::MAX {
            usize::MAX as int
        } else {
            2 * max_segments
        }),
{
    match max_segments.checked_mul(2) {
        Some(entries) => entries,
        None => usize::MAX,
    }
}

/// Whether so many output roots may be allowed.
pub fn check_allowed_roots(count: usize, most: usize) -> (r: Result<(), NativeFilesystemError>)
    ensures
        r == (if count > most {
            Err::<(), NativeFilesystemError>(
                NativeFilesystemError::Capability(NativeCapabilityError::TooManyAllowedRoots),
            )
        } else {
            Ok(())
        }),
{
    if count > most {
        return Err(NativeFilesystemError::Capability(NativeCapabilityError::TooManyAllowedRoots));
    }
    Ok(())
}

/// The stage and last action of an install's recovery after a run of events.
pub open spec fn install_run(request: DeferredJournalInstallRecovery, events: Seq<InstallEvent>) -> (
    InstallStage,
    InstallAction,
)
    decreases events.len(),
{
    if events.len() == 0 {
        install_start(request)
    } else {
        install_step(request, install_run(request, events.drop_last()).0, events.last())
    }
}

/// The old set takes the place of a candidate only after the candidate's segments
/// have been removed.
pub proof fn law_candidates_are_removed_before_the_fallback(
    request: DeferredJournalInstallRecovery,
    events: Seq<InstallEvent>,
)
    requires
        install_run(request, events).1 is OpenOld,
    ensures
        events.len() == 2,
        events[1] is Cleaned && events[1]->Cleaned_0 is Ok,
        install_run(request, events.take(1)).1 is CleanNew,
{
    lemma_install_course(request, events);
    assert(events.drop_last() =~= events.take(1));
}

proof fn lemma_install_course(request: DeferredJournalInstallRecovery, events: Seq<InstallEvent>)
    ensures
        ({
            let (stage, action) = install_run(request, events);
            &&& stage is Candidate || stage is Installed ==> events.len() == 0
            &&& stage is Cleanup <==> action is CleanNew
            &&& stage is Cleanup ==> events.len() == 1
            &&& stage is Old <==> action is OpenOld
            &&& stage is Old ==> events.len() == 2 && events[1] is Cleaned && events[1]->Cleaned_0 is Ok && install_run(
                request,
                events.drop_last(),
            ).1 is CleanNew
        }),
    decreases events.len(),
{
    if events.len() > 0 {
        lemma_install_course(request, events.drop_last());
    }
}

/// Whatever set is accepted or validated holds the checkpoint that the install
/// records, and every record of it was replayed.
pub proof fn law_accepted_sets_hold_the_checkpoint(
    request: DeferredJournalInstallRecovery,
    stage: InstallStage,
    event: InstallEvent,
    prepared: PreparedJournal,
)
    requires
        install_step(request, stage, event).1 == InstallAction::Finish(
            NativeInstallOutcome::AcceptedCandidate(prepared),
        ) || install_step(request, stage, event).1 == InstallAction::Finish(
            NativeInstallOutcome::ValidatedInstalled(prepared),
        ),
    ensures
        replayed(prepared),
        prepared.same_directory,
        prepared.checkpoint is Some,
        checkpoint_fits(request, prepared.checkpoint->0, prepared.last_sequence),
{
}

} // verus!
