//! Readable forms of startup errors.
use vstd::prelude::*;
use crate::credentials::CredentialDerivationError;
use crate::reconcile::DerivedStartupError;
use crate::startup::StartupRecoveryError;
use crate::text::{decimal_digits, decimal_text};

verus! {

/// Texts that stand for values of an error: the GID it is about, and the cause
/// or queue name where it carries one.
pub struct ErrorSubject<'a> {
    pub gid: &'a str,
    pub detail: &'a str,
}

/// Three texts one after the other.
pub open spec fn around(prefix: Seq<char>, middle: Seq<char>, suffix: Seq<char>) -> Seq<char> {
    prefix + middle + suffix
}

fn join_around(prefix: &str, middle: &str, suffix: &str) -> (r: String)
    ensures
        r@ == around(prefix@, middle@, suffix@),
{
    let mut r = prefix.to_owned();
    r.append(middle);
    r.append(suffix);
    r
}

impl StartupRecoveryError {
    /// The message around the GID that it is about.
    pub open spec fn spec_message(self, gid: Seq<char>, detail: Seq<char>) -> Seq<char> {
        match self {
            StartupRecoveryError::TaskLimitReached => "startup task limit exceeded"@,
            StartupRecoveryError::AllocationFailed => "startup allocation failed"@,
            StartupRecoveryError::MissingSession => "startup tasks have no session row"@,
            StartupRecoveryError::TaskIdExhausted => "fresh task id allocation exhausted"@,
            StartupRecoveryError::QueueRepairInvariant => "startup queue repair plan does not reach the restored order"@,
            StartupRecoveryError::TaskSessionMismatch(_) => around("task "@, gid, " references a different session"@),
            StartupRecoveryError::DuplicateTask(_) => around("duplicate SQLite task "@, gid, ""@),
            StartupRecoveryError::DuplicateJournalGid(_) => around("duplicate recovered journal GID "@, gid, ""@),
            StartupRecoveryError::MissingJournal(_) => around("task "@, gid, " has no recovered journal"@),
            StartupRecoveryError::ExtraJournal(_) => around("recovered journal "@, gid, " has no SQLite task"@),
            StartupRecoveryError::DuplicateCredentialAdmission(_) => around("duplicate credential admission for task "@, gid, ""@),
            StartupRecoveryError::MissingCredentialAdmission(_) => around("task "@, gid, " has no derived credential admission"@),
            StartupRecoveryError::ExtraCredentialAdmission(_) => around("credential admission "@, gid, " has no SQLite task"@),
            StartupRecoveryError::JournalIdMismatch(_) => around("task "@, gid, " journal id does not match SQLite"@),
            StartupRecoveryError::ReplicaAheadOfPrimary(_) => around("task "@, gid, " replica is ahead of the recovered primary"@),
            StartupRecoveryError::MissingCurrentOptions(_) => around("task "@, gid, " journal has no current option snapshot"@),
            StartupRecoveryError::DuplicateStoppedResult(_) => around("duplicate stopped result for "@, gid, ""@),
            StartupRecoveryError::MissingStoppedResult(_) => around("terminal task "@, gid, " has no stopped result"@),
            StartupRecoveryError::ExtraStoppedResult(_) => around("stopped result "@, gid, " has no terminal journal"@),
            StartupRecoveryError::TerminalQueueMismatch(_) => around("task "@, gid, " terminal journal and SQLite queue disagree"@),
            StartupRecoveryError::StoppedResultMismatch(_) => around("task "@, gid, " stopped result contradicts its journal"@),
            StartupRecoveryError::DuplicateHostKeyChallenge(_) => around("duplicate host-key challenge for "@, gid, ""@),
            StartupRecoveryError::HostKeyChallengeMismatch(_) => around("task "@, gid, " host-key challenge and state disagree"@),
            StartupRecoveryError::DuplicateJournalInstall(_) => around("duplicate journal install for "@, gid, ""@),
            StartupRecoveryError::JournalInstallMismatch(_) => around("task "@, gid, " journal install contradicts its primary pointer"@),
            StartupRecoveryError::JournalInstallIdentityConflict(_) => around("task "@, gid, " journal install reuses an unsafe identity or path"@),
            StartupRecoveryError::JournalInstallSourceAhead(_) => around("task "@, gid, " journal install source is ahead of the recovered prefix"@),
            StartupRecoveryError::InstalledCheckpointMismatch(_) => around("task "@, gid, " installed journal does not match its checkpoint intent"@),
            StartupRecoveryError::InvalidTaskRetryIdentity(_) => around("task "@, gid, " has retry evidence for another task id"@),
            StartupRecoveryError::DuplicateTaskRetry(_) => around("task "@, gid, " has multiple task-scope retry decisions"@),
            StartupRecoveryError::MissingSlowDeadline(_) => around("demoted task "@, gid, " has no slow-readmission decision"@),
            StartupRecoveryError::ConflictingDeadlines(_) => around("task "@, gid, " has conflicting scheduler deadlines"@),
            StartupRecoveryError::DuplicateJournalId(_) => "duplicate recovered journal id"@,
            StartupRecoveryError::DuplicatePersistedTaskId(task_id) => "duplicate persisted journal task id "@
                + decimal_digits(task_id.0 as nat),
            StartupRecoveryError::QueueNotDense { state: _, expected, actual } => around(
                detail,
                " queue position "@,
                decimal_digits(actual as nat),
            ) + around(" is not dense; expected "@, decimal_digits(expected as nat), ""@),
            StartupRecoveryError::InvalidHostKeyChallenge { gid: _, source: _ } => around(
                "task "@,
                gid,
                " has an invalid host-key challenge: "@,
            ) + detail,
            StartupRecoveryError::InvalidDeadline { gid: _, kind, source: _ } => around(
                "task "@,
                gid,
                " has an invalid "@,
            ) + around(kind.spec_code(), " deadline: "@, detail),
            StartupRecoveryError::SchedulerRestore(_) => "scheduler restore failed: "@ + detail,
        }
    }

    /// The readable form of the error.
    pub fn message(&self, subject: &ErrorSubject<'_>) -> (r: String)
        ensures
            r@ == self.spec_message(subject.gid@, subject.detail@),
    {
        let (prefix, suffix) = match self {
            StartupRecoveryError::TaskLimitReached => return "startup task limit exceeded".to_owned(),
            StartupRecoveryError::AllocationFailed => return "startup allocation failed".to_owned(),
            StartupRecoveryError::MissingSession => return "startup tasks have no session row".to_owned(),
            StartupRecoveryError::TaskIdExhausted => return "fresh task id allocation exhausted".to_owned(),
            StartupRecoveryError::QueueRepairInvariant => return "startup queue repair plan does not reach the restored order".to_owned(),
            StartupRecoveryError::TaskSessionMismatch(_) => ("task ", " references a different session"),
            StartupRecoveryError::DuplicateTask(_) => ("duplicate SQLite task ", ""),
            StartupRecoveryError::DuplicateJournalGid(_) => ("duplicate recovered journal GID ", ""),
            StartupRecoveryError::MissingJournal(_) => ("task ", " has no recovered journal"),
            StartupRecoveryError::ExtraJournal(_) => ("recovered journal ", " has no SQLite task"),
            StartupRecoveryError::DuplicateCredentialAdmission(_) => ("duplicate credential admission for task ", ""),
            StartupRecoveryError::MissingCredentialAdmission(_) => ("task ", " has no derived credential admission"),
            StartupRecoveryError::ExtraCredentialAdmission(_) => ("credential admission ", " has no SQLite task"),
            StartupRecoveryError::JournalIdMismatch(_) => ("task ", " journal id does not match SQLite"),
            StartupRecoveryError::ReplicaAheadOfPrimary(_) => ("task ", " replica is ahead of the recovered primary"),
            StartupRecoveryError::MissingCurrentOptions(_) => ("task ", " journal has no current option snapshot"),
            StartupRecoveryError::DuplicateStoppedResult(_) => ("duplicate stopped result for ", ""),
            StartupRecoveryError::MissingStoppedResult(_) => ("terminal task ", " has no stopped result"),
            StartupRecoveryError::ExtraStoppedResult(_) => ("stopped result ", " has no terminal journal"),
            StartupRecoveryError::TerminalQueueMismatch(_) => ("task ", " terminal journal and SQLite queue disagree"),
            StartupRecoveryError::StoppedResultMismatch(_) => ("task ", " stopped result contradicts its journal"),
            StartupRecoveryError::DuplicateHostKeyChallenge(_) => ("duplicate host-key challenge for ", ""),
            StartupRecoveryError::HostKeyChallengeMismatch(_) => ("task ", " host-key challenge and state disagree"),
            StartupRecoveryError::DuplicateJournalInstall(_) => ("duplicate journal install for ", ""),
            StartupRecoveryError::JournalInstallMismatch(_) => ("task ", " journal install contradicts its primary pointer"),
            StartupRecoveryError::JournalInstallIdentityConflict(_) => ("task ", " journal install reuses an unsafe identity or path"),
            StartupRecoveryError::JournalInstallSourceAhead(_) => ("task ", " journal install source is ahead of the recovered prefix"),
            StartupRecoveryError::InstalledCheckpointMismatch(_) => ("task ", " installed journal does not match its checkpoint intent"),
            StartupRecoveryError::InvalidTaskRetryIdentity(_) => ("task ", " has retry evidence for another task id"),
            StartupRecoveryError::DuplicateTaskRetry(_) => ("task ", " has multiple task-scope retry decisions"),
            StartupRecoveryError::MissingSlowDeadline(_) => ("demoted task ", " has no slow-readmission decision"),
            StartupRecoveryError::ConflictingDeadlines(_) => ("task ", " has conflicting scheduler deadlines"),
            StartupRecoveryError::DuplicateJournalId(_) => return "duplicate recovered journal id".to_owned(),
            StartupRecoveryError::DuplicatePersistedTaskId(task_id) => {
                return "duplicate persisted journal task id ".to_owned().concat(
                    decimal_text(task_id.0).as_str(),
                );
            },
            StartupRecoveryError::QueueNotDense { state: _, expected, actual } => {
                let actual_text = decimal_text(*actual as u64);
                let expected_text = decimal_text(*expected as u64);
                let r = join_around(subject.detail, " queue position ", actual_text.as_str());
                return r.concat(
                    join_around(" is not dense; expected ", expected_text.as_str(), "").as_str(),
                );
            },
            StartupRecoveryError::InvalidHostKeyChallenge { gid: _, source: _ } => {
                return join_around("task ", subject.gid, " has an invalid host-key challenge: ").concat(
                    subject.detail,
                );
            },
            StartupRecoveryError::InvalidDeadline { gid: _, kind, source: _ } => {
                let r = join_around("task ", subject.gid, " has an invalid ");
                return r.concat(join_around(kind.code(), " deadline: ", subject.detail).as_str());
            },
            StartupRecoveryError::SchedulerRestore(_) => {
                return "scheduler restore failed: ".to_owned().concat(subject.detail);
            },
        };
        join_around(prefix, subject.gid, suffix)
    }
}

impl CredentialDerivationError {
    /// The message around the GID that it is about.
    pub open spec fn spec_message(self, gid: Seq<char>, detail: Seq<char>) -> Seq<char> {
        match self {
            CredentialDerivationError::AllocationFailed => "credential derivation allocation failed"@,
            CredentialDerivationError::TooManyTasks => "too many startup tasks"@,
            CredentialDerivationError::TooManySourceSets => "too many startup source sets"@,
            CredentialDerivationError::DuplicateTask(_) => around("duplicate startup task "@, gid, ""@),
            CredentialDerivationError::DuplicateSourceSet(_) => around("duplicate startup source set for "@, gid, ""@),
            CredentialDerivationError::MissingSourceSet(_) => around("startup task "@, gid, " has no source set"@),
            CredentialDerivationError::ExtraSourceSet(_) => around("startup source set "@, gid, " has no task"@),
            CredentialDerivationError::TooManySources(_) => around("startup task "@, gid, " has too many sources"@),
            CredentialDerivationError::DuplicateSourceId(_) => around("startup task "@, gid, " has duplicate source ids"@),
            CredentialDerivationError::NonCanonicalSourceOrder(_) => around("startup task "@, gid, " sources are not canonically ordered"@),
            CredentialDerivationError::UnsafeSourceUri(_) => around("startup task "@, gid, " has an oversized persisted source URI"@),
            CredentialDerivationError::UnmarkedRedactedSource(_) => around("startup task "@, gid, " has a redacted source without a credential blocker"@),
        }
    }

    /// The readable form of the error.
    pub fn message(&self, subject: &ErrorSubject<'_>) -> (r: String)
        ensures
            r@ == self.spec_message(subject.gid@, subject.detail@),
    {
        let (prefix, suffix) = match self {
            CredentialDerivationError::AllocationFailed => return "credential derivation allocation failed".to_owned(),
            CredentialDerivationError::TooManyTasks => return "too many startup tasks".to_owned(),
            CredentialDerivationError::TooManySourceSets => return "too many startup source sets".to_owned(),
            CredentialDerivationError::DuplicateTask(_) => ("duplicate startup task ", ""),
            CredentialDerivationError::DuplicateSourceSet(_) => ("duplicate startup source set for ", ""),
            CredentialDerivationError::MissingSourceSet(_) => ("startup task ", " has no source set"),
            CredentialDerivationError::ExtraSourceSet(_) => ("startup source set ", " has no task"),
            CredentialDerivationError::TooManySources(_) => ("startup task ", " has too many sources"),
            CredentialDerivationError::DuplicateSourceId(_) => ("startup task ", " has duplicate source ids"),
            CredentialDerivationError::NonCanonicalSourceOrder(_) => ("startup task ", " sources are not canonically ordered"),
            CredentialDerivationError::UnsafeSourceUri(_) => ("startup task ", " has an oversized persisted source URI"),
            CredentialDerivationError::UnmarkedRedactedSource(_) => ("startup task ", " has a redacted source without a credential blocker"),
        };
        join_around(prefix, subject.gid, suffix)
    }
}

impl DerivedStartupError {
    pub open spec fn spec_message(self, gid: Seq<char>, detail: Seq<char>) -> Seq<char> {
        match self {
            DerivedStartupError::Credentials(error) => "credential derivation failed: "@ + error.spec_message(
                gid,
                detail,
            ),
            DerivedStartupError::Recovery(error) => error.spec_message(gid, detail),
        }
    }

    /// The readable form of the error.
    pub fn message(&self, subject: &ErrorSubject<'_>) -> (r: String)
        ensures
            r@ == self.spec_message(subject.gid@, subject.detail@),
    {
        match self {
            DerivedStartupError::Credentials(error) => "credential derivation failed: ".to_owned().concat(
                error.message(subject).as_str(),
            ),
            DerivedStartupError::Recovery(error) => error.message(subject),
        }
    }
}

} // verus!
