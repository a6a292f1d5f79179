//! What startup hands on once a scheduler has been restored.
use vstd::prelude::*;
use crate::credentials::{
    admits, derivation_fault, derive_credential_admissions, DerivedCredentialAdmission, SessionLimits,
};
use crate::probe_targets::NoSpaceProbeTargetCatalog;
use crate::reconcile::{
    reconcile_fault, reconcile_startup, reconciled, DeferredTerminalSessionRepair, DerivedStartupError,
    StartupReconciliation, StartupRecords, StartupRecoveryConfig,
};
use crate::session::{RecoveredTaskJournal, SchedulerRestoreBatch, SessionQueueTransition, SessionStartupSnapshot};
use crate::startup::{
    DeferredAppenderRecovery, DeferredJournalInstallRecovery, RecoveredEngineTask, SchedulerRestoreError,
    SessionAuthorityRepair, StartupRecoveryError,
};

verus! {

/// A restored scheduler with its plan, and the work that has to be done before
/// either is published.
#[derive(Debug)]
pub struct EngineStartup<S, P> {
    pub scheduler: S,
    pub restore_plan: P,
    pub tasks: Vec<RecoveredEngineTask>,
    pub authority_repairs: Vec<SessionAuthorityRepair>,
    pub appender_recoveries: Vec<DeferredAppenderRecovery>,
    pub journal_install_recoveries: Vec<DeferredJournalInstallRecovery>,
    pub no_space_probe_targets: NoSpaceProbeTargetCatalog,
    pub queue_session_repairs: Vec<SessionQueueTransition>,
    pub terminal_session_repairs: Vec<DeferredTerminalSessionRepair>,
}

/// What restoring a reconciliation gives when the scheduler answers `restored`.
pub open spec fn startup_of<S, P>(
    reconciliation: StartupReconciliation,
    restored: Result<(S, P), SchedulerRestoreError>,
) -> Result<EngineStartup<S, P>, StartupRecoveryError> {
    match restored {
        Err(error) => Err(StartupRecoveryError::SchedulerRestore(error)),
        Ok((scheduler, restore_plan)) => Ok(
            EngineStartup {
                scheduler,
                restore_plan,
                tasks: reconciliation.tasks,
                authority_repairs: reconciliation.authority_repairs,
                appender_recoveries: reconciliation.appender_recoveries,
                journal_install_recoveries: reconciliation.journal_install_recoveries,
                no_space_probe_targets: reconciliation.no_space_probe_targets,
                queue_session_repairs: reconciliation.queue_session_repairs,
                terminal_session_repairs: reconciliation.terminal_session_repairs,
            },
        ),
    }
}

/// Builds the scheduler with `restore`; nothing else is changed or lost.
pub fn restore_reconciliation<S, P, R: Fn(SchedulerRestoreBatch) -> Result<(S, P), SchedulerRestoreError>>(
    reconciliation: StartupReconciliation,
    restore: R,
) -> (r: Result<EngineStartup<S, P>, StartupRecoveryError>)
    requires
        forall|batch: SchedulerRestoreBatch| #[trigger] restore.requires((batch,)),
    ensures
        exists|restored: Result<(S, P), SchedulerRestoreError>|
            #[trigger] restore.ensures((reconciliation.scheduler_batch,), restored) && r == startup_of(
                reconciliation,
                restored,
            ),
{
    match restore(reconciliation.scheduler_batch) {
        Err(error) => Err(StartupRecoveryError::SchedulerRestore(error)),
        Ok((scheduler, restore_plan)) => Ok(
            EngineStartup {
                scheduler,
                restore_plan,
                tasks: reconciliation.tasks,
                authority_repairs: reconciliation.authority_repairs,
                appender_recoveries: reconciliation.appender_recoveries,
                journal_install_recoveries: reconciliation.journal_install_recoveries,
                no_space_probe_targets: reconciliation.no_space_probe_targets,
                queue_session_repairs: reconciliation.queue_session_repairs,
                terminal_session_repairs: reconciliation.terminal_session_repairs,
            },
        ),
    }
}

/// What reconciling records and restoring the scheduler gives.
pub open spec fn restored_from<S, P, R: Fn(SchedulerRestoreBatch) -> Result<(S, P), SchedulerRestoreError>>(
    records: StartupRecords,
    config: StartupRecoveryConfig,
    restore: R,
    r: Result<EngineStartup<S, P>, StartupRecoveryError>,
) -> bool {
    match reconcile_fault(records, config) {
        Some(error) => r == Err::<EngineStartup<S, P>, StartupRecoveryError>(error),
        None => exists|done: StartupReconciliation, restored: Result<(S, P), SchedulerRestoreError>|
            reconciled(done, records, config) && #[trigger] restore.ensures((done.scheduler_batch,), restored) && r
                == #[trigger] startup_of(done, restored),
    }
}

/// Reconciles durable authorities and builds the scheduler with `restore`. This
/// applies no repair and publishes nothing.
pub fn reconcile_and_restore<S, P, R: Fn(SchedulerRestoreBatch) -> Result<(S, P), SchedulerRestoreError>>(
    snapshot: SessionStartupSnapshot,
    journals: Vec<RecoveredTaskJournal>,
    credential_admissions: Vec<DerivedCredentialAdmission>,
    config: StartupRecoveryConfig,
    restore: R,
) -> (r: Result<EngineStartup<S, P>, StartupRecoveryError>)
    requires
        forall|batch: SchedulerRestoreBatch| #[trigger] restore.requires((batch,)),
    ensures
        restored_from((StartupRecords { snapshot, journals, admissions: credential_admissions }), config, restore, r),
{
    match reconcile_startup(snapshot, journals, credential_admissions, config) {
        Ok(done) => restore_reconciliation(done, restore),
        Err(error) => Err(error),
    }
}

/// Derives admissions from the sources of the tasks, then reconciles durable
/// authorities and builds the scheduler with `restore`.
pub fn reconcile_and_restore_derived<S, P, R: Fn(SchedulerRestoreBatch) -> Result<(S, P), SchedulerRestoreError>>(
    snapshot: SessionStartupSnapshot,
    journals: Vec<RecoveredTaskJournal>,
    config: StartupRecoveryConfig,
    limits: SessionLimits,
    restore: R,
) -> (r: Result<EngineStartup<S, P>, DerivedStartupError>)
    requires
        forall|batch: SchedulerRestoreBatch| #[trigger] restore.requires((batch,)),
    ensures
        match derivation_fault(snapshot, limits) {
            Some(error) => r == Err::<EngineStartup<S, P>, DerivedStartupError>(
                DerivedStartupError::Credentials(error),
            ),
            None => exists|admissions: Vec<DerivedCredentialAdmission>|
                #[trigger] admits(admissions@, snapshot) && restored_from(
                    (StartupRecords { snapshot, journals, admissions }),
                    config,
                    restore,
                    match r {
                        Ok(done) => Ok(done),
                        Err(DerivedStartupError::Recovery(error)) => Err(error),
                        Err(_) => Err(StartupRecoveryError::TaskLimitReached),
                    },
                ) && (r is Err ==> r->Err_0 is Recovery),
        },
{
    let admissions = match derive_credential_admissions(&snapshot, limits) {
        Ok(admissions) => admissions,
        Err(error) => return Err(DerivedStartupError::Credentials(error)),
    };
    assert(admits(admissions@, snapshot));
    match reconcile_and_restore(snapshot, journals, admissions, config, restore) {
        Ok(done) => Ok(done),
        Err(error) => Err(DerivedStartupError::Recovery(error)),
    }
}

} // verus!
