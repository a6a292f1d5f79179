use ariax_engine::probe_targets::NoSpaceProbeTargetCatalog;
use ariax_engine::reconcile::{DeferredTerminalSessionRepair, StartupReconciliation};
use ariax_engine::session::{
    CheckpointId, Gid, JournalHash, JournalId, JournalInstallIntent, JournalInstallPhase, PlatformPath,
    QueueClass, QueueOrder, RecoveredCheckpoint, SchedulerRestoreBatch, SessionJournalCache, SessionQueueOrder,
    SessionQueueState, SessionQueueTransition, SessionStoppedResultRecord, SessionTerminalStatus, TaskId,
};
use ariax_engine::shutdown::SessionCommandResult;
use ariax_engine::startup::{
    DeferredAppenderRecovery, DeferredJournalInstallRecovery, DeferredReplicaRecovery, SessionAuthorityRepair,
    StartupRecoveryError,
};
use ariax_engine::startup_executor::{
    RepairAnswer, RepairCommand, RepairNeed, SessionOwnerError, StartupSessionRepairError,
    StartupSessionRepairExecutor, StartupSessionRepairFinishError, StartupSessionRepairPoll,
};
use ariax_engine::startup_filesystem::{
    check_allowed_roots, install_opening, prepare_recovered_journal, prepare_set, retired_entries, InstallAction,
    InstallEvent, JournalInstallRecovery, JournalStateStop, NativeCapabilityError, NativeFilesystemError,
    NativeInstallOutcome, PreparedJournal,
};
use ariax_engine::startup_messages::ErrorSubject;

fn gid(value: u64) -> Gid {
    Gid(value)
}

fn journal(value: u8) -> JournalId {
    JournalId(u128::from_be_bytes([value; 16]))
}

fn hash(value: u8) -> JournalHash {
    let half = u128::from_be_bytes([value; 16]);
    JournalHash { high: half, low: half }
}

fn path(value: &str) -> PlatformPath {
    PlatformPath { text: value.to_owned() }
}

fn transition(gid: Gid, target: SessionQueueState, paused: bool, updated_ms: u64) -> SessionQueueTransition {
    SessionQueueTransition {
        gid,
        expected_state: SessionQueueState::Waiting,
        target_state: target,
        desired_paused: paused,
        slow_demotion_count: 0,
        final_orders: vec![
            SessionQueueOrder { state: SessionQueueState::Waiting, gids: Vec::new() },
            SessionQueueOrder { state: target, gids: vec![gid] },
        ],
        updated_ms,
    }
}

fn reconciliation() -> StartupReconciliation {
    StartupReconciliation {
        scheduler_batch: SchedulerRestoreBatch {
            tasks: Vec::new(),
            queues: [
                QueueClass::Waiting,
                QueueClass::Demoted,
                QueueClass::Paused,
                QueueClass::Active,
                QueueClass::Stopped,
            ]
            .into_iter()
            .map(|class| QueueOrder { class, order: Vec::new() })
            .collect(),
        },
        tasks: Vec::new(),
        authority_repairs: vec![SessionAuthorityRepair {
            gid: gid(3),
            expected_journal_id: journal(3),
            cache: Some(SessionJournalCache { layout_hash: None, root_binding_hash: None, snapshot_hash: hash(3) }),
            root_display: Some(path("/root/three")),
            updated_ms: 30,
        }],
        appender_recoveries: Vec::new(),
        journal_install_recoveries: Vec::new(),
        no_space_probe_targets: NoSpaceProbeTargetCatalog::new(Vec::new()),
        queue_session_repairs: vec![transition(gid(1), SessionQueueState::Paused, true, 10)],
        terminal_session_repairs: vec![DeferredTerminalSessionRepair {
            result: SessionStoppedResultRecord {
                gid: gid(2),
                status: SessionTerminalStatus::Removed,
                error_kind: None,
                safe_message: String::new(),
                total_length: None,
                layout_hash: None,
                completed_ms: 20,
            },
            transition: transition(gid(2), SessionQueueState::Stopped, false, 20),
        }],
    }
}

/// An owner that turns one command away if told so and answers after one look.
struct Owner {
    reject_once: bool,
    accepted: Vec<&'static str>,
    attempted: Vec<String>,
    looks: usize,
    answer: RepairAnswer,
}

fn owner(reject_once: bool, answer: RepairAnswer) -> Owner {
    Owner { reject_once, accepted: Vec::new(), attempted: Vec::new(), looks: 0, answer }
}

fn poll(executor: &mut StartupSessionRepairExecutor, owner: &mut Owner) -> StartupSessionRepairPoll {
    let answer = match executor.need() {
        RepairNeed::Nothing => RepairAnswer::Nothing,
        RepairNeed::Submit => {
            let command = executor.next_command().expect("offered command");
            owner.attempted.push(format!("{command:?}"));
            if owner.reject_once {
                owner.reject_once = false;
                RepairAnswer::Rejected(SessionOwnerError::QueueFull)
            } else {
                owner.accepted.push(match command {
                    RepairCommand::TransitionTaskQueue(_) => "queue",
                    RepairCommand::PersistStoppedResult(_) => "terminal",
                    RepairCommand::ReconcileJournalAuthority(_) => "authority",
                });
                owner.looks = 1;
                RepairAnswer::Accepted
            }
        }
        RepairNeed::Wait => {
            if owner.looks > 0 {
                owner.looks -= 1;
                RepairAnswer::Pending
            } else {
                owner.answer
            }
        }
    };
    executor.poll(answer)
}

fn drive(executor: &mut StartupSessionRepairExecutor, owner: &mut Owner) {
    for _ in 0..32 {
        match poll(executor, owner) {
            StartupSessionRepairPoll::Complete => return,
            StartupSessionRepairPoll::Faulted => panic!("executor faulted"),
            _ => {}
        }
    }
    panic!("executor did not finish");
}

fn done() -> RepairAnswer {
    RepairAnswer::Answered(SessionCommandResult::Unit)
}

#[test]
fn repairs_are_ordered_and_queue_full_retries_the_exact_command() {
    let mut owner = owner(true, done());
    let mut executor = StartupSessionRepairExecutor::new(reconciliation());
    assert_eq!(poll(&mut executor, &mut owner), StartupSessionRepairPoll::Progressed);
    assert_eq!(poll(&mut executor, &mut owner), StartupSessionRepairPoll::Backpressured);
    drive(&mut executor, &mut owner);
    assert_eq!(owner.accepted, ["queue", "terminal", "authority"]);
    assert_eq!(owner.attempted[0], owner.attempted[1]);
    assert!(executor.is_complete());
    let startup =
        executor.finish(|batch: SchedulerRestoreBatch| Ok((batch, ()))).expect("restored after repairs");
    assert!(startup.scheduler.tasks.is_empty());
    assert!(startup.queue_session_repairs.is_empty());
    assert!(startup.terminal_session_repairs.is_empty());
    assert!(startup.authority_repairs.is_empty());
}

#[test]
fn accepted_failure_and_unexpected_result_fault_before_restore() {
    let mut failing = owner(false, RepairAnswer::Failed(SessionOwnerError::Unavailable));
    let mut failed = StartupSessionRepairExecutor::new(reconciliation());
    assert_eq!(poll(&mut failed, &mut failing), StartupSessionRepairPoll::Progressed);
    assert_eq!(poll(&mut failed, &mut failing), StartupSessionRepairPoll::WaitingForCompletion);
    assert_eq!(poll(&mut failed, &mut failing), StartupSessionRepairPoll::WaitingForCompletion);
    assert_eq!(poll(&mut failed, &mut failing), StartupSessionRepairPoll::Faulted);
    assert!(matches!(
        failed.finish(|batch: SchedulerRestoreBatch| Ok((batch, ()))),
        Err(StartupSessionRepairFinishError::Faulted(StartupSessionRepairError::Owner(
            SessionOwnerError::Unavailable
        )))
    ));

    let mut odd = owner(false, RepairAnswer::Answered(SessionCommandResult::QueueOrder));
    let mut unexpected = StartupSessionRepairExecutor::new(reconciliation());
    assert_eq!(poll(&mut unexpected, &mut odd), StartupSessionRepairPoll::Progressed);
    assert_eq!(poll(&mut unexpected, &mut odd), StartupSessionRepairPoll::WaitingForCompletion);
    assert_eq!(poll(&mut unexpected, &mut odd), StartupSessionRepairPoll::WaitingForCompletion);
    assert_eq!(poll(&mut unexpected, &mut odd), StartupSessionRepairPoll::Faulted);
    let fault = unexpected.fault();
    assert!(matches!(fault, Some(StartupSessionRepairError::UnexpectedResult("queue_order"))));
    assert_eq!(
        fault.expect("fault").message(""),
        "startup session repair returned unexpected queue_order"
    );
}

#[test]
fn finish_rejects_incomplete_execution() {
    let executor = StartupSessionRepairExecutor::new(reconciliation());
    assert!(matches!(
        executor.finish(|batch: SchedulerRestoreBatch| Ok((batch, ()))),
        Err(StartupSessionRepairFinishError::NotComplete)
    ));
}

#[test]
fn finish_reconciliation_clears_applied_repairs_for_native_handoff() {
    let mut owner = owner(false, done());
    let mut executor = StartupSessionRepairExecutor::new(reconciliation());
    drive(&mut executor, &mut owner);
    let reconciliation = executor.finish_reconciliation().expect("post-repair handoff");
    assert!(reconciliation.queue_session_repairs.is_empty());
    assert!(reconciliation.terminal_session_repairs.is_empty());
    assert!(reconciliation.authority_repairs.is_empty());
}

fn live(last_sequence: u64) -> PreparedJournal {
    PreparedJournal {
        same_directory: true,
        last_sequence,
        records: 1,
        accepted_records: 1,
        stop: JournalStateStop::CleanEnd,
        checkpoint: None,
    }
}

fn appender_request(expected: u64) -> DeferredAppenderRecovery {
    DeferredAppenderRecovery {
        task_id: TaskId(1),
        gid: gid(1),
        journal_id: journal(1),
        primary_path: path("/control/journal"),
        replica: None,
        expected_last_sequence: expected,
    }
}

#[test]
fn central_journal_preparation_is_descriptor_relative_and_sequence_bound() {
    let request = appender_request(1);
    let opening = prepare_recovered_journal(&request).expect("prepare central journal");
    assert_eq!(opening.path, &path("/control/journal"));
    let prepared = prepare_set(Ok(live(1)), opening.expected_last_sequence).expect("prepared");
    assert_eq!(prepared.last_sequence, 1);
    let request = appender_request(2);
    let opening = prepare_recovered_journal(&request).expect("prepare central journal");
    assert_eq!(
        prepare_set(Ok(live(1)), opening.expected_last_sequence),
        Err(NativeFilesystemError::SequenceMismatch { expected: 2, actual: 1 })
    );
}

#[test]
fn central_backend_rejects_replica_and_outside_control_paths() {
    let mut request = appender_request(1);
    request.replica =
        Some(DeferredReplicaRecovery { path: path("/control/journal"), copied_through_sequence: 1 });
    assert!(matches!(
        prepare_recovered_journal(&request),
        Err(NativeFilesystemError::UnsupportedJournalLocation)
    ));
    let outside = NativeFilesystemError::Capability(NativeCapabilityError::OutsideAllowedRoot);
    assert_eq!(prepare_set(Err(outside), Some(1)), Err(outside));
}

fn install(phase: JournalInstallPhase, authority: u8, last: u64) -> DeferredJournalInstallRecovery {
    DeferredJournalInstallRecovery {
        task_id: TaskId(1),
        intent: JournalInstallIntent {
            gid: gid(1),
            checkpoint_id: CheckpointId(4),
            old_journal_id: journal(1),
            old_path: path("/control/old"),
            new_journal_id: journal(2),
            new_path: path("/control/candidate"),
            source_last_sequence: 1,
            phase,
        },
        authoritative_journal_id: journal(authority),
        authoritative_last_sequence: last,
        authoritative_checkpoint: None,
    }
}

#[test]
fn invalid_installing_candidate_is_cleaned_before_old_set_fallback() {
    let request = install(JournalInstallPhase::Installing, 1, 1);
    let (mut recovery, first) = JournalInstallRecovery::recover_journal_install(&request);
    assert_eq!(first, InstallAction::OpenNew);
    assert_eq!(recovery.step(&request, InstallEvent::Opened(Ok(live(1)))), InstallAction::CleanNew);
    assert_eq!(recovery.step(&request, InstallEvent::Cleaned(Ok(()))), InstallAction::OpenOld);
    let opening = install_opening(&request, recovery.stage).expect("old set");
    assert_eq!(opening.path, &path("/control/old"));
    assert_eq!(opening.expected_last_sequence, Some(1));
    assert_eq!(
        recovery.step(&request, InstallEvent::Opened(Ok(live(1)))),
        InstallAction::Finish(NativeInstallOutcome::RejectedCandidate(live(1)))
    );
}

#[test]
fn valid_checkpoint_is_accepted_in_installing_and_installed_phases() {
    let checkpoint = RecoveredCheckpoint {
        checkpoint_id: CheckpointId(4),
        source_last_sequence: 1,
        end_sequence: 4,
        envelope: hash(7),
    };
    let candidate = PreparedJournal { checkpoint: Some(checkpoint), ..live(4) };
    let request = install(JournalInstallPhase::Installing, 1, 1);
    let (mut recovery, _) = JournalInstallRecovery::recover_journal_install(&request);
    assert_eq!(
        recovery.step(&request, InstallEvent::Opened(Ok(candidate))),
        InstallAction::Finish(NativeInstallOutcome::AcceptedCandidate(candidate))
    );
    let mut request = install(JournalInstallPhase::Installed, 2, 4);
    request.authoritative_checkpoint = Some(checkpoint);
    let (mut recovery, _) = JournalInstallRecovery::recover_journal_install(&request);
    assert_eq!(
        recovery.step(&request, InstallEvent::Opened(Ok(candidate))),
        InstallAction::Finish(NativeInstallOutcome::ValidatedInstalled(candidate))
    );
    let other = RecoveredCheckpoint { envelope: hash(8), ..checkpoint };
    request.authoritative_checkpoint = Some(other);
    let (mut recovery, _) = JournalInstallRecovery::recover_journal_install(&request);
    assert_eq!(
        recovery.step(&request, InstallEvent::Opened(Ok(candidate))),
        InstallAction::Fail(NativeFilesystemError::CheckpointMismatch)
    );
}

#[test]
fn journals_that_do_not_replay_are_refused() {
    let torn = PreparedJournal { stop: JournalStateStop::Other { code: 2 }, ..live(1) };
    assert_eq!(
        prepare_set(Ok(torn), Some(1)),
        Err(NativeFilesystemError::SemanticReplay(JournalStateStop::Other { code: 2 }))
    );
    let moved = PreparedJournal { same_directory: false, ..live(1) };
    let error = prepare_set(Ok(moved), Some(1)).expect_err("moved");
    assert_eq!(error.code(), "directory_identity_changed");
    assert_eq!(
        NativeFilesystemError::SequenceMismatch { expected: 2, actual: 1 }.message(""),
        "journal sequence 1 does not match expected sequence 2"
    );
    assert_eq!(retired_entries(3), 6);
    assert_eq!(retired_entries(usize::MAX), usize::MAX);
    assert!(check_allowed_roots(3, 2).is_err());
    assert!(check_allowed_roots(2, 2).is_ok());
}

#[test]
fn unfinished_repairs_say_what_they_lack() {
    let shown = |error: StartupSessionRepairFinishError| {
        error.message(&ErrorSubject { gid: "00000000000000aa", detail: "queue full" })
    };
    assert_eq!(shown(StartupSessionRepairFinishError::NotComplete), "startup session repairs are not complete");
    assert_eq!(
        shown(StartupSessionRepairFinishError::Faulted(StartupSessionRepairError::Owner(SessionOwnerError::QueueFull))),
        "startup session repair failed: queue full"
    );
    assert_eq!(
        shown(StartupSessionRepairFinishError::Restore(StartupRecoveryError::DuplicateTask(gid(0xaa)))),
        "scheduler restore failed after repairs: duplicate SQLite task 00000000000000aa"
    );
}
