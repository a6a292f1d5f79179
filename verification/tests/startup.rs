use ariax_engine::credentials::{
    derive_credential_admissions, CredentialDerivationError, DerivedCredentialAdmission, SessionLimits,
};
use ariax_engine::effects::{ProbeNoSpace, RuntimeIdentity, TransitionEffect};
use ariax_engine::probe_targets::NoSpaceProbeTargetError;
use ariax_engine::reconcile::{
    reconcile_startup as reconcile_startup_with_credentials, reconcile_startup_derived, SchedulerConfig,
    StartupReconciliation, StartupRecoveryConfig,
};
use ariax_engine::session::{
    Aria2Status, CheckpointId, CredentialKind, CredentialRequirement, DelayRecovery, ErrorKind, Generation, Gid,
    HostKeyChallengeId, JournalHash, JournalId, JournalInstallIntent, JournalInstallPhase, MonotonicInstant,
    NoSpaceProbeId, NoSpaceProbeOrigin, PersistedDelay, PersistedDelayError, PlatformPath, QueueClass,
    RecoveredCheckpoint, RecoveredDelayDecision, RecoveredJournalState, RecoveredLayout, RecoveredRetryState,
    RecoveredSchedulerTask, RecoveredTaskJournal, RecoveredTerminal, RetryScope, SchedulerRestoreBatch,
    SessionHostKeyChallengeRecord, SessionId, SessionNoSpaceCondition, SessionQueueOrder, SessionQueueState,
    SessionRecord, SessionSlowSlotState, SessionStartupSnapshot, SessionStoppedResultRecord, SessionTaskRecord,
    SessionTaskSourceRecord, SessionTaskSourceSet, SessionTerminalStatus, TaskId, TaskPauseReason, TaskState, UriId,
};
use ariax_engine::startup::{SchedulerRestoreError, StartupDeadlineKind, StartupRecoveryError};
use ariax_engine::startup_restore::{reconcile_and_restore, reconcile_and_restore_derived};

const NOW_WALL: u64 = 2_000;
const NOW: u64 = 1_000_000;

fn gid(value: u64) -> Gid {
    Gid(value)
}

fn task_id(value: u64) -> TaskId {
    TaskId(value)
}

fn journal_id(value: u8) -> JournalId {
    JournalId(u128::from_be_bytes([value; 16]))
}

fn checkpoint_id(value: u8) -> CheckpointId {
    CheckpointId(u128::from_be_bytes([value; 16]))
}

fn hash(value: u8) -> JournalHash {
    let half = u128::from_be_bytes([value; 16]);
    JournalHash { high: half, low: half }
}

fn path(value: &str) -> PlatformPath {
    PlatformPath { text: value.to_owned() }
}

fn session_id() -> SessionId {
    SessionId(u128::from_be_bytes([1; 16]))
}

fn limits() -> SessionLimits {
    SessionLimits { max_tasks: 4_096, max_sources_per_task: 64, max_safe_uri_bytes: 8_192 }
}

fn delay(scheduled_at_ms: u64, delay_ms: u64, spent: u64) -> PersistedDelay {
    let recovery = if delay_ms == 0 {
        DelayRecovery::Invalid(PersistedDelayError::ZeroDelay)
    } else {
        let passed = NOW_WALL - scheduled_at_ms;
        DelayRecovery::Valid(RecoveredDelayDecision {
            deadline: MonotonicInstant(NOW + delay_ms.saturating_sub(passed)),
            expired: passed >= delay_ms,
            budget_elapsed_ms: spent + passed,
        })
    };
    PersistedDelay { scheduled_at_ms, delay_ms, recovery }
}

fn no_credentials(gids: Vec<Gid>) -> Vec<DerivedCredentialAdmission> {
    gids.into_iter().map(|gid| DerivedCredentialAdmission { gid, requirement: None }).collect()
}

fn recovered_journal(gid: Gid, task: TaskId, journal_id: JournalId) -> RecoveredTaskJournal {
    RecoveredTaskJournal {
        gid,
        journal_id,
        state: RecoveredJournalState {
            task,
            generation: Generation(1),
            last_sequence: 2,
            current_options: Some(hash(200)),
            layout: None,
            terminal: None,
            paused: None,
            retry_states: Vec::new(),
            checkpoint: None,
        },
    }
}

fn terminal_journal(gid: Gid, task: TaskId, journal_id: JournalId, terminal: RecoveredTerminal) -> RecoveredTaskJournal {
    let mut journal = recovered_journal(gid, task, journal_id);
    journal.state.last_sequence = 3;
    journal.state.terminal = Some(terminal);
    journal
}

fn completed_journal(gid: Gid, task: TaskId, journal_id: JournalId) -> RecoveredTaskJournal {
    let mut journal = terminal_journal(
        gid,
        task,
        journal_id,
        RecoveredTerminal::Complete { layout_hash: hash(90), final_length: 2_048, completed_at_unix_ms: 1_900 },
    );
    journal.state.last_sequence = 4;
    journal.state.layout = Some(RecoveredLayout {
        layout_hash: hash(90),
        root_binding_hash: hash(91),
        root_path: path("/srv/downloads"),
    });
    journal
}

fn checkpoint_journal(
    gid: Gid,
    task: TaskId,
    journal_id: JournalId,
    checkpoint_id: CheckpointId,
    source_last_sequence: u64,
) -> RecoveredTaskJournal {
    let mut journal = recovered_journal(gid, task, journal_id);
    journal.state.last_sequence = 4;
    journal.state.checkpoint =
        Some(RecoveredCheckpoint { checkpoint_id, source_last_sequence, end_sequence: 4, envelope: hash(29) });
    journal
}

fn task_record(
    gid: Gid,
    queue_state: SessionQueueState,
    queue_position: u32,
    journal: &RecoveredTaskJournal,
) -> SessionTaskRecord {
    SessionTaskRecord {
        gid,
        session_id: session_id(),
        queue_state,
        queue_position,
        desired_paused: false,
        slow_demotion_count: 0,
        slow_slot: None,
        primary_journal_id: journal.journal_id,
        primary_journal_path: path(&format!("/journals/{:016x}", gid.0)),
        replica_journal_path: None,
        replica_sequence: None,
        root_display: path(&format!("/outputs/{:016x}", gid.0)),
        cached_layout_hash: None,
        cached_root_binding_hash: None,
        cached_snapshot_hash: hash(200),
        no_space: None,
        updated_ms: 200,
    }
}

fn snapshot(tasks: Vec<SessionTaskRecord>) -> SessionStartupSnapshot {
    let task_sources =
        tasks.iter().map(|task| SessionTaskSourceSet { gid: task.gid, sources: Vec::new() }).collect();
    SessionStartupSnapshot {
        session: Some(SessionRecord {
            session_id: session_id(),
            created_ms: 100,
            updated_ms: 200,
            clean_shutdown: false,
        }),
        tasks,
        task_sources,
        stopped_results: Vec::new(),
        host_key_challenges: Vec::new(),
        journal_installs: Vec::new(),
    }
}

fn config() -> StartupRecoveryConfig {
    StartupRecoveryConfig {
        scheduler: SchedulerConfig { max_tasks: 64, max_active: 4 },
        now_wall_unix_ms: NOW_WALL,
    }
}

fn reconcile_startup(
    snapshot: SessionStartupSnapshot,
    journals: Vec<RecoveredTaskJournal>,
) -> Result<StartupReconciliation, StartupRecoveryError> {
    let admissions = no_credentials(snapshot.tasks.iter().map(|task| task.gid).collect());
    reconcile_startup_with_credentials(snapshot, journals, admissions, config())
}

fn stopped(gid: Gid, status: SessionTerminalStatus, completed_ms: u64) -> SessionStoppedResultRecord {
    SessionStoppedResultRecord {
        gid,
        status,
        error_kind: None,
        safe_message: String::new(),
        total_length: None,
        layout_hash: None,
        completed_ms,
    }
}

fn task(batch: &SchedulerRestoreBatch, gid: Gid) -> &RecoveredSchedulerTask {
    batch.tasks.iter().find(|task| task.gid == gid).expect("task")
}

fn queue(batch: &SchedulerRestoreBatch, class: QueueClass) -> Vec<Gid> {
    batch.queues.iter().find(|queue| queue.class == class).expect("queue").order.clone()
}

fn order(orders: &[SessionQueueOrder], state: SessionQueueState) -> Vec<Gid> {
    orders.iter().find(|order| order.state == state).expect("order").gids.clone()
}

fn probe(task: &RecoveredSchedulerTask, probe: u64) -> ProbeNoSpace {
    ProbeNoSpace {
        identity: RuntimeIdentity { task_id: task.task_id, gid: task.gid, generation: task.generation },
        probe_id: NoSpaceProbeId(probe),
        origin: NoSpaceProbeOrigin::AutomaticRetry,
        at: task.conditions.no_space.as_ref().expect("condition").retry_at.expect("deadline"),
    }
}

#[test]
fn reconciles_all_recoverable_states_and_allocates_task_ids_by_gid() {
    let (first_gid, paused_gid, retry_gid, slow_gid, host_gid) = (gid(1), gid(2), gid(3), gid(4), gid(5));
    let first = recovered_journal(first_gid, task_id(50), journal_id(1));
    let paused = recovered_journal(paused_gid, task_id(40), journal_id(2));
    let mut retry = recovered_journal(retry_gid, task_id(30), journal_id(3));
    retry.state.last_sequence = 3;
    retry.state.retry_states =
        vec![RecoveredRetryState { scope: RetryScope::Task, scope_id: 30, delay: delay(1_000, 5_000, 500) }];
    let slow = recovered_journal(slow_gid, task_id(20), journal_id(4));
    let mut host = recovered_journal(host_gid, task_id(10), journal_id(5));
    host.state.last_sequence = 3;
    host.state.paused = Some(TaskPauseReason::HostKeyApproval);

    let mut first_task = task_record(first_gid, SessionQueueState::Waiting, 0, &first);
    first_task.no_space =
        Some(SessionNoSpaceCondition { target: path("/outputs/first"), delay: delay(1_000, 500, 0) });
    let mut paused_task = task_record(paused_gid, SessionQueueState::Active, 0, &paused);
    paused_task.desired_paused = true;
    let mut retry_task = task_record(retry_gid, SessionQueueState::Active, 1, &retry);
    retry_task.no_space =
        Some(SessionNoSpaceCondition { target: path("/outputs/retry"), delay: delay(1_100, 4_000, 0) });
    let mut slow_task = task_record(slow_gid, SessionQueueState::Demoted, 0, &slow);
    slow_task.slow_demotion_count = 3;
    slow_task.slow_slot = Some(SessionSlowSlotState { original_position: 0, retry: Some(delay(1_000, 4_000, 0)) });
    slow_task.no_space =
        Some(SessionNoSpaceCondition { target: path("/outputs/slow"), delay: delay(1_200, 4_000, 0) });
    let host_task = task_record(host_gid, SessionQueueState::Paused, 0, &host);
    let mut startup_snapshot = snapshot(vec![host_task, retry_task, first_task, slow_task, paused_task]);
    startup_snapshot.host_key_challenges.push(SessionHostKeyChallengeRecord {
        gid: host_gid,
        challenge_id: HostKeyChallengeId(u128::from_be_bytes([9; 16])),
        canonical_host: "example.test".to_owned(),
        port: 22,
        algorithm: "ssh-ed25519".to_owned(),
        presented_public_key: vec![7; 32],
        fingerprint_sha256: hash(7),
        fault: None,
    });

    let admissions = no_credentials(vec![host_gid, retry_gid, first_gid, slow_gid, paused_gid]);
    let mut startup = reconcile_and_restore(
        startup_snapshot,
        vec![host, slow, retry, paused, first],
        admissions,
        config(),
        |batch: SchedulerRestoreBatch| Ok((batch, ())),
    )
    .expect("reconcile and restore");
    assert_eq!(startup.tasks.len(), 5);
    assert_eq!(startup.tasks[0].gid, first_gid);
    assert_eq!(startup.tasks[0].task_id, TaskId(1));
    assert_eq!(startup.tasks[4].gid, host_gid);
    assert_eq!(startup.tasks[4].task_id, TaskId(5));
    let batch = &startup.scheduler;
    assert_eq!(queue(batch, QueueClass::Waiting), vec![first_gid, retry_gid]);
    assert_eq!(queue(batch, QueueClass::Demoted), vec![slow_gid]);
    assert_eq!(queue(batch, QueueClass::Paused), vec![host_gid, paused_gid]);
    assert!(queue(batch, QueueClass::Active).is_empty());
    assert_eq!(task(batch, first_gid).state, TaskState::Waiting);
    assert!(task(batch, first_gid).conditions.no_space.is_some());
    assert_eq!(task(batch, retry_gid).state, TaskState::RetryWait);
    assert!(task(batch, retry_gid).conditions.no_space.is_some());
    assert_eq!(task(batch, slow_gid).state, TaskState::WaitingSlow);
    assert!(task(batch, slow_gid).conditions.no_space.is_some());
    assert_eq!(task(batch, host_gid).state, TaskState::PausedHostKey);
    assert_eq!(startup.no_space_probe_targets.len(), 3);
    assert_eq!(startup.no_space_probe_targets.remaining(), 3);
    assert_eq!(startup.queue_session_repairs.len(), 2);
    let first_probe = TransitionEffect::ProbeNoSpace(probe(task(&startup.scheduler, first_gid), 1));
    let bound = startup.no_space_probe_targets.consume(&first_probe).expect("bind exact startup target");
    assert_eq!(bound.gid(), first_gid);
    assert_eq!(bound.target(), &path("/outputs/first"));
    assert!(bound.decision().expired);
    assert!(matches!(
        startup.no_space_probe_targets.consume(&first_probe),
        Err(NoSpaceProbeTargetError::AlreadyConsumed)
    ));
    assert_eq!(startup.tasks[2].recovered_retry_budget_elapsed_ms, Some(1_500));
}

#[test]
fn requires_complete_credential_derivation_and_restores_the_exact_requirement() {
    let task_gid = gid(6);
    let journal = recovered_journal(task_gid, task_id(60), journal_id(6));
    let startup_snapshot = snapshot(vec![task_record(task_gid, SessionQueueState::Waiting, 0, &journal)]);
    let reconcile = |admissions: Vec<DerivedCredentialAdmission>| {
        reconcile_startup_with_credentials(startup_snapshot.clone(), vec![journal.clone()], admissions, config())
    };
    assert_eq!(
        reconcile(Vec::new()),
        Err(StartupRecoveryError::MissingCredentialAdmission(task_gid))
    );
    assert_eq!(
        reconcile(no_credentials(vec![task_gid, task_gid])),
        Err(StartupRecoveryError::DuplicateCredentialAdmission(task_gid))
    );
    assert_eq!(
        reconcile(no_credentials(vec![task_gid, gid(99)])),
        Err(StartupRecoveryError::ExtraCredentialAdmission(gid(99)))
    );
    let requirement = CredentialRequirement {
        kind: CredentialKind::HttpAuthentication,
        source: None,
        safe_description: "HTTP credentials required".to_owned(),
    };
    let startup = reconcile(vec![DerivedCredentialAdmission {
        gid: task_gid,
        requirement: Some(requirement.clone()),
    }])
    .expect("credential-blocked startup");
    assert_eq!(
        task(&startup.scheduler_batch, task_gid).conditions.needs_credentials,
        Some(requirement)
    );
}

fn source(uri_id: u32, uri: Option<&str>, needs_credentials: bool, priority: i64) -> SessionTaskSourceRecord {
    SessionTaskSourceRecord {
        uri_id,
        persistence_safe_uri: uri.map(str::to_owned),
        redacted_fingerprint: hash(uri_id as u8),
        needs_credentials,
        priority,
    }
}

#[test]
fn derives_exact_credential_admissions_from_canonical_source_sets() {
    let (blocked_gid, runnable_gid, terminal_gid) = (gid(61), gid(62), gid(63));
    let blocked = recovered_journal(blocked_gid, task_id(61), journal_id(61));
    let runnable = recovered_journal(runnable_gid, task_id(62), journal_id(62));
    let terminal = terminal_journal(terminal_gid, task_id(63), journal_id(63), RecoveredTerminal::Removed);
    let mut startup_snapshot = snapshot(vec![
        task_record(blocked_gid, SessionQueueState::Waiting, 0, &blocked),
        task_record(runnable_gid, SessionQueueState::Waiting, 1, &runnable),
        task_record(terminal_gid, SessionQueueState::Stopped, 0, &terminal),
    ]);
    startup_snapshot.task_sources = vec![
        SessionTaskSourceSet {
            gid: blocked_gid,
            sources: vec![source(7, Some("sftp://files.example/payload"), true, 0)],
        },
        SessionTaskSourceSet {
            gid: runnable_gid,
            sources: vec![source(1, None, true, 0), source(2, Some("https://mirror.example/payload"), false, 1)],
        },
        SessionTaskSourceSet { gid: terminal_gid, sources: vec![source(3, None, true, 0)] },
    ];
    startup_snapshot.stopped_results.push(stopped(terminal_gid, SessionTerminalStatus::Removed, 2_000));
    let admissions = derive_credential_admissions(&startup_snapshot, limits()).expect("derive sources");
    assert_eq!(
        admissions,
        vec![
            DerivedCredentialAdmission {
                gid: blocked_gid,
                requirement: Some(CredentialRequirement {
                    kind: CredentialKind::SftpAuthentication,
                    source: Some(UriId(7)),
                    safe_description: "SFTP credentials required after restart".to_owned(),
                }),
            },
            DerivedCredentialAdmission { gid: runnable_gid, requirement: None },
            DerivedCredentialAdmission { gid: terminal_gid, requirement: None },
        ]
    );
    let startup = reconcile_and_restore_derived(
        startup_snapshot,
        vec![blocked, runnable, terminal],
        config(),
        limits(),
        |batch: SchedulerRestoreBatch| Ok((batch, ())),
    )
    .expect("source-derived startup");
    assert!(task(&startup.scheduler, blocked_gid).conditions.needs_credentials.is_some());
    assert!(task(&startup.scheduler, runnable_gid).conditions.needs_credentials.is_none());
}

#[test]
fn credential_derivation_rejects_missing_extra_and_noncanonical_sources() {
    let journal = recovered_journal(gid(70), task_id(70), journal_id(70));
    let mut startup_snapshot = snapshot(vec![task_record(gid(70), SessionQueueState::Waiting, 0, &journal)]);
    startup_snapshot.task_sources.clear();
    let derive = |snapshot: &SessionStartupSnapshot| derive_credential_admissions(snapshot, limits());
    assert_eq!(derive(&startup_snapshot), Err(CredentialDerivationError::MissingSourceSet(gid(70))));
    startup_snapshot.task_sources.push(SessionTaskSourceSet { gid: gid(99), sources: Vec::new() });
    assert_eq!(derive(&startup_snapshot), Err(CredentialDerivationError::ExtraSourceSet(gid(99))));
    startup_snapshot.task_sources[0] =
        SessionTaskSourceSet { gid: gid(70), sources: vec![source(1, None, false, 0)] };
    assert_eq!(derive(&startup_snapshot), Err(CredentialDerivationError::UnmarkedRedactedSource(gid(70))));
    startup_snapshot.task_sources[0].sources = vec![source(2, None, true, 1), source(1, None, true, 0)];
    assert_eq!(derive(&startup_snapshot), Err(CredentialDerivationError::NonCanonicalSourceOrder(gid(70))));
}

#[test]
fn credential_derivation_rejects_oversized_snapshot_sets_before_indexing() {
    let mut startup_snapshot = snapshot(Vec::new());
    let journal = recovered_journal(gid(71), task_id(71), journal_id(71));
    let task = task_record(gid(71), SessionQueueState::Waiting, 0, &journal);
    startup_snapshot.tasks = vec![task; limits().max_tasks + 1];
    assert_eq!(
        derive_credential_admissions(&startup_snapshot, limits()),
        Err(CredentialDerivationError::TooManyTasks)
    );
    startup_snapshot.tasks.clear();
    startup_snapshot.task_sources =
        vec![SessionTaskSourceSet { gid: gid(71), sources: Vec::new() }; limits().max_tasks + 1];
    assert_eq!(
        derive_credential_admissions(&startup_snapshot, limits()),
        Err(CredentialDerivationError::TooManySourceSets)
    );
}

#[test]
fn no_space_target_catalog_rejects_nonexact_effects_without_consuming() {
    let task_gid = gid(7);
    let journal = recovered_journal(task_gid, task_id(70), journal_id(7));
    let mut record = task_record(task_gid, SessionQueueState::Waiting, 0, &journal);
    record.no_space =
        Some(SessionNoSpaceCondition { target: path("/outputs/exact"), delay: delay(1_500, 3_000, 0) });
    let mut startup = reconcile_startup(snapshot(vec![record]), vec![journal]).expect("no-space startup");
    let exact = probe(task(&startup.scheduler_batch, task_gid), 1);
    let targets = &mut startup.no_space_probe_targets;
    assert!(matches!(
        targets.consume(&TransitionEffect::PublishSnapshot),
        Err(NoSpaceProbeTargetError::NotProbeEffect)
    ));
    let wrong_deadline = ProbeNoSpace { at: MonotonicInstant(exact.at.0 + 1), ..exact };
    assert!(matches!(
        targets.consume(&TransitionEffect::ProbeNoSpace(wrong_deadline)),
        Err(NoSpaceProbeTargetError::DeadlineMismatch)
    ));
    let wrong_origin = ProbeNoSpace { origin: NoSpaceProbeOrigin::ExplicitResume, ..exact };
    assert!(matches!(
        targets.consume(&TransitionEffect::ProbeNoSpace(wrong_origin)),
        Err(NoSpaceProbeTargetError::UnexpectedOrigin)
    ));
    let wrong_identity = ProbeNoSpace {
        identity: RuntimeIdentity { task_id: TaskId(exact.identity.task_id.0 + 1), ..exact.identity },
        probe_id: NoSpaceProbeId(2),
        ..exact
    };
    assert!(matches!(
        targets.consume(&TransitionEffect::ProbeNoSpace(wrong_identity)),
        Err(NoSpaceProbeTargetError::UnknownIdentity)
    ));
    assert_eq!(targets.remaining(), 1);
    let bound = targets.consume(&TransitionEffect::ProbeNoSpace(exact)).expect("exact effect consumes target");
    assert_eq!(bound.probe_id(), exact.probe_id);
    assert_eq!(bound.target(), &path("/outputs/exact"));
    assert!(targets.is_empty());
    assert_eq!(targets.len(), 0);
}

#[test]
fn journal_terminal_and_sqlite_stopped_result_must_pair_exactly() {
    let gid = gid(7);
    let journal = terminal_journal(
        gid,
        task_id(70),
        journal_id(7),
        RecoveredTerminal::Error { error_class: ErrorKind::Network, retriable: false, diagnostic_id: 91 },
    );
    let mut startup_snapshot = snapshot(vec![task_record(gid, SessionQueueState::Stopped, 0, &journal)]);
    startup_snapshot.stopped_results.push(SessionStoppedResultRecord {
        error_kind: Some(ErrorKind::Network),
        safe_message: "network failure".to_owned(),
        ..stopped(gid, SessionTerminalStatus::Error, 2_000)
    });
    let startup = reconcile_startup(startup_snapshot, vec![journal]).expect("terminal restore");
    let restored = task(&startup.scheduler_batch, gid);
    assert_eq!(restored.state, TaskState::StoppedResult);
    assert_eq!(restored.stopped_status, Some(Aria2Status::Error));
    assert_eq!(restored.error.as_ref().and_then(|error| error.diagnostic_id), Some(91));
}

#[test]
fn terminal_cache_payload_fields_must_match_the_journal_exactly() {
    let complete_gid = gid(8);
    let complete = completed_journal(complete_gid, task_id(80), journal_id(8));
    let mut complete_snapshot =
        snapshot(vec![task_record(complete_gid, SessionQueueState::Stopped, 0, &complete)]);
    complete_snapshot.stopped_results.push(stopped(complete_gid, SessionTerminalStatus::Complete, 1_900));
    assert_eq!(
        reconcile_startup(complete_snapshot, vec![complete]),
        Err(StartupRecoveryError::StoppedResultMismatch(complete_gid))
    );
    let error_gid = gid(9);
    let error = terminal_journal(
        error_gid,
        task_id(90),
        journal_id(9),
        RecoveredTerminal::Error { error_class: ErrorKind::Network, retriable: false, diagnostic_id: 92 },
    );
    let mut error_snapshot = snapshot(vec![task_record(error_gid, SessionQueueState::Stopped, 0, &error)]);
    error_snapshot.stopped_results.push(SessionStoppedResultRecord {
        error_kind: Some(ErrorKind::Network),
        safe_message: "network failure".to_owned(),
        total_length: Some(1),
        ..stopped(error_gid, SessionTerminalStatus::Error, 2_000)
    });
    assert_eq!(
        reconcile_startup(error_snapshot, vec![error]),
        Err(StartupRecoveryError::StoppedResultMismatch(error_gid))
    );
    let removed_gid = gid(10);
    let removed = terminal_journal(removed_gid, task_id(100), journal_id(10), RecoveredTerminal::Removed);
    let mut removed_snapshot =
        snapshot(vec![task_record(removed_gid, SessionQueueState::Stopped, 0, &removed)]);
    removed_snapshot.stopped_results.push(SessionStoppedResultRecord {
        layout_hash: Some(hash(44)),
        ..stopped(removed_gid, SessionTerminalStatus::Removed, 2_000)
    });
    assert_eq!(
        reconcile_startup(removed_snapshot, vec![removed]),
        Err(StartupRecoveryError::StoppedResultMismatch(removed_gid))
    );
}

#[test]
fn journal_complete_repairs_missing_results_with_executable_intermediate_orders() {
    let (first_gid, second_gid) = (gid(11), gid(12));
    let first = completed_journal(first_gid, task_id(110), journal_id(11));
    let second = completed_journal(second_gid, task_id(120), journal_id(12));
    let first_task = task_record(first_gid, SessionQueueState::Waiting, 0, &first);
    let second_task = task_record(second_gid, SessionQueueState::Active, 0, &second);
    let startup = reconcile_startup(snapshot(vec![second_task, first_task]), vec![second, first])
        .expect("journal-authorized terminal repairs");
    let batch = &startup.scheduler_batch;
    assert_eq!(task(batch, first_gid).state, TaskState::StoppedResult);
    assert_eq!(queue(batch, QueueClass::Stopped), vec![first_gid, second_gid]);
    assert!(queue(batch, QueueClass::Active).is_empty());
    assert!(queue(batch, QueueClass::Waiting).is_empty());
    assert_eq!(startup.terminal_session_repairs.len(), 2);
    let first_repair = &startup.terminal_session_repairs[0];
    assert_eq!(first_repair.result.gid, first_gid);
    assert_eq!(first_repair.result.status, SessionTerminalStatus::Complete);
    assert_eq!(first_repair.result.total_length, Some(2_048));
    let orders = &first_repair.transition.final_orders;
    assert_eq!(order(orders, SessionQueueState::Stopped), vec![first_gid]);
    assert_eq!(order(orders, SessionQueueState::Waiting), Vec::<Gid>::new());
    let second_repair = &startup.terminal_session_repairs[1];
    assert_eq!(second_repair.result.gid, second_gid);
    assert_eq!(
        order(&second_repair.transition.final_orders, SessionQueueState::Stopped),
        vec![first_gid, second_gid]
    );
}

#[test]
fn queue_normalization_repairs_precede_terminal_repair_with_exact_intermediate_orders() {
    let (active_wait_gid, demoted_pause_gid, waiting_pause_gid) = (gid(1), gid(2), gid(3));
    let (active_pause_gid, terminal_gid, waiting_gid, paused_gid) = (gid(4), gid(5), gid(10), gid(11));
    let active_wait = recovered_journal(active_wait_gid, task_id(1), journal_id(1));
    let demoted_pause = recovered_journal(demoted_pause_gid, task_id(2), journal_id(2));
    let waiting_pause = recovered_journal(waiting_pause_gid, task_id(3), journal_id(3));
    let active_pause = recovered_journal(active_pause_gid, task_id(4), journal_id(4));
    let terminal = completed_journal(terminal_gid, task_id(5), journal_id(5));
    let waiting = recovered_journal(waiting_gid, task_id(10), journal_id(10));
    let paused = recovered_journal(paused_gid, task_id(11), journal_id(11));
    let active_wait_task = task_record(active_wait_gid, SessionQueueState::Active, 0, &active_wait);
    let mut active_pause_task = task_record(active_pause_gid, SessionQueueState::Active, 1, &active_pause);
    active_pause_task.desired_paused = true;
    let waiting_task = task_record(waiting_gid, SessionQueueState::Waiting, 0, &waiting);
    let mut waiting_pause_task = task_record(waiting_pause_gid, SessionQueueState::Waiting, 1, &waiting_pause);
    waiting_pause_task.desired_paused = true;
    let terminal_task = task_record(terminal_gid, SessionQueueState::Waiting, 2, &terminal);
    let paused_task = task_record(paused_gid, SessionQueueState::Paused, 0, &paused);
    let mut demoted_pause_task = task_record(demoted_pause_gid, SessionQueueState::Demoted, 0, &demoted_pause);
    demoted_pause_task.desired_paused = true;
    demoted_pause_task.slow_demotion_count = 1;
    demoted_pause_task.slow_slot =
        Some(SessionSlowSlotState { original_position: 0, retry: Some(delay(1_000, 4_000, 0)) });
    let startup = reconcile_startup(
        snapshot(vec![
            paused_task,
            terminal_task,
            active_pause_task,
            waiting_pause_task,
            demoted_pause_task,
            waiting_task,
            active_wait_task,
        ]),
        vec![terminal, paused, waiting, active_pause, waiting_pause, demoted_pause, active_wait],
    )
    .expect("mixed queue reconciliation");
    let batch = &startup.scheduler_batch;
    let all_paused = vec![paused_gid, waiting_pause_gid, active_pause_gid, demoted_pause_gid];
    assert_eq!(queue(batch, QueueClass::Waiting), vec![waiting_gid, active_wait_gid]);
    assert_eq!(queue(batch, QueueClass::Paused), all_paused);
    assert_eq!(queue(batch, QueueClass::Stopped), vec![terminal_gid]);
    assert_eq!(startup.queue_session_repairs.len(), 4);
    assert_eq!(
        order(&startup.queue_session_repairs[0].final_orders, SessionQueueState::Waiting),
        vec![waiting_gid, active_wait_gid, waiting_pause_gid, terminal_gid]
    );
    assert_eq!(
        order(&startup.queue_session_repairs[3].final_orders, SessionQueueState::Paused),
        all_paused
    );
    assert_eq!(startup.terminal_session_repairs.len(), 1);
    let terminal_repair = &startup.terminal_session_repairs[0];
    assert_eq!(terminal_repair.result.gid, terminal_gid);
    assert_eq!(
        order(&terminal_repair.transition.final_orders, SessionQueueState::Waiting),
        vec![waiting_gid, active_wait_gid]
    );
}

#[test]
fn rejects_missing_extra_and_duplicate_journal_identities() {
    let first = recovered_journal(gid(1), task_id(1), journal_id(1));
    let record = task_record(gid(1), SessionQueueState::Waiting, 0, &first);
    assert_eq!(
        reconcile_startup(snapshot(vec![record.clone()]), Vec::new()),
        Err(StartupRecoveryError::MissingJournal(gid(1)))
    );
    let extra = recovered_journal(gid(2), task_id(2), journal_id(2));
    assert_eq!(
        reconcile_startup(snapshot(vec![record.clone()]), vec![first.clone(), extra]),
        Err(StartupRecoveryError::ExtraJournal(gid(2)))
    );
    let duplicate_id = recovered_journal(gid(2), task_id(2), journal_id(1));
    let second = task_record(gid(2), SessionQueueState::Waiting, 1, &duplicate_id);
    assert!(matches!(
        reconcile_startup(snapshot(vec![record, second]), vec![first, duplicate_id]),
        Err(StartupRecoveryError::DuplicateJournalId(_))
    ));
}

#[test]
fn rejects_non_dense_queue_and_terminal_result_mismatch() {
    let journal = recovered_journal(gid(1), task_id(1), journal_id(1));
    let sparse = task_record(gid(1), SessionQueueState::Waiting, 1, &journal);
    assert!(matches!(
        reconcile_startup(snapshot(vec![sparse]), vec![journal.clone()]),
        Err(StartupRecoveryError::QueueNotDense { .. })
    ));
    let mut stopped_snapshot = snapshot(vec![task_record(gid(1), SessionQueueState::Stopped, 0, &journal)]);
    stopped_snapshot.stopped_results.push(stopped(gid(1), SessionTerminalStatus::Complete, 2_000));
    assert_eq!(
        reconcile_startup(stopped_snapshot, vec![journal]),
        Err(StartupRecoveryError::TerminalQueueMismatch(gid(1)))
    );
}

#[test]
fn rejects_host_key_state_mismatch_and_invalid_deadline() {
    let host_gid = gid(8);
    let host = recovered_journal(host_gid, task_id(8), journal_id(8));
    let mut host_snapshot = snapshot(vec![task_record(host_gid, SessionQueueState::Paused, 0, &host)]);
    host_snapshot.host_key_challenges.push(SessionHostKeyChallengeRecord {
        gid: host_gid,
        challenge_id: HostKeyChallengeId(u128::from_be_bytes([8; 16])),
        canonical_host: "example.test".to_owned(),
        port: 22,
        algorithm: "ssh-ed25519".to_owned(),
        presented_public_key: vec![3; 32],
        fingerprint_sha256: hash(3),
        fault: None,
    });
    assert_eq!(
        reconcile_startup(host_snapshot, vec![host]),
        Err(StartupRecoveryError::HostKeyChallengeMismatch(host_gid))
    );
    let no_space_gid = gid(9);
    let journal = recovered_journal(no_space_gid, task_id(9), journal_id(9));
    let mut record = task_record(no_space_gid, SessionQueueState::Waiting, 0, &journal);
    record.no_space =
        Some(SessionNoSpaceCondition { target: path("/outputs/no-space"), delay: delay(1_000, 0, 0) });
    assert_eq!(
        reconcile_startup(snapshot(vec![record]), vec![journal]),
        Err(StartupRecoveryError::InvalidDeadline {
            gid: no_space_gid,
            kind: StartupDeadlineKind::NoSpace,
            source: PersistedDelayError::ZeroDelay,
        })
    );
}

fn install_intent(
    gid: Gid,
    phase: JournalInstallPhase,
    old_journal_id: JournalId,
    new_journal_id: JournalId,
    source_last_sequence: u64,
) -> JournalInstallIntent {
    JournalInstallIntent {
        gid,
        checkpoint_id: checkpoint_id(42),
        old_journal_id,
        old_path: path("/journals/old"),
        new_journal_id,
        new_path: path("/journals/new"),
        source_last_sequence,
        phase,
    }
}

#[test]
fn journal_install_recovery_binds_checkpoint_evidence_and_orders_appender_opening() {
    let installing_gid = gid(20);
    let (old_id, new_id) = (journal_id(20), journal_id(21));
    let installing = recovered_journal(installing_gid, task_id(20), old_id);
    let mut installing_task = task_record(installing_gid, SessionQueueState::Waiting, 0, &installing);
    installing_task.primary_journal_path = path("/journals/old");
    let installing_intent = install_intent(installing_gid, JournalInstallPhase::Installing, old_id, new_id, 1);
    let mut installing_snapshot = snapshot(vec![installing_task]);
    installing_snapshot.journal_installs.push(installing_intent.clone());
    let startup = reconcile_startup(installing_snapshot, vec![installing]).expect("installing recovery");
    assert!(startup.appender_recoveries.is_empty());
    assert_eq!(startup.journal_install_recoveries.len(), 1);
    let deferred = &startup.journal_install_recoveries[0];
    assert_eq!(deferred.task_id, TaskId(1));
    assert_eq!(deferred.intent, installing_intent);
    assert_eq!(deferred.authoritative_journal_id, old_id);
    assert_eq!(deferred.authoritative_last_sequence, 2);
    assert!(deferred.authoritative_last_sequence > deferred.intent.source_last_sequence);
    assert_eq!(deferred.authoritative_checkpoint, None);

    let installed_gid = gid(22);
    let (installed_old_id, installed_new_id) = (journal_id(22), journal_id(23));
    let installed = checkpoint_journal(installed_gid, task_id(22), installed_new_id, checkpoint_id(42), 77);
    let mut installed_task = task_record(installed_gid, SessionQueueState::Waiting, 0, &installed);
    installed_task.primary_journal_path = path("/journals/new");
    let installed_intent = install_intent(
        installed_gid,
        JournalInstallPhase::Installed,
        installed_old_id,
        installed_new_id,
        77,
    );
    let mut installed_snapshot = snapshot(vec![installed_task]);
    installed_snapshot.journal_installs.push(installed_intent.clone());
    let startup = reconcile_startup(installed_snapshot, vec![installed]).expect("installed recovery");
    assert_eq!(startup.appender_recoveries.len(), 1);
    assert_eq!(startup.journal_install_recoveries.len(), 1);
    let deferred = &startup.journal_install_recoveries[0];
    assert_eq!(deferred.intent, installed_intent);
    assert_eq!(deferred.authoritative_journal_id, installed_new_id);
    assert_eq!(deferred.authoritative_last_sequence, 4);
    assert_eq!(
        deferred.authoritative_checkpoint.as_ref().expect("installed checkpoint").source_last_sequence,
        77
    );
}

#[test]
fn rejects_stale_install_path_sequence_and_checkpoint_evidence() {
    let task_gid = gid(24);
    let (old_id, new_id) = (journal_id(24), journal_id(25));
    let journal = recovered_journal(task_gid, task_id(24), old_id);
    let reconcile = |journal: &RecoveredTaskJournal, at: &str, intent: JournalInstallIntent| {
        let mut record = task_record(task_gid, SessionQueueState::Waiting, 0, journal);
        record.primary_journal_path = path(at);
        let mut startup_snapshot = snapshot(vec![record]);
        startup_snapshot.journal_installs.push(intent);
        reconcile_startup(startup_snapshot, vec![journal.clone()])
    };
    let intent = |phase, sequence| install_intent(task_gid, phase, old_id, new_id, sequence);
    assert_eq!(
        reconcile(&journal, "/journals/stale", intent(JournalInstallPhase::Installing, 2)),
        Err(StartupRecoveryError::JournalInstallMismatch(task_gid))
    );
    assert_eq!(
        reconcile(&journal, "/journals/old", intent(JournalInstallPhase::Installing, 3)),
        Err(StartupRecoveryError::JournalInstallSourceAhead(task_gid))
    );
    let installed = checkpoint_journal(task_gid, task_id(24), new_id, checkpoint_id(42), 77);
    assert_eq!(
        reconcile(&installed, "/journals/new", intent(JournalInstallPhase::Installed, 78)),
        Err(StartupRecoveryError::InstalledCheckpointMismatch(task_gid))
    );
    let mut wrong_checkpoint_id = intent(JournalInstallPhase::Installed, 77);
    wrong_checkpoint_id.checkpoint_id = checkpoint_id(43);
    assert_eq!(
        reconcile(&installed, "/journals/new", wrong_checkpoint_id),
        Err(StartupRecoveryError::InstalledCheckpointMismatch(task_gid))
    );
}

#[test]
fn rejects_demoted_task_without_representable_slow_decision() {
    let gid = gid(10);
    let journal = recovered_journal(gid, task_id(10), journal_id(10));
    let mut record = task_record(gid, SessionQueueState::Demoted, 0, &journal);
    record.slow_demotion_count = 1;
    record.slow_slot = Some(SessionSlowSlotState { original_position: 0, retry: None });
    assert_eq!(
        reconcile_startup(snapshot(vec![record]), vec![journal]),
        Err(StartupRecoveryError::MissingSlowDeadline(gid))
    );
}

#[test]
fn a_scheduler_that_refuses_fails_the_startup() {
    let refused = reconcile_and_restore(
        snapshot(Vec::new()),
        Vec::new(),
        Vec::new(),
        config(),
        |_: SchedulerRestoreBatch| Err::<((), ()), SchedulerRestoreError>(SchedulerRestoreError { code: 3 }),
    );
    assert!(matches!(
        refused,
        Err(StartupRecoveryError::SchedulerRestore(SchedulerRestoreError { code: 3 }))
    ));
    assert!(reconcile_startup_derived(snapshot(Vec::new()), Vec::new(), config(), limits()).is_ok());
}

#[test]
fn the_order_of_records_does_not_matter() {
    let gids = [gid(1), gid(2), gid(3)];
    let journals: Vec<RecoveredTaskJournal> = (0u8..3)
        .map(|i| recovered_journal(gids[usize::from(i)], task_id(10 + u64::from(i)), journal_id(1 + i)))
        .collect();
    let tasks: Vec<_> = (0u32..3)
        .zip(&journals)
        .map(|(i, journal)| task_record(journal.gid, SessionQueueState::Waiting, 2 - i, journal))
        .collect();
    let admissions = no_credentials(gids.to_vec());
    let forward =
        reconcile_startup_with_credentials(snapshot(tasks.clone()), journals.clone(), admissions.clone(), config())
            .expect("forward");
    let turned = |mut tasks: Vec<_>, by: usize| {
        tasks.rotate_left(by);
        tasks
    };
    let mut rows = journals;
    rows.reverse();
    let mut decisions = admissions;
    decisions.rotate_left(1);
    let other =
        reconcile_startup_with_credentials(snapshot(turned(tasks, 2)), rows, decisions, config()).expect("other");
    assert_eq!(forward, other);
    assert_eq!(queue(&forward.scheduler_batch, QueueClass::Waiting), vec![gids[2], gids[1], gids[0]]);
}
