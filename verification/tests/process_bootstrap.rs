use ariax_engine::bootstrap::{
    bootstrap_process, derive_process_session_id, permits_persisted_options, restored_timers, BootstrapAction,
    BootstrapEvent, Cause, DriverPoll, NativeStartup, ProcessBootstrap, ProcessBootstrapConfig,
    ProcessBootstrapError, ProcessBootstrapFailure, RestoreRefusal, TaskTimers,
};
use ariax_engine::credentials::SessionLimits;
use ariax_engine::reconcile::{DerivedStartupError, SchedulerConfig, StartupRecoveryConfig};
use ariax_engine::runtime_effects::RuntimeEffectConfig;
use ariax_engine::session::{
    Generation, Gid, JournalId, MonotonicInstant, RecoveredJournalState, RecoveredTaskJournal, SessionId,
    SessionRecord, SessionStartupSnapshot, TaskId,
};
use ariax_engine::shutdown::{
    command_patience, current_unix_ms, session_result_code, CommandPatience, ProcessDrainOutcome, ProcessShutdown,
    ProcessShutdownError, ProcessShutdownReport, SessionCommandResult, SessionCommandWait, SessionOwnerFault,
    ShutdownAction, ShutdownCoordinatorError, ShutdownEvent, ShutdownProgress, ShutdownReport, ShutdownStep,
    ShutdownTicket, DEFAULT_PROCESS_SHUTDOWN_STEP_TIMEOUT_MS,
};

use ariax_engine::startup::StartupRecoveryError;
use ariax_engine::startup_executor::{RepairAnswer, RepairNeed, SessionOwnerError};

const INVALID_STEP_TIMEOUT: Cause = Cause(1);

const MISSING_CONTROL: Cause = Cause(2);

const STEPS: [ShutdownStep; 4] = [
    ShutdownStep::StopAdmission,
    ShutdownStep::DrainDiskCpu,
    ShutdownStep::FlushJournal,
    ShutdownStep::PersistSession,
];

/// What lies on disk and who holds it.
struct World {
    stored: Option<SessionRecord>,
    owner_running: bool,
    control_present: bool,
    step_timeout_ms: u64,
    native: NativeStartup,
    polls: Vec<DriverPoll>,
}

fn world() -> World {
    World {
        stored: None,
        owner_running: false,
        control_present: true,
        step_timeout_ms: DEFAULT_PROCESS_SHUTDOWN_STEP_TIMEOUT_MS,
        native: NativeStartup { probe_targets: 0, timers: Vec::new(), restore_effects: 0 },
        polls: vec![DriverPoll::Completed],
    }
}

fn snapshot(session: Option<SessionRecord>) -> SessionStartupSnapshot {
    SessionStartupSnapshot {
        session,
        tasks: Vec::new(),
        task_sources: Vec::new(),
        stopped_results: Vec::new(),
        host_key_challenges: Vec::new(),
        journal_installs: Vec::new(),
    }
}

fn config() -> ProcessBootstrapConfig {
    ProcessBootstrapConfig {
        database_path: "/var/lib/ariax/session.db".to_owned(),
        process: 42,
        recovery: StartupRecoveryConfig {
            scheduler: SchedulerConfig { max_tasks: 64, max_active: 4 },
            now_wall_unix_ms: 1_000,
        },
        session_limits: SessionLimits { max_tasks: 64, max_sources_per_task: 64, max_safe_uri_bytes: 8_192 },
        runtime: RuntimeEffectConfig {
            request_capacity: 8,
            event_capacity: 8,
            timer_capacity: 8,
            option_plan_capacity: 8,
        },
        updated_ms: 1_000,
        recovery_created_at_unix_ms: 1_000,
    }
}

/// Starts a process in the world: what is published, with the actions on the way.
fn start(world: &mut World) -> (Result<SessionRecord, ProcessBootstrapError>, Vec<&'static str>) {
    let (mut state, mut action) = bootstrap_process(config());
    let mut trace = Vec::new();
    let mut polls = world.polls.clone().into_iter();
    loop {
        let event = match action {
            BootstrapAction::SpawnOwner => {
                trace.push("spawn");
                assert!(!world.owner_running);
                world.owner_running = true;
                BootstrapEvent::Spawned(Ok(snapshot(world.stored)))
            }
            BootstrapAction::PutSession(record) => {
                trace.push("put");
                world.stored = Some(record);
                BootstrapEvent::SessionPut(Ok(SessionCommandResult::Unit))
            }
            BootstrapAction::OpenFilesystem => {
                trace.push("filesystem");
                let result = if world.control_present { Ok(()) } else { Err(MISSING_CONTROL) };
                BootstrapEvent::FilesystemOpened(result)
            }
            BootstrapAction::RecoverJournals => {
                trace.push("journals");
                let found = state.snapshot().expect("snapshot");
                assert_eq!(found.session, world.stored);
                BootstrapEvent::JournalsRecovered(Ok(Vec::new()))
            }
            BootstrapAction::Repair => {
                trace.push("repair");
                assert_eq!(state.repairs().expect("repairs").need(), RepairNeed::Nothing);
                BootstrapEvent::Repaired(RepairAnswer::Nothing)
            }
            BootstrapAction::StartNative(left) => {
                trace.push("native");
                assert!(left.tasks.is_empty());
                BootstrapEvent::NativeStarted(Ok(world.native.clone()))
            }
            BootstrapAction::BeginRestore => {
                trace.push("restore");
                BootstrapEvent::RestoreBegun(Ok(()))
            }
            BootstrapAction::PollDriver => {
                trace.push("poll");
                BootstrapEvent::Polled(polls.next().unwrap_or(DriverPoll::Progressed))
            }
            BootstrapAction::InspectDriver => {
                trace.push("inspect");
                BootstrapEvent::Inspected { idle: true, remaining_targets: 0 }
            }
            BootstrapAction::BuildCoordinator => {
                trace.push("coordinator");
                let result = if world.step_timeout_ms == 0 { Err(INVALID_STEP_TIMEOUT) } else { Ok(()) };
                BootstrapEvent::CoordinatorBuilt(result)
            }
            BootstrapAction::CloseOwner => {
                trace.push("close");
                world.owner_running = false;
                BootstrapEvent::OwnerClosed(None)
            }
            BootstrapAction::Publish(record) => {
                trace.push("publish");
                return (Ok(record), trace);
            }
            BootstrapAction::Fail(error) => {
                trace.push("fail");
                return (Err(error), trace);
            }
            BootstrapAction::Refuse => panic!("refused"),
        };
        let next = state.step(event);
        state = next.0;
        action = next.1;
    }
}

/// A coordinator of the minimal sequence.
struct Coordinator {
    next: usize,
    failed: u8,
    timed_out: u8,
}

impl Coordinator {
    fn ticket(&self) -> ShutdownTicket {
        ShutdownTicket {
            step: STEPS[self.next],
            deadline: MonotonicInstant(1_000_000_000),
            checkpoint_dirty: self.failed != 0,
        }
    }

    fn settle(&mut self, ticket: ShutdownTicket, succeeded: bool, expired: bool) -> ShutdownProgress {
        assert_eq!(ticket.step, STEPS[self.next]);
        if !succeeded {
            self.failed |= 1 << self.next;
        }
        if expired {
            self.timed_out |= 1 << self.next;
        }
        self.next += 1;
        if self.next == STEPS.len() {
            ShutdownProgress::Complete(ShutdownReport {
                clean: self.failed == 0,
                failed_steps: self.failed,
                timed_out_steps: self.timed_out,
            })
        } else {
            ShutdownProgress::Advanced(self.ticket())
        }
    }
}

fn bit(report: u8, step: ShutdownStep) -> bool {
    let index = STEPS.iter().position(|other| *other == step).expect("step");
    report & (1 << index) != 0
}

/// What goes wrong in a shutdown.
#[derive(Clone, Copy)]
struct Faults {
    drain: ProcessDrainOutcome,
    flush: SessionCommandWait,
    owner: Option<SessionOwnerFault>,
    put: Result<(), &'static str>,
}

fn no_faults() -> Faults {
    Faults {
        drain: ProcessDrainOutcome::Drained,
        flush: SessionCommandWait::Completed(SessionCommandResult::JournalsFlushed(0)),
        owner: None,
        put: Ok(()),
    }
}

fn stop(
    world: &mut World,
    record: SessionRecord,
    faults: Faults,
) -> Result<ProcessShutdownReport, ProcessShutdownError> {
    let (mut state, mut action) = ProcessShutdown::begin_shutdown(record, true)?;
    let mut coordinator = Coordinator { next: 0, failed: 0, timed_out: 0 };
    let now_unix_ms = 2_000;
    loop {
        let event = match action {
            ShutdownAction::BeginCoordinator => ShutdownEvent::Began(Ok(coordinator.ticket())),
            ShutdownAction::StopAdmission(ticket) => ShutdownEvent::Progress {
                result: Ok(coordinator.settle(ticket, true, false)),
                now_unix_ms,
            },
            ShutdownAction::DrainLanes(_) => ShutdownEvent::Drained(faults.drain),
            ShutdownAction::Complete { ticket, succeeded } => ShutdownEvent::Progress {
                result: Ok(coordinator.settle(ticket, succeeded, false)),
                now_unix_ms,
            },
            ShutdownAction::Expire(ticket) => ShutdownEvent::Progress {
                result: Ok(coordinator.settle(ticket, false, true)),
                now_unix_ms,
            },
            ShutdownAction::FlushJournals(_) => ShutdownEvent::Session(faults.flush),
            ShutdownAction::CloseJournals(_) => {
                ShutdownEvent::Session(SessionCommandWait::Completed(SessionCommandResult::JournalsClosed(0)))
            }
            ShutdownAction::StopOwner(_) => match faults.owner {
                Some(fault) => ShutdownEvent::OwnerStopped(Err(fault)),
                None => {
                    world.owner_running = false;
                    ShutdownEvent::OwnerStopped(Ok(()))
                }
            },
            ShutdownAction::OpenStore => {
                assert!(!world.owner_running);
                ShutdownEvent::StoreOpened(Ok(()))
            }
            ShutdownAction::PutSession(record) => {
                if faults.put.is_ok() {
                    world.stored = Some(record);
                }
                ShutdownEvent::Stored(faults.put)
            }
            ShutdownAction::Finish(result) => return result,
            ShutdownAction::Refuse => panic!("refused"),
        };
        let next = state.step(event);
        state = next.0;
        action = next.1;
    }
}

#[test]
fn empty_process_bootstrap_publishes_only_after_all_startup_stages() {
    let mut world = world();
    let (published, trace) = start(&mut world);
    let record = published.expect("bootstrap empty process");
    let stages: Vec<&str> = trace.iter().copied().filter(|action| *action != "repair").collect();
    assert!(trace.contains(&"repair"));
    assert_eq!(
        stages,
        vec![
            "spawn", "put", "filesystem", "journals", "native", "restore", "poll", "inspect", "coordinator",
            "publish",
        ]
    );
    assert!(!record.clean_shutdown);
    let report = stop(&mut world, record, no_faults()).expect("shutdown process");
    assert!(report.is_clean());
    assert_eq!(report.journals_flushed, 0);
    assert_eq!(report.journals_closed, 0);
    assert!(world.stored.expect("record").clean_shutdown);

    let (published, _) = start(&mut world);
    let restarted = published.expect("restart clean process");
    assert!(!restarted.clean_shutdown);
    assert!(stop(&mut world, restarted, no_faults()).expect("shutdown restarted process").is_clean());
}

#[test]
fn failed_and_timed_out_drain_persist_a_dirty_checkpoint() {
    for (label, outcome) in [("failed", ProcessDrainOutcome::Failed), ("timed-out", ProcessDrainOutcome::TimedOut)] {
        let mut world = world();
        let (published, _) = start(&mut world);
        let record = published.expect("bootstrap process");
        let faults = Faults { drain: outcome, ..no_faults() };
        let report = stop(&mut world, record, faults).expect("finish dirty shutdown");
        assert!(!report.is_clean(), "{label}");
        assert!(bit(report.shutdown().failed_steps, ShutdownStep::DrainDiskCpu), "{label}");
        assert_eq!(
            bit(report.shutdown().timed_out_steps, ShutdownStep::DrainDiskCpu),
            outcome == ProcessDrainOutcome::TimedOut,
            "{label}"
        );
        assert_eq!(report.journal_failure(), None, "{label}");
        assert_eq!(report.session_failure(), None, "{label}");
        assert!(!world.stored.expect("record").clean_shutdown, "{label}");
    }
}

#[test]
fn failed_bootstrap_closes_the_session_owner_before_returning() {
    let mut world = world();
    world.control_present = false;
    let (published, trace) = start(&mut world);
    let error = published.expect_err("missing control directory must fail");
    assert!(error.shutdown_error().is_none());
    assert!(!world.owner_running);
    assert_eq!(trace, vec!["spawn", "put", "filesystem", "close", "fail"]);
}

#[test]
fn invalid_shutdown_timeout_fails_before_process_publication() {
    let mut world = world();
    world.step_timeout_ms = 0;
    let (published, trace) = start(&mut world);
    let error = published.expect_err("zero shutdown timeout must fail");
    assert!(matches!(error.failure(), ProcessBootstrapFailure::ShutdownCoordinator(INVALID_STEP_TIMEOUT)));
    assert!(error.shutdown_error().is_none());
    assert!(!world.owner_running);
    assert!(!trace.contains(&"publish"));
}

#[test]
fn a_session_that_runs_already_is_not_written_again() {
    let mut world = world();
    world.stored =
        Some(SessionRecord { session_id: SessionId(5), created_ms: 10, updated_ms: 4_000, clean_shutdown: false });
    let (published, trace) = start(&mut world);
    assert_eq!(published.expect("start"), world.stored.expect("record"));
    assert!(!trace.contains(&"put"));
}

#[test]
fn the_time_of_a_session_never_runs_backwards() {
    let mut world = world();
    world.stored =
        Some(SessionRecord { session_id: SessionId(5), created_ms: 9_000, updated_ms: 4_000, clean_shutdown: true });
    let (published, _) = start(&mut world);
    let record = published.expect("start");
    assert_eq!(record.updated_ms, 9_000);
    assert_eq!(record.session_id, SessionId(5));
    stop(&mut world, record, no_faults()).expect("stop");
    assert_eq!(world.stored.expect("record").updated_ms, 9_000);
}

#[test]
fn restoring_more_than_the_runtime_holds_fails() {
    let mut crowded = world();
    crowded.native.probe_targets = 9;
    let error = start(&mut crowded).0.expect_err("probes");
    assert_eq!(error.message("", ""), "runtime request capacity 8 cannot retain 9 restored probes");
    assert!(!crowded.owner_running);

    let mut late = world();
    late.native.timers = vec![Some(TaskTimers { retry: true, slow: true }); 6];
    let error = start(&mut late).0.expect_err("timers");
    assert_eq!(error.message("", ""), "runtime timer capacity 8 cannot retain 12 restored timers");
}

#[test]
fn a_driver_that_never_completes_is_given_up() {
    let mut world = world();
    world.polls = Vec::new();
    world.native.restore_effects = 1;
    world.native.timers = vec![None];
    let (published, trace) = start(&mut world);
    let error = published.expect_err("bounded");
    assert!(matches!(error.failure(), ProcessBootstrapFailure::RestoreDidNotComplete));
    assert_eq!(trace.iter().filter(|action| **action == "poll").count(), 4 + 2 + 32);

    world.polls = vec![DriverPoll::Backpressured];
    let error = start(&mut world).0.expect_err("backpressured");
    assert_eq!(error.message("", ""), "scheduler restore unexpectedly backpressured");
    world.polls = vec![DriverPoll::Faulted(Cause(9))];
    let error = start(&mut world).0.expect_err("faulted");
    assert_eq!(error.message("no task", ""), "scheduler restore faulted: no task");
}

/// A start that has been led through so many stages.
fn led(stages: usize) -> ProcessBootstrap {
    let (mut state, _) = bootstrap_process(config());
    let stale = SessionRecord { session_id: SessionId(5), created_ms: 1, updated_ms: 1, clean_shutdown: true };
    for stage in 0..stages {
        let event = match stage {
            0 => BootstrapEvent::Spawned(Ok(snapshot(Some(stale)))),
            1 => BootstrapEvent::SessionPut(Ok(SessionCommandResult::Unit)),
            2 => BootstrapEvent::FilesystemOpened(Ok(())),
            3 => BootstrapEvent::JournalsRecovered(Ok(Vec::new())),
            4 => {
                while state.repairs().is_some() {
                    state = state.step(BootstrapEvent::Repaired(RepairAnswer::Nothing)).0;
                }
                continue;
            }
            5 => BootstrapEvent::NativeStarted(Ok(world().native)),
            6 => BootstrapEvent::RestoreBegun(Ok(())),
            7 => BootstrapEvent::Polled(DriverPoll::Completed),
            _ => BootstrapEvent::Inspected { idle: true, remaining_targets: 0 },
        };
        let (next, action) = state.step(event);
        assert!(!matches!(action, BootstrapAction::Refuse | BootstrapAction::CloseOwner));
        state = next;
    }
    state
}

fn failure_of(state: ProcessBootstrap, event: BootstrapEvent, closing: Option<Cause>) -> ProcessBootstrapError {
    let (state, action) = state.step(event);
    assert!(matches!(action, BootstrapAction::CloseOwner));
    let (_, last) = state.step(BootstrapEvent::OwnerClosed(closing));
    let BootstrapAction::Fail(error) = last else { panic!("no failure") };
    error
}

#[test]
fn each_refused_stage_names_its_failure() {
    let refused: Vec<(usize, fn() -> BootstrapEvent, &str)> = vec![
        (2, || BootstrapEvent::FilesystemOpened(Err(Cause(3))), "native filesystem startup failed: x"),
        (3, || BootstrapEvent::JournalsRecovered(Err(Cause(3))), "native filesystem startup failed: x"),
        (5, || BootstrapEvent::NativeStarted(Err(Cause(3))), "native startup failed: x"),
        (
            6,
            || BootstrapEvent::RestoreBegun(Err(RestoreRefusal::Catalog(Cause(3)))),
            "persistence catalog configuration failed: x",
        ),
        (
            6,
            || BootstrapEvent::RestoreBegun(Err(RestoreRefusal::Input(Cause(3)))),
            "scheduler restore input failed: x",
        ),
        (7, || BootstrapEvent::Polled(DriverPoll::Idle), "scheduler restore exceeded its bounded progress budget"),
        (
            8,
            || BootstrapEvent::Inspected { idle: true, remaining_targets: 2 },
            "2 startup no-space probe targets were not consumed",
        ),
        (9, || BootstrapEvent::CoordinatorBuilt(Err(Cause(3))), "shutdown coordinator configuration failed: x"),
    ];
    for (stage, event, message) in refused {
        for other in 0..10 {
            if other != stage {
                let (_, action) = led(other).step(event());
                assert!(matches!(action, BootstrapAction::Refuse | BootstrapAction::CloseOwner), "{message}");
            }
        }
        assert_eq!(
            failure_of(led(stage), event(), Some(Cause(4))).message("x", "y"),
            format!("{message}; owner cleanup also failed: y")
        );
        assert_eq!(failure_of(led(stage), event(), None).message("x", "y"), message);
    }
}

fn foreign_journal() -> RecoveredTaskJournal {
    let state = RecoveredJournalState {
        task: TaskId(7),
        generation: Generation(1),
        last_sequence: 1,
        current_options: None,
        layout: None,
        terminal: None,
        paused: None,
        retry_states: Vec::new(),
        checkpoint: None,
    };
    RecoveredTaskJournal { gid: Gid(7), journal_id: JournalId(7), state }
}

#[test]
fn records_that_do_not_reconcile_or_repair_end_the_start() {
    let error = failure_of(led(3), BootstrapEvent::JournalsRecovered(Ok(vec![foreign_journal()])), None);
    assert!(matches!(
        error.failure(),
        ProcessBootstrapFailure::Reconciliation(DerivedStartupError::Recovery(StartupRecoveryError::ExtraJournal(
            Gid(7)
        )))
    ));
    assert_eq!(error.message("x", ""), "startup reconciliation failed: x");

    let refused = RepairAnswer::Rejected(SessionOwnerError::QueueFull);
    let error = failure_of(led(4), BootstrapEvent::Repaired(refused), None);
    assert!(matches!(error.failure(), ProcessBootstrapFailure::Repairs(_)));
    assert_eq!(error.message("x", ""), "startup SQLite repair failed: x");
}

#[test]
fn an_owner_that_does_not_start_or_does_not_write_is_reported() {
    let (state, _) = bootstrap_process(config());
    let (_, action) = state.step(BootstrapEvent::Spawned(Err(Cause(6))));
    let BootstrapAction::Fail(error) = action else { panic!("no failure") };
    assert!(error.shutdown_error().is_none());
    assert_eq!(error.message("locked", ""), "session owner startup failed: locked");

    let (state, _) = bootstrap_process(config());
    let (state, _) = state.step(BootstrapEvent::Spawned(Ok(snapshot(None))));
    let (state, action) = state.step(BootstrapEvent::SessionPut(Ok(SessionCommandResult::QueueOrder)));
    assert!(matches!(action, BootstrapAction::CloseOwner));
    let (_, action) = state.step(BootstrapEvent::OwnerClosed(None));
    let BootstrapAction::Fail(error) = action else { panic!("no failure") };
    assert_eq!(error.message("", ""), "session initialization returned unexpected queue_order");
}

#[test]
fn a_failed_flush_leaves_the_session_dirty() {
    let flushes = [
        (SessionCommandWait::TimedOut, "timed_out", true),
        (SessionCommandWait::Failed(SessionOwnerFault { code: "stopped", timed_out: false }), "stopped", false),
        (SessionCommandWait::Completed(SessionCommandResult::Unit), "unit", false),
    ];
    for (flush, code, timed_out) in flushes {
        let mut world = world();
        let record = start(&mut world).0.expect("start");
        let report = stop(&mut world, record, Faults { flush, ..no_faults() }).expect("report");
        assert!(!report.is_clean());
        assert_eq!(report.journal_failure(), Some(code));
        assert_eq!(bit(report.shutdown().timed_out_steps, ShutdownStep::FlushJournal), timed_out);
        assert!(!world.stored.expect("record").clean_shutdown);
    }
}

#[test]
fn an_owner_that_does_not_stop_is_reported_with_the_report() {
    let mut world = world();
    let record = start(&mut world).0.expect("start");
    let owner = Some(SessionOwnerFault { code: "join", timed_out: true });
    let error = stop(&mut world, record, Faults { owner, ..no_faults() }).expect_err("owner");
    let report = error.report().expect("report");
    assert!(!report.is_clean());
    assert_eq!(report.session_failure(), Some("join"));
    assert!(bit(report.shutdown().timed_out_steps, ShutdownStep::PersistSession));
    assert_eq!(error.message("late", "", ""), "session owner shutdown failed: late");
}

#[test]
fn a_session_that_cannot_be_written_is_not_clean() {
    let mut world = world();
    let record = start(&mut world).0.expect("start");
    let report = stop(&mut world, record, Faults { put: Err("disk_full"), ..no_faults() }).expect("report");
    assert!(!report.is_clean());
    assert_eq!(report.session_failure(), Some("disk_full"));
    assert!(!world.stored.expect("record").clean_shutdown);
}

#[test]
fn a_shutdown_begins_once_and_in_order() {
    let record = SessionRecord { session_id: SessionId(1), created_ms: 0, updated_ms: 0, clean_shutdown: false };
    let error = ProcessShutdown::begin_shutdown(record, false).expect_err("taken");
    assert_eq!(error.message("", "", ""), "shutdown coordinator authority is unavailable");
    assert!(error.report().is_none());

    let (state, _) = ProcessShutdown::begin_shutdown(record, true).expect("begin");
    let (_, action) = state.step(ShutdownEvent::Began(Err(ShutdownCoordinatorError(3))));
    let ShutdownAction::Finish(Err(error)) = action else { panic!("no error") };
    assert_eq!(error.message("busy", "", ""), "shutdown coordinator failed: busy");

    let wrong = ShutdownTicket {
        step: ShutdownStep::FlushJournal,
        deadline: MonotonicInstant(5),
        checkpoint_dirty: false,
    };
    let (_, action) = state.step(ShutdownEvent::Began(Ok(wrong)));
    let ShutdownAction::Finish(Err(error)) = action else { panic!("no error") };
    assert_eq!(
        error.message("", "stop_admission", "flush_journal"),
        "shutdown expected stop_admission but reached flush_journal"
    );
    let (state, action) = state.step(ShutdownEvent::Drained(ProcessDrainOutcome::Drained));
    assert!(matches!(action, ShutdownAction::Refuse));

    let first = ShutdownTicket { step: ShutdownStep::StopAdmission, ..wrong };
    let (state, _) = state.step(ShutdownEvent::Began(Ok(first)));
    let idle = ShutdownEvent::Progress { result: Ok(ShutdownProgress::Idle), now_unix_ms: 0 };
    let (_, action) = state.step(idle);
    let ShutdownAction::Finish(Err(error)) = action else { panic!("no error") };
    assert_eq!(error.message("", "drain", "unused"), "shutdown expected drain but reached complete");
}

#[test]
fn waiting_for_a_command_looks_every_millisecond() {
    let at = |nanos: u64| MonotonicInstant(nanos);
    assert_eq!(command_patience(at(5_000_000), at(9_000_000)), CommandPatience::Park(1_000_000));
    assert_eq!(command_patience(at(8_999_999), at(9_000_000)), CommandPatience::Park(1));
    assert_eq!(command_patience(at(9_000_000), at(9_000_000)), CommandPatience::TimedOut);
}

#[test]
fn the_clock_is_capped() {
    assert_eq!(current_unix_ms(None, 100), 0);
    assert_eq!(current_unix_ms(Some(7), 100), 7);
    assert_eq!(current_unix_ms(Some(700), 100), 100);
    assert_eq!(current_unix_ms(Some(u128::from(u64::MAX) + 1), 100), 0);
}

#[test]
fn session_results_have_names() {
    assert_eq!(session_result_code(SessionCommandResult::JournalsClosed(3)), "journals_closed");
    assert_eq!(session_result_code(SessionCommandResult::HostKeyChallenges), "host_key_challenges");
    assert_eq!(session_result_code(SessionCommandResult::JournalSnapshot), "journal_snapshot");
}

#[test]
fn restored_timers_count_retries_and_slow_slots() {
    let tasks = vec![
        Some(TaskTimers { retry: true, slow: true }),
        None,
        Some(TaskTimers { retry: false, slow: true }),
        Some(TaskTimers { retry: false, slow: false }),
    ];
    assert_eq!(restored_timers(&tasks), 3);
}

#[test]
fn persisted_options_are_bounded_and_all_permitted() {
    assert!(permits_persisted_options(&vec![true, true], 2));
    assert!(!permits_persisted_options(&vec![true, true, true], 2));
    assert!(!permits_persisted_options(&vec![true, false], 2));
}

#[test]
fn session_identities_follow_their_material() {
    let id = derive_process_session_id("/var/lib/ariax/session.db", 1_700_000_000_000, 42);
    assert_eq!(id, SessionId(0x0fd0a983c4e5ce08f86c78f7ab2db9a2));
    assert_ne!(id, derive_process_session_id("/var/lib/ariax/session.db", 1_700_000_000_000, 43));
    assert_ne!(id, derive_process_session_id("/var/lib/ariax/session.db", 1_700_000_000_001, 42));
    assert_ne!(id, derive_process_session_id("/var/lib/ariax/session2.db", 1_700_000_000_000, 42));
}

#[test]
fn a_new_session_gets_the_identity_of_its_place_time_and_process() {
    let mut world = world();
    world.stored = None;
    let (published, trace) = start(&mut world);
    let record = published.expect("start");
    assert!(trace.contains(&"put"));
    assert_eq!(record.session_id, derive_process_session_id("/var/lib/ariax/session.db", 1_000, 42));
    assert_eq!((record.created_ms, record.updated_ms, record.clean_shutdown), (1_000, 1_000, false));
}
