//! Laws of a process's life: how it starts, what it takes up and how it ends.
use vstd::prelude::*;
use crate::bootstrap::{
    restore_fault, running_record, timers_of, BootstrapAction, BootstrapEvent, BootstrapStage, Cause, DriverPoll,
    NativeStartup, ProcessBootstrap, ProcessBootstrapConfig, ProcessBootstrapFailure, RestoreRefusal, TaskTimers,
};
use crate::engine_build::{plain_path, EngineBuilder};
use crate::reconcile::StartupReconciliation;
use crate::session::{MonotonicInstant, SessionRecord};
use crate::shutdown::{
    closing_record, expected_ticket, time_left, ProcessDrainOutcome, ProcessShutdown, ProcessShutdownReport,
    SessionCommandResult, SessionCommandWait, SessionOwnerFault, ShutdownAction, ShutdownEvent, ShutdownPhase,
    ShutdownProgress, ShutdownReport, ShutdownStep, ShutdownTicket,
};
use crate::startup::DeferredJournalInstallRecovery;
use crate::startup_executor::{
    finished, RepairAnswer, RepairState, SessionOwnerError, StartupSessionRepairExecutor,
    StartupSessionRepairFinishError,
};
use crate::startup_filesystem::{
    install_step, opening_of, set_checked, InstallAction, InstallEvent, InstallStage, NativeFilesystemError,
    NativeInstallOutcome, PreparedJournal,
};

verus! {

/// Each step of a shutdown is told to the coordinator as it went: as success only where it
/// succeeded, as expired only where its time ran out.
pub proof fn law_steps_are_told_as_they_went(state: ProcessShutdown, ticket: ShutdownTicket)
    ensures
        state.phase == ShutdownPhase::Draining(ticket) ==> {
            &&& state.stepped(ShutdownEvent::Drained(ProcessDrainOutcome::Drained)).1 == (ShutdownAction::Complete {
                ticket,
                succeeded: true,
            })
            &&& state.stepped(ShutdownEvent::Drained(ProcessDrainOutcome::Failed)).1 == (ShutdownAction::Complete {
                ticket,
                succeeded: false,
            })
            &&& state.stepped(ShutdownEvent::Drained(ProcessDrainOutcome::TimedOut)).1 == ShutdownAction::Expire(ticket)
        },
        state.phase == ShutdownPhase::Flushing(ticket) || state.phase == ShutdownPhase::Closing(ticket) ==> {
            &&& forall|fault: SessionOwnerFault|
                #![trigger state.stepped(ShutdownEvent::Session(SessionCommandWait::Failed(fault)))]
                ({
                    let (next, action) = state.stepped(ShutdownEvent::Session(SessionCommandWait::Failed(fault)));
                    action == (ShutdownAction::Complete { ticket, succeeded: false }) && next.journal_failure == Some(
                        fault.code,
                    )
                })
            &&& state.stepped(ShutdownEvent::Session(SessionCommandWait::TimedOut)).1 == ShutdownAction::Expire(ticket)
            &&& state.stepped(ShutdownEvent::Session(SessionCommandWait::TimedOut)).0.journal_failure is Some
        },
        state.phase == ShutdownPhase::Closing(ticket) ==> forall|count: usize|
            #![trigger state.stepped(
                ShutdownEvent::Session(SessionCommandWait::Completed(SessionCommandResult::JournalsClosed(count))),
            )]
            ({
                let (next, action) = state.stepped(
                    ShutdownEvent::Session(SessionCommandWait::Completed(SessionCommandResult::JournalsClosed(count))),
                );
                action == (ShutdownAction::Complete { ticket, succeeded: true }) && next.journals_closed == count
                    && next.journals_flushed == state.journals_flushed && next.journal_failure == state.journal_failure
            }),
        state.phase == ShutdownPhase::Flushing(ticket) ==> forall|count: usize|
            #![trigger state.stepped(
                ShutdownEvent::Session(SessionCommandWait::Completed(SessionCommandResult::JournalsFlushed(count))),
            )]
            ({
                let next = state.stepped(
                    ShutdownEvent::Session(SessionCommandWait::Completed(SessionCommandResult::JournalsFlushed(count))),
                ).0;
                next.journals_flushed == count && next.journals_closed == state.journals_closed && next.journal_failure
                    == state.journal_failure
            }),
        state.phase == ShutdownPhase::Persisting(ticket) ==> {
            &&& state.stepped(ShutdownEvent::Stored(Ok(()))).1 == (ShutdownAction::Complete { ticket, succeeded: true })
            &&& state.stepped(ShutdownEvent::Stored(Ok(()))).0.session_failure == state.session_failure
            &&& forall|code: &'static str|
                #![trigger state.stepped(ShutdownEvent::Stored(Err(code)))]
                state.stepped(ShutdownEvent::Stored(Err(code))).1 == (ShutdownAction::Complete {
                    ticket,
                    succeeded: false,
                }) && state.stepped(ShutdownEvent::Stored(Err(code))).0.session_failure == Some(code)
        },
        state.phase == ShutdownPhase::StoreOpening(ticket) ==> {
            &&& state.stepped(ShutdownEvent::StoreOpened(Ok(()))).1 == ShutdownAction::PutSession(state.record)
            &&& forall|code: &'static str|
                #![trigger state.stepped(ShutdownEvent::StoreOpened(Err(code)))]
                state.stepped(ShutdownEvent::StoreOpened(Err(code))).1 == (ShutdownAction::Complete {
                    ticket,
                    succeeded: false,
                }) && state.stepped(ShutdownEvent::StoreOpened(Err(code))).0.session_failure == Some(code)
        },
{
}

/// The report of a shutdown says what was counted and what failed on the way, and how the
/// coordinator saw it.
pub proof fn law_reports_say_what_happened(state: ProcessShutdown, event: ShutdownEvent, report: ProcessShutdownReport)
    requires
        state.stepped(event).1 == ShutdownAction::Finish(Ok(report)),
    ensures
        report.journals_closed == state.journals_closed,
        report.journals_flushed == state.journals_flushed,
        report.journal_failure == state.journal_failure,
        report.session_failure is None ==> state.session_failure is None,
        state.session_failure is Some ==> report.session_failure is Some,
        event matches ShutdownEvent::Progress { result: Ok(ShutdownProgress::Complete(seen)), .. } ==> report.shutdown
            == seen,
        state.phase matches ShutdownPhase::Amending(seen) ==> report.shutdown == seen,
{
}

/// A session is closed as the one it was, never dated back, and as clean exactly where nothing
/// failed.
pub proof fn law_closing_keeps_the_session(record: SessionRecord, now_unix_ms: u64, checkpoint_dirty: bool)
    ensures
        ({
            let closed = closing_record(record, now_unix_ms, checkpoint_dirty);
            &&& closed.session_id == record.session_id
            &&& closed.created_ms == record.created_ms
            &&& closed.updated_ms >= now_unix_ms
            &&& closed.updated_ms >= record.updated_ms
            &&& closed.updated_ms >= record.created_ms
            &&& closed.updated_ms == now_unix_ms || closed.updated_ms == record.updated_ms || closed.updated_ms
                == record.created_ms
            &&& closed.clean_shutdown <==> !checkpoint_dirty
        }),
{
}

/// A report that is not clean takes back a session that was written as clean.
pub proof fn law_a_dirty_report_takes_back_a_clean_session(
    state: ProcessShutdown,
    store_open: bool,
    report: ShutdownReport,
    now_unix_ms: u64,
)
    requires
        state.phase == ShutdownPhase::SessionSettled(store_open),
        state.record.clean_shutdown,
        !report.clean,
    ensures
        ({
            let (next, action) = state.stepped(
                ShutdownEvent::Progress { result: Ok(ShutdownProgress::Complete(report)), now_unix_ms },
            );
            &&& !next.record.clean_shutdown
            &&& next.record.session_id == state.record.session_id
            &&& store_open ==> action == ShutdownAction::PutSession(next.record)
            &&& !store_open ==> action is Finish && next.session_failure is Some
        }),
{
}

/// A step is taken only where the coordinator has gone on to it.
pub proof fn law_tickets_are_of_the_expected_step(progress: ShutdownProgress, expected: ShutdownStep)
    ensures
        expected_ticket(progress, expected) matches Ok(ticket) ==> progress == ShutdownProgress::Advanced(ticket)
            && ticket.step == expected,
        progress matches ShutdownProgress::Advanced(ticket) ==> ticket.step == expected ==> expected_ticket(
            progress,
            expected,
        ) is Ok,
{
}

/// A wait lasts until its deadline, and a millisecond where that has passed or is nearer.
pub proof fn law_waits_last_until_the_deadline(deadline: MonotonicInstant, now: MonotonicInstant)
    ensures
        time_left(deadline, now) >= 1_000_000,
        deadline.0 >= now.0 + 1_000_000 ==> now.0 + time_left(deadline, now) == deadline.0,
        deadline.0 < now.0 + 1_000_000 ==> time_left(deadline, now) == 1_000_000,
{
}

/// A session that runs is never marked as cleanly shut down. One that was stored stays the
/// one it was and is not dated back; a new one is dated as the process says.
pub proof fn law_running_sessions_are_not_clean(stored: Option<SessionRecord>, config: ProcessBootstrapConfig)
    ensures
        ({
            let record = running_record(stored, config);
            &&& !record.clean_shutdown
            &&& stored matches Some(before) ==> record.session_id == before.session_id && record.created_ms
                == before.created_ms && record.updated_ms >= before.updated_ms && record.updated_ms
                >= before.created_ms && record.updated_ms >= config.updated_ms
            &&& stored is None ==> record.session_id == config.fresh_session() && record.created_ms
                == config.recovery_created_at_unix_ms && record.updated_ms == config.updated_ms
        }),
{
}

/// The timers of one task more.
pub proof fn law_timers_are_counted_task_by_task(tasks: Seq<Option<TaskTimers>>, retry: bool, slow: bool)
    ensures
        timers_of(tasks.push(None)) == timers_of(tasks),
        timers_of(tasks.push(Some(TaskTimers { retry, slow }))) == timers_of(tasks) + (if retry {
            1int
        } else {
            0
        }) + (if slow {
            1int
        } else {
            0
        }),
{
    assert(tasks.push(None).drop_last() =~= tasks);
    assert(tasks.push(Some(TaskTimers { retry, slow })).drop_last() =~= tasks);
}

/// Restoring begins only where all that is to be restored has room.
pub proof fn law_restoring_needs_room(native: NativeStartup, config: ProcessBootstrapConfig)
    requires
        timers_of(native.timers@) <= usize::MAX,
    ensures
        restore_fault(native, config) is None <==> native.probe_targets <= config.runtime.request_capacity && timers_of(
            native.timers@,
        ) <= config.runtime.timer_capacity && config.runtime.fault() is None,
        native.probe_targets > config.runtime.request_capacity ==> restore_fault(native, config) == Some(
            ProcessBootstrapFailure::RuntimeRequestCapacity {
                required: native.probe_targets,
                configured: config.runtime.request_capacity,
            },
        ),
{
}

/// A start that fails names what failed, by the stage at which it did.
pub proof fn law_failed_starts_name_what_failed(
    state: ProcessBootstrap,
    event: BootstrapEvent,
    r: (ProcessBootstrap, BootstrapAction),
    cause: Cause,
)
    requires
        state.steps(event, r),
    ensures
        state.stage is Filesystem && event == BootstrapEvent::FilesystemOpened(Err(cause)) ==> r.0.stage
            == BootstrapStage::Closing(ProcessBootstrapFailure::Filesystem(cause)),
        state.stage is Journals && event == BootstrapEvent::JournalsRecovered(Err(cause)) ==> r.0.stage
            == BootstrapStage::Closing(ProcessBootstrapFailure::Filesystem(cause)),
        state.stage is PuttingSession && event == BootstrapEvent::SessionPut(Err(cause)) ==> r.0.stage
            == BootstrapStage::Closing(ProcessBootstrapFailure::Owner(cause)),
        state.stage is Native && event == BootstrapEvent::NativeStarted(Err(cause)) ==> r.0.stage
            == BootstrapStage::Closing(ProcessBootstrapFailure::Native(cause)),
        state.stage is Preparing && event == BootstrapEvent::RestoreBegun(Err(RestoreRefusal::Catalog(cause)))
            ==> r.0.stage == BootstrapStage::Closing(ProcessBootstrapFailure::PersistenceCatalog(cause)),
        state.stage is Preparing && event == BootstrapEvent::RestoreBegun(Err(RestoreRefusal::Input(cause)))
            ==> r.0.stage == BootstrapStage::Closing(ProcessBootstrapFailure::DriverInput(cause)),
        state.stage is Restoring && event == BootstrapEvent::Polled(DriverPoll::Faulted(cause)) ==> r.0.stage
            == BootstrapStage::Closing(ProcessBootstrapFailure::DriverFault(cause)),
        state.stage is Restoring && event == BootstrapEvent::Polled(DriverPoll::Backpressured) ==> r.0.stage
            == BootstrapStage::Closing(ProcessBootstrapFailure::RestoreBackpressured),
        state.stage is Restoring && event == BootstrapEvent::Polled(DriverPoll::Completed) ==> r.0.stage is Inspecting,
        state.stage is Coordinating && event == BootstrapEvent::CoordinatorBuilt(Err(cause)) ==> r.0.stage
            == BootstrapStage::Closing(ProcessBootstrapFailure::ShutdownCoordinator(cause)),
        state.stage is Inspecting && (event matches BootstrapEvent::Inspected { idle, remaining_targets } && !(idle
            && remaining_targets == 0)) ==> r.0.stage is Closing,
        state.stage is Coordinating && event == BootstrapEvent::CoordinatorBuilt(Ok(())) ==> r.1
            == BootstrapAction::Publish(state.record),
{
}

/// A repair counts as applied only where the store said so in plain words; any other answer is
/// a fault.
pub proof fn law_only_plain_answers_acknowledge(state: RepairState, count: nat, result: SessionCommandResult)
    requires
        state.fault is None,
        state.stand is Accepted,
        state.index < usize::MAX,
        !(state.phase is Complete),
    ensures
        ({
            let (next, _) = state.stepped(count, RepairAnswer::Answered(result));
            &&& result is Unit ==> next.fault is None && next.index == state.index + 1 && next.phase == state.phase
                && next.stand is Idle
            &&& !(result is Unit) ==> next.fault is Some && next.index == state.index
        }),
        forall|error: SessionOwnerError|
            #![trigger state.stepped(count, RepairAnswer::Failed(error))]
            state.stepped(count, RepairAnswer::Failed(error)).0.fault is Some && state.stepped(
                count,
                RepairAnswer::Failed(error),
            ).0.index == state.index,
{
}

/// What repairs leave to do is what reconciliation found to do besides.
pub proof fn law_repairs_leave_the_rest(
    executor: StartupSessionRepairExecutor,
    r: Result<StartupReconciliation, StartupSessionRepairFinishError>,
)
    requires
        finished(executor, r),
    ensures
        r is Ok <==> executor.state.fault is None && executor.state.complete(),
        r matches Ok(left) ==> left.appender_recoveries == executor.reconciliation.appender_recoveries
            && left.journal_install_recoveries == executor.reconciliation.journal_install_recoveries
            && left.no_space_probe_targets == executor.reconciliation.no_space_probe_targets && left.tasks
            == executor.reconciliation.tasks && left.scheduler_batch == executor.reconciliation.scheduler_batch,
{
}

/// The old journals are opened under their old path and number and the new ones under theirs, and
/// the journals that count up to the last record that is known of them.
pub proof fn law_journals_are_opened_under_their_own_path(
    request: DeferredJournalInstallRecovery,
    stage: InstallStage,
)
    ensures
        stage is Candidate ==> opening_of(request, stage) == Some(
            (request.intent.new_path, request.intent.new_journal_id, None::<u64>),
        ),
        stage is Installed ==> opening_of(request, stage) == Some(
            (request.intent.new_path, request.intent.new_journal_id, Some(request.authoritative_last_sequence)),
        ),
        stage is Old ==> opening_of(request, stage) == Some(
            (request.intent.old_path, request.intent.old_journal_id, Some(request.authoritative_last_sequence)),
        ),
        stage is Cleanup || stage is Ended ==> opening_of(request, stage) is None,
{
}

/// A set of journals is used only if it is the one that was opened first, whole, and at the
/// record where it is known to end.
pub proof fn law_used_journals_are_whole(
    opened: Result<PreparedJournal, NativeFilesystemError>,
    expected: Option<u64>,
    prepared: PreparedJournal,
)
    requires
        set_checked(opened, expected) == Ok::<PreparedJournal, NativeFilesystemError>(prepared),
    ensures
        opened == Ok::<PreparedJournal, NativeFilesystemError>(prepared),
        prepared.same_directory,
        prepared.accepted_records == prepared.records,
        prepared.stop is CleanEnd,
        expected matches Some(last) ==> prepared.last_sequence == last,
{
}

/// A move of journals that was not finished ends with the candidate, if it is good, or with the old
/// set as it was last known.
pub proof fn law_moves_end_with_a_known_set(
    request: DeferredJournalInstallRecovery,
    stage: InstallStage,
    event: InstallEvent,
    outcome: NativeInstallOutcome,
)
    requires
        install_step(request, stage, event).1 == InstallAction::Finish(outcome),
    ensures
        outcome is AcceptedCandidate ==> stage is Candidate,
        outcome is ValidatedInstalled ==> stage is Installed,
        outcome is RejectedCandidate ==> stage is Old,
        outcome matches NativeInstallOutcome::RejectedCandidate(prepared) ==> prepared.last_sequence
            == request.authoritative_last_sequence,
        outcome matches NativeInstallOutcome::ValidatedInstalled(prepared) ==> prepared.last_sequence
            == request.authoritative_last_sequence,
{
}

/// Where a process keeps its things: where it is told to, else below its output root, and the
/// store and the journals below what it keeps.
pub proof fn law_paths_are_where_they_are_put(builder: EngineBuilder)
    ensures
        builder.control_directory matches Some(directory) ==> builder.control_path() == plain_path(directory@),
        builder.control_directory is None && builder.output_root is Some ==> builder.control_path().base
            == builder.output_root->0.text@ && builder.control_path().below == seq![".ariax-control"@],
        builder.database_path matches Some(path) ==> builder.store_path() == plain_path(path@),
        builder.database_path is None ==> builder.store_path().base == builder.control_path().base
            && builder.store_path().below == builder.control_path().below.push("session.db"@),
        builder.journal_path().base == builder.control_path().base,
        builder.journal_path().below == builder.control_path().below.push("http-journals"@),
        builder.spec_check() is Ok <==> builder.output_root is Some && builder.output_root->0.absolute,
{
    assert(Seq::<Seq<char>>::empty().push(".ariax-control"@) =~= seq![".ariax-control"@]);
}

} // verus!
