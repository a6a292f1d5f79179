//! Laws of what startup repairs and opens again: records follow the journals, and every
//! journal is opened where it was left.
use vstd::prelude::*;
use crate::reconcile::{
    latest_completion, latest_update, lemma_planned, owners, plans, present, ranked_inputs, ranked_task,
    reconcile_fault, reconciled, record_of, repair_time, StartupReconciliation, StartupRecords, StartupRecoveryConfig,
};
use crate::session::{
    DelayRecovery, RecoveredTaskJournal, SessionStoppedResultRecord, SessionTaskRecord, TaskId,
};
use crate::startup::{
    task_plan, DeferredAppenderRecovery, SessionAuthorityRepair, TaskInputs, TaskPlan,
};
use crate::startup_laws::{
    lemma_first_duplicate_none, lemma_present, lemma_rank_of, lemma_row_at, rank_of, row_at, source_of,
};
use crate::startup_task_laws::{
    lemma_found_record, lemma_journal_of, lemma_journal_owners, lemma_record_of,
};

verus! {

/// Whether a task's record shows what its journal holds.
pub open spec fn follows(task: SessionTaskRecord, journal: RecoveredTaskJournal) -> bool {
    &&& journal.state.current_options == Some(task.cached_snapshot_hash)
    &&& match journal.state.layout {
        Some(layout) => {
            &&& task.cached_layout_hash == Some(layout.layout_hash)
            &&& task.cached_root_binding_hash == Some(layout.root_binding_hash)
            &&& task.root_display.text@ == layout.root_path.text@
        },
        None => task.cached_layout_hash is None && task.cached_root_binding_hash is None,
    }
}

/// The record of a task once a repair was written to it.
pub open spec fn written(task: SessionTaskRecord, repair: SessionAuthorityRepair) -> SessionTaskRecord {
    let cached = match repair.cache {
        Some(cache) => SessionTaskRecord {
            cached_layout_hash: cache.layout_hash,
            cached_root_binding_hash: cache.root_binding_hash,
            cached_snapshot_hash: cache.snapshot_hash,
            ..task
        },
        None => task,
    };
    match repair.root_display {
        Some(root) => SessionTaskRecord { root_display: root, ..cached },
        None => cached,
    }
}

/// Whether a journal is opened again as its task's record and its own end say.
pub open spec fn reopens(
    opened: DeferredAppenderRecovery,
    task: SessionTaskRecord,
    journal: RecoveredTaskJournal,
) -> bool {
    &&& opened.gid == task.gid
    &&& opened.journal_id == journal.journal_id
    &&& opened.journal_id == task.primary_journal_id
    &&& opened.primary_path == task.primary_journal_path
    &&& opened.expected_last_sequence == journal.state.last_sequence
    &&& opened.replica is Some <==> task.replica_journal_path is Some && task.replica_sequence is Some
    &&& opened.replica matches Some(replica) ==> task.replica_journal_path == Some(replica.path)
        && task.replica_sequence == Some(replica.copied_through_sequence) && replica.copied_through_sequence
        <= opened.expected_last_sequence
}

/// What a plan repairs and opens.
proof fn lemma_plan_repairs(inputs: TaskInputs, task_id: TaskId, updated_ms: u64)
    requires
        task_plan(inputs, task_id, updated_ms) is Ok,
    ensures
        ({
            let plan = task_plan(inputs, task_id, updated_ms)->Ok_0;
            let task = inputs.task;
            let journal = inputs.journal;
            let moving = inputs.install is Some && inputs.install->0.phase is Installing;
            &&& plan.authority is None <==> follows(task, journal)
            &&& plan.authority matches Some(repair) ==> repair.gid == task.gid && repair.expected_journal_id
                == journal.journal_id && repair.updated_ms == updated_ms && follows(written(task, repair), journal)
            &&& plan.appender is None <==> moving
            &&& plan.appender matches Some(opened) ==> opened.task_id == task_id && reopens(opened, task, journal)
            &&& plan.install is Some <==> inputs.install is Some
            &&& plan.install matches Some(moved) ==> {
                &&& moved.task_id == task_id
                &&& Some(moved.intent) == inputs.install
                &&& moved.authoritative_journal_id == journal.journal_id
                &&& moved.authoritative_last_sequence == journal.state.last_sequence
                &&& moved.authoritative_checkpoint == journal.state.checkpoint
            }
            &&& plan.target is Some <==> task.no_space is Some && journal.state.terminal is None
            &&& plan.target matches Some(entry) ==> {
                &&& entry.task_id == task_id
                &&& entry.gid == task.gid
                &&& entry.generation == journal.state.generation
                &&& entry.target == Some(task.no_space->0.target)
                &&& task.no_space->0.delay.recovery == DelayRecovery::Valid(entry.decision)
            }
            &&& plan.engine.recovered_retry_budget_elapsed_ms matches Some(spent) ==> spends(journal, spent)
            &&& plan.engine.recovered_retry_budget_elapsed_ms is None && journal.state.terminal is None ==> !retries(
                journal,
            )
        }),
{
    lemma_own_scope(inputs.journal.state.retry_states@);
    let state = inputs.journal.state;
    let own = crate::startup::task_scope(state.retry_states@);
    if own.len() > 0 {
        let i = choose|i: int| 0 <= i < state.retry_states@.len() && state.retry_states@[i] == own[0];
        assert(state.retry_states[i].scope is Task);
    }
}

/// Whether a journal decided on a retry of its task.
pub open spec fn retries(journal: RecoveredTaskJournal) -> bool {
    exists|i: int| 0 <= i < journal.state.retry_states.len() && (#[trigger] journal.state.retry_states[i]).scope is Task
}

/// Whether a journal's retry of its task has spent so much of its budget.
pub open spec fn spends(journal: RecoveredTaskJournal, spent: u64) -> bool {
    exists|i: int|
        0 <= i < journal.state.retry_states.len() && (#[trigger] journal.state.retry_states[i]).scope is Task
            && journal.state.retry_states[i].scope_id == journal.state.task.0
            && journal.state.retry_states[i].delay.recovery is Valid
            && journal.state.retry_states[i].delay.recovery->Valid_0.budget_elapsed_ms == spent
}

proof fn lemma_own_scope(states: Seq<crate::session::RecoveredRetryState>)
    ensures
        ({
            let own = crate::startup::task_scope(states);
            &&& forall|k: int|
                0 <= k < own.len() ==> (#[trigger] own[k]).scope is Task && exists|i: int|
                    0 <= i < states.len() && states[i] == own[k]
            &&& forall|i: int| 0 <= i < states.len() && (#[trigger] states[i]).scope is Task ==> own.len() > 0
        }),
    decreases states.len(),
{
    if states.len() > 0 {
        let rest = states.drop_last();
        lemma_own_scope(rest);
        let own = crate::startup::task_scope(states);
        let before = crate::startup::task_scope(rest);
        assert forall|k: int| 0 <= k < own.len() implies (#[trigger] own[k]).scope is Task && exists|i: int|
            0 <= i < states.len() && states[i] == own[k] by {
            if k < before.len() {
                assert(own[k] == before[k]);
                let i = choose|i: int| 0 <= i < rest.len() && rest[i] == before[k];
                assert(states[i] == own[k]);
            } else {
                assert(states[states.len() - 1] == own[k]);
            }
        }
        assert forall|i: int| 0 <= i < states.len() && (#[trigger] states[i]).scope is Task implies own.len() > 0 by {
            if i < rest.len() {
                assert(rest[i].scope is Task);
            }
        }
    }
}

/// What is known of one rank, by the records of its task.
proof fn lemma_rank(records: StartupRecords, config: StartupRecoveryConfig, rank: int)
    requires
        reconcile_fault(records, config) is None,
        0 <= rank < records.snapshot.tasks.len(),
    ensures
        ({
            let inputs = ranked_inputs(records, rank);
            let task = records.snapshot.tasks[row_at(records, rank)];
            &&& 0 <= row_at(records, rank) < records.snapshot.tasks.len()
            &&& inputs.task == task
            &&& records.journals@.contains(inputs.journal)
            &&& inputs.journal.gid == task.gid
            &&& inputs.install == record_of(records.snapshot.journal_installs@, task.gid)
            &&& plans(records, config)[rank] == task_plan(
                inputs,
                TaskId((rank + 1) as u64),
                repair_time(records.snapshot, config.now_wall_unix_ms),
            )->Ok_0
            &&& task_plan(
                inputs,
                TaskId((rank + 1) as u64),
                repair_time(records.snapshot, config.now_wall_unix_ms),
            ) is Ok
        }),
{
    lemma_first_duplicate_none(owners(records.snapshot.tasks@));
    lemma_planned(records, config, 0, rank);
    lemma_row_at(records, rank);
    lemma_journal_of(records, config, rank);
    lemma_found_record(records.journals@, ranked_task(records, rank).gid);
}

/// A record that does not follow its journal is repaired, and the repair brings it to what the
/// journal holds; a record that does is left alone.
pub proof fn law_records_are_brought_to_their_journals(
    records: StartupRecords,
    config: StartupRecoveryConfig,
    done: StartupReconciliation,
)
    requires
        reconcile_fault(records, config) is None,
        reconciled(done, records, config),
    ensures
        forall|i: int|
            #![trigger done.authority_repairs[i]]
            0 <= i < done.authority_repairs.len() ==> exists|row: int, j: int|
                {
                    let task = #[trigger] records.snapshot.tasks[row];
                    let journal = #[trigger] records.journals[j];
                    let repair = done.authority_repairs[i];
                    &&& 0 <= row < records.snapshot.tasks.len()
                    &&& 0 <= j < records.journals.len()
                    &&& repair.gid == task.gid
                    &&& repair.gid == journal.gid
                    &&& repair.expected_journal_id == journal.journal_id
                    &&& !follows(task, journal)
                    &&& follows(written(task, repair), journal)
                },
        forall|row: int, j: int|
            0 <= row < records.snapshot.tasks.len() && 0 <= j < records.journals.len() && (
            #[trigger] records.snapshot.tasks[row]).gid == (#[trigger] records.journals[j]).gid && !follows(
                records.snapshot.tasks[row],
                records.journals[j],
            ) ==> exists|i: int|
                0 <= i < done.authority_repairs.len() && (#[trigger] done.authority_repairs[i]).gid
                    == records.snapshot.tasks[row].gid,
{
    let all = plans(records, config);
    let options = all.map_values(|p: TaskPlan| p.authority);
    lemma_present(options);
    let when = repair_time(records.snapshot, config.now_wall_unix_ms);
    assert(done.authority_repairs@ == present(options));
    assert forall|i: int|
        #![trigger done.authority_repairs[i]]
        0 <= i < done.authority_repairs.len() implies exists|row: int, j: int|
        {
            let task = #[trigger] records.snapshot.tasks[row];
            let journal = #[trigger] records.journals[j];
            let repair = done.authority_repairs[i];
            &&& 0 <= row < records.snapshot.tasks.len()
            &&& 0 <= j < records.journals.len()
            &&& repair.gid == task.gid
            &&& repair.gid == journal.gid
            &&& repair.expected_journal_id == journal.journal_id
            &&& !follows(task, journal)
            &&& follows(written(task, repair), journal)
        } by {
        let k = source_of(options, i);
        assert(options[k] == Some(done.authority_repairs@[i]));
        lemma_rank(records, config, k);
        let inputs = ranked_inputs(records, k);
        lemma_plan_repairs(inputs, TaskId((k + 1) as u64), when);
        let row = row_at(records, k);
        let j = records.journals@.index_of(inputs.journal);
        assert(records.journals[j] == inputs.journal);
        assert(records.snapshot.tasks[row] == inputs.task);
    }
    assert forall|row: int, j: int|
        0 <= row < records.snapshot.tasks.len() && 0 <= j < records.journals.len() && (
        #[trigger] records.snapshot.tasks[row]).gid == (#[trigger] records.journals[j]).gid && !follows(
            records.snapshot.tasks[row],
            records.journals[j],
        ) implies exists|i: int|
        0 <= i < done.authority_repairs.len() && (#[trigger] done.authority_repairs[i]).gid
            == records.snapshot.tasks[row].gid by {
        lemma_at(records, config, row, j);
        let k = rank_of(records, row);
        lemma_plan_repairs(ranked_inputs(records, k), TaskId((k + 1) as u64), when);
        assert(options[k] is Some);
        let i = choose|i: int| 0 <= i < present(options).len() && #[trigger] source_of(options, i) == k;
        assert(options[source_of(options, i)] == Some(present(options)[i]));
        assert(done.authority_repairs[i].gid == records.snapshot.tasks[row].gid);
    }
}

/// The rank of a row speaks of its records.
proof fn lemma_at(records: StartupRecords, config: StartupRecoveryConfig, row: int, j: int)
    requires
        reconcile_fault(records, config) is None,
        0 <= row < records.snapshot.tasks.len(),
        0 <= j < records.journals.len(),
        records.snapshot.tasks[row].gid == records.journals[j].gid,
    ensures
        0 <= rank_of(records, row) < records.snapshot.tasks.len(),
        ranked_inputs(records, rank_of(records, row)).task == records.snapshot.tasks[row],
        ranked_inputs(records, rank_of(records, row)).journal == records.journals[j],
        ranked_inputs(records, rank_of(records, row)).install == record_of(
            records.snapshot.journal_installs@,
            records.snapshot.tasks[row].gid,
        ),
        ({
            let rank = rank_of(records, row);
            let plan = task_plan(
                ranked_inputs(records, rank),
                TaskId((rank + 1) as u64),
                repair_time(records.snapshot, config.now_wall_unix_ms),
            );
            plan is Ok && plans(records, config)[rank] == plan->Ok_0
        }),
{
    lemma_first_duplicate_none(owners(records.snapshot.tasks@));
    lemma_journal_owners(records.journals@);
    lemma_rank_of(records, row);
    lemma_rank(records, config, rank_of(records, row));
    lemma_record_of(records.journals@, j);
}

/// Every journal is opened again where it was left, with its replica where it has one, except
/// one that is being moved.
pub proof fn law_journals_are_opened_where_they_were_left(
    records: StartupRecords,
    config: StartupRecoveryConfig,
    done: StartupReconciliation,
)
    requires
        reconcile_fault(records, config) is None,
        reconciled(done, records, config),
    ensures
        forall|i: int|
            #![trigger done.appender_recoveries[i]]
            0 <= i < done.appender_recoveries.len() ==> exists|row: int, j: int|
                0 <= row < records.snapshot.tasks.len() && 0 <= j < records.journals.len() && records.journals[j].gid
                    == records.snapshot.tasks[row].gid && reopens(
                    done.appender_recoveries[i],
                    #[trigger] records.snapshot.tasks[row],
                    #[trigger] records.journals[j],
                ) && !(record_of(records.snapshot.journal_installs@, records.snapshot.tasks[row].gid) matches Some(intent)
                    && intent.phase is Installing),
        forall|row: int|
            0 <= row < records.snapshot.tasks.len() && !(record_of(
                records.snapshot.journal_installs@,
                (#[trigger] records.snapshot.tasks[row]).gid,
            ) matches Some(intent) && intent.phase is Installing) ==> exists|i: int|
                0 <= i < done.appender_recoveries.len() && (#[trigger] done.appender_recoveries[i]).gid
                    == records.snapshot.tasks[row].gid,
{
    let all = plans(records, config);
    let options = all.map_values(|p: TaskPlan| p.appender);
    lemma_present(options);
    let when = repair_time(records.snapshot, config.now_wall_unix_ms);
    assert(done.appender_recoveries@ == present(options));
    assert forall|i: int|
        #![trigger done.appender_recoveries[i]]
        0 <= i < done.appender_recoveries.len() implies exists|row: int, j: int|
        0 <= row < records.snapshot.tasks.len() && 0 <= j < records.journals.len() && records.journals[j].gid
            == records.snapshot.tasks[row].gid && reopens(
            done.appender_recoveries[i],
            #[trigger] records.snapshot.tasks[row],
            #[trigger] records.journals[j],
        ) && !(record_of(records.snapshot.journal_installs@, records.snapshot.tasks[row].gid) matches Some(intent)
            && intent.phase is Installing) by {
        let k = source_of(options, i);
        assert(options[k] == Some(done.appender_recoveries@[i]));
        lemma_rank(records, config, k);
        let inputs = ranked_inputs(records, k);
        lemma_plan_repairs(inputs, TaskId((k + 1) as u64), when);
        let row = row_at(records, k);
        let j = records.journals@.index_of(inputs.journal);
        assert(records.journals[j] == inputs.journal);
        assert(records.snapshot.tasks[row] == inputs.task);
    }
    assert forall|row: int|
        0 <= row < records.snapshot.tasks.len() && !(record_of(
            records.snapshot.journal_installs@,
            (#[trigger] records.snapshot.tasks[row]).gid,
        ) matches Some(intent) && intent.phase is Installing) implies exists|i: int|
        0 <= i < done.appender_recoveries.len() && (#[trigger] done.appender_recoveries[i]).gid
            == records.snapshot.tasks[row].gid by {
        lemma_first_duplicate_none(owners(records.snapshot.tasks@));
        lemma_rank_of(records, row);
        let k = rank_of(records, row);
        lemma_rank(records, config, k);
        lemma_plan_repairs(ranked_inputs(records, k), TaskId((k + 1) as u64), when);
        assert(options[k] is Some);
        let i = choose|i: int| 0 <= i < present(options).len() && #[trigger] source_of(options, i) == k;
        assert(options[source_of(options, i)] == Some(present(options)[i]));
        assert(done.appender_recoveries[i].gid == records.snapshot.tasks[row].gid);
    }
}

/// Every journal that is being moved is taken up again as it was intended, with what the
/// journal that counts holds.
pub proof fn law_moved_journals_are_taken_up_again(
    records: StartupRecords,
    config: StartupRecoveryConfig,
    done: StartupReconciliation,
)
    requires
        reconcile_fault(records, config) is None,
        reconciled(done, records, config),
    ensures
        forall|i: int|
            #![trigger done.journal_install_recoveries[i]]
            0 <= i < done.journal_install_recoveries.len() ==> exists|j: int|
                {
                    let journal = #[trigger] records.journals[j];
                    let moved = done.journal_install_recoveries[i];
                    &&& 0 <= j < records.journals.len()
                    &&& record_of(records.snapshot.journal_installs@, journal.gid) == Some(moved.intent)
                    &&& moved.authoritative_journal_id == journal.journal_id
                    &&& moved.authoritative_last_sequence == journal.state.last_sequence
                    &&& moved.authoritative_checkpoint == journal.state.checkpoint
                },
        forall|row: int|
            0 <= row < records.snapshot.tasks.len() && record_of(
                records.snapshot.journal_installs@,
                (#[trigger] records.snapshot.tasks[row]).gid,
            ) is Some ==> exists|i: int|
                0 <= i < done.journal_install_recoveries.len() && Some(
                    (#[trigger] done.journal_install_recoveries[i]).intent,
                ) == record_of(records.snapshot.journal_installs@, records.snapshot.tasks[row].gid),
{
    let all = plans(records, config);
    let options = all.map_values(|p: TaskPlan| p.install);
    lemma_present(options);
    let when = repair_time(records.snapshot, config.now_wall_unix_ms);
    assert(done.journal_install_recoveries@ == present(options));
    assert forall|i: int|
        #![trigger done.journal_install_recoveries[i]]
        0 <= i < done.journal_install_recoveries.len() implies exists|j: int|
        {
            let journal = #[trigger] records.journals[j];
            let moved = done.journal_install_recoveries[i];
            &&& 0 <= j < records.journals.len()
            &&& record_of(records.snapshot.journal_installs@, journal.gid) == Some(moved.intent)
            &&& moved.authoritative_journal_id == journal.journal_id
            &&& moved.authoritative_last_sequence == journal.state.last_sequence
            &&& moved.authoritative_checkpoint == journal.state.checkpoint
        } by {
        let k = source_of(options, i);
        assert(options[k] == Some(done.journal_install_recoveries@[i]));
        lemma_rank(records, config, k);
        let inputs = ranked_inputs(records, k);
        lemma_plan_repairs(inputs, TaskId((k + 1) as u64), when);
        let j = records.journals@.index_of(inputs.journal);
        assert(records.journals[j] == inputs.journal);
    }
    assert forall|row: int|
        0 <= row < records.snapshot.tasks.len() && record_of(
            records.snapshot.journal_installs@,
            (#[trigger] records.snapshot.tasks[row]).gid,
        ) is Some implies exists|i: int|
        0 <= i < done.journal_install_recoveries.len() && Some(
            (#[trigger] done.journal_install_recoveries[i]).intent,
        ) == record_of(records.snapshot.journal_installs@, records.snapshot.tasks[row].gid) by {
        lemma_first_duplicate_none(owners(records.snapshot.tasks@));
        lemma_rank_of(records, row);
        let k = rank_of(records, row);
        lemma_rank(records, config, k);
        lemma_plan_repairs(ranked_inputs(records, k), TaskId((k + 1) as u64), when);
        assert(options[k] is Some);
        let i = choose|i: int| 0 <= i < present(options).len() && #[trigger] source_of(options, i) == k;
        assert(options[source_of(options, i)] == Some(present(options)[i]));
        assert(Some(done.journal_install_recoveries[i].intent) == record_of(
            records.snapshot.journal_installs@,
            records.snapshot.tasks[row].gid,
        ));
    }
}

/// Every task that waits for space is probed at its own target, and what a retry has spent of
/// its budget is what its journal says.
pub proof fn law_waits_are_taken_up_again(
    records: StartupRecords,
    config: StartupRecoveryConfig,
    done: StartupReconciliation,
    row: int,
    j: int,
)
    requires
        reconcile_fault(records, config) is None,
        reconciled(done, records, config),
        records.snapshot.tasks.len() < u64::MAX,
        0 <= row < records.snapshot.tasks.len(),
        0 <= j < records.journals.len(),
        records.snapshot.tasks[row].gid == records.journals[j].gid,
    ensures
        ({
            let task = records.snapshot.tasks[row];
            let journal = records.journals[j];
            &&& task.no_space is Some && journal.state.terminal is None ==> exists|i: int|
                {
                    let entry = #[trigger] done.no_space_probe_targets@[i];
                    &&& 0 <= i < done.no_space_probe_targets@.len()
                    &&& entry.gid == task.gid
                    &&& entry.generation == journal.state.generation
                    &&& entry.target == Some(task.no_space->0.target)
                    &&& task.no_space->0.delay.recovery == DelayRecovery::Valid(entry.decision)
                }
            &&& exists|k: int|
                {
                    let engine = #[trigger] done.tasks[k];
                    &&& 0 <= k < done.tasks.len()
                    &&& engine.gid == task.gid
                    &&& engine.recovered_retry_budget_elapsed_ms matches Some(spent) ==> spends(journal, spent)
                    &&& engine.recovered_retry_budget_elapsed_ms is None && journal.state.terminal is None ==> !retries(
                        journal,
                    )
                }
        }),
        forall|i: int|
            0 <= i < done.no_space_probe_targets@.len() ==> exists|other: int|
                0 <= other < records.snapshot.tasks.len() && (#[trigger] records.snapshot.tasks[other]).gid == (
                #[trigger] done.no_space_probe_targets@[i]).gid && records.snapshot.tasks[other].no_space is Some,
{
    let all = plans(records, config);
    let options = all.map_values(|p: TaskPlan| p.target);
    lemma_present(options);
    let when = repair_time(records.snapshot, config.now_wall_unix_ms);
    let targets = done.no_space_probe_targets@;
    assert(targets == present(options));
    lemma_at(records, config, row, j);
    let rank = rank_of(records, row);
    let task = records.snapshot.tasks[row];
    let journal = records.journals[j];
    lemma_plan_repairs(ranked_inputs(records, rank), TaskId((rank + 1) as u64), when);
    crate::reconcile::lemma_plan_identity(ranked_inputs(records, rank), TaskId((rank + 1) as u64), when);
    assert(done.tasks@.len() == all.len());
    assert(done.tasks@[rank] == all[rank].engine);
    assert(done.tasks[rank].gid == task.gid);
    if task.no_space is Some && journal.state.terminal is None {
        assert(options[rank] is Some);
        let i = choose|i: int| 0 <= i < present(options).len() && #[trigger] source_of(options, i) == rank;
        assert(options[source_of(options, i)] == Some(present(options)[i]));
        assert(targets[i].gid == task.gid);
    }
    assert forall|i: int| 0 <= i < targets.len() implies exists|other: int|
        0 <= other < records.snapshot.tasks.len() && (#[trigger] records.snapshot.tasks[other]).gid == (
        #[trigger] targets[i]).gid && records.snapshot.tasks[other].no_space is Some by {
        let k = source_of(options, i);
        assert(options[k] == Some(targets[i]));
        lemma_rank(records, config, k);
        lemma_plan_repairs(ranked_inputs(records, k), TaskId((k + 1) as u64), when);
        assert(records.snapshot.tasks[row_at(records, k)].gid == targets[i].gid);
    }
}

/// No repair is dated before anything that the records hold, or before now.
pub proof fn law_repairs_are_dated_last(
    records: StartupRecords,
    config: StartupRecoveryConfig,
    done: StartupReconciliation,
    i: int,
)
    requires
        reconcile_fault(records, config) is None,
        reconciled(done, records, config),
        0 <= i < done.authority_repairs.len(),
    ensures
        done.authority_repairs[i].updated_ms >= config.now_wall_unix_ms,
        forall|row: int|
            0 <= row < records.snapshot.tasks.len() ==> done.authority_repairs[i].updated_ms >= (
            #[trigger] records.snapshot.tasks[row]).updated_ms,
        forall|s: int|
            0 <= s < records.snapshot.stopped_results.len() ==> done.authority_repairs[i].updated_ms >= (
            #[trigger] records.snapshot.stopped_results[s]).completed_ms,
{
    let all = plans(records, config);
    let options = all.map_values(|p: TaskPlan| p.authority);
    lemma_present(options);
    let when = repair_time(records.snapshot, config.now_wall_unix_ms);
    assert(done.authority_repairs@ == present(options));
    let k = source_of(options, i);
    assert(options[k] == Some(done.authority_repairs@[i]));
    lemma_rank(records, config, k);
    lemma_plan_repairs(ranked_inputs(records, k), TaskId((k + 1) as u64), when);
    lemma_latest_update(records.snapshot.tasks@, config.now_wall_unix_ms);
    lemma_latest_completion(
        records.snapshot.stopped_results@,
        latest_update(records.snapshot.tasks@, config.now_wall_unix_ms),
    );
}

proof fn lemma_latest_update(tasks: Seq<SessionTaskRecord>, floor: u64)
    ensures
        latest_update(tasks, floor) >= floor,
        forall|row: int| 0 <= row < tasks.len() ==> latest_update(tasks, floor) >= (#[trigger] tasks[row]).updated_ms,
    decreases tasks.len(),
{
    if tasks.len() > 0 {
        lemma_latest_update(tasks.drop_last(), floor);
        assert forall|row: int| 0 <= row < tasks.len() implies latest_update(tasks, floor) >= (
        #[trigger] tasks[row]).updated_ms by {
            if row < tasks.len() - 1 {
                assert(tasks.drop_last()[row] == tasks[row]);
            }
        }
    }
}

proof fn lemma_latest_completion(results: Seq<SessionStoppedResultRecord>, floor: u64)
    ensures
        latest_completion(results, floor) >= floor,
        forall|s: int| 0 <= s < results.len() ==> latest_completion(results, floor) >= (#[trigger] results[s]).completed_ms,
    decreases results.len(),
{
    if results.len() > 0 {
        lemma_latest_completion(results.drop_last(), floor);
        assert forall|s: int| 0 <= s < results.len() implies latest_completion(results, floor) >= (
        #[trigger] results[s]).completed_ms by {
            if s < results.len() - 1 {
                assert(results.drop_last()[s] == results[s]);
            }
        }
    }
}

} // verus!
