//! Laws of the queues at startup: what is refused, and what is moved.
use vstd::prelude::*;
use crate::order::{lemma_sorted_keys, OrderKey};
use crate::queue_laws::{
    lemma_all_moves, lemma_persisted_located, lemma_places_after, persisted_places, places_after,
};
use crate::queues::{
    gap_from, persisted_keys, persisted_queues, position_key, queue_gap, queues_after, restored_queues, slot,
    state_at, state_keys, transition_of, QUEUE_COUNT,
};
use crate::reconcile::{
    completion_moves, install_fault, installs_fault_from, journal_fault_from, least_absent, least_foreign,
    lemma_none_absent, lemma_planned, lemma_plans_ascend, owners, plan_completions, plan_members, plan_moves, plans,
    queues_after_normalization, ranked_inputs, reconcile_fault, reconciled, record_of, repair_time,
    StartupReconciliation, StartupRecords, StartupRecoveryConfig,
};
use crate::reconcile_order::{
    apart, lemma_foreign, lemma_install_fault_at, lemma_journal_faults, lemma_state_keys,
};
use crate::session::{SessionQueueState, SessionTaskRecord, TaskId};
use crate::startup::{task_plan, TaskInputs, TaskPlan};
use crate::startup_laws::{
    lemma_distinct_moves, lemma_distinct_rows, lemma_first_duplicate_none, lemma_goals, lemma_live_moves,
    lemma_present, lemma_rank_of, lemma_row_at, lemma_start_consistent, rank_of, row_at, source_of,
};

verus! {

/// What a plan moves of its task.
proof fn lemma_move_fields(inputs: TaskInputs, task_id: TaskId, updated_ms: u64)
    requires
        task_plan(inputs, task_id, updated_ms) is Ok,
    ensures
        ({
            let plan = task_plan(inputs, task_id, updated_ms)->Ok_0;
            let task = inputs.task;
            &&& plan.queue_repair matches Some(change) ==> {
                &&& change.gid == task.gid
                &&& change.expected_state == task.queue_state
                &&& change.target_state != task.queue_state
                &&& change.desired_paused == task.desired_paused
                &&& change.slow_demotion_count == task.slow_demotion_count
                &&& change.updated_ms == updated_ms
                &&& inputs.journal.state.terminal is None
            }
            &&& plan.terminal_repair matches Some(end) ==> {
                &&& end.change.gid == task.gid
                &&& end.change.expected_state == task.queue_state
                &&& end.change.target_state is Stopped
                &&& !end.change.desired_paused
                &&& end.change.slow_demotion_count == task.slow_demotion_count
                &&& end.change.updated_ms >= updated_ms
                &&& end.change.updated_ms >= end.evidence.completed_ms
                &&& inputs.journal.state.terminal is Some
            }
        }),
{
}

/// A task that is moved to another queue is moved out of the one in which its record stands, as it
/// is in all else: afterwards the one queue does not hold it and the other does.
pub proof fn law_queue_repairs_move_their_tasks(
    records: StartupRecords,
    config: StartupRecoveryConfig,
    done: StartupReconciliation,
    i: int,
)
    requires
        reconcile_fault(records, config) is None,
        reconciled(done, records, config),
        records.snapshot.tasks.len() < u64::MAX,
        0 <= i < done.queue_session_repairs.len(),
    ensures
        ({
            let repair = done.queue_session_repairs[i];
            &&& repair.final_orders.len() == 2
            &&& repair.final_orders[0].state == repair.expected_state
            &&& repair.final_orders[1].state == repair.target_state
            &&& repair.expected_state != repair.target_state
            &&& !repair.final_orders[0].gids@.contains(repair.gid)
            &&& repair.final_orders[1].gids@.contains(repair.gid)
            &&& exists|row: int|
                {
                    let task = #[trigger] records.snapshot.tasks[row];
                    &&& 0 <= row < records.snapshot.tasks.len()
                    &&& task.gid == repair.gid
                    &&& task.queue_state == repair.expected_state
                    &&& task.desired_paused == repair.desired_paused
                    &&& task.slow_demotion_count == repair.slow_demotion_count
                }
        }),
{
    let tasks = records.snapshot.tasks@;
    let start = persisted_queues(tasks);
    let all = plans(records, config);
    let members = plan_members(all);
    let orders = restored_queues(members);
    let moves = plan_moves(all);
    let places = persisted_places(tasks);
    lemma_first_duplicate_none(owners(tasks));
    lemma_distinct_rows(tasks);
    lemma_plans_ascend(records, config);
    lemma_persisted_located(tasks);
    lemma_goals(members);
    lemma_start_consistent(records, config);
    lemma_live_moves(records, config);
    lemma_distinct_moves(records, config);
    lemma_all_moves(start, places, moves, orders, i + 1);
    let options = all.map_values(|p: TaskPlan| p.queue_repair);
    lemma_present(options);
    let k = source_of(options, i);
    assert(options[k] == Some(moves[i]));
    lemma_planned(records, config, 0, k);
    lemma_row_at(records, k);
    lemma_move_fields(
        ranked_inputs(records, k),
        TaskId((k + 1) as u64),
        repair_time(records.snapshot, config.now_wall_unix_ms),
    );
    let repair = done.queue_session_repairs[i];
    assert(repair@ == transition_of(start, moves, orders, i));
    lemma_places_after(places, moves, i + 1, moves[i].gid);
    let after = queues_after(start, moves, orders, i + 1);
    let here = places_after(places, moves, i + 1);
    assert(here[moves[i].gid] == slot(moves[i].target_state));
    assert(after[slot(moves[i].target_state)].contains(moves[i].gid));
    assert(!after[slot(moves[i].expected_state)].contains(moves[i].gid));
    assert(records.snapshot.tasks[row_at(records, k)].gid == repair.gid);
}

/// A task that its journal completed is moved to those that have stopped, and no longer waits to be
/// resumed.
pub proof fn law_terminal_repairs_stop_their_tasks(
    records: StartupRecords,
    config: StartupRecoveryConfig,
    done: StartupReconciliation,
    i: int,
)
    requires
        reconcile_fault(records, config) is None,
        reconciled(done, records, config),
        0 <= i < done.terminal_session_repairs.len(),
    ensures
        ({
            let repair = done.terminal_session_repairs[i];
            let change = repair.transition;
            &&& change.gid == repair.result.gid
            &&& change.target_state is Stopped
            &&& !change.desired_paused
            &&& change.updated_ms >= repair.result.completed_ms
            &&& change.updated_ms >= config.now_wall_unix_ms || change.updated_ms >= repair_time(
                records.snapshot,
                config.now_wall_unix_ms,
            )
            &&& exists|row: int|
                0 <= row < records.snapshot.tasks.len() && (#[trigger] records.snapshot.tasks[row]).gid == change.gid
                    && records.snapshot.tasks[row].queue_state == change.expected_state
                    && records.snapshot.tasks[row].slow_demotion_count == change.slow_demotion_count
        }),
{
    let tasks = records.snapshot.tasks@;
    let start = persisted_queues(tasks);
    let all = plans(records, config);
    let completions = plan_completions(all);
    let ends = completion_moves(completions);
    let orders = restored_queues(plan_members(all));
    lemma_first_duplicate_none(owners(tasks));
    let options = all.map_values(|p: TaskPlan| p.terminal_repair);
    lemma_present(options);
    let k = source_of(options, i);
    assert(options[k] == Some(completions[i]));
    lemma_planned(records, config, 0, k);
    lemma_row_at(records, k);
    lemma_move_fields(
        ranked_inputs(records, k),
        TaskId((k + 1) as u64),
        repair_time(records.snapshot, config.now_wall_unix_ms),
    );
    let repair = done.terminal_session_repairs[i];
    assert(crate::reconcile::writes_completion(repair, completions[i]));
    assert(repair.transition@ == transition_of(queues_after_normalization(start, all), ends, orders, i));
    assert(ends[i] == completions[i].change);
    assert(records.snapshot.tasks[row_at(records, k)].gid == repair.transition.gid);
}

/// Where no gap is found, positions count up.
proof fn lemma_no_gap(keys: Seq<OrderKey>, state: SessionQueueState, from: int, at: int)
    requires
        0 <= from <= at < keys.len(),
        gap_from(keys, state, from) is None,
    ensures
        keys[at].position == at,
    decreases at - from,
{
    if from < at {
        lemma_no_gap(keys, state, from + 1, at);
    }
}

proof fn lemma_no_queue_gap(tasks: Seq<SessionTaskRecord>, from: int, at: int)
    requires
        0 <= from <= at < QUEUE_COUNT,
        queue_gap(tasks, from) is None,
    ensures
        gap_from(persisted_keys(tasks, state_at(at)), state_at(at), 0) is None,
    decreases at - from,
{
    if from < at {
        lemma_no_queue_gap(tasks, from + 1, at);
    }
}

/// What records without a fault are known to be.
proof fn lemma_sound(records: StartupRecords, config: StartupRecoveryConfig)
    requires
        reconcile_fault(records, config) is None,
    ensures
        ({
            let s = records.snapshot;
            let gids = owners(s.tasks@);
            &&& gids.no_duplicates()
            &&& queue_gap(s.tasks@, 0) is None
            &&& s.tasks.len() <= config.scheduler.max_tasks
            &&& s.tasks.len() > 0 ==> s.session is Some && least_foreign(s.tasks@, s.session->0.session_id) is None
            &&& journal_fault_from(records.journals@, 0) is None
            &&& least_absent(gids, owners(records.journals@)) is None
            &&& least_absent(owners(records.journals@), gids) is None
            &&& least_absent(owners(s.stopped_results@), gids) is None
            &&& least_absent(owners(s.host_key_challenges@), gids) is None
            &&& least_absent(owners(records.admissions@), gids) is None
        }),
{
    lemma_first_duplicate_none(owners(records.snapshot.tasks@));
}

/// Records are accepted only where they belong together: every task is of the session and stands
/// once, each has its own journal and its admission, and no journal, result, challenge or
/// admission is of a task that there is not.
pub proof fn law_accepted_records_belong_together(records: StartupRecords, config: StartupRecoveryConfig, row: int, j: int)
    requires
        reconcile_fault(records, config) is None,
        0 <= row < records.snapshot.tasks.len(),
        0 <= j < records.journals.len(),
    ensures
        records.snapshot.tasks.len() <= config.scheduler.max_tasks,
        owners(records.snapshot.tasks@).no_duplicates(),
        records.snapshot.session is Some,
        records.snapshot.tasks[row].session_id == records.snapshot.session->0.session_id,
        owners(records.journals@).contains(records.snapshot.tasks[row].gid),
        owners(records.admissions@).contains(records.snapshot.tasks[row].gid),
        owners(records.snapshot.tasks@).contains(records.journals[j].gid),
        forall|b: int|
            0 <= b < records.journals.len() && b != j ==> (#[trigger] records.journals[b]).gid != records.journals[j].gid
                && records.journals[b].journal_id != records.journals[j].journal_id && records.journals[b].state.task
                != records.journals[j].state.task,
        forall|k: int|
            0 <= k < records.snapshot.stopped_results.len() ==> owners(records.snapshot.tasks@).contains(
                (#[trigger] records.snapshot.stopped_results[k]).gid,
            ),
        forall|k: int|
            0 <= k < records.snapshot.host_key_challenges.len() ==> owners(records.snapshot.tasks@).contains(
                (#[trigger] records.snapshot.host_key_challenges[k]).gid,
            ),
        forall|k: int|
            0 <= k < records.admissions.len() ==> owners(records.snapshot.tasks@).contains(
                (#[trigger] records.admissions[k]).gid,
            ),
{
    let tasks = records.snapshot.tasks@;
    let gids = owners(tasks);
    let journals = owners(records.journals@);
    lemma_sound(records, config);
    assert(gids[row] == tasks[row].gid);
    assert(journals[j] == records.journals[j].gid);
    assert(records.snapshot.tasks[row].session_id == records.snapshot.session->0.session_id) by {
        lemma_foreign(tasks, records.snapshot.session->0.session_id);
    }
    assert(journals.contains(gids[row])) by {
        lemma_none_absent(gids, journals);
    }
    assert(gids.contains(journals[j])) by {
        lemma_none_absent(journals, gids);
    }
    assert(owners(records.admissions@).contains(tasks[row].gid)) by {
        lemma_rank_of(records, row);
        lemma_planned(records, config, 0, rank_of(records, row));
    }
    assert forall|b: int| 0 <= b < records.journals.len() && b != j implies (#[trigger] records.journals[b]).gid
        != records.journals[j].gid && records.journals[b].journal_id != records.journals[j].journal_id
        && records.journals[b].state.task != records.journals[j].state.task by {
        lemma_journal_faults(records.journals@, 0);
        if b < j {
            assert(apart(records.journals@[b], records.journals@[j]));
        } else {
            assert(apart(records.journals@[j], records.journals@[b]));
        }
    }
    assert forall|k: int| 0 <= k < records.snapshot.stopped_results.len() implies gids.contains(
        (#[trigger] records.snapshot.stopped_results[k]).gid,
    ) by {
        lemma_none_absent(owners(records.snapshot.stopped_results@), gids);
        assert(owners(records.snapshot.stopped_results@)[k] == records.snapshot.stopped_results[k].gid);
    }
    assert forall|k: int| 0 <= k < records.snapshot.host_key_challenges.len() implies gids.contains(
        (#[trigger] records.snapshot.host_key_challenges[k]).gid,
    ) by {
        lemma_none_absent(owners(records.snapshot.host_key_challenges@), gids);
        assert(owners(records.snapshot.host_key_challenges@)[k] == records.snapshot.host_key_challenges[k].gid);
    }
    assert forall|k: int| 0 <= k < records.admissions.len() implies gids.contains(
        (#[trigger] records.admissions[k]).gid,
    ) by {
        lemma_none_absent(owners(records.admissions@), gids);
        assert(owners(records.admissions@)[k] == records.admissions[k].gid);
    }
}

/// Records are accepted only where their queues have no gaps: no two tasks of a queue have the same
/// place, and the place before each one's is taken, but for the first.
pub proof fn law_accepted_queues_have_no_gaps(
    records: StartupRecords,
    config: StartupRecoveryConfig,
    row: int,
    other: int,
)
    requires
        reconcile_fault(records, config) is None,
        0 <= row < records.snapshot.tasks.len(),
        0 <= other < records.snapshot.tasks.len(),
    ensures
        place_before_taken(records.snapshot.tasks@, row),
        row != other && records.snapshot.tasks[row].queue_state == records.snapshot.tasks[other].queue_state
            ==> records.snapshot.tasks[row].queue_position != records.snapshot.tasks[other].queue_position,
{
    let tasks = records.snapshot.tasks@;
    lemma_sound(records, config);
    lemma_placed(tasks, row);
    lemma_key_place(tasks, row);
    lemma_key_place(tasks, other);
    assert(owners(tasks)[row] == tasks[row].gid);
    assert(owners(tasks)[other] == tasks[other].gid);
}

/// Whether the place before a task's is taken, if there is one.
pub open spec fn place_before_taken(tasks: Seq<SessionTaskRecord>, row: int) -> bool {
    tasks[row].queue_position > 0 ==> exists|other: int|
        0 <= other < tasks.len() && (#[trigger] tasks[other]).queue_state == tasks[row].queue_state
            && tasks[other].queue_position + 1 == tasks[row].queue_position
}

/// A task's key stands at its position.
proof fn lemma_key_place(tasks: Seq<SessionTaskRecord>, row: int)
    requires
        owners(tasks).no_duplicates(),
        queue_gap(tasks, 0) is None,
        0 <= row < tasks.len(),
    ensures
        ({
            let keys = persisted_keys(tasks, tasks[row].queue_state);
            &&& tasks[row].queue_position < keys.len()
            &&& keys[tasks[row].queue_position as int] == position_key(tasks[row])
            &&& forall|i: int| 0 <= i < keys.len() ==> (#[trigger] keys[i]).position == i
        }),
{
    let state = tasks[row].queue_state;
    let keys = persisted_keys(tasks, state);
    assert(state_at(slot(state)) == state);
    lemma_no_queue_gap(tasks, 0, slot(state));
    lemma_state_keys(tasks, state);
    lemma_sorted_keys(state_keys(tasks, state));
    assert(state_keys(tasks, state).contains(position_key(tasks[row])));
    assert(keys.contains(position_key(tasks[row])));
    assert forall|i: int| 0 <= i < keys.len() implies (#[trigger] keys[i]).position == i by {
        lemma_no_gap(keys, state, 0, i);
    }
    let at = keys.index_of(position_key(tasks[row]));
    assert(keys[at].position == at);
}

proof fn lemma_placed(tasks: Seq<SessionTaskRecord>, row: int)
    requires
        owners(tasks).no_duplicates(),
        queue_gap(tasks, 0) is None,
        0 <= row < tasks.len(),
    ensures
        place_before_taken(tasks, row),
{
    if tasks[row].queue_position > 0 {
        lemma_key_place(tasks, row);
        let state = tasks[row].queue_state;
        let keys = persisted_keys(tasks, state);
        let before = keys[tasks[row].queue_position - 1];
        lemma_state_keys(tasks, state);
        lemma_sorted_keys(state_keys(tasks, state));
        assert(keys.contains(before));
        assert(state_keys(tasks, state).contains(before));
        let other = choose|i: int|
            0 <= i < tasks.len() && (#[trigger] tasks[i]).queue_state == state && position_key(tasks[i]) == before;
        assert(tasks[other].queue_position + 1 == tasks[row].queue_position);
    }
}

/// A move of journals is accepted only where it is of a task whose record and journal stand on the side
/// of it that its phase says, with the checkpoint that it was made from, and one for each task.
pub proof fn law_accepted_moves_fit_their_phase(records: StartupRecords, config: StartupRecoveryConfig, i: int)
    requires
        reconcile_fault(records, config) is None,
        0 <= i < records.snapshot.journal_installs.len(),
    ensures
        ({
            let intent = records.snapshot.journal_installs[i];
            let task = record_of(records.snapshot.tasks@, intent.gid);
            let journal = record_of(records.journals@, intent.gid);
            &&& task is Some && journal is Some
            &&& intent.old_journal_id != intent.new_journal_id
            &&& intent.phase is Installing ==> {
                &&& task->0.primary_journal_id == intent.old_journal_id
                &&& task->0.primary_journal_path.text@ == intent.old_path.text@
                &&& journal->0.journal_id == intent.old_journal_id
                &&& intent.source_last_sequence <= journal->0.state.last_sequence
            }
            &&& intent.phase is Installed ==> {
                &&& task->0.primary_journal_id == intent.new_journal_id
                &&& task->0.primary_journal_path.text@ == intent.new_path.text@
                &&& journal->0.journal_id == intent.new_journal_id
                &&& journal->0.state.checkpoint matches Some(checkpoint) && checkpoint.checkpoint_id
                    == intent.checkpoint_id && checkpoint.source_last_sequence == intent.source_last_sequence
            }
            &&& forall|k: int|
                0 <= k < i ==> (#[trigger] records.snapshot.journal_installs[k]).gid != intent.gid
                    && records.snapshot.journal_installs[k].new_journal_id != intent.new_journal_id
        }),
{
    let s = records.snapshot;
    lemma_install_fault_at(s.tasks@, records.journals@, s.journal_installs@, 0);
    assert(installs_fault_from(s.tasks@, records.journals@, s.journal_installs@, 0) is None);
    assert(install_fault(s.tasks@, records.journals@, s.journal_installs@, i) is None);
}

} // verus!
