//! Laws of what startup makes of one task: how it ended, where it waits and what it
//! waits for.
use vstd::prelude::*;
use crate::order::{key_le, key_order, lemma_sorted_keys, sorted_keys};
use crate::queues::{
    class_at, class_keys, lemma_class_keys, member_key, restored_order, restores, QueueMembership,
};
use crate::reconcile::{
    journal_fault_from, lemma_plan_identity, lemma_planned, lemma_plans_ascend, owners, plan_completions,
    plan_fault_from, plan_members, plans, present, ranked_inputs, ranked_task, reconcile_fault, reconciled, record_of,
    repair_time, Owned, StartupReconciliation, StartupRecords, StartupRecoveryConfig,
};
use crate::session::{
    Aria2Status, DelayRecovery, Gid, PersistedDelay, QueueClass, RecoveredSchedulerTask, RecoveredTaskJournal,
    RecoveredTerminal, RetryClass, SessionHostKeyChallengeRecord, SessionQueueState, SessionStoppedResultRecord,
    SessionTaskRecord, SessionTerminalStatus, TaskId, TaskPauseReason, TaskState,
};
use crate::startup::{task_plan, task_scope, terminal_outcome, TaskInputs, TaskPlan};
use crate::startup_laws::{lemma_first_duplicate_none, lemma_present, lemma_row_at, source_of};

verus! {

/// Whether a status and a stored result's status have the same name.
pub open spec fn named_alike(status: Aria2Status, stored: SessionTerminalStatus) -> bool {
    &&& status is Complete <==> stored is Complete
    &&& status is Error <==> stored is Error
    &&& status is Removed <==> stored is Removed
}

/// Whether a stored result says of a task what its journal's end says.
pub open spec fn agrees(stored: SessionStoppedResultRecord, end: RecoveredTerminal) -> bool {
    match end {
        RecoveredTerminal::Complete { layout_hash, final_length, completed_at_unix_ms } => {
            &&& stored.status is Complete
            &&& stored.error_kind is None
            &&& stored.safe_message@.len() == 0
            &&& stored.total_length == Some(final_length)
            &&& stored.layout_hash == Some(layout_hash)
            &&& stored.completed_ms == completed_at_unix_ms
        },
        RecoveredTerminal::Error { error_class, .. } => {
            &&& stored.status is Error
            &&& stored.error_kind == Some(error_class)
            &&& stored.total_length is None
            &&& stored.layout_hash is None
        },
        RecoveredTerminal::Removed => {
            &&& stored.status is Removed
            &&& stored.error_kind is None
            &&& stored.safe_message@.len() == 0
            &&& stored.total_length is None
            &&& stored.layout_hash is None
        },
    }
}

/// Whether a restored task shows the end that its journal recorded, and the message
/// and the status of its stored result.
pub open spec fn shows_end(
    restored: RecoveredSchedulerTask,
    journal: RecoveredTaskJournal,
    stored: Option<SessionStoppedResultRecord>,
) -> bool {
    match journal.state.terminal {
        None => {
            &&& restored.stopped_status is None
            &&& restored.error is None
            &&& !(restored.state is StoppedResult)
            &&& stored is None
        },
        Some(end) => {
            &&& restored.state is StoppedResult
            &&& restored.stopped_status is Some
            &&& stored matches Some(result) ==> agrees(result, end) && named_alike(
                restored.stopped_status->0,
                result.status,
            )
            &&& match end {
                RecoveredTerminal::Complete { .. } => restored.stopped_status == Some(Aria2Status::Complete)
                    && restored.error is None,
                RecoveredTerminal::Error { error_class, retriable, diagnostic_id } => {
                    &&& stored is Some
                    &&& restored.stopped_status == Some(Aria2Status::Error)
                    &&& restored.error matches Some(error) && {
                        &&& error.kind == error_class
                        &&& error.message@ == stored->0.safe_message@
                        &&& error.diagnostic_id == Some(diagnostic_id)
                        &&& error.retry == RetryClass::UserAction <==> retriable
                        &&& error.retry == RetryClass::Never <==> !retriable
                    }
                },
                RecoveredTerminal::Removed => stored is Some && restored.stopped_status == Some(Aria2Status::Removed)
                    && restored.error is None,
            }
            &&& restored.host_key_challenge is None
            &&& restored.slow_slot is None
            &&& restored.retry_at is None
            &&& restored.conditions.no_space is None
        },
    }
}

/// Whether a delay was brought onto this process's clock with a deadline.
pub open spec fn due_at(delay: PersistedDelay, deadline: crate::session::MonotonicInstant) -> bool {
    delay.recovery matches DelayRecovery::Valid(decision) && decision.deadline == deadline
}

/// Whether a task that has not ended resumes where its row, its journal and its
/// challenge say, with the deadlines that they recorded.
pub open spec fn resumes(
    restored: RecoveredSchedulerTask,
    task: SessionTaskRecord,
    journal: RecoveredTaskJournal,
    challenge: Option<SessionHostKeyChallengeRecord>,
) -> bool {
    let queued = task.queue_state is Waiting || task.queue_state is Active;
    let rests = task.desired_paused || task.queue_state is Paused;
    // A challenge is what the task waits for, and it is the stored one.
    &&& challenge is Some <==> restored.state is PausedHostKey
    &&& challenge is Some <==> restored.host_key_challenge is Some
    &&& challenge matches Some(stored) ==> {
        let asked = restored.host_key_challenge->0;
        &&& asked.id == stored.challenge_id
        &&& asked.canonical_host == stored.canonical_host
        &&& asked.port == stored.port
        &&& asked.algorithm == stored.algorithm
        &&& asked.fingerprint_sha256 == stored.fingerprint_sha256
        &&& asked.presented_public_key == stored.presented_public_key
    }
    // A task that is to rest does, and no other.
    &&& challenge is None && rests <==> restored.state is Paused || restored.state is PausedSlow
    &&& restored.state is PausedSlow ==> journal.state.paused == Some(TaskPauseReason::SlowSlot)
    &&& restored.state is Paused ==> journal.state.paused != Some(TaskPauseReason::SlowSlot)
    // What was waiting or active waits, for a retry where the journal decided on one.
    &&& challenge is None && !rests && queued <==> restored.state is Waiting || restored.state is RetryWait
    &&& restored.state is RetryWait <==> restored.retry_at is Some
    &&& restored.retry_at matches Some(deadline) ==> exists|i: int|
        0 <= i < journal.state.retry_states.len() && (#[trigger] journal.state.retry_states[i]).scope is Task
            && journal.state.retry_states[i].scope_id == journal.state.task.0 && due_at(
            journal.state.retry_states[i].delay,
            deadline,
        )
    &&& restored.state is Waiting ==> forall|i: int|
        0 <= i < journal.state.retry_states.len() ==> !((#[trigger] journal.state.retry_states[i]).scope is Task)
    // A demoted task keeps its slow slot.
    &&& challenge is None && !rests && task.queue_state is Demoted <==> restored.state is WaitingSlow
    &&& restored.state is WaitingSlow <==> restored.slow_slot is Some
    &&& restored.slow_slot matches Some(slot) ==> {
        &&& task.slow_slot is Some
        &&& task.slow_slot->0.retry is Some
        &&& slot.original_position == task.slow_slot->0.original_position
        &&& slot.demotion_count == task.slow_demotion_count
        &&& due_at(task.slow_slot->0.retry->0, slot.decision.readmit_at)
        &&& slot.decision.scheduled_at_ms == task.slow_slot->0.retry->0.scheduled_at_ms
        &&& slot.decision.delay_ms == task.slow_slot->0.retry->0.delay_ms
    }
    // A task without space waits for it.
    &&& task.no_space is Some <==> restored.conditions.no_space is Some
    &&& task.no_space matches Some(stored) ==> restored.conditions.no_space->0.retry_at is Some && due_at(
        stored.delay,
        restored.conditions.no_space->0.retry_at->0,
    )
}

/// Whether a scheduler queue is the one for a state.
pub open spec fn queue_for(state: TaskState, class: QueueClass) -> bool {
    match class {
        QueueClass::Waiting => state is Waiting || state is RetryWait,
        QueueClass::Demoted => state is WaitingSlow,
        QueueClass::Paused => state is Paused || state is PausedSlow || state is PausedHostKey,
        QueueClass::Active => false,
        QueueClass::Stopped => state is StoppedResult,
    }
}

/// The record of an owner is the only one that there is.
pub(crate) proof fn lemma_record_of<T: Owned>(records: Seq<T>, i: int)
    requires
        owners(records).no_duplicates(),
        0 <= i < records.len(),
    ensures
        record_of(records, records[i].owner()) == Some(records[i]),
{
    let gids = owners(records);
    let gid = records[i].owner();
    assert(gids[i] == gid);
    assert(gids.contains(gid));
    let k = gids.index_of(gid);
    assert(gids[k] == gid);
}

/// A record that is found is one of the records.
pub(crate) proof fn lemma_found_record<T: Owned>(records: Seq<T>, gid: Gid)
    ensures
        record_of(records, gid) matches Some(record) ==> record.owner() == gid && records.contains(record),
{
    let gids = owners(records);
    if gids.contains(gid) {
        let k = gids.index_of(gid);
        assert(gids[k] == gid);
        assert(records[k] == record_of(records, gid)->0);
    }
}

/// Journals without fault are of different tasks.
proof fn lemma_journals_distinct(journals: Seq<RecoveredTaskJournal>, from: int, a: int, b: int)
    requires
        0 <= from <= b,
        0 <= a < b < journals.len(),
        journal_fault_from(journals, from) is None,
    ensures
        journals[a].gid != journals[b].gid,
    decreases b - from,
{
    if from < b {
        lemma_journals_distinct(journals, from + 1, a, b);
    }
}

pub(crate) proof fn lemma_journal_owners(journals: Seq<RecoveredTaskJournal>)
    requires
        journal_fault_from(journals, 0) is None,
    ensures
        owners(journals).no_duplicates(),
{
    let gids = owners(journals);
    assert forall|a: int, b: int| 0 <= a < gids.len() && 0 <= b < gids.len() && a != b implies gids[a] != gids[b] by {
        if a < b {
            lemma_journals_distinct(journals, 0, a, b);
        } else {
            lemma_journals_distinct(journals, 0, b, a);
        }
    }
}

/// The task-wide decisions of a journal are among its decisions.
proof fn lemma_task_scope(states: Seq<crate::session::RecoveredRetryState>)
    ensures
        forall|k: int|
            0 <= k < task_scope(states).len() ==> (#[trigger] task_scope(states)[k]).scope is Task && states.contains(
                task_scope(states)[k],
            ),
        task_scope(states).len() == 0 ==> forall|i: int|
            0 <= i < states.len() ==> !((#[trigger] states[i]).scope is Task),
    decreases states.len(),
{
    if states.len() > 0 {
        let rest = states.drop_last();
        lemma_task_scope(rest);
        assert forall|k: int| 0 <= k < task_scope(states).len() implies (#[trigger] task_scope(states)[k]).scope is Task
            && states.contains(task_scope(states)[k]) by {
            if k < task_scope(rest).len() {
                assert(task_scope(states)[k] == task_scope(rest)[k]);
                let i = rest.index_of(task_scope(rest)[k]);
                assert(states[i] == rest[i]);
            } else {
                assert(states[states.len() - 1] == states.last());
            }
        }
        if task_scope(states).len() == 0 {
            assert forall|i: int| 0 <= i < states.len() implies !((#[trigger] states[i]).scope is Task) by {
                if i < rest.len() {
                    assert(rest[i] == states[i]);
                }
            }
        }
    }
}

/// The plan of a task shows how it ended or where it resumes.
proof fn lemma_plan_of_task(inputs: TaskInputs, task_id: TaskId, updated_ms: u64)
    requires
        task_plan(inputs, task_id, updated_ms) is Ok,
    ensures
        ({
            let plan = task_plan(inputs, task_id, updated_ms)->Ok_0;
            let restored = plan.scheduler;
            &&& shows_end(restored, inputs.journal, inputs.stopped)
            &&& inputs.journal.state.terminal is None ==> resumes(
                restored,
                inputs.task,
                inputs.journal,
                inputs.challenge,
            )
            &&& restored.generation == inputs.journal.state.generation
            &&& restored.desired_paused == inputs.task.desired_paused
            &&& restored.slow_demotion_count == inputs.task.slow_demotion_count
            &&& restored.conditions.needs_credentials == inputs.requirement
            &&& queue_for(restored.state, plan.member.class)
            &&& inputs.journal.journal_id == inputs.task.primary_journal_id
        }),
{
    let states = inputs.journal.state.retry_states@;
    lemma_task_scope(states);
    let own = task_scope(states);
    if own.len() > 0 {
        assert(own[0].scope is Task);
        let i = states.index_of(own[0]);
        assert(states[i] == own[0]);
    }
}

/// Startup restores every task as its records say: the row, the journal and, where they
/// are there, the stored result and the challenge of the same GID. A task that was
/// removed is restored as removed, one that failed with its error, one that was
/// completed as complete, and one that has not ended resumes where it was.
pub proof fn law_tasks_are_restored_as_their_records_say(
    records: StartupRecords,
    config: StartupRecoveryConfig,
    done: StartupReconciliation,
    k: int,
    row: int,
    j: int,
)
    requires
        reconcile_fault(records, config) is None,
        reconciled(done, records, config),
        0 <= k < done.scheduler_batch.tasks.len(),
        0 <= row < records.snapshot.tasks.len(),
        0 <= j < records.journals.len(),
        records.snapshot.tasks[row].gid == done.scheduler_batch.tasks[k].gid,
        records.journals[j].gid == done.scheduler_batch.tasks[k].gid,
    ensures
        ({
            let task = records.snapshot.tasks[row];
            let journal = records.journals[j];
            let restored = done.scheduler_batch.tasks[k];
            let stored = record_of(records.snapshot.stopped_results@, task.gid);
            let challenge = record_of(records.snapshot.host_key_challenges@, task.gid);
            let admission = record_of(records.admissions@, task.gid);
            &&& shows_end(restored, journal, stored)
            &&& journal.state.terminal is None ==> resumes(restored, task, journal, challenge)
            &&& restored.generation == journal.state.generation
            &&& restored.desired_paused == task.desired_paused
            &&& restored.slow_demotion_count == task.slow_demotion_count
            &&& admission is Some
            &&& restored.conditions.needs_credentials == admission->0.requirement
            &&& journal.journal_id == task.primary_journal_id
            &&& done.tasks[k].gid == task.gid
            &&& done.tasks[k].journal_id == journal.journal_id
            &&& done.tasks[k].journal == journal.state
        }),
        forall|s: int|
            0 <= s < records.snapshot.stopped_results.len() && (#[trigger] records.snapshot.stopped_results[s]).gid
                == records.snapshot.tasks[row].gid ==> record_of(
                records.snapshot.stopped_results@,
                records.snapshot.tasks[row].gid,
            ) == Some(records.snapshot.stopped_results[s]),
        forall|c: int|
            0 <= c < records.snapshot.host_key_challenges.len() && (#[trigger] records.snapshot.host_key_challenges[c]).gid
                == records.snapshot.tasks[row].gid ==> record_of(
                records.snapshot.host_key_challenges@,
                records.snapshot.tasks[row].gid,
            ) == Some(records.snapshot.host_key_challenges[c]),
{
    let tasks = records.snapshot.tasks@;
    let gids = owners(tasks);
    lemma_first_duplicate_none(gids);
    lemma_first_duplicate_none(owners(records.snapshot.stopped_results@));
    lemma_first_duplicate_none(owners(records.snapshot.host_key_challenges@));
    lemma_journal_owners(records.journals@);
    lemma_plans_ascend(records, config);
    lemma_planned(records, config, 0, k);
    let all = plans(records, config);
    assert(done.scheduler_batch.tasks@.len() == all.len());
    assert(done.scheduler_batch.tasks@[k] == all[k].scheduler);
    assert(done.tasks@[k] == all[k].engine);
    let inputs = ranked_inputs(records, k);
    let id = TaskId((k + 1) as u64);
    let when = repair_time(records.snapshot, config.now_wall_unix_ms);
    lemma_plan_identity(inputs, id, when);
    lemma_plan_of_task(inputs, id, when);
    lemma_row_at(records, k);
    let at = crate::startup_laws::row_at(records, k);
    assert(gids[at] == tasks[at].gid);
    assert(gids[row] == tasks[row].gid);
    assert(ranked_task(records, k) == tasks[row]);
    lemma_record_of(records.journals@, j);
    assert forall|s: int|
        0 <= s < records.snapshot.stopped_results.len() && (#[trigger] records.snapshot.stopped_results[s]).gid
            == tasks[row].gid implies record_of(records.snapshot.stopped_results@, tasks[row].gid) == Some(
        records.snapshot.stopped_results[s],
    ) by {
        lemma_record_of(records.snapshot.stopped_results@, s);
    }
    assert forall|c: int|
        0 <= c < records.snapshot.host_key_challenges.len() && (#[trigger] records.snapshot.host_key_challenges[c]).gid
            == tasks[row].gid implies record_of(records.snapshot.host_key_challenges@, tasks[row].gid) == Some(
        records.snapshot.host_key_challenges[c],
    ) by {
        lemma_record_of(records.snapshot.host_key_challenges@, c);
    }
}

/// A journal's end and a stored result that agree are accepted, and the status that
/// comes of them has the name of the stored one. A journal's completion is accepted
/// without a stored result too, from every queue; a removal or an error is not.
pub proof fn law_ends_that_agree_are_accepted(
    gid: Gid,
    queue_state: SessionQueueState,
    end: RecoveredTerminal,
    stored: SessionStoppedResultRecord,
)
    ensures
        queue_state is Stopped ==> (terminal_outcome(gid, queue_state, Some(end), Some(stored)) is Ok <==> agrees(
            stored,
            end,
        )),
        !(queue_state is Stopped) ==> terminal_outcome(gid, queue_state, Some(end), Some(stored)) is Err,
        terminal_outcome(gid, queue_state, Some(end), Some(stored)) matches Ok(ended) ==> ended is Some && named_alike(
            ended->0.status,
            stored.status,
        ) && ended->0.repair is None,
        terminal_outcome(gid, queue_state, Some(end), None) is Ok <==> end is Complete,
        terminal_outcome(gid, queue_state, Some(end), None) matches Ok(ended) ==> ended is Some
            && ended->0.status is Complete && ended->0.repair is Some,
        terminal_outcome(gid, queue_state, None, Some(stored)) is Err,
        terminal_outcome(gid, queue_state, None, None) is Ok <==> !(queue_state is Stopped),
{
}

/// Every restored task stands in exactly the scheduler queue for its state, once, and no
/// queue holds anything else.
pub proof fn law_tasks_stand_in_the_queue_of_their_state(
    records: StartupRecords,
    config: StartupRecoveryConfig,
    done: StartupReconciliation,
)
    requires
        reconcile_fault(records, config) is None,
        reconciled(done, records, config),
    ensures
        done.scheduler_batch.queues.len() == 5,
        forall|q: int| 0 <= q < 5 ==> (#[trigger] done.scheduler_batch.queues[q]).order@.no_duplicates(),
        forall|q: int, k: int|
            0 <= q < 5 && 0 <= k < done.scheduler_batch.tasks.len() ==> ((
            #[trigger] done.scheduler_batch.queues[q]).order@.contains((#[trigger] done.scheduler_batch.tasks[k]).gid)
                <==> queue_for(done.scheduler_batch.tasks[k].state, done.scheduler_batch.queues[q].class)),
        forall|q: int, gid: Gid|
            0 <= q < 5 && #[trigger] done.scheduler_batch.queues[q].order@.contains(gid) ==> exists|k: int|
                0 <= k < done.scheduler_batch.tasks.len() && (#[trigger] done.scheduler_batch.tasks[k]).gid == gid,
        forall|p: int, q: int|
            0 <= p < q < 5 ==> (#[trigger] done.scheduler_batch.queues[p]).class != (
            #[trigger] done.scheduler_batch.queues[q]).class,
{
    let all = plans(records, config);
    let members = plan_members(all);
    let queues = done.scheduler_batch.queues@;
    let tasks = done.scheduler_batch.tasks@;
    lemma_first_duplicate_none(owners(records.snapshot.tasks@));
    lemma_plans_ascend(records, config);
    assert forall|k: int| 0 <= k < tasks.len() implies members[k].gid == (#[trigger] tasks[k]).gid && queue_for(
        tasks[k].state,
        members[k].class,
    ) by {
        lemma_planned(records, config, 0, k);
        let inputs = ranked_inputs(records, k);
        let id = TaskId((k + 1) as u64);
        let when = repair_time(records.snapshot, config.now_wall_unix_ms);
        assert(tasks[k] == all[k].scheduler);
        lemma_plan_identity(inputs, id, when);
        lemma_plan_of_task(inputs, id, when);
    }
    assert forall|q: int| 0 <= q < 5 implies (#[trigger] queues[q]).order@.no_duplicates() by {
        crate::queues::lemma_restored_order_distinct(members, class_at(q));
    }
    assert forall|q: int, k: int| 0 <= q < 5 && 0 <= k < tasks.len() implies ((#[trigger] queues[q]).order@.contains(
        (#[trigger] tasks[k]).gid,
    ) <==> queue_for(tasks[k].state, queues[q].class)) by {
        lemma_member_of_order(members, class_at(q), k);
        assert(members[k].gid == tasks[k].gid);
    }
    assert forall|q: int, gid: Gid| 0 <= q < 5 && #[trigger] done.scheduler_batch.queues[q].order@.contains(
        gid,
    ) implies exists|k: int| 0 <= k < done.scheduler_batch.tasks.len() && (#[trigger] done.scheduler_batch.tasks[k]).gid
        == gid by {
        assert(queues[q].class == class_at(q));
        let i = queues[q].order@.index_of(gid);
        let m = lemma_order_member(members, class_at(q), i);
        assert(tasks[m].gid == members[m].gid);
        assert(done.scheduler_batch.tasks[m].gid == gid);
    }
}

/// A member stands in the restored order of its own queue only.
proof fn lemma_member_of_order(members: Seq<QueueMembership>, class: QueueClass, m: int)
    requires
        crate::queues::distinct_members(members),
        0 <= m < members.len(),
    ensures
        restored_order(members, class).contains(members[m].gid) <==> members[m].class == class,
{
    let keys = class_keys(members, class);
    let sorted = sorted_keys(keys);
    let order = restored_order(members, class);
    lemma_class_keys(members, class);
    lemma_sorted_keys(keys);
    if members[m].class == class {
        assert(sorted.contains(member_key(members[m])));
        let i = sorted.index_of(member_key(members[m]));
        assert(order[i] == members[m].gid);
    }
    if order.contains(members[m].gid) {
        let i = order.index_of(members[m].gid);
        let n = lemma_order_member(members, class, i);
        if n < m {
            assert(members[n].gid != members[m].gid);
        } else if m < n {
            assert(members[m].gid != members[n].gid);
        }
    }
}

/// What stands in a restored order is a member of its queue.
proof fn lemma_order_member(members: Seq<QueueMembership>, class: QueueClass, i: int) -> (m: int)
    requires
        0 <= i < restored_order(members, class).len(),
    ensures
        0 <= m < members.len(),
        members[m].class == class,
        members[m].gid == restored_order(members, class)[i],
        member_key(members[m]) == sorted_keys(class_keys(members, class))[i],
{
    let keys = class_keys(members, class);
    let sorted = sorted_keys(keys);
    lemma_class_keys(members, class);
    lemma_sorted_keys(keys);
    assert(sorted.contains(sorted[i]));
    assert(keys.contains(sorted[i]));
    let x = keys.index_of(sorted[i]);
    assert(keys[x] == sorted[i]);
    let m = choose|m: int|
        0 <= m < members.len() && (#[trigger] members[m]).class == class && member_key(members[m]) == keys[x];
    m
}

/// Tasks that were persisted in one queue and are restored in one queue keep their order,
/// and those that were in the queue already come before those that join it.
pub proof fn law_restored_queues_keep_the_order(
    records: StartupRecords,
    config: StartupRecoveryConfig,
    done: StartupReconciliation,
    q: int,
    a: int,
    b: int,
    first: int,
    second: int,
)
    requires
        reconcile_fault(records, config) is None,
        reconciled(done, records, config),
        0 <= q < done.scheduler_batch.queues.len(),
        0 <= a < done.scheduler_batch.queues[q].order.len(),
        0 <= b < done.scheduler_batch.queues[q].order.len(),
        0 <= first < records.snapshot.tasks.len(),
        0 <= second < records.snapshot.tasks.len(),
        records.snapshot.tasks[first].gid == done.scheduler_batch.queues[q].order[a],
        records.snapshot.tasks[second].gid == done.scheduler_batch.queues[q].order[b],
    ensures
        records.snapshot.tasks[first].queue_state == records.snapshot.tasks[second].queue_state
            && records.snapshot.tasks[first].queue_position < records.snapshot.tasks[second].queue_position ==> a < b,
        ({
            let class = done.scheduler_batch.queues[q].class;
            let was = records.snapshot.tasks[first].queue_state;
            let joined = records.snapshot.tasks[second].queue_state;
            let home = match class {
                QueueClass::Waiting => SessionQueueState::Waiting,
                QueueClass::Demoted => SessionQueueState::Demoted,
                QueueClass::Paused => SessionQueueState::Paused,
                QueueClass::Active => SessionQueueState::Active,
                QueueClass::Stopped => SessionQueueState::Stopped,
            };
            was == home && joined != home ==> a < b
        }),
{
    let all = plans(records, config);
    let members = plan_members(all);
    let tasks = records.snapshot.tasks@;
    let gids = owners(tasks);
    let class = class_at(q);
    let order = restored_order(members, class);
    let sorted = sorted_keys(class_keys(members, class));
    lemma_first_duplicate_none(gids);
    lemma_plans_ascend(records, config);
    lemma_sorted_keys(class_keys(members, class));
    assert(done.scheduler_batch.queues[q].order@ == order);
    let m = lemma_order_member(members, class, a);
    let n = lemma_order_member(members, class, b);
    lemma_row_of_member(records, config, m, first);
    lemma_row_of_member(records, config, n, second);
    lemma_planned(records, config, 0, m);
    lemma_planned(records, config, 0, n);
    lemma_plan_of_task(
        ranked_inputs(records, n),
        TaskId((n + 1) as u64),
        repair_time(records.snapshot, config.now_wall_unix_ms),
    );
    assert(all[n].member == members[n]);
    if b < a {
        assert(key_order()(sorted[b], sorted[a]));
        assert(key_le(member_key(members[n]), member_key(members[m])));
    }
}

/// The membership of a task is what its row says.
proof fn lemma_row_of_member(records: StartupRecords, config: StartupRecoveryConfig, m: int, row: int)
    requires
        owners(records.snapshot.tasks@).no_duplicates(),
        plan_fault_from(records, config, 0) is None,
        0 <= m < records.snapshot.tasks.len(),
        0 <= row < records.snapshot.tasks.len(),
        plan_members(plans(records, config))[m].gid == records.snapshot.tasks[row].gid,
    ensures
        plan_members(plans(records, config))[m].source == records.snapshot.tasks[row].queue_state,
        plan_members(plans(records, config))[m].position == records.snapshot.tasks[row].queue_position,
        ranked_task(records, m) == records.snapshot.tasks[row],
{
    let tasks = records.snapshot.tasks@;
    let gids = owners(tasks);
    lemma_planned(records, config, 0, m);
    lemma_plan_identity(
        ranked_inputs(records, m),
        TaskId((m + 1) as u64),
        repair_time(records.snapshot, config.now_wall_unix_ms),
    );
    lemma_row_at(records, m);
    let at = crate::startup_laws::row_at(records, m);
    assert(gids[at] == tasks[at].gid);
    assert(gids[row] == tasks[row].gid);
}

/// The result that startup writes for a task is what its journal says of its completion,
/// and it writes one only where none is stored.
pub proof fn law_written_results_are_what_journals_say(
    records: StartupRecords,
    config: StartupRecoveryConfig,
    done: StartupReconciliation,
    i: int,
)
    requires
        reconcile_fault(records, config) is None,
        reconciled(done, records, config),
        0 <= i < done.terminal_session_repairs.len(),
    ensures
        exists|j: int|
            0 <= j < records.journals.len() && (#[trigger] records.journals[j]).gid
                == done.terminal_session_repairs[i].result.gid && records.journals[j].state.terminal is Some
                && records.journals[j].state.terminal->0 is Complete && agrees(
                done.terminal_session_repairs[i].result,
                records.journals[j].state.terminal->0,
            ),
        forall|s: int|
            0 <= s < records.snapshot.stopped_results.len() ==> (#[trigger] records.snapshot.stopped_results[s]).gid
                != done.terminal_session_repairs[i].result.gid,
{
    let all = plans(records, config);
    let options = all.map_values(|p: TaskPlan| p.terminal_repair);
    let completions = plan_completions(all);
    lemma_present(options);
    assert(completions == present(options));
    let k = source_of(options, i);
    assert(options[k] == Some(completions[i]));
    assert(options[k] == all[k].terminal_repair);
    lemma_planned(records, config, 0, k);
    let inputs = ranked_inputs(records, k);
    let gid = inputs.task.gid;
    assert(crate::reconcile::writes_completion(done.terminal_session_repairs[i], completions[i]));
    lemma_first_duplicate_none(owners(records.snapshot.tasks@));
    lemma_row_at(records, k);
    lemma_journal_of(records, config, k);
    lemma_found_record(records.journals@, gid);
    let j = records.journals@.index_of(inputs.journal);
    assert(records.journals[j] == inputs.journal);
    assert forall|s: int| 0 <= s < records.snapshot.stopped_results.len() implies (
    #[trigger] records.snapshot.stopped_results[s]).gid != gid by {
        if records.snapshot.stopped_results[s].gid == gid {
            assert(owners(records.snapshot.stopped_results@)[s] == gid);
        }
    }
}

/// Every task has its journal.
pub(crate) proof fn lemma_journal_of(records: StartupRecords, config: StartupRecoveryConfig, rank: int)
    requires
        reconcile_fault(records, config) is None,
        owners(records.snapshot.tasks@).no_duplicates(),
        0 <= rank < records.snapshot.tasks.len(),
    ensures
        record_of(records.journals@, ranked_task(records, rank).gid) is Some,
{
    let gids = owners(records.snapshot.tasks@);
    lemma_row_at(records, rank);
    let at = crate::startup_laws::row_at(records, rank);
    assert(gids[at] == ranked_task(records, rank).gid);
    crate::reconcile::lemma_none_absent(gids, owners(records.journals@));
}

} // verus!
