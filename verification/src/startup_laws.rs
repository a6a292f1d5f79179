//! Laws of startup reconciliation as a whole.
use vstd::prelude::*;
use crate::queue_laws::{
    all_consistent, consistent, distinct_tasks, goals, lemma_all_moves, lemma_moves_reach_goal,
    lemma_persisted_as_restored, lemma_persisted_located, lemma_places_after, lemma_restored_entries,
    lemma_same_keys_consistent, movable, persisted_members, persisted_places, places_after,
};
use crate::queues::{
    class_of_state, distinct_members, lemma_restored_order_distinct, moves_apply, persisted_queues, restored_queues,
    slot, state_at, state_of_class, QueueMembership, QueueRepairCandidate, QUEUE_COUNT,
};
use crate::reconcile::{
    blocked_from, completion_moves, gid_keys, gid_order, installs_fault_from, journal_fault_from, lemma_blocked,
    lemma_gid_order, lemma_plan_identity, lemma_planned, lemma_plans_ascend, owners, plan_completions,
    plan_fault_from, plan_members, plan_moves, plans, present, queue_fault, queues_after_normalization,
    queues_after_repair, ranked_inputs, ranked_task, reconcile_fault, reconciled, record_fault, repair_time,
    StartupReconciliation, StartupRecords, StartupRecoveryConfig,
};
use crate::session::{
    Gid, JournalInstallIntent, QueueClass, RecoveredTaskJournal, SessionQueueState, SessionTaskRecord, TaskId,
};
use crate::startup::{task_plan, StartupRecoveryError, TaskInputs, TaskPlan};

verus! {

/// Where the `index`-th present value stood.
pub open spec fn source_of<T>(options: Seq<Option<T>>, index: int) -> int
    decreases options.len(),
{
    if options.len() == 0 {
        0
    } else if index < present(options.drop_last()).len() {
        source_of(options.drop_last(), index)
    } else {
        options.len() - 1
    }
}

/// Present values keep their order and their places.
pub(crate) proof fn lemma_present<T>(options: Seq<Option<T>>)
    ensures
        forall|i: int|
            0 <= i < present(options).len() ==> 0 <= #[trigger] source_of(options, i) < options.len()
                && options[source_of(options, i)] == Some(present(options)[i]),
        forall|i: int, j: int|
            0 <= i < j < present(options).len() ==> #[trigger] source_of(options, i) < #[trigger] source_of(
                options,
                j,
            ),
        forall|k: int|
            0 <= k < options.len() && (#[trigger] options[k]) is Some ==> exists|i: int|
                0 <= i < present(options).len() && #[trigger] source_of(options, i) == k,
    decreases options.len(),
{
    if options.len() > 0 {
        let rest = options.drop_last();
        lemma_present(rest);
        assert forall|i: int| 0 <= i < present(options).len() implies 0 <= #[trigger] source_of(options, i) < options.len()
            && options[source_of(options, i)] == Some(present(options)[i]) by {
            if i < present(rest).len() {
                assert(0 <= source_of(rest, i) < rest.len());
                assert(rest[source_of(rest, i)] == options[source_of(rest, i)]);
            }
        }
        assert forall|i: int, j: int| 0 <= i < j < present(options).len() implies #[trigger] source_of(options, i) < #[trigger] source_of(options, j) by {
            if j < present(rest).len() {
                assert(source_of(rest, i) < source_of(rest, j));
            } else {
                assert(0 <= source_of(rest, i) < rest.len());
            }
        }
        assert forall|k: int| 0 <= k < options.len() && (#[trigger] options[k]) is Some implies exists|i: int|
            0 <= i < present(options).len() && #[trigger] source_of(options, i) == k by {
            if k < rest.len() {
                assert(rest[k] == options[k]);
                let i = choose|i: int| 0 <= i < present(rest).len() && #[trigger] source_of(rest, i) == k;
                assert(source_of(options, i) == k);
            } else {
                assert(source_of(options, present(rest).len() as int) == k);
            }
        }
    }
}

/// How a plan's queue moves follow from where its task stood and goes.
pub open spec fn moves_fit(plan: TaskPlan, task: SessionTaskRecord) -> bool {
    &&& plan.member.gid == task.gid
    &&& plan.member.source == task.queue_state
    &&& plan.member.position == task.queue_position
    &&& plan.queue_repair matches Some(change) ==> {
        &&& change.gid == task.gid
        &&& change.expected_state == task.queue_state
        &&& change.target_state == state_of_class(plan.member.class)
        &&& change.expected_state != change.target_state
        &&& !(change.expected_state is Stopped)
        &&& plan.terminal_repair is None
    }
    &&& plan.terminal_repair matches Some(completion) ==> {
        &&& completion.change.gid == task.gid
        &&& completion.change.expected_state == task.queue_state
        &&& completion.change.target_state == SessionQueueState::Stopped
        &&& plan.member.class == QueueClass::Stopped
    }
    &&& plan.queue_repair is None && plan.terminal_repair is None ==> task.queue_state == state_of_class(
        plan.member.class,
    )
}

proof fn lemma_moves_fit(inputs: TaskInputs, task_id: TaskId, updated_ms: u64)
    requires
        task_plan(inputs, task_id, updated_ms) is Ok,
    ensures
        moves_fit(task_plan(inputs, task_id, updated_ms)->Ok_0, inputs.task),
{
}

/// Every plan fits the row it was made from.
proof fn lemma_plans_fit(records: StartupRecords, config: StartupRecoveryConfig)
    requires
        owners(records.snapshot.tasks@).no_duplicates(),
        plan_fault_from(records, config, 0) is None,
    ensures
        forall|k: int|
            0 <= k < records.snapshot.tasks.len() ==> moves_fit(
                #[trigger] plans(records, config)[k],
                ranked_task(records, k),
            ),
{
    assert forall|k: int| 0 <= k < records.snapshot.tasks.len() implies moves_fit(
        #[trigger] plans(records, config)[k],
        ranked_task(records, k),
    ) by {
        lemma_planned(records, config, 0, k);
        lemma_moves_fit(
            ranked_inputs(records, k),
            TaskId((k + 1) as u64),
            repair_time(records.snapshot, config.now_wall_unix_ms),
        );
    }
}

/// The row of the task at `rank`.
pub open spec fn row_at(records: StartupRecords, rank: int) -> int {
    gid_order(owners(records.snapshot.tasks@))[rank].id as int
}

/// The rank of the task in row `row`.
pub open spec fn rank_of(records: StartupRecords, row: int) -> int {
    let gids = owners(records.snapshot.tasks@);
    gid_order(gids).index_of(gid_keys(gids)[row])
}

/// The rows are distinct tasks.
pub(crate) proof fn lemma_distinct_rows(tasks: Seq<SessionTaskRecord>)
    requires
        owners(tasks).no_duplicates(),
    ensures
        distinct_tasks(tasks),
{
    let gids = owners(tasks);
    assert forall|a: int, b: int| 0 <= a < b < tasks.len() implies (#[trigger] tasks[a]).gid != (#[trigger] tasks[b]).gid by {
        assert(gids[a] == tasks[a].gid);
        assert(gids[b] == tasks[b].gid);
    }
}

/// Every rank leads to a row.
pub(crate) proof fn lemma_row_at(records: StartupRecords, rank: int)
    requires
        owners(records.snapshot.tasks@).no_duplicates(),
        0 <= rank < records.snapshot.tasks.len(),
    ensures
        0 <= row_at(records, rank) < records.snapshot.tasks.len(),
        ranked_task(records, rank) == records.snapshot.tasks[row_at(records, rank)],
{
    let gids = owners(records.snapshot.tasks@);
    lemma_gid_order(gids);
    assert(gid_order(gids)[rank].id < gids.len());
}

/// Every row has a rank.
pub(crate) proof fn lemma_rank_of(records: StartupRecords, row: int)
    requires
        owners(records.snapshot.tasks@).no_duplicates(),
        0 <= row < records.snapshot.tasks.len(),
    ensures
        0 <= rank_of(records, row) < records.snapshot.tasks.len(),
        ranked_task(records, rank_of(records, row)) == records.snapshot.tasks[row],
{
    let gids = owners(records.snapshot.tasks@);
    let keys = gid_keys(gids);
    let order = gid_order(gids);
    lemma_gid_order(gids);
    crate::order::lemma_sorted_keys(keys);
    assert(keys[row].id == row);
    assert(keys.contains(keys[row]));
    assert(order.contains(keys[row]));
    assert(order[rank_of(records, row)] == keys[row]);
}

/// The restored orders of all plans can be sorted towards.
pub(crate) proof fn lemma_goals(members: Seq<QueueMembership>)
    requires
        distinct_members(members),
        members.len() < u64::MAX,
    ensures
        goals(restored_queues(members)),
{
    let orders = restored_queues(members);
    assert forall|s: int| 0 <= s < QUEUE_COUNT implies (#[trigger] orders[s]).no_duplicates()
        && orders[s].len() < u64::MAX by {
        lemma_restored_order_distinct(members, class_of_state(state_at(s)));
        lemma_restored_entries(members, class_of_state(state_at(s)));
    }
}

/// Distinct rows repeat nothing.
pub proof fn lemma_first_duplicate_none(gids: Seq<Gid>)
    requires
        crate::reconcile::first_duplicate(gids) is None,
    ensures
        gids.no_duplicates(),
{
    assert forall|a: int, b: int| 0 <= a < b < gids.len() implies gids[a] != gids[b] by {
        lemma_no_duplicate_at(gids, 0, b);
        if gids[a] == gids[b] {
            assert(gids.take(b)[a] == gids[b]);
            assert(gids.take(b).contains(gids[b]));
        }
    }
}

proof fn lemma_no_duplicate_at(gids: Seq<Gid>, from: int, at: int)
    requires
        0 <= from <= at < gids.len(),
        crate::reconcile::duplicate_from(gids, from) is None,
    ensures
        !gids.take(at).contains(gids[at]),
    decreases at - from,
{
    if from < at {
        lemma_no_duplicate_at(gids, from + 1, at);
    }
}

/// A task stands where its row says.
proof fn lemma_place_of_task(records: StartupRecords, rank: int)
    requires
        owners(records.snapshot.tasks@).no_duplicates(),
        0 <= rank < records.snapshot.tasks.len(),
    ensures
        persisted_places(records.snapshot.tasks@).contains_key(ranked_task(records, rank).gid),
        persisted_places(records.snapshot.tasks@)[ranked_task(records, rank).gid] == slot(
            ranked_task(records, rank).queue_state,
        ),
{
    let tasks = records.snapshot.tasks@;
    lemma_distinct_rows(tasks);
    lemma_row_at(records, rank);
    let g = ranked_task(records, rank).gid;
    let i = row_at(records, rank);
    assert(tasks[i].gid == g);
    let k = choose|k: int| 0 <= k < tasks.len() && (#[trigger] tasks[k]).gid == g;
    if k < i {
        assert(tasks[k].gid != tasks[i].gid);
    } else if i < k {
        assert(tasks[i].gid != tasks[k].gid);
    }
}

/// A move that leaves the stopped queue blocks.
proof fn lemma_blocked_somewhere(
    queues: Seq<Seq<Gid>>,
    moves: Seq<QueueRepairCandidate>,
    orders: Seq<Seq<Gid>>,
    from: int,
    at: int,
)
    requires
        0 <= from <= at < moves.len(),
        moves[at].expected_state is Stopped,
    ensures
        blocked_from(queues, moves, orders, from) is Some,
    decreases at - from,
{
    if from < at {
        lemma_blocked_somewhere(queues, moves, orders, from + 1, at);
    }
}

/// Where the repairs leave the task at `rank`.
proof fn lemma_final_place(records: StartupRecords, config: StartupRecoveryConfig, rank: int)
    requires
        owners(records.snapshot.tasks@).no_duplicates(),
        plan_fault_from(records, config, 0) is None,
        0 <= rank < records.snapshot.tasks.len(),
    ensures
        ({
            let all = plans(records, config);
            let moves = plan_moves(all);
            let ends = completion_moves(plan_completions(all));
            let last = places_after(
                places_after(persisted_places(records.snapshot.tasks@), moves, moves.len() as int),
                ends,
                ends.len() as int,
            );
            last.contains_key(all[rank].member.gid) && last[all[rank].member.gid] == slot(
                state_of_class(all[rank].member.class),
            )
        }),
{
    let all = plans(records, config);
    let moves = plan_moves(all);
    let completions = plan_completions(all);
    let ends = completion_moves(completions);
    let places = persisted_places(records.snapshot.tasks@);
    let gid = all[rank].member.gid;
    let queue_options = all.map_values(|p: TaskPlan| p.queue_repair);
    let end_options = all.map_values(|p: TaskPlan| p.terminal_repair);
    lemma_present(queue_options);
    lemma_present(end_options);
    lemma_plans_fit(records, config);
    lemma_plans_ascend(records, config);
    lemma_place_of_task(records, rank);
    assert(moves_fit(all[rank], ranked_task(records, rank)));
    // Only the task's own plan moves it.
    assert forall|j: int| 0 <= j < moves.len() implies ((#[trigger] moves[j]).gid == gid <==> source_of(queue_options, j) == rank) by {
        let b = source_of(queue_options, j);
        assert(queue_options[b] == all[b].queue_repair);
        assert(moves_fit(all[b], ranked_task(records, b)));
        if rank < b {
            assert(all[rank].member.gid.0 < all[b].member.gid.0);
        } else if b < rank {
            assert(all[b].member.gid.0 < all[rank].member.gid.0);
        }
    }
    assert forall|j: int| 0 <= j < ends.len() implies ((#[trigger] ends[j]).gid == gid <==> source_of(end_options, j) == rank) by {
        let b = source_of(end_options, j);
        assert(ends[j] == completions[j].change);
        assert(end_options[b] == all[b].terminal_repair);
        assert(moves_fit(all[b], ranked_task(records, b)));
        if rank < b {
            assert(all[rank].member.gid.0 < all[b].member.gid.0);
        } else if b < rank {
            assert(all[b].member.gid.0 < all[rank].member.gid.0);
        }
    }
    lemma_distinct_moves(records, config);
    let here = places_after(places, moves, moves.len() as int);
    lemma_places_after(places, moves, moves.len() as int, gid);
    lemma_places_after(here, ends, ends.len() as int, gid);
    assert(queue_options[rank] == all[rank].queue_repair);
    assert(end_options[rank] == all[rank].terminal_repair);
    if all[rank].queue_repair is Some {
        let j = choose|j: int| 0 <= j < present(queue_options).len() && #[trigger] source_of(queue_options, j) == rank;
        assert(moves[j].gid == gid);
        assert(Some(moves[j]) == all[rank].queue_repair);
        assert forall|i: int| 0 <= i < ends.len() implies (#[trigger] ends[i]).gid != gid by {
            assert(source_of(end_options, i) != rank);
        }
    } else if all[rank].terminal_repair is Some {
        let j = choose|j: int| 0 <= j < present(end_options).len() && #[trigger] source_of(end_options, j) == rank;
        assert(ends[j].gid == gid);
        assert(Some(completions[j]) == all[rank].terminal_repair);
    } else {
        assert forall|i: int| 0 <= i < moves.len() implies (#[trigger] moves[i]).gid != gid by {
            assert(queue_options[source_of(queue_options, i)] is Some);
        }
        assert forall|i: int| 0 <= i < ends.len() implies (#[trigger] ends[i]).gid != gid by {
            assert(end_options[source_of(end_options, i)] is Some);
        }
    }
}

/// No task is moved twice by live moves, nor twice by completions.
pub(crate) proof fn lemma_distinct_moves(records: StartupRecords, config: StartupRecoveryConfig)
    requires
        owners(records.snapshot.tasks@).no_duplicates(),
        plan_fault_from(records, config, 0) is None,
    ensures
        ({
            let moves = plan_moves(plans(records, config));
            let ends = completion_moves(plan_completions(plans(records, config)));
            &&& forall|i: int, j: int|
                0 <= i < j < moves.len() ==> (#[trigger] moves[i]).gid != (#[trigger] moves[j]).gid
            &&& forall|i: int, j: int|
                0 <= i < j < ends.len() ==> (#[trigger] ends[i]).gid != (#[trigger] ends[j]).gid
        }),
{
    let all = plans(records, config);
    let moves = plan_moves(all);
    let completions = plan_completions(all);
    let ends = completion_moves(completions);
    let queue_options = all.map_values(|p: TaskPlan| p.queue_repair);
    let end_options = all.map_values(|p: TaskPlan| p.terminal_repair);
    lemma_present(queue_options);
    lemma_present(end_options);
    lemma_plans_fit(records, config);
    lemma_plans_ascend(records, config);
    assert forall|i: int, j: int| 0 <= i < j < moves.len() implies (#[trigger] moves[i]).gid != (#[trigger] moves[j]).gid by {
        let a = source_of(queue_options, i);
        let b = source_of(queue_options, j);
        assert(queue_options[a] == all[a].queue_repair);
        assert(queue_options[b] == all[b].queue_repair);
        assert(moves_fit(all[a], ranked_task(records, a)));
        assert(moves_fit(all[b], ranked_task(records, b)));
        assert(all[a].member.gid.0 < all[b].member.gid.0);
    }
    assert forall|i: int, j: int| 0 <= i < j < ends.len() implies (#[trigger] ends[i]).gid != (#[trigger] ends[j]).gid by {
        let a = source_of(end_options, i);
        let b = source_of(end_options, j);
        assert(ends[i] == completions[i].change && ends[j] == completions[j].change);
        assert(end_options[a] == all[a].terminal_repair);
        assert(end_options[b] == all[b].terminal_repair);
        assert(moves_fit(all[a], ranked_task(records, a)));
        assert(moves_fit(all[b], ranked_task(records, b)));
        assert(all[a].member.gid.0 < all[b].member.gid.0);
    }
}

/// Moves place nothing but tasks.
proof fn lemma_placed_by_moves(places: Map<Gid, int>, moves: Seq<QueueRepairCandidate>, count: int, gid: Gid)
    requires
        0 <= count <= moves.len(),
        places_after(places, moves, count).contains_key(gid),
    ensures
        places.contains_key(gid) || exists|i: int| 0 <= i < count && (#[trigger] moves[i]).gid == gid,
    decreases count,
{
    if count > 0 {
        if moves[count - 1].gid != gid {
            lemma_placed_by_moves(places, moves, count - 1, gid);
        }
    }
}

/// What stands in a queue after the repairs is a task.
proof fn lemma_only_tasks_have_places(records: StartupRecords, config: StartupRecoveryConfig, gid: Gid)
    requires
        owners(records.snapshot.tasks@).no_duplicates(),
        plan_fault_from(records, config, 0) is None,
        ({
            let all = plans(records, config);
            let moves = plan_moves(all);
            let ends = completion_moves(plan_completions(all));
            places_after(
                places_after(persisted_places(records.snapshot.tasks@), moves, moves.len() as int),
                ends,
                ends.len() as int,
            ).contains_key(gid)
        }),
    ensures
        exists|m: int|
            0 <= m < plan_members(plans(records, config)).len() && (#[trigger] plan_members(
                plans(records, config),
            )[m]).gid == gid,
{
    let all = plans(records, config);
    let members = plan_members(all);
    let moves = plan_moves(all);
    let completions = plan_completions(all);
    let ends = completion_moves(completions);
    let tasks = records.snapshot.tasks@;
    let places = persisted_places(tasks);
    let here = places_after(places, moves, moves.len() as int);
    let queue_options = all.map_values(|p: TaskPlan| p.queue_repair);
    let end_options = all.map_values(|p: TaskPlan| p.terminal_repair);
    lemma_present(queue_options);
    lemma_present(end_options);
    lemma_plans_fit(records, config);
    lemma_plans_ascend(records, config);
    lemma_placed_by_moves(here, ends, ends.len() as int, gid);
    if here.contains_key(gid) {
        lemma_placed_by_moves(places, moves, moves.len() as int, gid);
        if places.contains_key(gid) {
            let i = choose|i: int| 0 <= i < tasks.len() && (#[trigger] tasks[i]).gid == gid;
            let k = rank_of(records, i);
            lemma_rank_of(records, i);
            assert(all[k].member.gid == gid);
            assert(members[k].gid == gid);
        } else {
            let i = choose|i: int| 0 <= i < moves.len() && (#[trigger] moves[i]).gid == gid;
            let a = source_of(queue_options, i);
            assert(queue_options[a] == all[a].queue_repair);
            assert(moves_fit(all[a], ranked_task(records, a)));
            assert(members[a].gid == gid);
        }
    } else {
        let i = choose|i: int| 0 <= i < ends.len() && (#[trigger] ends[i]).gid == gid;
        let a = source_of(end_options, i);
        assert(ends[i] == completions[i].change);
        assert(end_options[a] == all[a].terminal_repair);
        assert(moves_fit(all[a], ranked_task(records, a)));
        assert(members[a].gid == gid);
    }
}

/// The persisted orders already agree with the restored ones on the tasks that stay.
pub(crate) proof fn lemma_start_consistent(records: StartupRecords, config: StartupRecoveryConfig)
    requires
        owners(records.snapshot.tasks@).no_duplicates(),
        plan_fault_from(records, config, 0) is None,
    ensures
        all_consistent(
            persisted_queues(records.snapshot.tasks@),
            restored_queues(plan_members(plans(records, config))),
        ),
{
    let tasks = records.snapshot.tasks@;
    let start = persisted_queues(tasks);
    let all = plans(records, config);
    let members = plan_members(all);
    let orders = restored_queues(members);
    let before = persisted_members(tasks);
    lemma_distinct_rows(tasks);
    lemma_plans_ascend(records, config);
    lemma_plans_fit(records, config);
    assert(distinct_members(before)) by {
        assert forall|a: int, b: int| 0 <= a < b < before.len() implies (#[trigger] before[a]).gid != (#[trigger] before[b]).gid by {
            assert(tasks[a].gid != tasks[b].gid);
        }
    }
    assert forall|a: int, b: int|
        0 <= a < before.len() && 0 <= b < members.len() && (#[trigger] before[a]).gid == (#[trigger] members[b]).gid
        implies before[a].source == members[b].source && before[a].position == members[b].position by {
        assert(members[b] == all[b].member);
        assert(moves_fit(all[b], ranked_task(records, b)));
        lemma_row_at(records, b);
        let i = row_at(records, b);
        assert(tasks[i].gid == tasks[a].gid);
        if i < a {
            assert(tasks[i].gid != tasks[a].gid);
        } else if a < i {
            assert(tasks[a].gid != tasks[i].gid);
        }
    }
    assert forall|s: int| 0 <= s < QUEUE_COUNT implies consistent(#[trigger] start[s], orders[s]) by {
        let class = class_of_state(state_at(s));
        lemma_persisted_as_restored(tasks, state_at(s));
        lemma_same_keys_consistent(before, members, class);
    }
}

/// The moves of live tasks can be made from the persisted places.
pub(crate) proof fn lemma_live_moves(records: StartupRecords, config: StartupRecoveryConfig)
    requires
        owners(records.snapshot.tasks@).no_duplicates(),
        plan_fault_from(records, config, 0) is None,
    ensures
        movable(persisted_places(records.snapshot.tasks@), plan_moves(plans(records, config))),
{
    let all = plans(records, config);
    let moves = plan_moves(all);
    let places = persisted_places(records.snapshot.tasks@);
    let queue_options = all.map_values(|p: TaskPlan| p.queue_repair);
    lemma_present(queue_options);
    lemma_plans_fit(records, config);
    lemma_distinct_moves(records, config);
    assert forall|i: int| 0 <= i < moves.len() implies places.contains_key((#[trigger] moves[i]).gid) && places[moves[i].gid] == slot(moves[i].expected_state) && moves[i].expected_state != moves[i].target_state && !(moves[i].expected_state is Stopped) by {
        let a = source_of(queue_options, i);
        assert(queue_options[a] == all[a].queue_repair);
        assert(moves_fit(all[a], ranked_task(records, a)));
        lemma_place_of_task(records, a);
    }
}

/// Completed tasks still stand in their persisted queue when their turn comes.
proof fn lemma_completion_places(records: StartupRecords, config: StartupRecoveryConfig, index: int)
    requires
        owners(records.snapshot.tasks@).no_duplicates(),
        plan_fault_from(records, config, 0) is None,
        0 <= index < completion_moves(plan_completions(plans(records, config))).len(),
    ensures
        ({
            let all = plans(records, config);
            let moves = plan_moves(all);
            let end = completion_moves(plan_completions(all))[index];
            let here = places_after(
                persisted_places(records.snapshot.tasks@),
                moves,
                moves.len() as int,
            );
            &&& here.contains_key(end.gid)
            &&& here[end.gid] == slot(end.expected_state)
            &&& end.target_state is Stopped
            &&& end == plan_completions(all)[index].change
        }),
{
    let all = plans(records, config);
    let moves = plan_moves(all);
    let completions = plan_completions(all);
    let end = completion_moves(completions)[index];
    let places = persisted_places(records.snapshot.tasks@);
    let queue_options = all.map_values(|p: TaskPlan| p.queue_repair);
    let end_options = all.map_values(|p: TaskPlan| p.terminal_repair);
    lemma_present(queue_options);
    lemma_present(end_options);
    lemma_plans_fit(records, config);
    lemma_plans_ascend(records, config);
    lemma_distinct_moves(records, config);
    let a = source_of(end_options, index);
    assert(end_options[a] == all[a].terminal_repair);
    assert(moves_fit(all[a], ranked_task(records, a)));
    lemma_place_of_task(records, a);
    assert forall|j: int| 0 <= j < moves.len() implies (#[trigger] moves[j]).gid != end.gid by {
        let b = source_of(queue_options, j);
        assert(queue_options[b] == all[b].queue_repair);
        assert(moves_fit(all[b], ranked_task(records, b)));
        if a < b {
            assert(all[a].member.gid.0 < all[b].member.gid.0);
        } else if b < a {
            assert(all[b].member.gid.0 < all[a].member.gid.0);
        }
    }
    lemma_places_after(places, moves, moves.len() as int, end.gid);
}

/// The queue repairs of a startup whose records and tasks are sound always lead
/// from the persisted orders to exactly the restored orders; only a completed
/// task that the store already counts as stopped, without a result, is refused.
pub proof fn law_queue_repairs_reach_restored_orders(records: StartupRecords, config: StartupRecoveryConfig)
    requires
        record_fault(records, config) is None,
        plan_fault_from(records, config, 0) is None,
        records.snapshot.tasks.len() < u64::MAX,
    ensures
        ({
            let start = persisted_queues(records.snapshot.tasks@);
            let all = plans(records, config);
            &&& queue_fault(start, all) != Some(StartupRecoveryError::QueueRepairInvariant)
            &&& queue_fault(start, all) is None ==> queues_after_repair(start, all) == restored_queues(
                plan_members(all),
            )
            &&& queue_fault(start, all) is Some <==> exists|i: int|
                0 <= i < plan_completions(all).len() && (#[trigger] plan_completions(
                    all,
                )[i]).change.expected_state is Stopped
        }),
{
    let tasks = records.snapshot.tasks@;
    let start = persisted_queues(tasks);
    let all = plans(records, config);
    let members = plan_members(all);
    let orders = restored_queues(members);
    let moves = plan_moves(all);
    let completions = plan_completions(all);
    let ends = completion_moves(completions);
    let places = persisted_places(tasks);
    lemma_first_duplicate_none(owners(tasks));
    lemma_distinct_rows(tasks);
    lemma_plans_ascend(records, config);
    lemma_persisted_located(tasks);
    lemma_goals(members);
    lemma_start_consistent(records, config);
    lemma_live_moves(records, config);
    lemma_distinct_moves(records, config);
    lemma_all_moves(start, places, moves, orders, moves.len() as int);
    let middle = queues_after_normalization(start, all);
    let here = places_after(places, moves, moves.len() as int);
    assert(moves_apply(start, moves, orders));
    if exists|i: int| 0 <= i < completions.len() && (#[trigger] completions[i]).change.expected_state is Stopped {
        let i = choose|i: int| 0 <= i < completions.len() && (#[trigger] completions[i]).change.expected_state is Stopped;
        assert(ends[i] == completions[i].change);
        lemma_blocked_somewhere(middle, ends, orders, 0, i);
    } else {
        assert forall|i: int| 0 <= i < ends.len() implies here.contains_key((#[trigger] ends[i]).gid) && here[ends[i].gid] == slot(ends[i].expected_state) && ends[i].expected_state != ends[i].target_state && !(ends[i].expected_state is Stopped) by {
            lemma_completion_places(records, config, i);
            assert(!(completions[i].change.expected_state is Stopped));
        }
        assert(movable(here, ends));
        lemma_all_moves(middle, here, ends, orders, ends.len() as int);
        assert(moves_apply(middle, ends, orders));
        lemma_blocked(middle, ends, orders, 0);
        let last = places_after(here, ends, ends.len() as int);
        assert forall|m: int| 0 <= m < members.len() implies last.contains_key((#[trigger] members[m]).gid) && last[members[m].gid] == slot(state_of_class(members[m].class)) by {
            assert(members[m] == all[m].member);
            lemma_final_place(records, config, m);
        }
        assert forall|g: Gid| #[trigger] last.contains_key(g) implies exists|m: int| 0 <= m < members.len() && (#[trigger] members[m]).gid == g by {
            lemma_only_tasks_have_places(records, config, g);
        }
        lemma_moves_reach_goal(queues_after_repair(start, all), last, members);
    }
}

/// Startup is never refused because the queue repairs would miss their goal.
pub proof fn law_startup_never_breaks_the_queue_invariant(records: StartupRecords, config: StartupRecoveryConfig)
    requires
        records.snapshot.tasks.len() < u64::MAX,
    ensures
        reconcile_fault(records, config) != Some(StartupRecoveryError::QueueRepairInvariant),
{
    if record_fault(records, config) is None {
        if plan_fault_from(records, config, 0) is None {
            law_queue_repairs_reach_restored_orders(records, config);
        } else {
            lemma_plan_fault_kind(records, config, 0);
        }
    } else {
        lemma_record_fault_kind(records, config);
    }
}

/// Task faults never name the queue repairs.
proof fn lemma_plan_fault_kind(records: StartupRecords, config: StartupRecoveryConfig, rank: int)
    ensures
        plan_fault_from(records, config, rank) != Some(StartupRecoveryError::QueueRepairInvariant),
    decreases records.snapshot.tasks.len() - rank,
{
    if 0 <= rank < records.snapshot.tasks.len() {
        lemma_plan_fault_kind(records, config, rank + 1);
    }
}

/// Record faults never name the queue repairs.
proof fn lemma_record_fault_kind(records: StartupRecords, config: StartupRecoveryConfig)
    ensures
        record_fault(records, config) != Some(StartupRecoveryError::QueueRepairInvariant),
{
    lemma_journal_fault_kind(records.journals@, 0);
    lemma_install_fault_kind(
        records.snapshot.tasks@,
        records.journals@,
        records.snapshot.journal_installs@,
        0,
    );
}

proof fn lemma_journal_fault_kind(journals: Seq<RecoveredTaskJournal>, from: int)
    ensures
        journal_fault_from(journals, from) != Some(StartupRecoveryError::QueueRepairInvariant),
    decreases journals.len() - from,
{
    if 0 <= from < journals.len() {
        lemma_journal_fault_kind(journals, from + 1);
    }
}

proof fn lemma_install_fault_kind(
    tasks: Seq<SessionTaskRecord>,
    journals: Seq<RecoveredTaskJournal>,
    installs: Seq<JournalInstallIntent>,
    from: int,
)
    ensures
        installs_fault_from(tasks, journals, installs, from) != Some(
            StartupRecoveryError::QueueRepairInvariant,
        ),
    decreases installs.len() - from,
{
    if 0 <= from < installs.len() {
        lemma_install_fault_kind(tasks, journals, installs, from + 1);
    }
}

/// Fresh task ids are 1, 2, ... in ascending GID order, and every task gets one.
pub proof fn law_task_ids_count_up_in_gid_order(
    records: StartupRecords,
    config: StartupRecoveryConfig,
    done: StartupReconciliation,
)
    requires
        reconcile_fault(records, config) is None,
        reconciled(done, records, config),
        records.snapshot.tasks.len() < u64::MAX,
    ensures
        done.tasks.len() == records.snapshot.tasks.len(),
        done.scheduler_batch.tasks.len() == records.snapshot.tasks.len(),
        forall|k: int|
            0 <= k < done.tasks.len() ==> (#[trigger] done.tasks[k]).task_id.0 == k + 1
                && done.scheduler_batch.tasks[k].task_id.0 == k + 1 && done.scheduler_batch.tasks[k].gid
                == done.tasks[k].gid,
        forall|a: int, b: int|
            0 <= a < b < done.tasks.len() ==> (#[trigger] done.tasks[a]).gid.0 < (#[trigger] done.tasks[b]).gid.0,
{
    let all = plans(records, config);
    lemma_first_duplicate_none(owners(records.snapshot.tasks@));
    lemma_plans_ascend(records, config);
    assert forall|k: int| 0 <= k < all.len() implies (#[trigger] all[k]).engine.gid == all[k].member.gid
        && all[k].engine.task_id.0 == k + 1 && all[k].scheduler.task_id.0 == k + 1
        && all[k].scheduler.gid == all[k].member.gid by {
        lemma_planned(records, config, 0, k);
        lemma_plan_identity(
            ranked_inputs(records, k),
            TaskId((k + 1) as u64),
            repair_time(records.snapshot, config.now_wall_unix_ms),
        );
    }
    assert forall|a: int, b: int| 0 <= a < b < done.tasks.len() implies (#[trigger] done.tasks[a]).gid.0 < (#[trigger] done.tasks[b]).gid.0 by {
        assert(all[a].member.gid.0 < all[b].member.gid.0);
    }
}

} // verus!
