//! Why the startup queue repairs always reach the restored orders.
use vstd::prelude::*;
use crate::order::{key_order, lemma_sorted_keys, sorted_keys};
use crate::queues::{
    class_keys, class_of_state, distinct_members, lemma_class_keys, lemma_restored_order_distinct,
    lemma_sorted_ids_distinct, member_key, move_applies, moved, persisted_queue, persisted_queues, position_of,
    queues_after, rank_key, resorted, restored_order, restored_queues, slot, state_at, state_keys, state_of_class,
    QueueMembership, QueueRepairCandidate, QUEUE_COUNT,
};
use crate::session::{Gid, QueueClass, SessionQueueState, SessionTaskRecord};

verus! {

/// Whether every task stands in exactly the queue that `places` names, once.
pub open spec fn located(queues: Seq<Seq<Gid>>, places: Map<Gid, int>) -> bool {
    &&& queues.len() == QUEUE_COUNT
    &&& forall|s: int| 0 <= s < QUEUE_COUNT ==> (#[trigger] queues[s]).no_duplicates()
    &&& forall|s: int, g: Gid|
        0 <= s < QUEUE_COUNT ==> (#[trigger] queues[s].contains(g) <==> places.contains_key(g)
            && places[g] == s)
}

/// Whether tasks of the goal order already stand in that order.
pub open spec fn consistent(queue: Seq<Gid>, order: Seq<Gid>) -> bool {
    forall|a: int, b: int|
        0 <= a < b < queue.len() && order.contains(#[trigger] queue[a]) && order.contains(
            #[trigger] queue[b],
        ) ==> order.index_of(queue[a]) < order.index_of(queue[b])
}

/// Whether every queue stands consistently with its goal.
pub open spec fn all_consistent(queues: Seq<Seq<Gid>>, orders: Seq<Seq<Gid>>) -> bool {
    forall|s: int| 0 <= s < QUEUE_COUNT ==> consistent(#[trigger] queues[s], orders[s])
}

/// Whether the goals can be sorted towards: distinct tasks, countable positions.
pub open spec fn goals(orders: Seq<Seq<Gid>>) -> bool {
    &&& orders.len() == QUEUE_COUNT
    &&& forall|s: int|
        0 <= s < QUEUE_COUNT ==> (#[trigger] orders[s]).no_duplicates() && orders[s].len() < u64::MAX
}

/// Taking one task out of a queue.
proof fn lemma_removed(queue: Seq<Gid>, gid: Gid, order: Seq<Gid>)
    requires
        queue.no_duplicates(),
        queue.contains(gid),
        consistent(queue, order),
    ensures
        ({
            let rest = queue.remove(position_of(queue, gid));
            &&& rest.no_duplicates()
            &&& forall|g: Gid| #[trigger] rest.contains(g) <==> queue.contains(g) && g != gid
            &&& consistent(rest, order)
        }),
{
    queue.index_of_first_ensures(gid);
    let p = position_of(queue, gid);
    assert(0 <= p < queue.len() && queue[p] == gid);
    let rest = queue.remove(p);
    assert forall|a: int| 0 <= a < rest.len() implies #[trigger] rest[a] == queue[if a < p { a } else { a + 1 }] by {}
    assert forall|g: Gid| #[trigger] rest.contains(g) <==> queue.contains(g) && g != gid by {
        if rest.contains(g) {
            let a = rest.index_of(g);
            assert(rest[a] == g);
            assert(queue[if a < p { a } else { a + 1 }] == g);
        }
        if queue.contains(g) && g != gid {
            let a = queue.index_of(g);
            assert(queue[a] == g);
            let b = if a < p { a } else { a - 1 };
            assert(rest[b] == g);
        }
    }
}

/// Sorting a queue towards an order.
proof fn lemma_resorted(queue: Seq<Gid>, order: Seq<Gid>)
    requires
        queue.no_duplicates(),
        order.no_duplicates(),
        order.len() < u64::MAX,
    ensures
        resorted(queue, order).no_duplicates(),
        forall|g: Gid| #[trigger] resorted(queue, order).contains(g) <==> queue.contains(g),
        consistent(resorted(queue, order), order),
{
    let keys = queue.map_values(|g: Gid| rank_key(order, g));
    let sorted = sorted_keys(keys);
    let out = resorted(queue, order);
    assert forall|a: int, b: int| 0 <= a < b < keys.len() implies (#[trigger] keys[a]).id != (#[trigger] keys[b]).id by {
        assert(keys[a] == rank_key(order, queue[a]));
        assert(keys[b] == rank_key(order, queue[b]));
        assert(queue[a] != queue[b]);
    }
    lemma_sorted_keys(keys);
    lemma_sorted_ids_distinct(keys);
    assert forall|a: int| 0 <= a < out.len() implies #[trigger] out[a] == Gid(sorted[a].id) && queue.contains(out[a]) && sorted[a] == rank_key(order, out[a]) by {
        assert(sorted.contains(sorted[a]));
        assert(keys.contains(sorted[a]));
        let k = keys.index_of(sorted[a]);
        assert(keys[k] == sorted[a]);
        assert(keys[k] == rank_key(order, queue[k]));
        assert(out[a] == queue[k]);
    }
    assert forall|g: Gid| #[trigger] out.contains(g) <==> queue.contains(g) by {
        if out.contains(g) {
            let a = out.index_of(g);
            assert(out[a] == g);
        }
        if queue.contains(g) {
            let k = queue.index_of(g);
            assert(queue[k] == g);
            assert(keys[k] == rank_key(order, g));
            assert(keys.contains(keys[k]));
            assert(sorted.contains(keys[k]));
            let a = sorted.index_of(keys[k]);
            assert(sorted[a] == keys[k]);
            assert(out[a] == g);
        }
    }
    assert forall|a: int, b: int| 0 <= a < out.len() && 0 <= b < out.len() && a != b implies out[a] != out[b] by {
        if a < b {
            assert(sorted[a].id != sorted[b].id);
        } else {
            assert(sorted[b].id != sorted[a].id);
        }
    }
    assert forall|a: int, b: int| 0 <= a < b < out.len() && order.contains(#[trigger] out[a]) && order.contains(#[trigger] out[b]) implies order.index_of(out[a]) < order.index_of(out[b]) by {
        assert(key_order()(sorted[a], sorted[b]));
        let i = order.index_of(out[a]);
        let j = order.index_of(out[b]);
        assert(order[i] == out[a]);
        assert(order[j] == out[b]);
        assert(out[a] != out[b]);
        assert(sorted[a].position == i);
        assert(sorted[b].position == j);
    }
}

/// One move keeps every queue located and consistent.
proof fn lemma_moved(
    queues: Seq<Seq<Gid>>,
    places: Map<Gid, int>,
    orders: Seq<Seq<Gid>>,
    gid: Gid,
    from: int,
    to: int,
)
    requires
        located(queues, places),
        all_consistent(queues, orders),
        goals(orders),
        0 <= from < QUEUE_COUNT,
        0 <= to < QUEUE_COUNT,
        from != to,
        places.contains_key(gid),
        places[gid] == from,
    ensures
        located(moved(queues, gid, from, to, orders[to]), places.insert(gid, to)),
        all_consistent(moved(queues, gid, from, to, orders[to]), orders),
{
    let after = moved(queues, gid, from, to, orders[to]);
    let now = places.insert(gid, to);
    let source = queues[from].remove(position_of(queues[from], gid));
    let target = queues[to].push(gid);
    assert(queues[from].contains(gid));
    assert(!queues[to].contains(gid));
    lemma_removed(queues[from], gid, orders[from]);
    assert(target.no_duplicates()) by {
        assert forall|a: int, b: int| 0 <= a < target.len() && 0 <= b < target.len() && a != b implies target[a] != target[b] by {
            if a == queues[to].len() {
                assert(queues[to].contains(queues[to][b]));
            }
            if b == queues[to].len() {
                assert(queues[to].contains(queues[to][a]));
            }
        }
    }
    lemma_resorted(target, orders[to]);
    assert(after[from] == source);
    assert(after[to] == resorted(target, orders[to]));
    assert forall|s: int, g: Gid| 0 <= s < QUEUE_COUNT implies (#[trigger] after[s].contains(g) <==> now.contains_key(g) && now[g] == s) by {
        assert(queues[s].contains(g) <==> places.contains_key(g) && places[g] == s);
        if s == to {
            assert(target.contains(g) <==> queues[to].contains(g) || g == gid) by {
                if g == gid {
                    assert(target[queues[to].len() as int] == gid);
                }
                if queues[to].contains(g) {
                    let a = queues[to].index_of(g);
                    assert(target[a] == g);
                }
                if target.contains(g) && g != gid {
                    let a = target.index_of(g);
                    assert(target[a] == g);
                    assert(queues[to][a] == g);
                }
            }
        } else if s != from {
            assert(after[s] == queues[s]);
        }
    }
    assert forall|s: int| 0 <= s < QUEUE_COUNT implies (#[trigger] after[s]).no_duplicates() by {
        if s != from && s != to {
            assert(after[s] == queues[s]);
        }
    }
    assert forall|s: int| 0 <= s < QUEUE_COUNT implies consistent(#[trigger] after[s], orders[s]) by {
        if s != from && s != to {
            assert(after[s] == queues[s]);
        }
    }
}

/// Where the tasks stand after the first `count` moves.
pub open spec fn places_after(places: Map<Gid, int>, moves: Seq<QueueRepairCandidate>, count: int) -> Map<Gid, int>
    decreases count,
{
    if count <= 0 {
        places
    } else {
        places_after(places, moves, count - 1).insert(
            moves[count - 1].gid,
            slot(moves[count - 1].target_state),
        )
    }
}

/// Whether each move takes a different task out of the queue it stands in.
pub open spec fn movable(places: Map<Gid, int>, moves: Seq<QueueRepairCandidate>) -> bool {
    &&& forall|i: int, j: int|
        0 <= i < j < moves.len() ==> (#[trigger] moves[i]).gid != (#[trigger] moves[j]).gid
    &&& forall|i: int|
        0 <= i < moves.len() ==> places.contains_key((#[trigger] moves[i]).gid) && places[moves[i].gid]
            == slot(moves[i].expected_state) && moves[i].expected_state != moves[i].target_state
            && !(moves[i].expected_state is Stopped)
}

/// Where a task stands after some moves.
pub proof fn lemma_places_after(places: Map<Gid, int>, moves: Seq<QueueRepairCandidate>, count: int, gid: Gid)
    requires
        0 <= count <= moves.len(),
        forall|i: int, j: int|
            0 <= i < j < moves.len() ==> (#[trigger] moves[i]).gid != (#[trigger] moves[j]).gid,
    ensures
        (forall|i: int| 0 <= i < count ==> (#[trigger] moves[i]).gid != gid) ==> {
            &&& places_after(places, moves, count).contains_key(gid) == places.contains_key(gid)
            &&& places_after(places, moves, count)[gid] == places[gid]
        },
        forall|i: int|
            0 <= i < count && (#[trigger] moves[i]).gid == gid ==> places_after(places, moves, count).contains_key(gid)
                && places_after(places, moves, count)[gid] == slot(moves[i].target_state),
    decreases count,
{
    if count > 0 {
        lemma_places_after(places, moves, count - 1, gid);
        assert forall|i: int| 0 <= i < count && (#[trigger] moves[i]).gid == gid implies places_after(places, moves, count).contains_key(gid) && places_after(places, moves, count)[gid] == slot(moves[i].target_state) by {
            if i < count - 1 {
                assert(moves[i].gid != moves[count - 1].gid);
            }
        }
    }
}

/// All moves apply, and afterwards every task stands where it was moved to.
pub proof fn lemma_all_moves(
    queues: Seq<Seq<Gid>>,
    places: Map<Gid, int>,
    moves: Seq<QueueRepairCandidate>,
    orders: Seq<Seq<Gid>>,
    count: int,
)
    requires
        located(queues, places),
        all_consistent(queues, orders),
        goals(orders),
        movable(places, moves),
        0 <= count <= moves.len(),
    ensures
        located(queues_after(queues, moves, orders, count), places_after(places, moves, count)),
        all_consistent(queues_after(queues, moves, orders, count), orders),
        forall|i: int|
            0 <= i < count ==> move_applies(#[trigger] queues_after(queues, moves, orders, i), moves[i]),
    decreases count,
{
    if count > 0 {
        lemma_all_moves(queues, places, moves, orders, count - 1);
        let before = queues_after(queues, moves, orders, count - 1);
        let m = moves[count - 1];
        let here = places_after(places, moves, count - 1);
        lemma_places_after(places, moves, count - 1, m.gid);
        assert(here.contains_key(m.gid) && here[m.gid] == slot(m.expected_state)) by {
            assert forall|i: int| 0 <= i < count - 1 implies (#[trigger] moves[i]).gid != m.gid by {
                assert(moves[i].gid != moves[count - 1].gid);
            }
        }
        assert(slot(m.expected_state) != slot(m.target_state));
        assert(before[slot(m.expected_state)].contains(m.gid));
        lemma_moved(before, here, orders, m.gid, slot(m.expected_state), slot(m.target_state));
        assert forall|i: int| 0 <= i < count implies move_applies(#[trigger] queues_after(queues, moves, orders, i), moves[i]) by {
            if i == count - 1 {
                assert(move_applies(before, m));
            }
        }
    }
}

/// An increasing map of `0..n` into itself fixes every point.
proof fn lemma_increasing_is_identity(f: spec_fn(int) -> int, n: int, at: int)
    requires
        forall|a: int, b: int| 0 <= a < b < n ==> #[trigger] f(a) < #[trigger] f(b),
        forall|a: int| 0 <= a < n ==> 0 <= #[trigger] f(a) < n,
        0 <= at < n,
    ensures
        f(at) == at,
{
    lemma_increasing_above(f, n, at);
    lemma_increasing_below(f, n, at);
}

proof fn lemma_increasing_above(f: spec_fn(int) -> int, n: int, at: int)
    requires
        forall|a: int, b: int| 0 <= a < b < n ==> #[trigger] f(a) < #[trigger] f(b),
        forall|a: int| 0 <= a < n ==> 0 <= #[trigger] f(a) < n,
        0 <= at < n,
    ensures
        f(at) >= at,
    decreases at,
{
    if at > 0 {
        lemma_increasing_above(f, n, at - 1);
        assert(f(at - 1) < f(at));
    }
}

proof fn lemma_increasing_below(f: spec_fn(int) -> int, n: int, at: int)
    requires
        forall|a: int, b: int| 0 <= a < b < n ==> #[trigger] f(a) < #[trigger] f(b),
        forall|a: int| 0 <= a < n ==> 0 <= #[trigger] f(a) < n,
        0 <= at < n,
    ensures
        f(at) <= at,
    decreases n - at,
{
    if at < n - 1 {
        lemma_increasing_below(f, n, at + 1);
        assert(f(at) < f(at + 1));
    }
}

/// A consistent queue of exactly the goal's tasks is the goal.
proof fn lemma_consistent_is_goal(queue: Seq<Gid>, order: Seq<Gid>)
    requires
        queue.no_duplicates(),
        order.no_duplicates(),
        consistent(queue, order),
        forall|g: Gid| queue.contains(g) <==> order.contains(g),
    ensures
        queue == order,
{
    queue.unique_seq_to_set();
    order.unique_seq_to_set();
    assert(queue.to_set() =~= order.to_set()) by {
        assert forall|g: Gid| queue.to_set().contains(g) <==> order.to_set().contains(g) by {
            assert(queue.contains(g) <==> order.contains(g));
        }
    }
    let n = queue.len() as int;
    assert(order.len() == n);
    let f = |a: int| order.index_of(queue[a]);
    assert forall|a: int| 0 <= a < n implies 0 <= #[trigger] f(a) < n && order[f(a)] == queue[a] by {
        assert(queue.contains(queue[a]));
        assert(order.contains(queue[a]));
    }
    assert forall|a: int, b: int| 0 <= a < b < n implies #[trigger] f(a) < #[trigger] f(b) by {
        assert(queue.contains(queue[a]));
        assert(queue.contains(queue[b]));
    }
    assert forall|a: int| 0 <= a < n implies queue[a] == order[a] by {
        lemma_increasing_is_identity(f, n, a);
        assert(f(a) == a);
    }
    assert(queue =~= order);
}

/// The members of the persisted queues, each in its own queue.
pub open spec fn persisted_members(tasks: Seq<SessionTaskRecord>) -> Seq<QueueMembership> {
    tasks.map_values(
        |t: SessionTaskRecord|
            QueueMembership {
                gid: t.gid,
                class: class_of_state(t.queue_state),
                source: t.queue_state,
                position: t.queue_position,
            },
    )
}

/// A persisted queue is ordered like a restored one whose members all stayed.
pub proof fn lemma_persisted_as_restored(tasks: Seq<SessionTaskRecord>, state: SessionQueueState)
    ensures
        state_keys(tasks, state) == class_keys(persisted_members(tasks), class_of_state(state)),
        persisted_queue(tasks, state) == restored_order(persisted_members(tasks), class_of_state(state)),
    decreases tasks.len(),
{
    if tasks.len() > 0 {
        lemma_persisted_as_restored(tasks.drop_last(), state);
        assert(persisted_members(tasks).drop_last() =~= persisted_members(tasks.drop_last()));
        assert(class_of_state(tasks.last().queue_state) == class_of_state(state)
            <==> tasks.last().queue_state == state);
    } else {
        assert(persisted_members(tasks) =~= Seq::empty());
    }
}

/// The entries of a restored order are its members, each under its own key.
pub proof fn lemma_restored_entries(members: Seq<QueueMembership>, class: QueueClass)
    requires
        distinct_members(members),
    ensures
        restored_order(members, class).len() <= members.len(),
        forall|m: int|
            0 <= m < members.len() ==> (restored_order(members, class).contains(
                (#[trigger] members[m]).gid,
            ) <==> members[m].class == class),
        forall|g: Gid|
            #[trigger] restored_order(members, class).contains(g) ==> exists|m: int|
                0 <= m < members.len() && (#[trigger] members[m]).gid == g && members[m].class == class,
        forall|i: int, m: int|
            0 <= i < restored_order(members, class).len() && 0 <= m < members.len() && (
            #[trigger] members[m]).gid == #[trigger] restored_order(members, class)[i] ==> sorted_keys(
                class_keys(members, class),
            )[i] == member_key(members[m]),
{
    let keys = class_keys(members, class);
    let sorted = sorted_keys(keys);
    let order = restored_order(members, class);
    lemma_class_keys(members, class);
    lemma_sorted_keys(keys);
    assert forall|i: int| 0 <= i < order.len() implies exists|m: int|
        0 <= m < members.len() && (#[trigger] members[m]).gid == #[trigger] order[i] && members[m].class == class
            && sorted[i] == member_key(members[m]) by {
        assert(sorted.contains(sorted[i]));
        assert(keys.contains(sorted[i]));
        let k = keys.index_of(sorted[i]);
        assert(keys[k] == sorted[i]);
        let m = choose|m: int|
            0 <= m < members.len() && (#[trigger] members[m]).class == class && member_key(members[m]) == keys[k];
        assert(members[m].gid == order[i]);
    }
    assert forall|i: int, m: int|
        0 <= i < order.len() && 0 <= m < members.len() && (#[trigger] members[m]).gid == #[trigger] order[i] implies sorted[i] == member_key(members[m]) && members[m].class == class by {
        let w = choose|w: int|
            0 <= w < members.len() && (#[trigger] members[w]).gid == order[i] && members[w].class == class
                && sorted[i] == member_key(members[w]);
        if w < m {
            assert(members[w].gid != members[m].gid);
        } else if m < w {
            assert(members[m].gid != members[w].gid);
        }
    }
    assert forall|g: Gid| #[trigger] order.contains(g) implies exists|m: int|
        0 <= m < members.len() && (#[trigger] members[m]).gid == g && members[m].class == class by {
        let i = order.index_of(g);
        assert(order[i] == g);
    }
    assert forall|m: int| 0 <= m < members.len() implies (order.contains((#[trigger] members[m]).gid) <==> members[m].class == class) by {
        if members[m].class == class {
            let key = member_key(members[m]);
            assert(keys.contains(key));
            assert(sorted.contains(key));
            let i = sorted.index_of(key);
            assert(sorted[i] == key);
            assert(order[i] == members[m].gid);
        }
        if order.contains(members[m].gid) {
            let i = order.index_of(members[m].gid);
            assert(order[i] == members[m].gid);
        }
    }
}

/// Two orders agree on the tasks that have the same key in both.
pub proof fn lemma_same_keys_consistent(before: Seq<QueueMembership>, after: Seq<QueueMembership>, class: QueueClass)
    requires
        distinct_members(before),
        distinct_members(after),
        forall|a: int, b: int|
            0 <= a < before.len() && 0 <= b < after.len() && (#[trigger] before[a]).gid == (
            #[trigger] after[b]).gid && before[a].class == class && after[b].class == class
                ==> member_key(before[a]) == member_key(after[b]),
    ensures
        consistent(restored_order(before, class), restored_order(after, class)),
{
    let queue = restored_order(before, class);
    let order = restored_order(after, class);
    let from = sorted_keys(class_keys(before, class));
    let to = sorted_keys(class_keys(after, class));
    lemma_restored_entries(before, class);
    lemma_restored_entries(after, class);
    lemma_sorted_keys(class_keys(before, class));
    lemma_sorted_keys(class_keys(after, class));
    lemma_restored_order_distinct(before, class);
    lemma_restored_order_distinct(after, class);
    assert forall|a: int, b: int| 0 <= a < b < queue.len() && order.contains(#[trigger] queue[a]) && order.contains(#[trigger] queue[b]) implies order.index_of(queue[a]) < order.index_of(queue[b]) by {
        let i = order.index_of(queue[a]);
        let j = order.index_of(queue[b]);
        assert(order[i] == queue[a]);
        assert(order[j] == queue[b]);
        assert(queue.contains(queue[a]));
        assert(queue.contains(queue[b]));
        let ma = choose|m: int| 0 <= m < before.len() && (#[trigger] before[m]).gid == queue[a] && before[m].class == class;
        let mb = choose|m: int| 0 <= m < before.len() && (#[trigger] before[m]).gid == queue[b] && before[m].class == class;
        let na = choose|m: int| 0 <= m < after.len() && (#[trigger] after[m]).gid == queue[a] && after[m].class == class;
        let nb = choose|m: int| 0 <= m < after.len() && (#[trigger] after[m]).gid == queue[b] && after[m].class == class;
        assert(from[a] == member_key(before[ma]));
        assert(from[b] == member_key(before[mb]));
        assert(to[i] == member_key(after[na]));
        assert(to[j] == member_key(after[nb]));
        assert(key_order()(from[a], from[b]));
        assert(queue[a] != queue[b]);
        if j < i {
            assert(key_order()(to[j], to[i]));
        }
    }
}

/// The persisted places of the tasks.
pub open spec fn persisted_places(tasks: Seq<SessionTaskRecord>) -> Map<Gid, int> {
    Map::new(
        |g: Gid| exists|k: int| 0 <= k < tasks.len() && (#[trigger] tasks[k]).gid == g,
        |g: Gid|
            {
                let k = choose|k: int| 0 <= k < tasks.len() && (#[trigger] tasks[k]).gid == g;
                slot(tasks[k].queue_state)
            },
    )
}

/// Whether no two rows are the same task.
pub open spec fn distinct_tasks(tasks: Seq<SessionTaskRecord>) -> bool {
    forall|a: int, b: int| 0 <= a < b < tasks.len() ==> (#[trigger] tasks[a]).gid != (#[trigger] tasks[b]).gid
}

/// The persisted queues hold every task where its row says.
pub proof fn lemma_persisted_located(tasks: Seq<SessionTaskRecord>)
    requires
        distinct_tasks(tasks),
    ensures
        located(persisted_queues(tasks), persisted_places(tasks)),
{
    let members = persisted_members(tasks);
    let queues = persisted_queues(tasks);
    let places = persisted_places(tasks);
    assert(distinct_members(members)) by {
        assert forall|a: int, b: int| 0 <= a < b < members.len() implies (#[trigger] members[a]).gid != (#[trigger] members[b]).gid by {
            assert(members[a].gid == tasks[a].gid);
            assert(members[b].gid == tasks[b].gid);
        }
    }
    assert forall|s: int| 0 <= s < QUEUE_COUNT implies (#[trigger] queues[s]).no_duplicates() by {
        lemma_persisted_as_restored(tasks, state_at(s));
        lemma_restored_order_distinct(members, class_of_state(state_at(s)));
    }
    assert forall|s: int, g: Gid| 0 <= s < QUEUE_COUNT implies (#[trigger] queues[s].contains(g) <==> places.contains_key(g) && places[g] == s) by {
        let class = class_of_state(state_at(s));
        lemma_persisted_as_restored(tasks, state_at(s));
        lemma_restored_entries(members, class);
        if queues[s].contains(g) {
            let m = choose|m: int| 0 <= m < members.len() && (#[trigger] members[m]).gid == g && members[m].class == class;
            assert(tasks[m].gid == g);
            let k = choose|k: int| 0 <= k < tasks.len() && (#[trigger] tasks[k]).gid == g;
            if k < m {
                assert(tasks[k].gid != tasks[m].gid);
            } else if m < k {
                assert(tasks[m].gid != tasks[k].gid);
            }
        }
        if places.contains_key(g) && places[g] == s {
            let k = choose|k: int| 0 <= k < tasks.len() && (#[trigger] tasks[k]).gid == g;
            assert(slot(tasks[k].queue_state) == s);
            assert(members[k].gid == g && members[k].class == class);
        }
    }
}

/// Queue moves that put every task where its class belongs lead to the restored
/// orders, whatever the moves in between.
pub proof fn lemma_moves_reach_goal(
    queues: Seq<Seq<Gid>>,
    places: Map<Gid, int>,
    members: Seq<QueueMembership>,
)
    requires
        located(queues, places),
        all_consistent(queues, restored_queues(members)),
        distinct_members(members),
        forall|m: int|
            0 <= m < members.len() ==> places.contains_key((#[trigger] members[m]).gid) && places[members[m].gid]
                == slot(state_of_class(members[m].class)),
        forall|g: Gid|
            #[trigger] places.contains_key(g) ==> exists|m: int| 0 <= m < members.len() && (#[trigger] members[m]).gid == g,
    ensures
        queues == restored_queues(members),
{
    let orders = restored_queues(members);
    assert forall|s: int| 0 <= s < QUEUE_COUNT implies queues[s] == orders[s] by {
        let class = class_of_state(state_at(s));
        lemma_restored_order_distinct(members, class);
        lemma_restored_entries(members, class);
        assert forall|g: Gid| queues[s].contains(g) <==> orders[s].contains(g) by {
            if queues[s].contains(g) {
                assert(places.contains_key(g) && places[g] == s);
                let m = choose|m: int| 0 <= m < members.len() && (#[trigger] members[m]).gid == g;
                assert(slot(state_of_class(members[m].class)) == s);
                assert(members[m].class == class);
                assert(orders[s].contains(members[m].gid));
            }
            if orders[s].contains(g) {
                let m = choose|m: int| 0 <= m < members.len() && (#[trigger] members[m]).gid == g && members[m].class == class;
                assert(places[members[m].gid] == s);
                assert(queues[s].contains(g));
            }
        }
        lemma_consistent_is_goal(queues[s], orders[s]);
    }
    assert(queues =~= orders);
}

} // verus!
