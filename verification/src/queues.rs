//! Persisted and scheduler queue orders and the moves between them.
use vstd::prelude::*;
use crate::index::KeyMap;
use crate::order::{lemma_sorted_keys, sort_keys, sorted_keys, OrderKey};
use crate::session::{
    Gid, QueueClass, QueueOrder, SessionQueueOrder, SessionQueueState, SessionTaskRecord, SessionQueueTransition,
};

verus! {

/// The number of queues.
pub const QUEUE_COUNT: usize = 5;

/// The slot of a persisted queue.
pub open spec fn slot(state: SessionQueueState) -> int {
    match state {
        SessionQueueState::Waiting => 0,
        SessionQueueState::Active => 1,
        SessionQueueState::Paused => 2,
        SessionQueueState::Stopped => 3,
        SessionQueueState::Demoted => 4,
    }
}

/// The persisted queue of a slot.
pub open spec fn state_at(index: int) -> SessionQueueState {
    if index == 0 {
        SessionQueueState::Waiting
    } else if index == 1 {
        SessionQueueState::Active
    } else if index == 2 {
        SessionQueueState::Paused
    } else if index == 3 {
        SessionQueueState::Stopped
    } else {
        SessionQueueState::Demoted
    }
}

/// The persisted queue that holds a scheduler queue.
pub open spec fn state_of_class(class: QueueClass) -> SessionQueueState {
    match class {
        QueueClass::Waiting => SessionQueueState::Waiting,
        QueueClass::Demoted => SessionQueueState::Demoted,
        QueueClass::Paused => SessionQueueState::Paused,
        QueueClass::Active => SessionQueueState::Active,
        QueueClass::Stopped => SessionQueueState::Stopped,
    }
}

/// The scheduler queue that a persisted queue holds.
pub open spec fn class_of_state(state: SessionQueueState) -> QueueClass {
    match state {
        SessionQueueState::Waiting => QueueClass::Waiting,
        SessionQueueState::Active => QueueClass::Active,
        SessionQueueState::Paused => QueueClass::Paused,
        SessionQueueState::Stopped => QueueClass::Stopped,
        SessionQueueState::Demoted => QueueClass::Demoted,
    }
}

/// The scheduler queues in restore order.
pub open spec fn class_at(index: int) -> QueueClass {
    if index == 0 {
        QueueClass::Waiting
    } else if index == 1 {
        QueueClass::Demoted
    } else if index == 2 {
        QueueClass::Paused
    } else if index == 3 {
        QueueClass::Active
    } else {
        QueueClass::Stopped
    }
}

/// How early tasks of one persisted queue come in a scheduler queue.
pub open spec fn source_rank(class: QueueClass, source: SessionQueueState) -> int {
    match class {
        QueueClass::Waiting => if source is Active { 1 } else { 0 },
        QueueClass::Paused => match source {
            SessionQueueState::Waiting => 1,
            SessionQueueState::Active => 2,
            SessionQueueState::Demoted => 3,
            _ => 0,
        },
        QueueClass::Stopped => match source {
            SessionQueueState::Waiting => 1,
            SessionQueueState::Active => 2,
            SessionQueueState::Paused => 3,
            SessionQueueState::Demoted => 4,
            _ => 0,
        },
        _ => 0,
    }
}

pub fn queue_state_index(state: SessionQueueState) -> (r: usize)
    ensures
        r == slot(state),
        r < QUEUE_COUNT,
{
    match state {
        SessionQueueState::Waiting => 0,
        SessionQueueState::Active => 1,
        SessionQueueState::Paused => 2,
        SessionQueueState::Stopped => 3,
        SessionQueueState::Demoted => 4,
    }
}

pub fn queue_state_from_index(index: usize) -> (r: SessionQueueState)
    ensures
        r == state_at(index as int),
{
    match index {
        0 => SessionQueueState::Waiting,
        1 => SessionQueueState::Active,
        2 => SessionQueueState::Paused,
        3 => SessionQueueState::Stopped,
        _ => SessionQueueState::Demoted,
    }
}

pub fn queue_class_from_index(index: usize) -> (r: QueueClass)
    ensures
        r == class_at(index as int),
{
    match index {
        0 => QueueClass::Waiting,
        1 => QueueClass::Demoted,
        2 => QueueClass::Paused,
        3 => QueueClass::Active,
        _ => QueueClass::Stopped,
    }
}

pub fn queue_state_for_class(class: QueueClass) -> (r: SessionQueueState)
    ensures
        r == state_of_class(class),
{
    match class {
        QueueClass::Waiting => SessionQueueState::Waiting,
        QueueClass::Demoted => SessionQueueState::Demoted,
        QueueClass::Paused => SessionQueueState::Paused,
        QueueClass::Active => SessionQueueState::Active,
        QueueClass::Stopped => SessionQueueState::Stopped,
    }
}

pub fn queue_source_rank(class: QueueClass, source: SessionQueueState) -> (r: u64)
    ensures
        r == source_rank(class, source),
{
    match (class, source) {
        (QueueClass::Waiting, SessionQueueState::Waiting) => 0,
        (QueueClass::Waiting, SessionQueueState::Active) => 1,
        (QueueClass::Paused, SessionQueueState::Paused) => 0,
        (QueueClass::Paused, SessionQueueState::Waiting) => 1,
        (QueueClass::Paused, SessionQueueState::Active) => 2,
        (QueueClass::Paused, SessionQueueState::Demoted) => 3,
        (QueueClass::Stopped, SessionQueueState::Stopped) => 0,
        (QueueClass::Stopped, SessionQueueState::Waiting) => 1,
        (QueueClass::Stopped, SessionQueueState::Active) => 2,
        (QueueClass::Stopped, SessionQueueState::Paused) => 3,
        (QueueClass::Stopped, SessionQueueState::Demoted) => 4,
        _ => 0,
    }
}

/// The identities of a key sequence.
pub open spec fn key_gids(keys: Seq<OrderKey>) -> Seq<Gid> {
    keys.map_values(|k: OrderKey| Gid(k.id))
}

/// The identities of sorted keys.
fn gids_of_keys(keys: &Vec<OrderKey>) -> (out: Vec<Gid>)
    ensures
        out@ == key_gids(keys@),
{
    let mut out: Vec<Gid> = Vec::new();
    let mut i: usize = 0;
    while i < keys.len()
        invariant
            i <= keys.len(),
            out.len() == i,
            forall|k: int| 0 <= k < i ==> out[k] == Gid(#[trigger] keys[k].id),
        decreases keys.len() - i,
    {
        out.push(Gid(keys[i].id));
        i = i + 1;
    }
    assert(out@ =~= key_gids(keys@));
    out
}

/// A copy of a queue.
pub fn copy_gids(gids: &Vec<Gid>) -> (out: Vec<Gid>)
    ensures
        out@ == gids@,
{
    let mut out: Vec<Gid> = Vec::new();
    let mut i: usize = 0;
    while i < gids.len()
        invariant
            i <= gids.len(),
            out@ == gids@.take(i as int),
        decreases gids.len() - i,
    {
        out.push(gids[i]);
        i = i + 1;
    }
    assert(gids@.take(i as int) =~= gids@);
    out
}

/// The persisted position key of a task.
pub open spec fn position_key(task: SessionTaskRecord) -> OrderKey {
    OrderKey { rank: 0, position: task.queue_position as u64, id: task.gid.0 }
}

/// The position keys of the tasks in one persisted queue.
pub open spec fn state_keys(tasks: Seq<SessionTaskRecord>, state: SessionQueueState) -> Seq<OrderKey>
    decreases tasks.len(),
{
    if tasks.len() == 0 {
        Seq::empty()
    } else {
        let rest = state_keys(tasks.drop_last(), state);
        if tasks.last().queue_state == state {
            rest.push(position_key(tasks.last()))
        } else {
            rest
        }
    }
}

/// One persisted queue, ordered by position and then by GID.
pub open spec fn persisted_keys(tasks: Seq<SessionTaskRecord>, state: SessionQueueState) -> Seq<OrderKey> {
    sorted_keys(state_keys(tasks, state))
}

/// The order of one persisted queue.
pub open spec fn persisted_queue(tasks: Seq<SessionTaskRecord>, state: SessionQueueState) -> Seq<Gid> {
    key_gids(persisted_keys(tasks, state))
}

/// All persisted queues by slot.
pub open spec fn persisted_queues(tasks: Seq<SessionTaskRecord>) -> Seq<Seq<Gid>> {
    Seq::new(QUEUE_COUNT as nat, |i: int| persisted_queue(tasks, state_at(i)))
}

/// The views of a vector of queues.
pub open spec fn queue_views(queues: Seq<Vec<Gid>>) -> Seq<Seq<Gid>> {
    queues.map_values(|q: Vec<Gid>| q@)
}

/// A place where a queue's positions stop being 0, 1, 2, ...
#[derive(Clone, Copy, Debug, PartialEq, Eq, Structural)]
pub struct QueueGap {
    pub state: SessionQueueState,
    pub expected: u64,
    pub actual: u64,
}

/// The first gap at or after rank `from` of one ordered queue.
pub open spec fn gap_from(keys: Seq<OrderKey>, state: SessionQueueState, from: int) -> Option<QueueGap>
    decreases keys.len() - from,
{
    if from < 0 || from >= keys.len() {
        None
    } else if keys[from].position != from {
        Some(QueueGap { state, expected: from as u64, actual: keys[from].position })
    } else {
        gap_from(keys, state, from + 1)
    }
}

/// The first gap in queues `from..`, by slot.
pub open spec fn queue_gap(tasks: Seq<SessionTaskRecord>, from: int) -> Option<QueueGap>
    decreases QUEUE_COUNT - from,
{
    if from < 0 || from >= QUEUE_COUNT {
        None
    } else {
        let gap = gap_from(persisted_keys(tasks, state_at(from)), state_at(from), 0);
        if gap is Some {
            gap
        } else {
            queue_gap(tasks, from + 1)
        }
    }
}

/// The position keys of one persisted queue, in input order.
fn collect_state_keys(tasks: &Vec<SessionTaskRecord>, state: SessionQueueState) -> (out: Vec<OrderKey>)
    ensures
        out@ == state_keys(tasks@, state),
{
    let mut out: Vec<OrderKey> = Vec::new();
    let mut i: usize = 0;
    while i < tasks.len()
        invariant
            i <= tasks.len(),
            out@ == state_keys(tasks@.take(i as int), state),
        decreases tasks.len() - i,
    {
        proof {
            assert(tasks@.take(i as int + 1).drop_last() =~= tasks@.take(i as int));
        }
        if tasks[i].queue_state == state {
            out.push(OrderKey { rank: 0, position: tasks[i].queue_position as u64, id: tasks[i].gid.0 });
        }
        i = i + 1;
    }
    assert(tasks@.take(i as int) =~= tasks@);
    out
}

/// Finds the first queue position that is not dense.
pub fn find_queue_gap(tasks: &Vec<SessionTaskRecord>) -> (r: Option<QueueGap>)
    ensures
        r == queue_gap(tasks@, 0),
{
    let mut index: usize = 0;
    while index < QUEUE_COUNT
        invariant
            index <= QUEUE_COUNT,
            queue_gap(tasks@, 0) == queue_gap(tasks@, index as int),
        decreases QUEUE_COUNT - index,
    {
        let state = queue_state_from_index(index);
        let keys = sort_keys(&collect_state_keys(tasks, state));
        let mut rank: usize = 0;
        while rank < keys.len()
            invariant
                index < QUEUE_COUNT,
                state == state_at(index as int),
                keys@ == persisted_keys(tasks@, state),
                rank <= keys.len(),
                queue_gap(tasks@, 0) == queue_gap(tasks@, index as int),
                gap_from(keys@, state, 0) == gap_from(keys@, state, rank as int),
            decreases keys.len() - rank,
        {
            if keys[rank].position != rank as u64 {
                return Some(QueueGap { state, expected: rank as u64, actual: keys[rank].position });
            }
            rank = rank + 1;
        }
        index = index + 1;
    }
    None
}

/// The persisted order of every queue.
pub fn collect_persisted_queues(tasks: &Vec<SessionTaskRecord>) -> (queues: Vec<Vec<Gid>>)
    ensures
        queue_views(queues@) == persisted_queues(tasks@),
{
    let mut queues: Vec<Vec<Gid>> = Vec::new();
    let mut index: usize = 0;
    while index < QUEUE_COUNT
        invariant
            index <= QUEUE_COUNT,
            queues.len() == index,
            forall|k: int| 0 <= k < index ==> (#[trigger] queues[k])@ == persisted_queue(tasks@, state_at(k)),
        decreases QUEUE_COUNT - index,
    {
        let keys = sort_keys(&collect_state_keys(tasks, queue_state_from_index(index)));
        queues.push(gids_of_keys(&keys));
        index = index + 1;
    }
    assert(queue_views(queues@) =~= persisted_queues(tasks@));
    queues
}

/// Where one task ends up and where it came from.
#[derive(Clone, Copy, Debug, PartialEq, Eq, Structural)]
pub struct QueueMembership {
    pub gid: Gid,
    pub class: QueueClass,
    pub source: SessionQueueState,
    pub position: u32,
}

/// The order key of a member in its scheduler queue.
pub open spec fn member_key(member: QueueMembership) -> OrderKey {
    OrderKey {
        rank: source_rank(member.class, member.source) as u64,
        position: member.position as u64,
        id: member.gid.0,
    }
}

/// The order keys of the members of one scheduler queue.
pub open spec fn class_keys(members: Seq<QueueMembership>, class: QueueClass) -> Seq<OrderKey>
    decreases members.len(),
{
    if members.len() == 0 {
        Seq::empty()
    } else {
        let rest = class_keys(members.drop_last(), class);
        if members.last().class == class {
            rest.push(member_key(members.last()))
        } else {
            rest
        }
    }
}

/// The restored order of one scheduler queue: by origin, then by persisted position, then by GID.
pub open spec fn restored_order(members: Seq<QueueMembership>, class: QueueClass) -> Seq<Gid> {
    key_gids(sorted_keys(class_keys(members, class)))
}

/// The restored orders by persisted slot.
pub open spec fn restored_queues(members: Seq<QueueMembership>) -> Seq<Seq<Gid>> {
    Seq::new(QUEUE_COUNT as nat, |i: int| restored_order(members, class_of_state(state_at(i))))
}

/// Whether `queues` lists every scheduler queue once, in restore order.
pub open spec fn restores(queues: Seq<QueueOrder>, members: Seq<QueueMembership>) -> bool {
    &&& queues.len() == QUEUE_COUNT
    &&& forall|i: int|
        0 <= i < QUEUE_COUNT ==> (#[trigger] queues[i]).class == class_at(i)
            && queues[i].order@ == restored_order(members, class_at(i))
}

/// Builds the restored order of every scheduler queue.
pub fn build_scheduler_queues(members: &Vec<QueueMembership>) -> (queues: Vec<QueueOrder>)
    ensures
        restores(queues@, members@),
{
    let mut queues: Vec<QueueOrder> = Vec::new();
    let mut index: usize = 0;
    while index < QUEUE_COUNT
        invariant
            index <= QUEUE_COUNT,
            queues.len() == index,
            forall|i: int|
                0 <= i < index ==> (#[trigger] queues[i]).class == class_at(i)
                    && queues[i].order@ == restored_order(members@, class_at(i)),
        decreases QUEUE_COUNT - index,
    {
        let class = queue_class_from_index(index);
        let mut keys: Vec<OrderKey> = Vec::new();
        let mut i: usize = 0;
        while i < members.len()
            invariant
                i <= members.len(),
                keys@ == class_keys(members@.take(i as int), class),
            decreases members.len() - i,
        {
            proof {
                assert(members@.take(i as int + 1).drop_last() =~= members@.take(i as int));
            }
            if members[i].class == class {
                keys.push(
                    OrderKey {
                        rank: queue_source_rank(class, members[i].source),
                        position: members[i].position as u64,
                        id: members[i].gid.0,
                    },
                );
            }
            i = i + 1;
        }
        assert(members@.take(i as int) =~= members@);
        let order = gids_of_keys(&sort_keys(&keys));
        queues.push(QueueOrder { class, order });
        index = index + 1;
    }
    queues
}

/// The key that places a task in a queue on its way to `order`: tasks of the
/// restored order come first, in that order, and all others follow by GID.
pub open spec fn rank_key(order: Seq<Gid>, gid: Gid) -> OrderKey {
    if order.contains(gid) {
        OrderKey { rank: 0, position: order.index_of(gid) as u64, id: gid.0 }
    } else {
        OrderKey { rank: 1, position: u64::MAX, id: gid.0 }
    }
}

/// A queue sorted towards its restored order.
pub open spec fn resorted(queue: Seq<Gid>, order: Seq<Gid>) -> Seq<Gid> {
    key_gids(sorted_keys(queue.map_values(|g: Gid| rank_key(order, g))))
}

/// The first position of a task in a queue that holds it.
pub open spec fn position_of(queue: Seq<Gid>, gid: Gid) -> int {
    queue.index_of_first(gid)->0
}

/// The queues after moving one task from slot `from` to slot `to`.
pub open spec fn moved(queues: Seq<Seq<Gid>>, gid: Gid, from: int, to: int, order: Seq<Gid>) -> Seq<Seq<Gid>> {
    let left = queues.update(from, queues[from].remove(position_of(queues[from], gid)));
    left.update(to, resorted(left[to].push(gid), order))
}

/// Positions of a queue order, by GID.
fn order_ranks(order: &Vec<Gid>) -> (ranks: KeyMap)
    requires
        order@.no_duplicates(),
    ensures
        forall|g: Gid| ranks@.contains_key(g.0 as u128) <==> order@.contains(g),
        forall|g: Gid| order@.contains(g) ==> ranks@[g.0 as u128] == #[trigger] order@.index_of(g),
{
    let mut ranks = KeyMap::new();
    let mut i: usize = 0;
    while i < order.len()
        invariant
            i <= order.len(),
            order@.no_duplicates(),
            forall|g: Gid|
                #[trigger] ranks@.contains_key(g.0 as u128) ==> ranks@[g.0 as u128] < i && order[ranks@[g.0 as u128] as int] == g,
            forall|k: int| 0 <= k < i ==> ranks@.contains_key(#[trigger] order[k].0 as u128) && ranks@[order[k].0 as u128] == k,
        decreases order.len() - i,
    {
        ranks.insert(order[i].0 as u128, i);
        i = i + 1;
    }
    assert forall|g: Gid| ranks@.contains_key(g.0 as u128) <==> order@.contains(g) by {
        if order@.contains(g) {
            let k = order@.index_of(g);
            assert(order[k] == g);
            assert(ranks@.contains_key(order[k].0 as u128));
        }
    }
    assert forall|g: Gid| order@.contains(g) implies ranks@[g.0 as u128] == #[trigger] order@.index_of(g) by {
        let k = order@.index_of(g);
        assert(order[k] == g);
    }
    ranks
}

/// Sorts a queue towards its restored order.
fn sort_intermediate_queue(queue: &Vec<Gid>, order: &Vec<Gid>) -> (out: Vec<Gid>)
    requires
        order@.no_duplicates(),
    ensures
        out@ == resorted(queue@, order@),
{
    let ranks = order_ranks(order);
    let mut keys: Vec<OrderKey> = Vec::new();
    let mut i: usize = 0;
    while i < queue.len()
        invariant
            i <= queue.len(),
            keys.len() == i,
            forall|g: Gid| ranks@.contains_key(g.0 as u128) <==> order@.contains(g),
            forall|g: Gid| order@.contains(g) ==> ranks@[g.0 as u128] == #[trigger] order@.index_of(g),
            forall|k: int| 0 <= k < i ==> keys[k] == rank_key(order@, #[trigger] queue[k]),
        decreases queue.len() - i,
    {
        let gid = queue[i];
        let key = match ranks.get(gid.0 as u128) {
            Some(position) => OrderKey { rank: 0, position: position as u64, id: gid.0 },
            None => OrderKey { rank: 1, position: u64::MAX, id: gid.0 },
        };
        assert(key == rank_key(order@, gid));
        keys.push(key);
        i = i + 1;
    }
    assert(keys@ =~= queue@.map_values(|g: Gid| rank_key(order@, g)));
    gids_of_keys(&sort_keys(&keys))
}

/// Finds a task in a queue.
fn find_gid(queue: &Vec<Gid>, gid: Gid) -> (r: Option<usize>)
    ensures
        r is Some <==> queue@.contains(gid),
        r matches Some(i) ==> i < queue.len() && i == position_of(queue@, gid) && queue[i as int] == gid,
{
    let mut i: usize = 0;
    while i < queue.len()
        invariant
            i <= queue.len(),
            forall|k: int| 0 <= k < i ==> queue[k] != gid,
        decreases queue.len() - i,
    {
        if queue[i] == gid {
            proof {
                queue@.index_of_first_ensures(gid);
            }
            return Some(i);
        }
        i = i + 1;
    }
    None
}

/// A task that changes persisted queue without ending.
#[derive(Clone, Copy, Debug, PartialEq, Eq, Structural)]
pub struct QueueRepairCandidate {
    pub gid: Gid,
    pub expected_state: SessionQueueState,
    pub target_state: SessionQueueState,
    pub desired_paused: bool,
    pub slow_demotion_count: u32,
    pub updated_ms: u64,
}

/// The queues after the first `count` moves towards the restored orders.
pub open spec fn queues_after(
    queues: Seq<Seq<Gid>>,
    moves: Seq<QueueRepairCandidate>,
    orders: Seq<Seq<Gid>>,
    count: int,
) -> Seq<Seq<Gid>>
    decreases count,
{
    if count <= 0 {
        queues
    } else {
        let before = queues_after(queues, moves, orders, count - 1);
        let m = moves[count - 1];
        moved(before, m.gid, slot(m.expected_state), slot(m.target_state), orders[slot(m.target_state)])
    }
}

/// Whether a move names two different live queues and its task stands in the first.
pub open spec fn move_applies(queues: Seq<Seq<Gid>>, m: QueueRepairCandidate) -> bool {
    &&& m.expected_state != m.target_state
    &&& !(m.expected_state is Stopped)
    &&& queues[slot(m.expected_state)].contains(m.gid)
}

/// Whether every move applies in turn.
pub open spec fn moves_apply(
    queues: Seq<Seq<Gid>>,
    moves: Seq<QueueRepairCandidate>,
    orders: Seq<Seq<Gid>>,
) -> bool {
    forall|i: int|
        0 <= i < moves.len() ==> move_applies(#[trigger] queues_after(queues, moves, orders, i), moves[i])
}

/// Whether move `index` is the first that does not apply.
pub open spec fn first_blocked_move(
    queues: Seq<Seq<Gid>>,
    moves: Seq<QueueRepairCandidate>,
    orders: Seq<Seq<Gid>>,
    index: int,
) -> bool {
    &&& 0 <= index < moves.len()
    &&& !move_applies(queues_after(queues, moves, orders, index), moves[index])
    &&& forall|i: int|
        0 <= i < index ==> move_applies(#[trigger] queues_after(queues, moves, orders, i), moves[i])
}

/// What one queue move records in the session store.
pub struct TransitionView {
    pub gid: Gid,
    pub expected_state: SessionQueueState,
    pub target_state: SessionQueueState,
    pub desired_paused: bool,
    pub slow_demotion_count: u32,
    pub source_order: Seq<Gid>,
    pub target_order: Seq<Gid>,
    pub updated_ms: u64,
}

impl View for SessionQueueTransition {
    type V = TransitionView;

    open spec fn view(&self) -> TransitionView {
        TransitionView {
            gid: self.gid,
            expected_state: self.expected_state,
            target_state: self.target_state,
            desired_paused: self.desired_paused,
            slow_demotion_count: self.slow_demotion_count,
            source_order: self.final_orders[0].gids@,
            target_order: self.final_orders[1].gids@,
            updated_ms: self.updated_ms,
        }
    }
}

impl SessionQueueTransition {
    /// Both touched queues are recorded, source first.
    pub open spec fn wf(self) -> bool {
        &&& self.final_orders.len() == 2
        &&& self.final_orders[0].state == self.expected_state
        &&& self.final_orders[1].state == self.target_state
    }
}

/// The record of move `index`: the task's flags and both queues as they stand after it.
pub open spec fn transition_of(
    queues: Seq<Seq<Gid>>,
    moves: Seq<QueueRepairCandidate>,
    orders: Seq<Seq<Gid>>,
    index: int,
) -> TransitionView {
    let m = moves[index];
    let after = queues_after(queues, moves, orders, index + 1);
    TransitionView {
        gid: m.gid,
        expected_state: m.expected_state,
        target_state: m.target_state,
        desired_paused: m.desired_paused,
        slow_demotion_count: m.slow_demotion_count,
        source_order: after[slot(m.expected_state)],
        target_order: after[slot(m.target_state)],
        updated_ms: m.updated_ms,
    }
}

/// Applies queue moves in order, or reports the first move that does not apply.
pub fn apply_queue_moves(
    queues: &mut Vec<Vec<Gid>>,
    moves: &Vec<QueueRepairCandidate>,
    orders: &Vec<Vec<Gid>>,
) -> (out: Result<Vec<SessionQueueTransition>, usize>)
    requires
        old(queues).len() == QUEUE_COUNT,
        orders.len() == QUEUE_COUNT,
        forall|i: int| 0 <= i < QUEUE_COUNT ==> (#[trigger] orders[i])@.no_duplicates(),
    ensures
        final(queues).len() == QUEUE_COUNT,
        out is Ok <==> moves_apply(queue_views(old(queues)@), moves@, queue_views(orders@)),
        out matches Err(i) ==> first_blocked_move(
            queue_views(old(queues)@),
            moves@,
            queue_views(orders@),
            i as int,
        ),
        out matches Ok(transitions) ==> {
            &&& queue_views(final(queues)@) == queues_after(
                queue_views(old(queues)@),
                moves@,
                queue_views(orders@),
                moves@.len() as int,
            )
            &&& transitions.len() == moves.len()
            &&& forall|i: int|
                0 <= i < moves.len() ==> (#[trigger] transitions[i]).wf() && transitions[i]@
                    == transition_of(queue_views(old(queues)@), moves@, queue_views(orders@), i)
        },
{
    let ghost start = queue_views(queues@);
    let ghost goal = queue_views(orders@);
    let mut out: Vec<SessionQueueTransition> = Vec::new();
    let mut i: usize = 0;
    while i < moves.len()
        invariant
            i <= moves.len(),
            queues.len() == QUEUE_COUNT,
            orders.len() == QUEUE_COUNT,
            goal == queue_views(orders@),
            start == queue_views(old(queues)@),
            forall|k: int| 0 <= k < QUEUE_COUNT ==> (#[trigger] orders[k])@.no_duplicates(),
            queue_views(queues@) == queues_after(start, moves@, goal, i as int),
            forall|k: int|
                0 <= k < i ==> move_applies(#[trigger] queues_after(start, moves@, goal, k), moves[k]),
            out.len() == i,
            forall|k: int|
                0 <= k < i ==> (#[trigger] out[k]).wf() && out[k]@ == transition_of(start, moves@, goal, k),
        decreases moves.len() - i,
    {
        let m = moves[i];
        let ghost before = queue_views(queues@);
        if m.expected_state == m.target_state || m.expected_state == SessionQueueState::Stopped {
            assert(!move_applies(queues_after(start, moves@, goal, i as int), moves[i as int]));
            return Err(i);
        }
        let from = queue_state_index(m.expected_state);
        let to = queue_state_index(m.target_state);
        let position = match find_gid(&queues[from], m.gid) {
            Some(position) => position,
            None => {
                assert(before[from as int] == queues[from as int]@);
                assert(!move_applies(queues_after(start, moves@, goal, i as int), moves[i as int]));
                return Err(i);
            },
        };
        let mut source = copy_gids(&queues[from]);
        source.remove(position);
        let mut target = copy_gids(&queues[to]);
        target.push(m.gid);
        let target = sort_intermediate_queue(&target, &orders[to]);
        let source_order = copy_gids(&source);
        let target_order = copy_gids(&target);
        queues.set(from, source);
        queues.set(to, target);
        proof {
            let after = moved(before, m.gid, from as int, to as int, goal[to as int]);
            assert(queue_views(queues@) =~= after);
            assert(queues_after(start, moves@, goal, i as int + 1) == after);
        }
        let mut final_orders: Vec<SessionQueueOrder> = Vec::new();
        final_orders.push(SessionQueueOrder { state: m.expected_state, gids: source_order });
        final_orders.push(SessionQueueOrder { state: m.target_state, gids: target_order });
        out.push(
            SessionQueueTransition {
                gid: m.gid,
                expected_state: m.expected_state,
                target_state: m.target_state,
                desired_paused: m.desired_paused,
                slow_demotion_count: m.slow_demotion_count,
                final_orders,
                updated_ms: m.updated_ms,
            },
        );
        i = i + 1;
    }
    Ok(out)
}

/// Sorting keys with distinct identities leaves them distinct.
pub proof fn lemma_sorted_ids_distinct(keys: Seq<OrderKey>)
    requires
        forall|a: int, b: int| 0 <= a < b < keys.len() ==> (#[trigger] keys[a]).id != (#[trigger] keys[b]).id,
    ensures
        forall|a: int, b: int|
            0 <= a < b < sorted_keys(keys).len() ==> (#[trigger] sorted_keys(keys)[a]).id != (
            #[trigger] sorted_keys(keys)[b]).id,
{
    let s = sorted_keys(keys);
    lemma_sorted_keys(keys);
    assert(keys.no_duplicates());
    keys.lemma_multiset_has_no_duplicates();
    s.lemma_multiset_has_no_duplicates_conv();
    assert forall|a: int, b: int| 0 <= a < b < s.len() implies (#[trigger] s[a]).id != (#[trigger] s[b]).id by {
        assert(s.contains(s[a]));
        assert(s.contains(s[b]));
        assert(keys.contains(s[a]));
        assert(keys.contains(s[b]));
        let i = keys.index_of(s[a]);
        let j = keys.index_of(s[b]);
        assert(keys[i] == s[a]);
        assert(keys[j] == s[b]);
    }
}

/// The keys of a queue are the keys of its members.
pub proof fn lemma_class_keys(members: Seq<QueueMembership>, class: QueueClass)
    ensures
        class_keys(members, class).len() <= members.len(),
        forall|k: int|
            0 <= k < class_keys(members, class).len() ==> exists|m: int|
                0 <= m < members.len() && (#[trigger] members[m]).class == class && member_key(members[m])
                    == #[trigger] class_keys(members, class)[k],
        forall|m: int|
            0 <= m < members.len() && (#[trigger] members[m]).class == class ==> class_keys(
                members,
                class,
            ).contains(member_key(members[m])),
    decreases members.len(),
{
    if members.len() > 0 {
        let rest = members.drop_last();
        lemma_class_keys(rest, class);
        let keys = class_keys(members, class);
        let shorter = class_keys(rest, class);
        assert forall|k: int| 0 <= k < keys.len() implies exists|m: int|
            0 <= m < members.len() && (#[trigger] members[m]).class == class && member_key(members[m])
                == #[trigger] keys[k] by {
            if k < shorter.len() {
                assert(keys[k] == shorter[k]);
                let m = choose|m: int|
                    0 <= m < rest.len() && (#[trigger] rest[m]).class == class && member_key(rest[m])
                        == shorter[k];
                assert(members[m] == rest[m]);
            } else {
                assert(members[members.len() - 1] == members.last());
            }
        }
        assert forall|m: int| 0 <= m < members.len() && (#[trigger] members[m]).class == class implies keys.contains(member_key(members[m])) by {
            if m < rest.len() {
                assert(rest[m] == members[m]);
                let k = shorter.index_of(member_key(rest[m]));
                assert(keys[k] == shorter[k]);
            } else {
                assert(keys[keys.len() - 1] == member_key(members.last()));
            }
        }
    }
}

/// Whether no two members are the same task.
pub open spec fn distinct_members(members: Seq<QueueMembership>) -> bool {
    forall|a: int, b: int|
        0 <= a < b < members.len() ==> (#[trigger] members[a]).gid != (#[trigger] members[b]).gid
}

/// Distinct members have distinct keys.
pub proof fn lemma_class_keys_distinct(members: Seq<QueueMembership>, class: QueueClass)
    requires
        distinct_members(members),
    ensures
        forall|a: int, b: int|
            0 <= a < b < class_keys(members, class).len() ==> (#[trigger] class_keys(members, class)[a]).id
                != (#[trigger] class_keys(members, class)[b]).id,
    decreases members.len(),
{
    if members.len() > 0 {
        let rest = members.drop_last();
        assert forall|a: int, b: int| 0 <= a < b < rest.len() implies (#[trigger] rest[a]).gid != (#[trigger] rest[b]).gid by {
            assert(members[a] == rest[a]);
            assert(members[b] == rest[b]);
        }
        lemma_class_keys_distinct(rest, class);
        lemma_class_keys(rest, class);
        let keys = class_keys(members, class);
        let shorter = class_keys(rest, class);
        assert forall|a: int, b: int| 0 <= a < b < keys.len() implies (#[trigger] keys[a]).id != (#[trigger] keys[b]).id by {
            assert(keys[a] == shorter[a]);
            if b < shorter.len() {
                assert(keys[b] == shorter[b]);
            } else {
                let m = choose|m: int|
                    0 <= m < rest.len() && (#[trigger] rest[m]).class == class && member_key(rest[m])
                        == shorter[a];
                assert(members[m] == rest[m]);
                assert(members[members.len() - 1] == members.last());
            }
        }
    }
}

/// No task stands twice in a restored order.
pub proof fn lemma_restored_order_distinct(members: Seq<QueueMembership>, class: QueueClass)
    requires
        distinct_members(members),
    ensures
        restored_order(members, class).no_duplicates(),
{
    lemma_class_keys_distinct(members, class);
    lemma_sorted_ids_distinct(class_keys(members, class));
    let keys = sorted_keys(class_keys(members, class));
    let order = restored_order(members, class);
    assert forall|a: int, b: int| 0 <= a < order.len() && 0 <= b < order.len() && a != b implies order[a] != order[b] by {
        assert(order[a] == Gid(keys[a].id));
        assert(order[b] == Gid(keys[b].id));
        if a < b {
            assert(keys[a].id != keys[b].id);
        } else {
            assert(keys[b].id != keys[a].id);
        }
    }
}

/// The restored orders by persisted slot.
pub(crate) fn orders_by_slot(queues: &Vec<QueueOrder>, Ghost(members): Ghost<Seq<QueueMembership>>) -> (orders: Vec<Vec<Gid>>)
    requires
        restores(queues@, members),
    ensures
        orders.len() == QUEUE_COUNT,
        queue_views(orders@) == restored_queues(members),
{
    let mut orders: Vec<Vec<Gid>> = Vec::new();
    orders.push(copy_gids(&queues[0].order));
    orders.push(copy_gids(&queues[3].order));
    orders.push(copy_gids(&queues[2].order));
    orders.push(copy_gids(&queues[4].order));
    orders.push(copy_gids(&queues[1].order));
    assert(queue_views(orders@) =~= restored_queues(members));
    orders
}

/// Whether two queue tables hold the same orders.
pub fn same_queues(left: &Vec<Vec<Gid>>, right: &Vec<Vec<Gid>>) -> (r: bool)
    requires
        left.len() == QUEUE_COUNT,
        right.len() == QUEUE_COUNT,
    ensures
        r == (queue_views(left@) == queue_views(right@)),
{
    let mut i: usize = 0;
    while i < QUEUE_COUNT
        invariant
            i <= QUEUE_COUNT,
            left.len() == QUEUE_COUNT,
            right.len() == QUEUE_COUNT,
            forall|k: int| 0 <= k < i ==> (#[trigger] left[k])@ == right[k]@,
        decreases QUEUE_COUNT - i,
    {
        let a = &left[i];
        let b = &right[i];
        if a.len() != b.len() {
            assert(queue_views(left@)[i as int] != queue_views(right@)[i as int]);
            return false;
        }
        let mut k: usize = 0;
        while k < a.len()
            invariant
                i < QUEUE_COUNT,
                left.len() == QUEUE_COUNT,
                right.len() == QUEUE_COUNT,
                *a == left[i as int],
                *b == right[i as int],
                a.len() == b.len(),
                k <= a.len(),
                forall|j: int| 0 <= j < k ==> a[j] == b[j],
            decreases a.len() - k,
        {
            if a[k] != b[k] {
                assert(queue_views(left@)[i as int][k as int] != queue_views(right@)[i as int][k as int]);
                return false;
            }
            k = k + 1;
        }
        assert(a@ =~= b@);
        i = i + 1;
    }
    assert(queue_views(left@) =~= queue_views(right@));
    true
}

} // verus!
