//! Startup does not depend on the order in which records are handed over.
use vstd::prelude::*;
use vstd::relations::sorted_by;
use vstd::seq_lib::{group_to_multiset_ensures, lemma_sorted_unique};
use crate::order::{key_order, lemma_key_order_total, lemma_sorted_is_canonical, lemma_sorted_keys, OrderKey};
use crate::queues::{
    persisted_keys, persisted_queue, persisted_queues, position_key, queue_gap, state_at, state_keys, QUEUE_COUNT,
};
use crate::reconcile::{
    duplicate_from, gid_order, install_conflict, install_fault, installs_fault_from, journal_fault_from,
    latest_completion, latest_update, least_absent, least_foreign, leftover_fault, lemma_gid_order, owners,
    plan_fault_from, plans, ranked_inputs, ranked_plan, ranked_task, reconcile_fault, reconciled, record_fault,
    record_of, repair_time, Owned, StartupReconciliation, StartupRecords, StartupRecoveryConfig,
};
use crate::session::{
    Gid, JournalInstallIntent, RecoveredTaskJournal, SessionId, SessionQueueState, SessionStoppedResultRecord,
    SessionTaskRecord,
};
use crate::startup_laws::lemma_first_duplicate_none;

verus! {

/// Whether two sequences hold the same records, in whatever order.
pub open spec fn rearranged<T>(a: Seq<T>, b: Seq<T>) -> bool {
    a.to_multiset() == b.to_multiset()
}

/// Whether the same records are handed over, each kind in whatever order.
pub open spec fn records_rearranged(a: StartupRecords, b: StartupRecords) -> bool {
    &&& a.snapshot.session == b.snapshot.session
    &&& rearranged(a.snapshot.tasks@, b.snapshot.tasks@)
    &&& rearranged(a.snapshot.stopped_results@, b.snapshot.stopped_results@)
    &&& rearranged(a.snapshot.host_key_challenges@, b.snapshot.host_key_challenges@)
    &&& rearranged(a.snapshot.journal_installs@, b.snapshot.journal_installs@)
    &&& rearranged(a.journals@, b.journals@)
    &&& rearranged(a.admissions@, b.admissions@)
}

/// Rearranged records are as many and the same.
proof fn lemma_rearranged<T>(a: Seq<T>, b: Seq<T>)
    requires
        rearranged(a, b),
    ensures
        a.len() == b.len(),
        forall|x: T| #[trigger] a.contains(x) <==> b.contains(x),
{
    broadcast use group_to_multiset_ensures;

    assert(a.len() == a.to_multiset().len());
    assert(b.len() == b.to_multiset().len());
    assert forall|x: T| #[trigger] a.contains(x) <==> b.contains(x) by {
        assert(a.contains(x) <==> a.to_multiset().count(x) > 0);
        assert(b.contains(x) <==> b.to_multiset().count(x) > 0);
    }
}

/// Rearranged records without repetition are without repetition.
proof fn lemma_rearranged_distinct<T>(a: Seq<T>, b: Seq<T>)
    requires
        rearranged(a, b),
        a.no_duplicates(),
    ensures
        b.no_duplicates(),
{
    a.lemma_multiset_has_no_duplicates();
    b.lemma_multiset_has_no_duplicates_conv();
}

/// Where a record of a rearranged sequence stands.
proof fn lemma_place<T>(a: Seq<T>, b: Seq<T>, i: int) -> (k: int)
    requires
        rearranged(a, b),
        0 <= i < b.len(),
    ensures
        0 <= k < a.len(),
        a[k] == b[i],
{
    lemma_rearranged(a, b);
    assert(b.contains(b[i]));
    assert(a.contains(b[i]));
    a.index_of(b[i])
}

/// Sequences without repetition that hold the same are rearranged.
proof fn lemma_same_members<T>(a: Seq<T>, b: Seq<T>)
    requires
        a.no_duplicates(),
        b.no_duplicates(),
        forall|x: T| #[trigger] a.contains(x) <==> b.contains(x),
    ensures
        rearranged(a, b),
{
    broadcast use group_to_multiset_ensures;

    a.lemma_multiset_has_no_duplicates();
    b.lemma_multiset_has_no_duplicates();
    assert forall|x: T| a.to_multiset().count(x) == b.to_multiset().count(x) by {
        assert(a.contains(x) <==> a.to_multiset().count(x) > 0);
        assert(b.contains(x) <==> b.to_multiset().count(x) > 0);
    }
    assert(a.to_multiset() =~= b.to_multiset());
}

/// Records with different owners are different.
proof fn lemma_distinct_owners<T: Owned>(a: Seq<T>)
    requires
        owners(a).no_duplicates(),
    ensures
        a.no_duplicates(),
{
    assert forall|i: int, j: int| 0 <= i < a.len() && 0 <= j < a.len() && i != j implies a[i] != a[j] by {
        assert(owners(a)[i] == a[i].owner());
        assert(owners(a)[j] == a[j].owner());
    }
}

/// Rearranged records have the same owners, and for each the same record.
proof fn lemma_same_owners<T: Owned>(a: Seq<T>, b: Seq<T>)
    requires
        rearranged(a, b),
        owners(a).no_duplicates(),
    ensures
        owners(b).no_duplicates(),
        forall|g: Gid| #[trigger] owners(a).contains(g) <==> owners(b).contains(g),
        forall|g: Gid| #[trigger] record_of(a, g) == record_of(b, g),
{
    lemma_rearranged(a, b);
    lemma_distinct_owners(a);
    lemma_rearranged_distinct(a, b);
    assert forall|i: int, j: int| 0 <= i < b.len() && 0 <= j < b.len() && i != j implies owners(b)[i]
        != owners(b)[j] by {
        let k = lemma_place(a, b, i);
        let l = lemma_place(a, b, j);
        assert(b[i] != b[j]);
        assert(owners(a)[k] == b[i].owner());
        assert(owners(a)[l] == b[j].owner());
    }
    assert forall|g: Gid|
        (#[trigger] owners(a).contains(g) <==> owners(b).contains(g)) && record_of(a, g) == record_of(b, g) by {
        if owners(a).contains(g) {
            let k = owners(a).index_of(g);
            let i = lemma_place(b, a, k);
            assert(owners(b)[i] == g);
            assert(owners(b).contains(g));
            assert(owners(b).index_of(g) == i);
        }
        if owners(b).contains(g) {
            let i = owners(b).index_of(g);
            let k = lemma_place(a, b, i);
            assert(owners(a)[k] == g);
        }
    }
}

/// Distinct GIDs hold no duplicate.
proof fn lemma_no_first_duplicate(gids: Seq<Gid>, from: int)
    requires
        gids.no_duplicates(),
        0 <= from <= gids.len(),
    ensures
        duplicate_from(gids, from) is None,
    decreases gids.len() - from,
{
    if from < gids.len() {
        if gids.take(from).contains(gids[from]) {
            let k = gids.take(from).index_of(gids[from]);
            assert(gids.take(from)[k] == gids[k]);
        }
        lemma_no_first_duplicate(gids, from + 1);
    }
}

/// Nothing is absent exactly where everything is present.
proof fn lemma_absent(gids: Seq<Gid>, present: Seq<Gid>)
    ensures
        least_absent(gids, present) is None <==> forall|g: Gid| gids.contains(g) ==> present.contains(g),
    decreases gids.len(),
{
    if gids.len() > 0 {
        let rest = gids.drop_last();
        lemma_absent(rest, present);
        assert(gids.contains(gids.last()));
        assert forall|g: Gid| gids.contains(g) <==> rest.contains(g) || g == gids.last() by {
            if gids.contains(g) {
                let i = gids.index_of(g);
                if i < rest.len() {
                    assert(rest[i] == g);
                }
            }
            if rest.contains(g) {
                let i = rest.index_of(g);
                assert(gids[i] == g);
            }
        }
    }
}

/// The members of two pairs of sequences decide what is absent.
proof fn lemma_absent_same(gids: Seq<Gid>, present: Seq<Gid>, others: Seq<Gid>, held: Seq<Gid>)
    requires
        forall|g: Gid| #[trigger] gids.contains(g) <==> others.contains(g),
        forall|g: Gid| #[trigger] present.contains(g) <==> held.contains(g),
        least_absent(gids, present) is None,
    ensures
        least_absent(others, held) is None,
{
    lemma_absent(gids, present);
    lemma_absent(others, held);
    assert forall|g: Gid| others.contains(g) implies held.contains(g) by {
        assert(gids.contains(g));
        assert(present.contains(g));
    }
}

pub(crate) proof fn lemma_foreign(tasks: Seq<SessionTaskRecord>, session: SessionId)
    ensures
        least_foreign(tasks, session) is None <==> forall|i: int|
            0 <= i < tasks.len() ==> (#[trigger] tasks[i]).session_id == session,
    decreases tasks.len(),
{
    if tasks.len() > 0 {
        let rest = tasks.drop_last();
        lemma_foreign(rest, session);
        assert(forall|i: int| 0 <= i < rest.len() ==> rest[i] == #[trigger] tasks[i]);
        if least_foreign(tasks, session) is None {
            assert forall|i: int| 0 <= i < tasks.len() implies (#[trigger] tasks[i]).session_id == session by {
                if i < rest.len() {
                    assert(rest[i].session_id == session);
                }
            }
        }
    }
}

proof fn lemma_latest_update(tasks: Seq<SessionTaskRecord>, floor: u64)
    ensures
        latest_update(tasks, floor) >= floor,
        forall|i: int| 0 <= i < tasks.len() ==> (#[trigger] tasks[i]).updated_ms <= latest_update(tasks, floor),
        latest_update(tasks, floor) == floor || exists|i: int|
            0 <= i < tasks.len() && (#[trigger] tasks[i]).updated_ms == latest_update(tasks, floor),
    decreases tasks.len(),
{
    if tasks.len() > 0 {
        let rest = tasks.drop_last();
        lemma_latest_update(rest, floor);
        assert forall|i: int| 0 <= i < tasks.len() implies (#[trigger] tasks[i]).updated_ms <= latest_update(
            tasks,
            floor,
        ) by {
            if i < rest.len() {
                assert(rest[i].updated_ms <= latest_update(rest, floor));
            }
        }
        if latest_update(tasks, floor) != floor {
            if tasks.last().updated_ms > latest_update(rest, floor) {
                assert(tasks[tasks.len() - 1].updated_ms == latest_update(tasks, floor));
            } else {
                let i = choose|i: int|
                    0 <= i < rest.len() && (#[trigger] rest[i]).updated_ms == latest_update(rest, floor);
                assert(tasks[i].updated_ms == latest_update(tasks, floor));
            }
        }
    }
}

proof fn lemma_latest_completion(results: Seq<SessionStoppedResultRecord>, floor: u64)
    ensures
        latest_completion(results, floor) >= floor,
        forall|i: int|
            0 <= i < results.len() ==> (#[trigger] results[i]).completed_ms <= latest_completion(results, floor),
        latest_completion(results, floor) == floor || exists|i: int|
            0 <= i < results.len() && (#[trigger] results[i]).completed_ms == latest_completion(results, floor),
    decreases results.len(),
{
    if results.len() > 0 {
        let rest = results.drop_last();
        lemma_latest_completion(rest, floor);
        assert forall|i: int| 0 <= i < results.len() implies (#[trigger] results[i]).completed_ms
            <= latest_completion(results, floor) by {
            if i < rest.len() {
                assert(rest[i].completed_ms <= latest_completion(rest, floor));
            }
        }
        if latest_completion(results, floor) != floor {
            if results.last().completed_ms > latest_completion(rest, floor) {
                assert(results[results.len() - 1].completed_ms == latest_completion(results, floor));
            } else {
                let i = choose|i: int|
                    0 <= i < rest.len() && (#[trigger] rest[i]).completed_ms == latest_completion(rest, floor);
                assert(results[i].completed_ms == latest_completion(results, floor));
            }
        }
    }
}

proof fn lemma_update_at_most(a: Seq<SessionTaskRecord>, b: Seq<SessionTaskRecord>, floor: u64)
    requires
        rearranged(a, b),
    ensures
        latest_update(a, floor) <= latest_update(b, floor),
{
    lemma_latest_update(a, floor);
    lemma_latest_update(b, floor);
    if latest_update(a, floor) != floor {
        let i = choose|i: int| 0 <= i < a.len() && (#[trigger] a[i]).updated_ms == latest_update(a, floor);
        let k = lemma_place(b, a, i);
        assert(b[k].updated_ms <= latest_update(b, floor));
    }
}

proof fn lemma_completion_at_most(
    a: Seq<SessionStoppedResultRecord>,
    b: Seq<SessionStoppedResultRecord>,
    floor: u64,
)
    requires
        rearranged(a, b),
    ensures
        latest_completion(a, floor) <= latest_completion(b, floor),
{
    lemma_latest_completion(a, floor);
    lemma_latest_completion(b, floor);
    if latest_completion(a, floor) != floor {
        let i = choose|i: int| 0 <= i < a.len() && (#[trigger] a[i]).completed_ms == latest_completion(a, floor);
        let k = lemma_place(b, a, i);
        assert(b[k].completed_ms <= latest_completion(b, floor));
    }
}

/// The keys of a queue are those of its tasks.
pub(crate) proof fn lemma_state_keys(tasks: Seq<SessionTaskRecord>, state: SessionQueueState)
    requires
        owners(tasks).no_duplicates(),
    ensures
        state_keys(tasks, state).no_duplicates(),
        forall|key: OrderKey|
            #[trigger] state_keys(tasks, state).contains(key) <==> exists|i: int|
                0 <= i < tasks.len() && (#[trigger] tasks[i]).queue_state == state && position_key(tasks[i]) == key,
    decreases tasks.len(),
{
    if tasks.len() > 0 {
        let rest = tasks.drop_last();
        let last = tasks.last();
        assert(forall|i: int| 0 <= i < rest.len() ==> #[trigger] rest[i] == tasks[i]);
        assert(owners(rest).no_duplicates()) by {
            assert forall|i: int, j: int| 0 <= i < rest.len() && 0 <= j < rest.len() && i != j implies owners(rest)[i]
                != owners(rest)[j] by {
                assert(owners(rest)[i] == owners(tasks)[i]);
                assert(owners(rest)[j] == owners(tasks)[j]);
            }
        }
        lemma_state_keys(rest, state);
        let before = state_keys(rest, state);
        let keys = state_keys(tasks, state);
        if last.queue_state == state {
            assert(!before.contains(position_key(last))) by {
                if before.contains(position_key(last)) {
                    let i = choose|i: int|
                        0 <= i < rest.len() && (#[trigger] rest[i]).queue_state == state && position_key(rest[i])
                            == position_key(last);
                    assert(owners(tasks)[i] == tasks[i].gid);
                    assert(owners(tasks)[tasks.len() - 1] == last.gid);
                }
            }
            assert(keys == before.push(position_key(last)));
            assert forall|i: int, j: int| 0 <= i < keys.len() && 0 <= j < keys.len() && i != j implies keys[i]
                != keys[j] by {
                if i < before.len() {
                    assert(before.contains(before[i]));
                }
                if j < before.len() {
                    assert(before.contains(before[j]));
                }
            }
        }
        assert forall|key: OrderKey|
            #[trigger] keys.contains(key) <==> exists|i: int|
                0 <= i < tasks.len() && (#[trigger] tasks[i]).queue_state == state && position_key(tasks[i])
                    == key by {
            if keys.contains(key) {
                let n = keys.index_of(key);
                if n < before.len() {
                    assert(before[n] == key);
                    assert(before.contains(key));
                    let i = choose|i: int|
                        0 <= i < rest.len() && (#[trigger] rest[i]).queue_state == state && position_key(rest[i])
                            == key;
                    assert(tasks[i].queue_state == state && position_key(tasks[i]) == key);
                } else {
                    assert(tasks[tasks.len() - 1].queue_state == state);
                }
            }
            if exists|i: int|
                0 <= i < tasks.len() && (#[trigger] tasks[i]).queue_state == state && position_key(tasks[i])
                    == key {
                let i = choose|i: int|
                    0 <= i < tasks.len() && (#[trigger] tasks[i]).queue_state == state && position_key(tasks[i])
                        == key;
                if i < rest.len() {
                    assert(rest[i].queue_state == state && position_key(rest[i]) == key);
                    assert(before.contains(key));
                    let n = before.index_of(key);
                    assert(keys[n] == key);
                } else {
                    assert(keys[keys.len() - 1] == key);
                }
            }
        }
    }
}

/// Rearranged tasks stand in the same queues.
proof fn lemma_same_queue(a: Seq<SessionTaskRecord>, b: Seq<SessionTaskRecord>, state: SessionQueueState)
    requires
        rearranged(a, b),
        owners(a).no_duplicates(),
    ensures
        persisted_keys(a, state) == persisted_keys(b, state),
{
    lemma_same_owners(a, b);
    lemma_state_keys(a, state);
    lemma_state_keys(b, state);
    let first = state_keys(a, state);
    let second = state_keys(b, state);
    assert forall|key: OrderKey| #[trigger] first.contains(key) <==> second.contains(key) by {
        if first.contains(key) {
            let i = choose|i: int|
                0 <= i < a.len() && (#[trigger] a[i]).queue_state == state && position_key(a[i]) == key;
            let k = lemma_place(b, a, i);
            assert(b[k].queue_state == state && position_key(b[k]) == key);
        }
        if second.contains(key) {
            let i = choose|i: int|
                0 <= i < b.len() && (#[trigger] b[i]).queue_state == state && position_key(b[i]) == key;
            let k = lemma_place(a, b, i);
            assert(a[k].queue_state == state && position_key(a[k]) == key);
        }
    }
    lemma_same_members(first, second);
    lemma_sorted_keys(first);
    lemma_sorted_is_canonical(second, persisted_keys(a, state));
}

proof fn lemma_same_gap(a: Seq<SessionTaskRecord>, b: Seq<SessionTaskRecord>, from: int)
    requires
        rearranged(a, b),
        owners(a).no_duplicates(),
    ensures
        queue_gap(a, from) == queue_gap(b, from),
    decreases QUEUE_COUNT - from,
{
    if 0 <= from < QUEUE_COUNT {
        lemma_same_queue(a, b, state_at(from));
        lemma_same_gap(a, b, from + 1);
    }
}

proof fn lemma_same_queues(a: Seq<SessionTaskRecord>, b: Seq<SessionTaskRecord>)
    requires
        rearranged(a, b),
        owners(a).no_duplicates(),
    ensures
        persisted_queues(a) == persisted_queues(b),
{
    assert forall|i: int| 0 <= i < QUEUE_COUNT implies #[trigger] persisted_queue(a, state_at(i)) == persisted_queue(
        b,
        state_at(i),
    ) by {
        lemma_same_queue(a, b, state_at(i));
    }
    assert(persisted_queues(a) =~= persisted_queues(b));
}

/// Whether two journals share no identity.
pub open spec fn apart(a: RecoveredTaskJournal, b: RecoveredTaskJournal) -> bool {
    a.journal_id != b.journal_id && a.state.task != b.state.task && a.gid != b.gid
}

/// Journals are without fault exactly where no two share an identity.
pub(crate) proof fn lemma_journal_faults(journals: Seq<RecoveredTaskJournal>, from: int)
    requires
        0 <= from <= journals.len(),
    ensures
        journal_fault_from(journals, from) is None <==> forall|k: int, i: int|
            0 <= k < i < journals.len() && from <= i ==> apart(#[trigger] journals[k], #[trigger] journals[i]),
    decreases journals.len() - from,
{
    if from < journals.len() {
        lemma_journal_faults(journals, from + 1);
        let here = journals[from];
        if journal_fault_from(journals, from) is None {
            assert forall|k: int, i: int| 0 <= k < i < journals.len() && from <= i implies apart(
                #[trigger] journals[k],
                #[trigger] journals[i],
            ) by {
                if i == from {
                    assert(journals[k].journal_id != here.journal_id);
                }
            }
        }
        if forall|k: int, i: int|
            0 <= k < i < journals.len() && from <= i ==> apart(#[trigger] journals[k], #[trigger] journals[i]) {
            assert(forall|k: int| 0 <= k < from ==> apart(#[trigger] journals[k], journals[from]));
        }
    }
}

proof fn lemma_same_journals(a: Seq<RecoveredTaskJournal>, b: Seq<RecoveredTaskJournal>)
    requires
        rearranged(a, b),
        journal_fault_from(a, 0) is None,
    ensures
        owners(a).no_duplicates(),
        journal_fault_from(b, 0) is None,
{
    lemma_journal_faults(a, 0);
    lemma_journal_faults(b, 0);
    assert forall|i: int, j: int| 0 <= i < a.len() && 0 <= j < a.len() && i != j implies owners(a)[i]
        != owners(a)[j] by {
        if i < j {
            assert(apart(a[i], a[j]));
        } else {
            assert(apart(a[j], a[i]));
        }
    }
    lemma_distinct_owners(a);
    lemma_rearranged_distinct(a, b);
    assert forall|k: int, i: int| 0 <= k < i < b.len() && 0 <= i implies apart(#[trigger] b[k], #[trigger] b[i]) by {
        let p = lemma_place(a, b, k);
        let q = lemma_place(a, b, i);
        assert(b[k] != b[i]);
        if p < q {
            assert(apart(a[p], a[q]));
        } else {
            assert(apart(a[q], a[p]));
        }
    }
}

pub(crate) proof fn lemma_install_fault_at(
    tasks: Seq<SessionTaskRecord>,
    journals: Seq<RecoveredTaskJournal>,
    installs: Seq<JournalInstallIntent>,
    from: int,
)
    requires
        0 <= from <= installs.len(),
    ensures
        installs_fault_from(tasks, journals, installs, from) is None <==> forall|i: int|
            from <= i < installs.len() ==> #[trigger] install_fault(tasks, journals, installs, i) is None,
    decreases installs.len() - from,
{
    if from < installs.len() {
        lemma_install_fault_at(tasks, journals, installs, from + 1);
    }
}

proof fn lemma_same_installs(a: StartupRecords, b: StartupRecords)
    requires
        records_rearranged(a, b),
        owners(a.snapshot.tasks@).no_duplicates(),
        owners(a.journals@).no_duplicates(),
        installs_fault_from(a.snapshot.tasks@, a.journals@, a.snapshot.journal_installs@, 0) is None,
    ensures
        owners(a.snapshot.journal_installs@).no_duplicates(),
        installs_fault_from(b.snapshot.tasks@, b.journals@, b.snapshot.journal_installs@, 0) is None,
{
    let (tasks, journals, installs) = (a.snapshot.tasks@, a.journals@, a.snapshot.journal_installs@);
    let (tasks2, journals2, installs2) = (b.snapshot.tasks@, b.journals@, b.snapshot.journal_installs@);
    lemma_install_fault_at(tasks, journals, installs, 0);
    lemma_install_fault_at(tasks2, journals2, installs2, 0);
    assert forall|k: int, i: int| 0 <= k < i < installs.len() implies (#[trigger] installs[k]).gid != (
    #[trigger] installs[i]).gid by {
        assert(install_fault(tasks, journals, installs, i) is None);
    }
    assert forall|i: int, j: int| 0 <= i < installs.len() && 0 <= j < installs.len() && i != j implies owners(
        installs,
    )[i] != owners(installs)[j] by {
        if i < j {
            assert(installs[i].gid != installs[j].gid);
        } else {
            assert(installs[j].gid != installs[i].gid);
        }
    }
    lemma_distinct_owners(installs);
    lemma_rearranged_distinct(installs, installs2);
    lemma_same_owners(tasks, tasks2);
    lemma_same_owners(journals, journals2);
    assert forall|i: int| 0 <= i < installs2.len() implies #[trigger] install_fault(
        tasks2,
        journals2,
        installs2,
        i,
    ) is None by {
        let q = lemma_place(installs, installs2, i);
        let intent = installs2[i];
        assert(install_fault(tasks, journals, installs, q) is None);
        assert(record_of(tasks, intent.gid) == record_of(tasks2, intent.gid));
        assert(record_of(journals, intent.gid) == record_of(journals2, intent.gid));
        assert forall|k: int| 0 <= k < i implies (#[trigger] installs2[k]).gid != intent.gid
            && installs2[k].checkpoint_id != intent.checkpoint_id && installs2[k].new_journal_id
            != intent.new_journal_id && installs2[k].new_path.text@ != intent.new_path.text@ by {
            let p = lemma_place(installs, installs2, k);
            assert(installs2[k] != installs2[i]);
            if p < q {
                assert(installs[p].checkpoint_id != installs[q].checkpoint_id);
            } else {
                assert(install_fault(tasks, journals, installs, p) is None);
                assert(installs[q].checkpoint_id != installs[p].checkpoint_id);
            }
        }
        assert forall|k: int| 0 <= k < journals2.len() implies !((#[trigger] journals2[k]).gid != intent.gid && (
        journals2[k].journal_id == intent.old_journal_id || journals2[k].journal_id == intent.new_journal_id)) by {
            let p = lemma_place(journals, journals2, k);
            assert(journals[p] == journals2[k]);
        }
        assert forall|k: int| 0 <= k < tasks2.len() implies !((#[trigger] tasks2[k]).gid != intent.gid
            && tasks2[k].primary_journal_path.text@ == intent.new_path.text@) by {
            let p = lemma_place(tasks, tasks2, k);
            assert(tasks[p] == tasks2[k]);
        }
        assert(!install_conflict(tasks2, journals2, installs2, i));
    }
}

/// The keys of GIDs in ascending order, without their places.
spec fn ascending(gids: Seq<Gid>) -> Seq<OrderKey> {
    gid_order(gids).map_values(|key: OrderKey| OrderKey { id: 0, ..key })
}

proof fn lemma_ascending(gids: Seq<Gid>)
    requires
        gids.no_duplicates(),
        gids.len() <= u64::MAX,
    ensures
        ascending(gids).len() == gids.len(),
        ascending(gids).no_duplicates(),
        sorted_by(ascending(gids), key_order()),
        forall|key: OrderKey|
            #[trigger] ascending(gids).contains(key) <==> key.rank == 0 && key.id == 0 && gids.contains(
                Gid(key.position),
            ),
{
    let order = gid_order(gids);
    let keys = crate::reconcile::gid_keys(gids);
    let up = ascending(gids);
    lemma_gid_order(gids);
    lemma_sorted_keys(keys);
    assert forall|i: int| 0 <= i < up.len() implies (#[trigger] up[i]).rank == 0 && up[i].id == 0 && up[i].position
        == order[i].position by {
        assert(order.contains(order[i]));
        assert(keys.contains(order[i]));
    }
    assert forall|i: int, j: int| 0 <= i < up.len() && 0 <= j < up.len() && i != j implies up[i] != up[j] by {
        if i < j {
            assert(order[i].position < order[j].position);
        } else {
            assert(order[j].position < order[i].position);
        }
    }
    assert forall|i: int, j: int| 0 <= i < j < up.len() implies #[trigger] key_order()(up[i], up[j]) by {
        assert(order[i].position < order[j].position);
    }
    assert forall|key: OrderKey|
        #[trigger] up.contains(key) <==> key.rank == 0 && key.id == 0 && gids.contains(Gid(key.position)) by {
        if up.contains(key) {
            let i = up.index_of(key);
            assert(up[i] == key);
            let place = order[i].id as int;
            assert(gids[place].0 == order[i].position);
            assert(gids.contains(gids[place]));
        }
        if key.rank == 0 && key.id == 0 && gids.contains(Gid(key.position)) {
            let place = gids.index_of(Gid(key.position));
            assert(keys.contains(keys[place]));
            assert(order.contains(keys[place]));
            let i = order.index_of(keys[place]);
            assert(up[i].position == key.position);
            assert(up[i] == key);
        }
    }
}

/// The same task stands at each rank.
proof fn lemma_same_rank(a: StartupRecords, b: StartupRecords, rank: int)
    requires
        rearranged(a.snapshot.tasks@, b.snapshot.tasks@),
        owners(a.snapshot.tasks@).no_duplicates(),
        0 <= rank < a.snapshot.tasks.len(),
    ensures
        ranked_task(a, rank) == ranked_task(b, rank),
{
    let (first, second) = (a.snapshot.tasks@, b.snapshot.tasks@);
    let (gids, gids2) = (owners(first), owners(second));
    lemma_rearranged(first, second);
    lemma_same_owners(first, second);
    lemma_gid_order(gids);
    lemma_gid_order(gids2);
    lemma_ascending(gids);
    lemma_ascending(gids2);
    assert forall|key: OrderKey| #[trigger] ascending(gids).contains(key) <==> ascending(gids2).contains(key) by {
        assert(gids.contains(Gid(key.position)) <==> gids2.contains(Gid(key.position)));
    }
    lemma_same_members(ascending(gids), ascending(gids2));
    lemma_key_order_total();
    lemma_sorted_unique(ascending(gids), ascending(gids2), key_order());
    assert(ascending(gids)[rank].position == ascending(gids2)[rank].position);
    let i = gid_order(gids)[rank].id as int;
    let k = gid_order(gids2)[rank].id as int;
    let gid = Gid(gid_order(gids)[rank].position);
    assert(gids[i] == gid);
    assert(gids2[k] == gid);
    assert(gids.index_of(gid) == i);
    assert(gids2.index_of(gid) == k);
    assert(record_of(first, gid) == record_of(second, gid));
}

/// What owners there are, and that each has one record, for rearranged records
/// without a fault.
proof fn lemma_same_records(a: StartupRecords, b: StartupRecords, config: StartupRecoveryConfig)
    requires
        records_rearranged(a, b),
        record_fault(a, config) is None,
    ensures
        record_fault(b, config) is None,
        owners(a.snapshot.tasks@).no_duplicates(),
        owners(a.journals@).no_duplicates(),
        owners(a.admissions@).no_duplicates(),
        owners(a.snapshot.stopped_results@).no_duplicates(),
        owners(a.snapshot.host_key_challenges@).no_duplicates(),
        owners(a.snapshot.journal_installs@).no_duplicates(),
{
    let (s, t) = (a.snapshot, b.snapshot);
    lemma_rearranged(s.tasks@, t.tasks@);
    lemma_rearranged(a.journals@, b.journals@);
    lemma_rearranged(a.admissions@, b.admissions@);
    lemma_rearranged(s.stopped_results@, t.stopped_results@);
    lemma_rearranged(s.host_key_challenges@, t.host_key_challenges@);
    lemma_rearranged(s.journal_installs@, t.journal_installs@);
    lemma_first_duplicate_none(owners(s.tasks@));
    lemma_first_duplicate_none(owners(a.admissions@));
    lemma_first_duplicate_none(owners(s.stopped_results@));
    lemma_first_duplicate_none(owners(s.host_key_challenges@));
    lemma_same_journals(a.journals@, b.journals@);
    lemma_same_owners(s.tasks@, t.tasks@);
    lemma_same_owners(a.journals@, b.journals@);
    lemma_same_owners(a.admissions@, b.admissions@);
    lemma_same_owners(s.stopped_results@, t.stopped_results@);
    lemma_same_owners(s.host_key_challenges@, t.host_key_challenges@);
    lemma_no_first_duplicate(owners(t.tasks@), 0);
    lemma_no_first_duplicate(owners(b.admissions@), 0);
    lemma_no_first_duplicate(owners(t.stopped_results@), 0);
    lemma_no_first_duplicate(owners(t.host_key_challenges@), 0);
    lemma_same_gap(s.tasks@, t.tasks@, 0);
    if s.tasks.len() > 0 {
        let session = s.session->0.session_id;
        lemma_foreign(s.tasks@, session);
        lemma_foreign(t.tasks@, session);
        assert forall|i: int| 0 <= i < t.tasks@.len() implies (#[trigger] t.tasks@[i]).session_id == session by {
            let k = lemma_place(s.tasks@, t.tasks@, i);
            assert(s.tasks@[k].session_id == session);
        }
    }
    lemma_absent_same(owners(s.tasks@), owners(a.journals@), owners(t.tasks@), owners(b.journals@));
    lemma_absent_same(owners(a.journals@), owners(s.tasks@), owners(b.journals@), owners(t.tasks@));
    lemma_same_installs(a, b);
}

proof fn lemma_same_plan_fault(a: StartupRecords, b: StartupRecords, config: StartupRecoveryConfig, rank: int)
    requires
        a.snapshot.tasks.len() == b.snapshot.tasks.len(),
        forall|k: int|
            0 <= k < a.snapshot.tasks.len() ==> #[trigger] ranked_plan(a, config, k) == ranked_plan(b, config, k),
    ensures
        plan_fault_from(a, config, rank) == plan_fault_from(b, config, rank),
    decreases a.snapshot.tasks.len() - rank,
{
    if 0 <= rank < a.snapshot.tasks.len() {
        assert(ranked_plan(a, config, rank) == ranked_plan(b, config, rank));
        lemma_same_plan_fault(a, b, config, rank + 1);
    }
}

/// Startup gives the same result for the same records, in whatever order each kind of
/// them is handed over.
pub proof fn law_the_order_of_records_does_not_matter(
    a: StartupRecords,
    b: StartupRecords,
    config: StartupRecoveryConfig,
    done: StartupReconciliation,
)
    requires
        records_rearranged(a, b),
        reconcile_fault(a, config) is None,
    ensures
        reconcile_fault(b, config) is None,
        reconciled(done, a, config) <==> reconciled(done, b, config),
{
    let (s, t) = (a.snapshot, b.snapshot);
    lemma_same_records(a, b, config);
    lemma_rearranged(s.tasks@, t.tasks@);
    lemma_same_owners(s.tasks@, t.tasks@);
    lemma_same_owners(a.journals@, b.journals@);
    lemma_same_owners(a.admissions@, b.admissions@);
    lemma_same_owners(s.stopped_results@, t.stopped_results@);
    lemma_same_owners(s.host_key_challenges@, t.host_key_challenges@);
    lemma_same_owners(s.journal_installs@, t.journal_installs@);
    let now = config.now_wall_unix_ms;
    lemma_update_at_most(s.tasks@, t.tasks@, now);
    lemma_update_at_most(t.tasks@, s.tasks@, now);
    let floor = latest_update(s.tasks@, now);
    lemma_completion_at_most(s.stopped_results@, t.stopped_results@, floor);
    lemma_completion_at_most(t.stopped_results@, s.stopped_results@, floor);
    assert(repair_time(s, now) == repair_time(t, now));
    assert forall|k: int| 0 <= k < s.tasks.len() implies #[trigger] ranked_plan(a, config, k) == ranked_plan(
        b,
        config,
        k,
    ) by {
        lemma_same_rank(a, b, k);
        let gid = ranked_task(a, k).gid;
        assert(record_of(a.journals@, gid) == record_of(b.journals@, gid));
        assert(record_of(a.admissions@, gid) == record_of(b.admissions@, gid));
        assert(record_of(s.stopped_results@, gid) == record_of(t.stopped_results@, gid));
        assert(record_of(s.host_key_challenges@, gid) == record_of(t.host_key_challenges@, gid));
        assert(record_of(s.journal_installs@, gid) == record_of(t.journal_installs@, gid));
        assert(ranked_inputs(a, k) == ranked_inputs(b, k));
    }
    lemma_same_plan_fault(a, b, config, 0);
    assert(plans(a, config) =~= plans(b, config));
    lemma_absent_same(owners(s.stopped_results@), owners(s.tasks@), owners(t.stopped_results@), owners(t.tasks@));
    lemma_absent_same(
        owners(s.host_key_challenges@),
        owners(s.tasks@),
        owners(t.host_key_challenges@),
        owners(t.tasks@),
    );
    lemma_absent_same(owners(a.admissions@), owners(s.tasks@), owners(b.admissions@), owners(t.tasks@));
    assert(leftover_fault(b) is None);
    lemma_same_queues(s.tasks@, t.tasks@);
}

} // verus!
