//! Reconciliation of all durable authorities at startup.
use vstd::prelude::*;
use crate::credentials::{
    admits, derivation_fault, derive_credential_admissions, CredentialDerivationError, DerivedCredentialAdmission,
    SessionLimits,
};
use crate::index::{KeyMap, KeySet};
use crate::order::{key_order, lemma_sorted_keys, sort_keys, sorted_keys, OrderKey};
use crate::probe_targets::{NoSpaceProbeTargetCatalog, NoSpaceProbeTargetEntry};
use crate::queues::{
    apply_queue_moves, build_scheduler_queues, class_of_state, collect_persisted_queues, orders_by_slot, same_queues,
    find_queue_gap, first_blocked_move, move_applies, moves_apply, persisted_queues, queue_gap, queue_views,
    queues_after, restored_queues, restores, state_at, transition_of, slot, QueueMembership, QueueRepairCandidate,
    QUEUE_COUNT,
};
use crate::session::{
    Gid, JournalInstallIntent, JournalInstallPhase, RecoveredSchedulerTask, RecoveredTaskJournal,
    SchedulerRestoreBatch, SessionHostKeyChallengeRecord, SessionQueueTransition, SessionStartupSnapshot,
    SessionStoppedResultRecord, SessionTaskRecord, SessionTaskSourceSet, SessionTerminalStatus, TaskId,
};
use crate::startup::{
    plan_task, task_plan, DeferredAppenderRecovery, DeferredJournalInstallRecovery, RecoveredEngineTask,
    SessionAuthorityRepair, StartupRecoveryError, TaskInputs, TaskPlan, TerminalRepairCandidate,
};

verus! {

/// Records that belong to one task.
pub trait Owned: Sized {
    spec fn owner(&self) -> Gid;

    fn owner_gid(&self) -> (r: Gid)
        ensures
            r == self.owner(),
    ;
}

impl Owned for SessionTaskRecord {
    open spec fn owner(&self) -> Gid {
        self.gid
    }

    fn owner_gid(&self) -> (r: Gid) {
        self.gid
    }
}

impl Owned for RecoveredTaskJournal {
    open spec fn owner(&self) -> Gid {
        self.gid
    }

    fn owner_gid(&self) -> (r: Gid) {
        self.gid
    }
}

impl Owned for SessionStoppedResultRecord {
    open spec fn owner(&self) -> Gid {
        self.gid
    }

    fn owner_gid(&self) -> (r: Gid) {
        self.gid
    }
}

impl Owned for SessionHostKeyChallengeRecord {
    open spec fn owner(&self) -> Gid {
        self.gid
    }

    fn owner_gid(&self) -> (r: Gid) {
        self.gid
    }
}

impl Owned for JournalInstallIntent {
    open spec fn owner(&self) -> Gid {
        self.gid
    }

    fn owner_gid(&self) -> (r: Gid) {
        self.gid
    }
}

impl Owned for SessionTaskSourceSet {
    open spec fn owner(&self) -> Gid {
        self.gid
    }

    fn owner_gid(&self) -> (r: Gid) {
        self.gid
    }
}

impl Owned for DerivedCredentialAdmission {
    open spec fn owner(&self) -> Gid {
        self.gid
    }

    fn owner_gid(&self) -> (r: Gid) {
        self.gid
    }
}

/// The owners of a record sequence.
pub open spec fn owners<T: Owned>(records: Seq<T>) -> Seq<Gid> {
    records.map_values(|t: T| t.owner())
}

/// The owners of a record vector.
pub fn owner_list<T: Owned>(records: &Vec<T>) -> (gids: Vec<Gid>)
    ensures
        gids@ == owners(records@),
{
    let mut gids: Vec<Gid> = Vec::new();
    let mut i: usize = 0;
    while i < records.len()
        invariant
            i <= records.len(),
            gids.len() == i,
            forall|k: int| 0 <= k < i ==> gids[k] == (#[trigger] records[k]).owner(),
        decreases records.len() - i,
    {
        gids.push(records[i].owner_gid());
        i = i + 1;
    }
    assert(gids@ =~= owners(records@));
    gids
}

/// The first GID at or after `from` that stands earlier too.
pub open spec fn duplicate_from(gids: Seq<Gid>, from: int) -> Option<Gid>
    decreases gids.len() - from,
{
    if from < 0 || from >= gids.len() {
        None
    } else if gids.take(from).contains(gids[from]) {
        Some(gids[from])
    } else {
        duplicate_from(gids, from + 1)
    }
}

/// The first GID that repeats an earlier one.
pub open spec fn first_duplicate(gids: Seq<Gid>) -> Option<Gid> {
    duplicate_from(gids, 0)
}

/// Whether `map` finds every GID of `gids` at its place and no other.
pub open spec fn indexes(map: Map<u128, usize>, gids: Seq<Gid>) -> bool {
    &&& forall|g: Gid| #[trigger] map.contains_key(g.0 as u128) <==> gids.contains(g)
    &&& forall|i: int| 0 <= i < gids.len() ==> map[(#[trigger] gids[i]).0 as u128] == i
}

/// Indexes distinct GIDs, or reports the first repeated one.
pub fn index_gids(gids: &Vec<Gid>) -> (r: Result<KeyMap, Gid>)
    ensures
        r is Err <==> first_duplicate(gids@) is Some,
        r matches Err(gid) ==> first_duplicate(gids@) == Some(gid),
        r matches Ok(map) ==> gids@.no_duplicates() && indexes(map@, gids@),
{
    let mut map = KeyMap::new();
    let mut i: usize = 0;
    while i < gids.len()
        invariant
            i <= gids.len(),
            first_duplicate(gids@) == duplicate_from(gids@, i as int),
            forall|g: Gid| #[trigger] map@.contains_key(g.0 as u128) <==> gids@.take(i as int).contains(g),
            forall|k: int| 0 <= k < i ==> map@[(#[trigger] gids[k]).0 as u128] == k,
            forall|a: int, b: int| 0 <= a < b < i ==> gids[a] != gids[b],
        decreases gids.len() - i,
    {
        let gid = gids[i];
        let ghost seen = gids@.take(i as int);
        assert(gids@.take(i as int + 1) =~= seen.push(gid));
        if !map.insert(gid.0 as u128, i) {
            assert(seen.contains(gid));
            return Err(gid);
        }
        proof {
            assert(!seen.contains(gid));
            assert forall|a: int| 0 <= a < i implies gids[a] != gid by {
                assert(seen[a] == gids[a]);
            }
            assert forall|g: Gid| #[trigger] map@.contains_key(g.0 as u128) <==> gids@.take(
                i as int + 1,
            ).contains(g) by {
                let now = seen.push(gid);
                if g == gid {
                    assert(now[i as int] == gid);
                } else if seen.contains(g) {
                    let k = seen.index_of(g);
                    assert(now[k] == g);
                } else if now.contains(g) {
                    let k = now.index_of(g);
                    assert(k < i);
                    assert(seen[k] == g);
                }
            }
        }
        i = i + 1;
    }
    assert(gids@.take(i as int) =~= gids@);
    Ok(map)
}

/// The record of `gid`, if there is one.
pub open spec fn record_of<T: Owned>(records: Seq<T>, gid: Gid) -> Option<T> {
    if owners(records).contains(gid) {
        Some(records[owners(records).index_of(gid)])
    } else {
        None
    }
}

/// The smaller of two optional GIDs.
pub open spec fn smaller(a: Option<Gid>, b: Gid) -> Gid {
    match a {
        Some(g) => if g.0 <= b.0 {
            g
        } else {
            b
        },
        None => b,
    }
}

/// The smallest GID of `gids` that is not in `present`.
pub open spec fn least_absent(gids: Seq<Gid>, present: Seq<Gid>) -> Option<Gid>
    decreases gids.len(),
{
    if gids.len() == 0 {
        None
    } else {
        let rest = least_absent(gids.drop_last(), present);
        if present.contains(gids.last()) {
            rest
        } else {
            Some(smaller(rest, gids.last()))
        }
    }
}

pub(crate) fn find_least_absent(gids: &Vec<Gid>, present: &KeyMap, Ghost(known): Ghost<Seq<Gid>>) -> (r: Option<Gid>)
    requires
        indexes(present@, known),
    ensures
        r == least_absent(gids@, known),
{
    let mut least: Option<Gid> = None;
    let mut i: usize = 0;
    while i < gids.len()
        invariant
            i <= gids.len(),
            indexes(present@, known),
            least == least_absent(gids@.take(i as int), known),
        decreases gids.len() - i,
    {
        let gid = gids[i];
        assert(gids@.take(i as int + 1).drop_last() =~= gids@.take(i as int));
        assert(present@.contains_key(gid.0 as u128) <==> known.contains(gid));
        if present.get(gid.0 as u128).is_none() {
            least = match least {
                Some(g) => if g.0 <= gid.0 {
                    Some(g)
                } else {
                    Some(gid)
                },
                None => Some(gid),
            };
        }
        i = i + 1;
    }
    assert(gids@.take(i as int) =~= gids@);
    least
}

/// The smallest GID among tasks of another session.
pub open spec fn least_foreign(tasks: Seq<SessionTaskRecord>, session: crate::session::SessionId) -> Option<Gid>
    decreases tasks.len(),
{
    if tasks.len() == 0 {
        None
    } else {
        let rest = least_foreign(tasks.drop_last(), session);
        if tasks.last().session_id == session {
            rest
        } else {
            Some(smaller(rest, tasks.last().gid))
        }
    }
}

fn find_least_foreign(tasks: &Vec<SessionTaskRecord>, session: crate::session::SessionId) -> (r: Option<Gid>)
    ensures
        r == least_foreign(tasks@, session),
{
    let mut least: Option<Gid> = None;
    let mut i: usize = 0;
    while i < tasks.len()
        invariant
            i <= tasks.len(),
            least == least_foreign(tasks@.take(i as int), session),
        decreases tasks.len() - i,
    {
        assert(tasks@.take(i as int + 1).drop_last() =~= tasks@.take(i as int));
        let gid = tasks[i].gid;
        if tasks[i].session_id != session {
            least = match least {
                Some(g) => if g.0 <= gid.0 {
                    Some(g)
                } else {
                    Some(gid)
                },
                None => Some(gid),
            };
        }
        i = i + 1;
    }
    assert(tasks@.take(i as int) =~= tasks@);
    least
}

/// The first journal from `from` on that repeats an identity of an earlier one.
pub open spec fn journal_fault_from(journals: Seq<RecoveredTaskJournal>, from: int) -> Option<StartupRecoveryError>
    decreases journals.len() - from,
{
    if from < 0 || from >= journals.len() {
        None
    } else {
        let journal = journals[from];
        if exists|k: int| 0 <= k < from && (#[trigger] journals[k]).journal_id == journal.journal_id {
            Some(StartupRecoveryError::DuplicateJournalId(journal.journal_id))
        } else if exists|k: int| 0 <= k < from && (#[trigger] journals[k]).state.task == journal.state.task {
            Some(StartupRecoveryError::DuplicatePersistedTaskId(journal.state.task))
        } else if exists|k: int| 0 <= k < from && (#[trigger] journals[k]).gid == journal.gid {
            Some(StartupRecoveryError::DuplicateJournalGid(journal.gid))
        } else {
            journal_fault_from(journals, from + 1)
        }
    }
}

/// Indexes the journals, or reports the first repeated identity.
pub fn index_journals(journals: &Vec<RecoveredTaskJournal>) -> (r: Result<KeyMap, StartupRecoveryError>)
    ensures
        r is Err <==> journal_fault_from(journals@, 0) is Some,
        r matches Err(error) ==> journal_fault_from(journals@, 0) == Some(error),
        r matches Ok(map) ==> owners(journals@).no_duplicates() && indexes(map@, owners(journals@)),
{
    let mut ids = KeySet::new();
    let mut tasks = KeySet::new();
    let mut map = KeyMap::new();
    let mut i: usize = 0;
    while i < journals.len()
        invariant
            i <= journals.len(),
            journal_fault_from(journals@, 0) == journal_fault_from(journals@, i as int),
            forall|v: u128| #[trigger] ids@.contains(v) <==> exists|k: int| 0 <= k < i && (#[trigger] journals[k]).journal_id.0 == v,
            forall|v: u128| #[trigger] tasks@.contains(v) <==> exists|k: int| 0 <= k < i && (#[trigger] journals[k]).state.task.0 == v,
            forall|v: u128| #[trigger] map@.contains_key(v) <==> exists|k: int| 0 <= k < i && (#[trigger] journals[k]).gid.0 == v,
            forall|k: int| 0 <= k < i ==> map@[(#[trigger] journals[k]).gid.0 as u128] == k,
            forall|a: int, b: int| 0 <= a < b < i ==> (#[trigger] journals[a]).gid != (#[trigger] journals[b]).gid,
        decreases journals.len() - i,
    {
        let journal = &journals[i];
        let ghost before_ids = ids@;
        let ghost before_tasks = tasks@;
        let ghost before_map = map@;
        if !ids.insert(journal.journal_id.0) {
            assert(before_ids.contains(journal.journal_id.0));
            return Err(StartupRecoveryError::DuplicateJournalId(journal.journal_id));
        }
        assert(!before_ids.contains(journal.journal_id.0));
        assert(forall|k: int| 0 <= k < i ==> (#[trigger] journals[k]).journal_id != journal.journal_id);
        if !tasks.insert(journal.state.task.0 as u128) {
            assert(before_tasks.contains(journal.state.task.0 as u128));
            return Err(StartupRecoveryError::DuplicatePersistedTaskId(journal.state.task));
        }
        assert(!before_tasks.contains(journal.state.task.0 as u128));
        assert(forall|k: int| 0 <= k < i ==> (#[trigger] journals[k]).state.task != journal.state.task);
        if !map.insert(journal.gid.0 as u128, i) {
            assert(before_map.contains_key(journal.gid.0 as u128));
            return Err(StartupRecoveryError::DuplicateJournalGid(journal.gid));
        }
        assert(!before_map.contains_key(journal.gid.0 as u128));
        proof {
            assert forall|k: int| 0 <= k < i implies (#[trigger] journals[k]).gid != journal.gid by {
                assert(before_map.contains_key(journals[k].gid.0 as u128));
            }
            assert forall|v: u128| #[trigger] ids@.contains(v) <==> exists|k: int| 0 <= k < i + 1 && (#[trigger] journals[k]).journal_id.0 == v by {
                if v == journal.journal_id.0 {
                    assert(journals[i as int].journal_id.0 == v);
                } else if before_ids.contains(v) {
                    let k = choose|k: int| 0 <= k < i && (#[trigger] journals[k]).journal_id.0 == v;
                    assert(journals[k].journal_id.0 == v);
                }
            }
            assert forall|v: u128| #[trigger] tasks@.contains(v) <==> exists|k: int| 0 <= k < i + 1 && (#[trigger] journals[k]).state.task.0 == v by {
                if v == journal.state.task.0 {
                    assert(journals[i as int].state.task.0 == v);
                } else if before_tasks.contains(v) {
                    let k = choose|k: int| 0 <= k < i && (#[trigger] journals[k]).state.task.0 == v;
                    assert(journals[k].state.task.0 == v);
                }
            }
            assert forall|v: u128| #[trigger] map@.contains_key(v) <==> exists|k: int| 0 <= k < i + 1 && (#[trigger] journals[k]).gid.0 == v by {
                if v == journal.gid.0 {
                    assert(journals[i as int].gid.0 == v);
                } else if before_map.contains_key(v) {
                    let k = choose|k: int| 0 <= k < i && (#[trigger] journals[k]).gid.0 == v;
                    assert(journals[k].gid.0 == v);
                }
            }
        }
        i = i + 1;
    }
    proof {
        let gids = owners(journals@);
        assert forall|g: Gid| #[trigger] map@.contains_key(g.0 as u128) <==> gids.contains(g) by {
            if map@.contains_key(g.0 as u128) {
                let k = choose|k: int| 0 <= k < i && (#[trigger] journals[k]).gid.0 == g.0 as u128;
                assert(gids[k] == g);
            }
            if gids.contains(g) {
                let k = gids.index_of(g);
                assert(journals[k].gid == g);
            }
        }
        assert forall|k: int| 0 <= k < gids.len() implies map@[(#[trigger] gids[k]).0 as u128] == k by {
            assert(journals[k].gid == gids[k]);
        }
        assert(gids.no_duplicates()) by {
            assert forall|a: int, b: int| 0 <= a < gids.len() && 0 <= b < gids.len() && a != b implies gids[a] != gids[b] by {
                assert(journals[a].gid != journals[b].gid);
            }
        }
    }
    Ok(map)
}

/// Whether an intent reuses an identity or a path that something else holds.
pub open spec fn install_conflict(
    tasks: Seq<SessionTaskRecord>,
    journals: Seq<RecoveredTaskJournal>,
    installs: Seq<JournalInstallIntent>,
    index: int,
) -> bool {
    let intent = installs[index];
    ||| intent.source_last_sequence == 0
    ||| intent.old_journal_id == intent.new_journal_id
    ||| intent.old_path.text@ == intent.new_path.text@
    ||| exists|k: int|
        0 <= k < index && ((#[trigger] installs[k]).checkpoint_id == intent.checkpoint_id
            || installs[k].new_journal_id == intent.new_journal_id || installs[k].new_path.text@
            == intent.new_path.text@)
    ||| exists|k: int|
        0 <= k < journals.len() && (#[trigger] journals[k]).gid != intent.gid && (
        journals[k].journal_id == intent.old_journal_id || journals[k].journal_id
            == intent.new_journal_id)
    ||| exists|k: int|
        0 <= k < tasks.len() && (#[trigger] tasks[k]).gid != intent.gid
            && tasks[k].primary_journal_path.text@ == intent.new_path.text@
}

/// Whether the task row and its journal stand where the phase says: on the old
/// set while installing, on the new set once installed.
pub open spec fn install_matches(
    task: SessionTaskRecord,
    journal: RecoveredTaskJournal,
    intent: JournalInstallIntent,
) -> bool {
    match intent.phase {
        JournalInstallPhase::Installing => {
            &&& task.primary_journal_id == intent.old_journal_id
            &&& task.primary_journal_path.text@ == intent.old_path.text@
            &&& journal.journal_id == intent.old_journal_id
        },
        JournalInstallPhase::Installed => {
            &&& task.primary_journal_id == intent.new_journal_id
            &&& task.primary_journal_path.text@ == intent.new_path.text@
            &&& journal.journal_id == intent.new_journal_id
        },
    }
}

/// Why an intent is not backed by the recovered prefix, if it is not.
pub open spec fn install_evidence_fault(
    journal: RecoveredTaskJournal,
    intent: JournalInstallIntent,
) -> Option<StartupRecoveryError> {
    match intent.phase {
        JournalInstallPhase::Installing => if intent.source_last_sequence
            > journal.state.last_sequence {
            Some(StartupRecoveryError::JournalInstallSourceAhead(intent.gid))
        } else {
            None
        },
        JournalInstallPhase::Installed => match journal.state.checkpoint {
            Some(checkpoint) => if checkpoint.checkpoint_id == intent.checkpoint_id
                && checkpoint.source_last_sequence == intent.source_last_sequence {
                None
            } else {
                Some(StartupRecoveryError::InstalledCheckpointMismatch(intent.gid))
            },
            None => Some(StartupRecoveryError::InstalledCheckpointMismatch(intent.gid)),
        },
    }
}

/// Why intent `index` is refused, if it is.
pub open spec fn install_fault(
    tasks: Seq<SessionTaskRecord>,
    journals: Seq<RecoveredTaskJournal>,
    installs: Seq<JournalInstallIntent>,
    index: int,
) -> Option<StartupRecoveryError> {
    let intent = installs[index];
    let task = record_of(tasks, intent.gid);
    let journal = record_of(journals, intent.gid);
    if exists|k: int| 0 <= k < index && (#[trigger] installs[k]).gid == intent.gid {
        Some(StartupRecoveryError::DuplicateJournalInstall(intent.gid))
    } else if task is None || journal is None {
        Some(StartupRecoveryError::JournalInstallMismatch(intent.gid))
    } else if install_conflict(tasks, journals, installs, index) {
        Some(StartupRecoveryError::JournalInstallIdentityConflict(intent.gid))
    } else if !install_matches(task->0, journal->0, intent) {
        Some(StartupRecoveryError::JournalInstallMismatch(intent.gid))
    } else {
        install_evidence_fault(journal->0, intent)
    }
}

/// The first refusal among the intents from `from` on.
pub open spec fn installs_fault_from(
    tasks: Seq<SessionTaskRecord>,
    journals: Seq<RecoveredTaskJournal>,
    installs: Seq<JournalInstallIntent>,
    from: int,
) -> Option<StartupRecoveryError>
    decreases installs.len() - from,
{
    if from < 0 || from >= installs.len() {
        None
    } else if install_fault(tasks, journals, installs, from) is Some {
        install_fault(tasks, journals, installs, from)
    } else {
        installs_fault_from(tasks, journals, installs, from + 1)
    }
}

fn has_install_conflict(
    tasks: &Vec<SessionTaskRecord>,
    journals: &Vec<RecoveredTaskJournal>,
    installs: &Vec<JournalInstallIntent>,
    index: usize,
) -> (r: bool)
    requires
        index < installs.len(),
    ensures
        r == install_conflict(tasks@, journals@, installs@, index as int),
{
    let intent = &installs[index];
    if intent.source_last_sequence == 0 || intent.old_journal_id == intent.new_journal_id
        || intent.old_path.same(&intent.new_path) {
        return true;
    }
    let mut k: usize = 0;
    while k < index
        invariant
            k <= index < installs.len(),
            *intent == installs[index as int],
            forall|j: int|
                0 <= j < k ==> (#[trigger] installs[j]).checkpoint_id != intent.checkpoint_id
                    && installs[j].new_journal_id != intent.new_journal_id && installs[j].new_path.text@
                    != intent.new_path.text@,
        decreases index - k,
    {
        let earlier = &installs[k];
        if earlier.checkpoint_id == intent.checkpoint_id || earlier.new_journal_id
            == intent.new_journal_id || earlier.new_path.same(&intent.new_path) {
            assert(installs[k as int].checkpoint_id == intent.checkpoint_id
                || installs[k as int].new_journal_id == intent.new_journal_id
                || installs[k as int].new_path.text@ == intent.new_path.text@);
            return true;
        }
        k = k + 1;
    }
    let mut k: usize = 0;
    while k < journals.len()
        invariant
            k <= journals.len(),
            index < installs.len(),
            *intent == installs[index as int],
            forall|j: int|
                0 <= j < k ==> (#[trigger] journals[j]).gid == intent.gid || (journals[j].journal_id
                    != intent.old_journal_id && journals[j].journal_id != intent.new_journal_id),
        decreases journals.len() - k,
    {
        let journal = &journals[k];
        if journal.gid != intent.gid && (journal.journal_id == intent.old_journal_id
            || journal.journal_id == intent.new_journal_id) {
            assert(journals[k as int].gid != intent.gid);
            return true;
        }
        k = k + 1;
    }
    let mut k: usize = 0;
    while k < tasks.len()
        invariant
            k <= tasks.len(),
            index < installs.len(),
            *intent == installs[index as int],
            forall|j: int|
                0 <= j < k ==> (#[trigger] tasks[j]).gid == intent.gid
                    || tasks[j].primary_journal_path.text@ != intent.new_path.text@,
        decreases tasks.len() - k,
    {
        let task = &tasks[k];
        if task.gid != intent.gid && task.primary_journal_path.same(&intent.new_path) {
            assert(tasks[k as int].gid != intent.gid);
            return true;
        }
        k = k + 1;
    }
    false
}

/// An index leads to the record of a GID.
pub(crate) proof fn lemma_indexed_record<T: Owned>(map: Map<u128, usize>, records: Seq<T>, gid: Gid)
    requires
        indexes(map, owners(records)),
        owners(records).no_duplicates(),
        map.contains_key(gid.0 as u128),
    ensures
        map[gid.0 as u128] < records.len(),
        record_of(records, gid) == Some(records[map[gid.0 as u128] as int]),
        records[map[gid.0 as u128] as int].owner() == gid,
{
    let gids = owners(records);
    assert(gids.contains(gid));
    let k = gids.index_of(gid);
    assert(gids[k] == gid);
    assert(records[k].owner() == gid);
}

/// Checks every journal replacement against the rows and journals it names.
pub fn validate_installs(
    tasks: &Vec<SessionTaskRecord>,
    task_index: &KeyMap,
    journals: &Vec<RecoveredTaskJournal>,
    journal_index: &KeyMap,
    installs: &Vec<JournalInstallIntent>,
) -> (r: Option<StartupRecoveryError>)
    requires
        owners(tasks@).no_duplicates(),
        indexes(task_index@, owners(tasks@)),
        owners(journals@).no_duplicates(),
        indexes(journal_index@, owners(journals@)),
    ensures
        r == installs_fault_from(tasks@, journals@, installs@, 0),
        r is None ==> owners(installs@).no_duplicates(),
{
    let mut i: usize = 0;
    while i < installs.len()
        invariant
            i <= installs.len(),
            owners(tasks@).no_duplicates(),
            indexes(task_index@, owners(tasks@)),
            owners(journals@).no_duplicates(),
            indexes(journal_index@, owners(journals@)),
            installs_fault_from(tasks@, journals@, installs@, 0) == installs_fault_from(
                tasks@,
                journals@,
                installs@,
                i as int,
            ),
            forall|a: int, b: int| 0 <= a < b < i ==> (#[trigger] installs[a]).gid != (#[trigger] installs[b]).gid,
        decreases installs.len() - i,
    {
        let intent = &installs[i];
        let ghost fault = install_fault(tasks@, journals@, installs@, i as int);
        let mut k: usize = 0;
        while k < i
            invariant
                k <= i < installs.len(),
                *intent == installs[i as int],
                forall|j: int| 0 <= j < k ==> (#[trigger] installs[j]).gid != intent.gid,
                fault == install_fault(tasks@, journals@, installs@, i as int),
                installs_fault_from(tasks@, journals@, installs@, 0) == installs_fault_from(
                    tasks@,
                    journals@,
                    installs@,
                    i as int,
                ),
            decreases i - k,
        {
            if installs[k].gid == intent.gid {
                assert(installs[k as int].gid == intent.gid);
                assert(fault == Some(StartupRecoveryError::DuplicateJournalInstall(intent.gid)));
                return Some(StartupRecoveryError::DuplicateJournalInstall(intent.gid));
            }
            k = k + 1;
        }
        let found = (task_index.get(intent.gid.0 as u128), journal_index.get(intent.gid.0 as u128));
        let (task, journal) = match found {
            (Some(t), Some(j)) => {
                proof {
                    lemma_indexed_record(task_index@, tasks@, intent.gid);
                    lemma_indexed_record(journal_index@, journals@, intent.gid);
                }
                (&tasks[t], &journals[j])
            },
            _ => {
                assert(fault == Some(StartupRecoveryError::JournalInstallMismatch(intent.gid)));
                return Some(StartupRecoveryError::JournalInstallMismatch(intent.gid));
            },
        };
        if has_install_conflict(tasks, journals, installs, i) {
            return Some(StartupRecoveryError::JournalInstallIdentityConflict(intent.gid));
        }
        let matched = match intent.phase {
            JournalInstallPhase::Installing => task.primary_journal_id == intent.old_journal_id
                && task.primary_journal_path.same(&intent.old_path) && journal.journal_id
                == intent.old_journal_id,
            JournalInstallPhase::Installed => task.primary_journal_id == intent.new_journal_id
                && task.primary_journal_path.same(&intent.new_path) && journal.journal_id
                == intent.new_journal_id,
        };
        if !matched {
            return Some(StartupRecoveryError::JournalInstallMismatch(intent.gid));
        }
        match intent.phase {
            JournalInstallPhase::Installing => {
                if intent.source_last_sequence > journal.state.last_sequence {
                    return Some(StartupRecoveryError::JournalInstallSourceAhead(intent.gid));
                }
            },
            JournalInstallPhase::Installed => match journal.state.checkpoint {
                Some(checkpoint) => {
                    if checkpoint.checkpoint_id != intent.checkpoint_id
                        || checkpoint.source_last_sequence != intent.source_last_sequence {
                        return Some(StartupRecoveryError::InstalledCheckpointMismatch(intent.gid));
                    }
                },
                None => return Some(StartupRecoveryError::InstalledCheckpointMismatch(intent.gid)),
            },
        }
        assert(fault is None);
        i = i + 1;
    }
    assert(owners(installs@).no_duplicates()) by {
        let gids = owners(installs@);
        assert forall|a: int, b: int|
            0 <= a < gids.len() && 0 <= b < gids.len() && a != b implies gids[a] != gids[b] by {
            assert(installs[a].gid != installs[b].gid);
        }
    }
    None
}

/// Bounds of the restored scheduler.
#[derive(Clone, Copy, Debug, PartialEq, Eq, Structural)]
pub struct SchedulerConfig {
    pub max_tasks: usize,
    pub max_active: usize,
}

/// Fixed scheduler and clock bounds applied to one startup batch.
#[derive(Clone, Copy, Debug, PartialEq, Eq, Structural)]
pub struct StartupRecoveryConfig {
    pub scheduler: SchedulerConfig,
    pub now_wall_unix_ms: u64,
}

/// One directly executable store repair authorized by journal completion evidence.
#[derive(Clone, Debug, PartialEq, Eq)]
pub struct DeferredTerminalSessionRepair {
    pub result: SessionStoppedResultRecord,
    pub transition: SessionQueueTransition,
}

/// Pure output produced before the scheduler is constructed.
///
/// `queue_session_repairs` must be durably applied in order before
/// `terminal_session_repairs`, followed by `authority_repairs`; neither
/// scheduler effects nor snapshots may be published before every repair and
/// all native recovery work succeed.
#[derive(Debug, PartialEq, Eq)]
pub struct StartupReconciliation {
    pub scheduler_batch: SchedulerRestoreBatch,
    pub tasks: Vec<RecoveredEngineTask>,
    pub authority_repairs: Vec<SessionAuthorityRepair>,
    pub appender_recoveries: Vec<DeferredAppenderRecovery>,
    pub journal_install_recoveries: Vec<DeferredJournalInstallRecovery>,
    pub no_space_probe_targets: NoSpaceProbeTargetCatalog,
    pub queue_session_repairs: Vec<SessionQueueTransition>,
    pub terminal_session_repairs: Vec<DeferredTerminalSessionRepair>,
}

/// The durable records that startup reconciles.
pub struct StartupRecords {
    pub snapshot: SessionStartupSnapshot,
    pub journals: Vec<RecoveredTaskJournal>,
    pub admissions: Vec<DerivedCredentialAdmission>,
}

/// The latest update time among tasks, at least `floor`.
pub open spec fn latest_update(tasks: Seq<SessionTaskRecord>, floor: u64) -> u64
    decreases tasks.len(),
{
    if tasks.len() == 0 {
        floor
    } else {
        let rest = latest_update(tasks.drop_last(), floor);
        if tasks.last().updated_ms > rest {
            tasks.last().updated_ms
        } else {
            rest
        }
    }
}

/// The latest completion time among stored results, at least `floor`.
pub open spec fn latest_completion(results: Seq<SessionStoppedResultRecord>, floor: u64) -> u64
    decreases results.len(),
{
    if results.len() == 0 {
        floor
    } else {
        let rest = latest_completion(results.drop_last(), floor);
        if results.last().completed_ms > rest {
            results.last().completed_ms
        } else {
            rest
        }
    }
}

/// The time stamp of every repair: no earlier than now nor than any stored time.
pub open spec fn repair_time(snapshot: SessionStartupSnapshot, now: u64) -> u64 {
    latest_completion(snapshot.stopped_results@, latest_update(snapshot.tasks@, now))
}

fn find_repair_time(snapshot: &SessionStartupSnapshot, now: u64) -> (r: u64)
    ensures
        r == repair_time(*snapshot, now),
{
    let mut latest = now;
    let mut i: usize = 0;
    while i < snapshot.tasks.len()
        invariant
            i <= snapshot.tasks.len(),
            latest == latest_update(snapshot.tasks@.take(i as int), now),
        decreases snapshot.tasks.len() - i,
    {
        assert(snapshot.tasks@.take(i as int + 1).drop_last() =~= snapshot.tasks@.take(i as int));
        if snapshot.tasks[i].updated_ms > latest {
            latest = snapshot.tasks[i].updated_ms;
        }
        i = i + 1;
    }
    assert(snapshot.tasks@.take(i as int) =~= snapshot.tasks@);
    let floor = latest;
    let mut i: usize = 0;
    while i < snapshot.stopped_results.len()
        invariant
            i <= snapshot.stopped_results.len(),
            floor == latest_update(snapshot.tasks@, now),
            latest == latest_completion(snapshot.stopped_results@.take(i as int), floor),
        decreases snapshot.stopped_results.len() - i,
    {
        assert(snapshot.stopped_results@.take(i as int + 1).drop_last()
            =~= snapshot.stopped_results@.take(i as int));
        if snapshot.stopped_results[i].completed_ms > latest {
            latest = snapshot.stopped_results[i].completed_ms;
        }
        i = i + 1;
    }
    assert(snapshot.stopped_results@.take(i as int) =~= snapshot.stopped_results@);
    latest
}

/// Sort keys of tasks by GID; `id` is the place in the snapshot.
pub open spec fn gid_keys(gids: Seq<Gid>) -> Seq<OrderKey> {
    Seq::new(gids.len(), |i: int| OrderKey { rank: 0, position: gids[i].0, id: i as u64 })
}

/// The places of the tasks in ascending GID order.
pub open spec fn gid_order(gids: Seq<Gid>) -> Seq<OrderKey> {
    sorted_keys(gid_keys(gids))
}

/// The task that gets the `rank`-th fresh task id.
pub open spec fn ranked_task(records: StartupRecords, rank: int) -> SessionTaskRecord {
    records.snapshot.tasks[gid_order(owners(records.snapshot.tasks@))[rank].id as int]
}

/// The records of the task at `rank`.
pub open spec fn ranked_inputs(records: StartupRecords, rank: int) -> TaskInputs {
    let task = ranked_task(records, rank);
    TaskInputs {
        task,
        journal: record_of(records.journals@, task.gid)->0,
        requirement: record_of(records.admissions@, task.gid)->0.requirement,
        stopped: record_of(records.snapshot.stopped_results@, task.gid),
        challenge: record_of(records.snapshot.host_key_challenges@, task.gid),
        install: record_of(records.snapshot.journal_installs@, task.gid),
    }
}

/// The plan of the task at `rank`. Fresh task ids count up from one in GID order.
pub open spec fn ranked_plan(records: StartupRecords, config: StartupRecoveryConfig, rank: int) -> Result<
    TaskPlan,
    StartupRecoveryError,
> {
    let task = ranked_task(records, rank);
    if record_of(records.admissions@, task.gid) is None {
        Err(StartupRecoveryError::MissingCredentialAdmission(task.gid))
    } else {
        task_plan(
            ranked_inputs(records, rank),
            TaskId((rank + 1) as u64),
            repair_time(records.snapshot, config.now_wall_unix_ms),
        )
    }
}

/// The first task from `rank` on, in GID order, that cannot be planned.
pub open spec fn plan_fault_from(records: StartupRecords, config: StartupRecoveryConfig, rank: int) -> Option<
    StartupRecoveryError,
>
    decreases records.snapshot.tasks.len() - rank,
{
    if rank < 0 || rank >= records.snapshot.tasks.len() {
        None
    } else {
        match ranked_plan(records, config, rank) {
            Err(error) => Some(error),
            Ok(_) => plan_fault_from(records, config, rank + 1),
        }
    }
}

/// All plans in GID order, where every task can be planned.
pub open spec fn plans(records: StartupRecords, config: StartupRecoveryConfig) -> Seq<TaskPlan> {
    Seq::new(
        records.snapshot.tasks@.len(),
        |rank: int| ranked_plan(records, config, rank)->Ok_0,
    )
}

/// The values that are there, in order.
pub open spec fn present<T>(options: Seq<Option<T>>) -> Seq<T>
    decreases options.len(),
{
    if options.len() == 0 {
        Seq::empty()
    } else {
        let rest = present(options.drop_last());
        match options.last() {
            Some(value) => rest.push(value),
            None => rest,
        }
    }
}

/// The queue memberships of a plan sequence.
pub open spec fn plan_members(plans: Seq<TaskPlan>) -> Seq<QueueMembership> {
    plans.map_values(|p: TaskPlan| p.member)
}

/// The queue moves of live tasks.
pub open spec fn plan_moves(plans: Seq<TaskPlan>) -> Seq<QueueRepairCandidate> {
    present(plans.map_values(|p: TaskPlan| p.queue_repair))
}

/// The completions to be written.
pub open spec fn plan_completions(plans: Seq<TaskPlan>) -> Seq<TerminalRepairCandidate> {
    present(plans.map_values(|p: TaskPlan| p.terminal_repair))
}

/// The queue moves of completed tasks.
pub open spec fn completion_moves(completions: Seq<TerminalRepairCandidate>) -> Seq<QueueRepairCandidate> {
    completions.map_values(|c: TerminalRepairCandidate| c.change)
}

/// The vectors that the plans fill.
struct PlanParts {
    scheduler_tasks: Vec<RecoveredSchedulerTask>,
    engine_tasks: Vec<RecoveredEngineTask>,
    authority_repairs: Vec<SessionAuthorityRepair>,
    appender_recoveries: Vec<DeferredAppenderRecovery>,
    install_recoveries: Vec<DeferredJournalInstallRecovery>,
    targets: Vec<NoSpaceProbeTargetEntry>,
    members: Vec<QueueMembership>,
    moves: Vec<QueueRepairCandidate>,
    completions: Vec<TerminalRepairCandidate>,
}

impl PlanParts {
    spec fn hold(self, plans: Seq<TaskPlan>) -> bool {
        &&& self.scheduler_tasks@ == plans.map_values(|p: TaskPlan| p.scheduler)
        &&& self.engine_tasks@ == plans.map_values(|p: TaskPlan| p.engine)
        &&& self.authority_repairs@ == present(plans.map_values(|p: TaskPlan| p.authority))
        &&& self.appender_recoveries@ == present(plans.map_values(|p: TaskPlan| p.appender))
        &&& self.install_recoveries@ == present(plans.map_values(|p: TaskPlan| p.install))
        &&& self.targets@ == present(plans.map_values(|p: TaskPlan| p.target))
        &&& self.members@ == plan_members(plans)
        &&& self.moves@ == plan_moves(plans)
        &&& self.completions@ == plan_completions(plans)
    }

    fn new() -> (r: Self)
        ensures
            r.hold(Seq::empty()),
    {
        let r = PlanParts {
            scheduler_tasks: Vec::new(),
            engine_tasks: Vec::new(),
            authority_repairs: Vec::new(),
            appender_recoveries: Vec::new(),
            install_recoveries: Vec::new(),
            targets: Vec::new(),
            members: Vec::new(),
            moves: Vec::new(),
            completions: Vec::new(),
        };
        proof {
            let none = Seq::<TaskPlan>::empty();
            assert(none.map_values(|p: TaskPlan| p.scheduler) =~= Seq::empty());
            assert(none.map_values(|p: TaskPlan| p.engine) =~= Seq::empty());
            assert(none.map_values(|p: TaskPlan| p.authority) =~= Seq::empty());
            assert(none.map_values(|p: TaskPlan| p.appender) =~= Seq::empty());
            assert(none.map_values(|p: TaskPlan| p.install) =~= Seq::empty());
            assert(none.map_values(|p: TaskPlan| p.target) =~= Seq::empty());
            assert(none.map_values(|p: TaskPlan| p.member) =~= Seq::empty());
            assert(none.map_values(|p: TaskPlan| p.queue_repair) =~= Seq::empty());
            assert(none.map_values(|p: TaskPlan| p.terminal_repair) =~= Seq::empty());
        }
        r
    }

    fn add_plan(&mut self, plan: TaskPlan, Ghost(done): Ghost<Seq<TaskPlan>>)
        requires
            old(self).hold(done),
        ensures
            final(self).hold(done.push(plan)),
    {
        let ghost all = done.push(plan);
        let TaskPlan {
            scheduler,
            engine,
            authority,
            appender,
            install,
            target,
            member,
            queue_repair,
            terminal_repair,
        } = plan;
        self.scheduler_tasks.push(scheduler);
        self.engine_tasks.push(engine);
        if let Some(repair) = authority {
            self.authority_repairs.push(repair);
        }
        if let Some(recovery) = appender {
            self.appender_recoveries.push(recovery);
        }
        if let Some(recovery) = install {
            self.install_recoveries.push(recovery);
        }
        if let Some(entry) = target {
            self.targets.push(entry);
        }
        self.members.push(member);
        if let Some(change) = queue_repair {
            self.moves.push(change);
        }
        if let Some(completion) = terminal_repair {
            self.completions.push(completion);
        }
        proof {
            lemma_mapped_push(done, plan, |p: TaskPlan| p.scheduler);
            lemma_mapped_push(done, plan, |p: TaskPlan| p.engine);
            lemma_mapped_push(done, plan, |p: TaskPlan| p.authority);
            lemma_mapped_push(done, plan, |p: TaskPlan| p.appender);
            lemma_mapped_push(done, plan, |p: TaskPlan| p.install);
            lemma_mapped_push(done, plan, |p: TaskPlan| p.target);
            lemma_mapped_push(done, plan, |p: TaskPlan| p.member);
            lemma_mapped_push(done, plan, |p: TaskPlan| p.queue_repair);
            lemma_mapped_push(done, plan, |p: TaskPlan| p.terminal_repair);
        }
    }
}

/// Mapping a longer sequence appends one value.
proof fn lemma_mapped_push<A, B>(s: Seq<A>, a: A, f: spec_fn(A) -> B)
    ensures
        s.push(a).map_values(f) == s.map_values(f).push(f(a)),
        s.push(a).map_values(f).drop_last() == s.map_values(f),
        s.push(a).map_values(f).last() == f(a),
{
    assert(s.push(a).map_values(f) =~= s.map_values(f).push(f(a)));
    assert(s.push(a).map_values(f).drop_last() =~= s.map_values(f));
}

/// Records that can each be taken out once.
fn into_slots<T>(records: Vec<T>) -> (slots: Vec<Option<T>>)
    ensures
        slots.len() == records.len(),
        forall|i: int| 0 <= i < records.len() ==> slots[i] == Some(#[trigger] records[i]),
{
    let ghost given = records@;
    let mut rest = records;
    let mut reversed: Vec<Option<T>> = Vec::new();
    while rest.len() > 0
        invariant
            rest@ == given.take(rest.len() as int),
            rest.len() + reversed.len() == given.len(),
            forall|i: int|
                0 <= i < reversed.len() ==> #[trigger] reversed[i] == Some(given[given.len() - 1 - i]),
        decreases rest.len(),
    {
        let record = rest.pop();
        proof {
            assert(record == Some(given[rest.len() as int]));
            assert(rest@ =~= given.take(rest.len() as int));
        }
        reversed.push(record);
    }
    let mut slots: Vec<Option<T>> = Vec::new();
    while reversed.len() > 0
        invariant
            reversed.len() + slots.len() == given.len(),
            forall|i: int|
                0 <= i < reversed.len() ==> #[trigger] reversed[i] == Some(given[given.len() - 1 - i]),
            forall|i: int| 0 <= i < slots.len() ==> #[trigger] slots[i] == Some(given[i]),
        decreases reversed.len(),
    {
        let slot = reversed.pop();
        if let Some(record) = slot {
            slots.push(record);
        }
    }
    slots
}

/// Whether every record of a GID outside `used` is still in its slot.
spec fn unused_held<T: Owned>(slots: Seq<Option<T>>, records: Seq<T>, used: Seq<Gid>) -> bool {
    &&& slots.len() == records.len()
    &&& forall|i: int|
        0 <= i < records.len() && !used.contains((#[trigger] records[i]).owner()) ==> slots[i] == Some(
            records[i],
        )
}

/// Takes the record of `gid` out of its slot.
fn take_record<T: Owned>(
    slots: &mut Vec<Option<T>>,
    index: &KeyMap,
    gid: Gid,
    Ghost(records): Ghost<Seq<T>>,
    Ghost(used): Ghost<Seq<Gid>>,
) -> (r: Option<T>)
    requires
        unused_held(old(slots)@, records, used),
        owners(records).no_duplicates(),
        indexes(index@, owners(records)),
        !used.contains(gid),
    ensures
        r == record_of(records, gid),
        unused_held(final(slots)@, records, used.push(gid)),
{
    let ghost before = slots@;
    match index.get(gid.0 as u128) {
        Some(i) => {
            proof {
                lemma_indexed_record(index@, records, gid);
            }
            slots.push(None);
            let taken = slots.swap_remove(i);
            proof {
                assert(slots@ =~= before.update(i as int, None));
                assert forall|k: int|
                    0 <= k < records.len() && !used.push(gid).contains((#[trigger] records[k]).owner()) implies slots[k] == Some(records[k]) by {
                    if k == i {
                        assert(used.push(gid)[used.len() as int] == gid);
                    }
                    if used.contains(records[k].owner()) {
                        let w = used.index_of(records[k].owner());
                        assert(used.push(gid)[w] == records[k].owner());
                    }
                }
            }
            taken
        },
        None => {
            proof {
                assert(!owners(records).contains(gid));
                assert forall|k: int|
                    0 <= k < records.len() && !used.push(gid).contains((#[trigger] records[k]).owner()) implies slots[k] == Some(records[k]) by {
                    if used.contains(records[k].owner()) {
                        let w = used.index_of(records[k].owner());
                        assert(used.push(gid)[w] == records[k].owner());
                    }
                }
            }
            None
        },
    }
}

/// Sorts places by GID.
pub fn order_by_gid(gids: &Vec<Gid>) -> (order: Vec<OrderKey>)
    ensures
        order@ == gid_order(gids@),
{
    let mut keys: Vec<OrderKey> = Vec::new();
    let mut i: usize = 0;
    while i < gids.len()
        invariant
            i <= gids.len(),
            keys.len() == i,
            forall|k: int|
                0 <= k < i ==> #[trigger] keys[k] == (OrderKey {
                    rank: 0,
                    position: gids[k].0,
                    id: k as u64,
                }),
        decreases gids.len() - i,
    {
        keys.push(OrderKey { rank: 0, position: gids[i].0, id: i as u64 });
        i = i + 1;
    }
    assert(keys@ =~= gid_keys(gids@));
    sort_keys(&keys)
}

/// The ascending GID order names every task once.
pub proof fn lemma_gid_order(gids: Seq<Gid>)
    requires
        gids.no_duplicates(),
        gids.len() <= u64::MAX,
    ensures
        gid_order(gids).len() == gids.len(),
        forall|r: int|
            0 <= r < gids.len() ==> (#[trigger] gid_order(gids)[r]).id < gids.len()
                && gids[gid_order(gids)[r].id as int].0 == gid_order(gids)[r].position,
        forall|a: int, b: int|
            0 <= a < b < gids.len() ==> (#[trigger] gid_order(gids)[a]).position < (#[trigger] gid_order(
                gids,
            )[b]).position,
{
    let keys = gid_keys(gids);
    let order = gid_order(gids);
    lemma_sorted_keys(keys);
    crate::queues::lemma_sorted_ids_distinct(keys);
    assert forall|r: int| 0 <= r < gids.len() implies (#[trigger] order[r]).id < gids.len()
        && gids[order[r].id as int].0 == order[r].position by {
        assert(order.contains(order[r]));
        assert(keys.contains(order[r]));
        let k = keys.index_of(order[r]);
        assert(keys[k] == order[r]);
    }
    assert forall|a: int, b: int| 0 <= a < b < gids.len() implies (#[trigger] order[a]).position < (
    #[trigger] order[b]).position by {
        assert(key_order()(order[a], order[b]));
        assert(order.contains(order[a]));
        assert(order.contains(order[b]));
        assert(keys.contains(order[a]));
        assert(keys.contains(order[b]));
        let i = keys.index_of(order[a]);
        let j = keys.index_of(order[b]);
        assert(keys[i] == order[a]);
        assert(keys[j] == order[b]);
        assert(order[a].id != order[b].id);
        assert(gids[i] != gids[j]);
    }
}

/// Why the records cannot be brought together by task, if they cannot.
pub open spec fn record_fault(records: StartupRecords, config: StartupRecoveryConfig) -> Option<
    StartupRecoveryError,
> {
    let s = records.snapshot;
    let max = config.scheduler.max_tasks;
    let task_gids = owners(s.tasks@);
    let journal_gids = owners(records.journals@);
    if s.tasks.len() > max || records.journals.len() > max || s.stopped_results.len() > max
        || s.host_key_challenges.len() > max || s.journal_installs.len() > max
        || records.admissions.len() > max {
        Some(StartupRecoveryError::TaskLimitReached)
    } else if first_duplicate(task_gids) is Some {
        Some(StartupRecoveryError::DuplicateTask(first_duplicate(task_gids)->0))
    } else if queue_gap(s.tasks@, 0) is Some {
        let gap = queue_gap(s.tasks@, 0)->0;
        if gap.expected > u32::MAX {
            Some(StartupRecoveryError::TaskLimitReached)
        } else {
            Some(
                StartupRecoveryError::QueueNotDense {
                    state: gap.state,
                    expected: gap.expected as u32,
                    actual: gap.actual as u32,
                },
            )
        }
    } else if first_duplicate(owners(records.admissions@)) is Some {
        Some(
            StartupRecoveryError::DuplicateCredentialAdmission(
                first_duplicate(owners(records.admissions@))->0,
            ),
        )
    } else if s.tasks.len() > 0 && s.session is None {
        Some(StartupRecoveryError::MissingSession)
    } else if s.tasks.len() > 0 && least_foreign(s.tasks@, s.session->0.session_id) is Some {
        Some(
            StartupRecoveryError::TaskSessionMismatch(
                least_foreign(s.tasks@, s.session->0.session_id)->0,
            ),
        )
    } else if journal_fault_from(records.journals@, 0) is Some {
        journal_fault_from(records.journals@, 0)
    } else if least_absent(task_gids, journal_gids) is Some {
        Some(StartupRecoveryError::MissingJournal(least_absent(task_gids, journal_gids)->0))
    } else if least_absent(journal_gids, task_gids) is Some {
        Some(StartupRecoveryError::ExtraJournal(least_absent(journal_gids, task_gids)->0))
    } else if first_duplicate(owners(s.stopped_results@)) is Some {
        Some(
            StartupRecoveryError::DuplicateStoppedResult(
                first_duplicate(owners(s.stopped_results@))->0,
            ),
        )
    } else if first_duplicate(owners(s.host_key_challenges@)) is Some {
        Some(
            StartupRecoveryError::DuplicateHostKeyChallenge(
                first_duplicate(owners(s.host_key_challenges@))->0,
            ),
        )
    } else {
        installs_fault_from(s.tasks@, records.journals@, s.journal_installs@, 0)
    }
}

/// Why a record is left without a task, if one is.
pub open spec fn leftover_fault(records: StartupRecords) -> Option<StartupRecoveryError> {
    let s = records.snapshot;
    let gids = owners(s.tasks@);
    if least_absent(owners(s.stopped_results@), gids) is Some {
        Some(
            StartupRecoveryError::ExtraStoppedResult(least_absent(owners(s.stopped_results@), gids)->0),
        )
    } else if least_absent(owners(s.host_key_challenges@), gids) is Some {
        Some(
            StartupRecoveryError::HostKeyChallengeMismatch(
                least_absent(owners(s.host_key_challenges@), gids)->0,
            ),
        )
    } else if least_absent(owners(records.admissions@), gids) is Some {
        Some(
            StartupRecoveryError::ExtraCredentialAdmission(
                least_absent(owners(records.admissions@), gids)->0,
            ),
        )
    } else {
        None
    }
}

/// The queues after the moves of live tasks.
pub open spec fn queues_after_normalization(start: Seq<Seq<Gid>>, plans: Seq<TaskPlan>) -> Seq<Seq<Gid>> {
    let moves = plan_moves(plans);
    queues_after(start, moves, restored_queues(plan_members(plans)), moves.len() as int)
}

/// The queues after every move.
pub open spec fn queues_after_repair(start: Seq<Seq<Gid>>, plans: Seq<TaskPlan>) -> Seq<Seq<Gid>> {
    let ends = completion_moves(plan_completions(plans));
    queues_after(
        queues_after_normalization(start, plans),
        ends,
        restored_queues(plan_members(plans)),
        ends.len() as int,
    )
}

/// The first move from `from` on that does not apply.
pub open spec fn blocked_from(
    queues: Seq<Seq<Gid>>,
    moves: Seq<QueueRepairCandidate>,
    orders: Seq<Seq<Gid>>,
    from: int,
) -> Option<int>
    decreases moves.len() - from,
{
    if from < 0 || from >= moves.len() {
        None
    } else if !move_applies(queues_after(queues, moves, orders, from), moves[from]) {
        Some(from)
    } else {
        blocked_from(queues, moves, orders, from + 1)
    }
}

pub proof fn lemma_blocked(
    queues: Seq<Seq<Gid>>,
    moves: Seq<QueueRepairCandidate>,
    orders: Seq<Seq<Gid>>,
    from: int,
)
    requires
        0 <= from <= moves.len(),
    ensures
        forall|i: int|
            from <= i && first_blocked_move(queues, moves, orders, i) ==> blocked_from(
                queues,
                moves,
                orders,
                from,
            ) == Some(i),
        moves_apply(queues, moves, orders) ==> blocked_from(queues, moves, orders, from) is None,
    decreases moves.len() - from,
{
    if from < moves.len() {
        lemma_blocked(queues, moves, orders, from + 1);
        assert forall|i: int| from <= i && first_blocked_move(queues, moves, orders, i) implies blocked_from(queues, moves, orders, from) == Some(i) by {
            if from < i {
                assert(move_applies(queues_after(queues, moves, orders, from), moves[from]));
            }
        }
        if moves_apply(queues, moves, orders) {
            assert(move_applies(queues_after(queues, moves, orders, from), moves[from]));
        }
    }
}

/// Why the queue repairs do not lead from the persisted to the restored orders,
/// if they do not.
pub open spec fn queue_fault(start: Seq<Seq<Gid>>, plans: Seq<TaskPlan>) -> Option<StartupRecoveryError> {
    let orders = restored_queues(plan_members(plans));
    let ends = completion_moves(plan_completions(plans));
    let middle = queues_after_normalization(start, plans);
    if !moves_apply(start, plan_moves(plans), orders) {
        Some(StartupRecoveryError::QueueRepairInvariant)
    } else if blocked_from(middle, ends, orders, 0) is Some {
        Some(
            StartupRecoveryError::TerminalQueueMismatch(ends[blocked_from(middle, ends, orders, 0)->0].gid),
        )
    } else if queues_after_repair(start, plans) != orders {
        Some(StartupRecoveryError::QueueRepairInvariant)
    } else {
        None
    }
}

/// Why startup is refused, if it is: records first, then the tasks in GID
/// order, then records without a task, then the queue repairs.
pub open spec fn reconcile_fault(records: StartupRecords, config: StartupRecoveryConfig) -> Option<
    StartupRecoveryError,
> {
    if record_fault(records, config) is Some {
        record_fault(records, config)
    } else if plan_fault_from(records, config, 0) is Some {
        plan_fault_from(records, config, 0)
    } else if leftover_fault(records) is Some {
        leftover_fault(records)
    } else {
        queue_fault(persisted_queues(records.snapshot.tasks@), plans(records, config))
    }
}

/// Whether a store repair writes exactly what a completed journal says.
pub open spec fn writes_completion(
    repair: DeferredTerminalSessionRepair,
    completion: TerminalRepairCandidate,
) -> bool {
    &&& repair.result.gid == completion.change.gid
    &&& crate::startup::completes(repair.result, completion.evidence)
}

/// Whether a reconciliation is the one that the records call for.
pub open spec fn reconciled(
    r: StartupReconciliation,
    records: StartupRecords,
    config: StartupRecoveryConfig,
) -> bool {
    let all = plans(records, config);
    let orders = restored_queues(plan_members(all));
    let start = persisted_queues(records.snapshot.tasks@);
    let moves = plan_moves(all);
    let completions = plan_completions(all);
    &&& r.scheduler_batch.tasks@ == all.map_values(|p: TaskPlan| p.scheduler)
    &&& restores(r.scheduler_batch.queues@, plan_members(all))
    &&& r.tasks@ == all.map_values(|p: TaskPlan| p.engine)
    &&& r.authority_repairs@ == present(all.map_values(|p: TaskPlan| p.authority))
    &&& r.appender_recoveries@ == present(all.map_values(|p: TaskPlan| p.appender))
    &&& r.journal_install_recoveries@ == present(all.map_values(|p: TaskPlan| p.install))
    &&& r.no_space_probe_targets@ == present(all.map_values(|p: TaskPlan| p.target))
    &&& r.queue_session_repairs.len() == moves.len()
    &&& forall|i: int|
        0 <= i < moves.len() ==> (#[trigger] r.queue_session_repairs[i]).wf()
            && r.queue_session_repairs[i]@ == transition_of(start, moves, orders, i)
    &&& r.terminal_session_repairs.len() == completions.len()
    &&& forall|i: int|
        0 <= i < completions.len() ==> writes_completion(
            #[trigger] r.terminal_session_repairs[i],
            completions[i],
        ) && r.terminal_session_repairs[i].transition.wf()
            && r.terminal_session_repairs[i].transition@ == transition_of(
            queues_after_normalization(start, all),
            completion_moves(completions),
            orders,
            i,
        )
}

/// Pairs each completed task's move with the stored result it writes.
fn pair_completions(
    completions: &Vec<TerminalRepairCandidate>,
    transitions: Vec<SessionQueueTransition>,
) -> (repairs: Vec<DeferredTerminalSessionRepair>)
    requires
        completions.len() == transitions.len(),
    ensures
        repairs.len() == completions.len(),
        forall|i: int|
            0 <= i < completions.len() ==> writes_completion(#[trigger] repairs[i], completions[i])
                && repairs[i].transition == transitions[i],
{
    let mut slots = into_slots(transitions);
    let mut repairs: Vec<DeferredTerminalSessionRepair> = Vec::new();
    let mut i: usize = 0;
    while i < completions.len()
        invariant
            i <= completions.len(),
            completions.len() == transitions.len(),
            slots.len() == completions.len(),
            repairs.len() == i,
            forall|k: int| i <= k < completions.len() ==> #[trigger] slots[k] == Some(transitions[k]),
            forall|k: int|
                0 <= k < i ==> writes_completion(#[trigger] repairs[k], completions[k])
                    && repairs[k].transition == transitions[k],
        decreases completions.len() - i,
    {
        let completion = completions[i];
        assert(slots[i as int] == Some(transitions[i as int]));
        slots.push(None);
        let slot = slots.swap_remove(i);
        if let Some(transition) = slot {
            repairs.push(
                DeferredTerminalSessionRepair {
                    result: SessionStoppedResultRecord {
                        gid: completion.change.gid,
                        status: SessionTerminalStatus::Complete,
                        error_kind: None,
                        safe_message: String::new(),
                        total_length: Some(completion.evidence.final_length),
                        layout_hash: Some(completion.evidence.layout_hash),
                        completed_ms: completion.evidence.completed_ms,
                    },
                    transition,
                },
            );
        }
        i = i + 1;
    }
    repairs
}

/// Turns the parts of all plans into the reconciliation.
fn finish_reconciliation(
    parts: PlanParts,
    persisted: Vec<Vec<Gid>>,
    Ghost(records): Ghost<StartupRecords>,
    Ghost(config): Ghost<StartupRecoveryConfig>,
) -> (r: Result<StartupReconciliation, StartupRecoveryError>)
    requires
        parts.hold(plans(records, config)),
        queue_views(persisted@) == persisted_queues(records.snapshot.tasks@),
        crate::queues::distinct_members(plan_members(plans(records, config))),
    ensures
        ({
            let fault = queue_fault(
                persisted_queues(records.snapshot.tasks@),
                plans(records, config),
            );
            &&& r is Err <==> fault is Some
            &&& r matches Err(error) ==> fault == Some(error)
            &&& r matches Ok(done) ==> reconciled(done, records, config)
        }),
{
    let ghost all = plans(records, config);
    let ghost members = plan_members(all);
    let ghost start = persisted_queues(records.snapshot.tasks@);
    let ghost goal = restored_queues(members);
    assert(queue_views(persisted@).len() == persisted.len());
    let queues = build_scheduler_queues(&parts.members);
    let orders = orders_by_slot(&queues, Ghost(members));
    proof {
        assert forall|i: int| 0 <= i < QUEUE_COUNT implies (#[trigger] orders[i])@.no_duplicates() by {
            crate::queues::lemma_restored_order_distinct(members, class_of_state(state_at(i)));
            assert(queue_views(orders@)[i] == orders[i]@);
        }
        lemma_blocked(start, plan_moves(all), goal, 0);
    }
    let mut current = persisted;
    let queue_session_repairs = match apply_queue_moves(&mut current, &parts.moves, &orders) {
        Ok(repairs) => repairs,
        Err(_) => return Err(StartupRecoveryError::QueueRepairInvariant),
    };
    let ghost middle = queue_views(current@);
    let mut ends: Vec<QueueRepairCandidate> = Vec::new();
    let mut i: usize = 0;
    while i < parts.completions.len()
        invariant
            i <= parts.completions.len(),
            ends.len() == i,
            forall|k: int| 0 <= k < i ==> #[trigger] ends[k] == parts.completions[k].change,
        decreases parts.completions.len() - i,
    {
        ends.push(parts.completions[i].change);
        i = i + 1;
    }
    assert(ends@ =~= completion_moves(plan_completions(all)));
    proof {
        lemma_blocked(middle, ends@, goal, 0);
    }
    let transitions = match apply_queue_moves(&mut current, &ends, &orders) {
        Ok(transitions) => transitions,
        Err(blocked) => {
            return Err(StartupRecoveryError::TerminalQueueMismatch(ends[blocked].gid));
        },
    };
    if !same_queues(&current, &orders) {
        return Err(StartupRecoveryError::QueueRepairInvariant);
    }
    let terminal_session_repairs = pair_completions(&parts.completions, transitions);
    Ok(
        StartupReconciliation {
            scheduler_batch: SchedulerRestoreBatch { tasks: parts.scheduler_tasks, queues },
            tasks: parts.engine_tasks,
            authority_repairs: parts.authority_repairs,
            appender_recoveries: parts.appender_recoveries,
            journal_install_recoveries: parts.install_recoveries,
            no_space_probe_targets: NoSpaceProbeTargetCatalog::new(parts.targets),
            queue_session_repairs,
            terminal_session_repairs,
        },
    )
}

/// The task indexes and journal index that record checks leave behind.
struct RecordIndexes {
    tasks: KeyMap,
    journals: KeyMap,
    admissions: KeyMap,
    stopped: KeyMap,
    challenges: KeyMap,
    installs: KeyMap,
}

impl RecordIndexes {
    spec fn cover(self, records: StartupRecords) -> bool {
        let s = records.snapshot;
        &&& owners(s.tasks@).no_duplicates() && indexes(self.tasks@, owners(s.tasks@))
        &&& owners(records.journals@).no_duplicates() && indexes(
            self.journals@,
            owners(records.journals@),
        )
        &&& owners(records.admissions@).no_duplicates() && indexes(
            self.admissions@,
            owners(records.admissions@),
        )
        &&& owners(s.stopped_results@).no_duplicates() && indexes(
            self.stopped@,
            owners(s.stopped_results@),
        )
        &&& owners(s.host_key_challenges@).no_duplicates() && indexes(
            self.challenges@,
            owners(s.host_key_challenges@),
        )
        &&& owners(s.journal_installs@).no_duplicates() && indexes(
            self.installs@,
            owners(s.journal_installs@),
        )
    }
}

/// Checks that the records can be brought together by task.
fn check_records(records: &StartupRecords, config: StartupRecoveryConfig) -> (r: Result<
    RecordIndexes,
    StartupRecoveryError,
>)
    ensures
        r is Err <==> record_fault(*records, config) is Some,
        r matches Err(error) ==> record_fault(*records, config) == Some(error),
        r matches Ok(found) ==> found.cover(*records),
{
    let snapshot = &records.snapshot;
    let max = config.scheduler.max_tasks;
    if snapshot.tasks.len() > max || records.journals.len() > max || snapshot.stopped_results.len()
        > max || snapshot.host_key_challenges.len() > max || snapshot.journal_installs.len() > max
        || records.admissions.len() > max {
        return Err(StartupRecoveryError::TaskLimitReached);
    }
    let task_gids = owner_list(&snapshot.tasks);
    let tasks = match index_gids(&task_gids) {
        Ok(map) => map,
        Err(gid) => return Err(StartupRecoveryError::DuplicateTask(gid)),
    };
    if let Some(gap) = find_queue_gap(&snapshot.tasks) {
        if gap.expected > u32::MAX as u64 {
            return Err(StartupRecoveryError::TaskLimitReached);
        }
        return Err(
            StartupRecoveryError::QueueNotDense {
                state: gap.state,
                expected: gap.expected as u32,
                actual: gap.actual as u32,
            },
        );
    }
    let admissions = match index_gids(&owner_list(&records.admissions)) {
        Ok(map) => map,
        Err(gid) => return Err(StartupRecoveryError::DuplicateCredentialAdmission(gid)),
    };
    if snapshot.tasks.len() > 0 {
        let session = match snapshot.session {
            Some(session) => session,
            None => return Err(StartupRecoveryError::MissingSession),
        };
        if let Some(gid) = find_least_foreign(&snapshot.tasks, session.session_id) {
            return Err(StartupRecoveryError::TaskSessionMismatch(gid));
        }
    }
    let journals = match index_journals(&records.journals) {
        Ok(map) => map,
        Err(error) => return Err(error),
    };
    if let Some(gid) = find_least_absent(&task_gids, &journals, Ghost(owners(records.journals@))) {
        return Err(StartupRecoveryError::MissingJournal(gid));
    }
    let journal_gids = owner_list(&records.journals);
    if let Some(gid) = find_least_absent(&journal_gids, &tasks, Ghost(owners(snapshot.tasks@))) {
        return Err(StartupRecoveryError::ExtraJournal(gid));
    }
    let stopped = match index_gids(&owner_list(&snapshot.stopped_results)) {
        Ok(map) => map,
        Err(gid) => return Err(StartupRecoveryError::DuplicateStoppedResult(gid)),
    };
    let challenges = match index_gids(&owner_list(&snapshot.host_key_challenges)) {
        Ok(map) => map,
        Err(gid) => return Err(StartupRecoveryError::DuplicateHostKeyChallenge(gid)),
    };
    if let Some(error) = validate_installs(
        &snapshot.tasks,
        &tasks,
        &records.journals,
        &journals,
        &snapshot.journal_installs,
    ) {
        return Err(error);
    }
    let installs = match index_gids(&owner_list(&snapshot.journal_installs)) {
        Ok(map) => map,
        Err(gid) => {
            proof {
                lemma_distinct_have_no_duplicate(owners(snapshot.journal_installs@), 0);
            }
            return Err(StartupRecoveryError::DuplicateJournalInstall(gid));
        },
    };
    Ok(RecordIndexes { tasks, journals, admissions, stopped, challenges, installs })
}

proof fn lemma_distinct_have_no_duplicate(gids: Seq<Gid>, from: int)
    requires
        gids.no_duplicates(),
        0 <= from <= gids.len(),
    ensures
        duplicate_from(gids, from) is None,
    decreases gids.len() - from,
{
    if from < gids.len() {
        assert(!gids.take(from).contains(gids[from])) by {
            if gids.take(from).contains(gids[from]) {
                let k = gids.take(from).index_of(gids[from]);
                assert(gids.take(from)[k] == gids[k]);
            }
        }
        lemma_distinct_have_no_duplicate(gids, from + 1);
    }
}

/// A plan keeps the identity of its task.
pub proof fn lemma_plan_identity(inputs: TaskInputs, task_id: TaskId, updated_ms: u64)
    requires
        task_plan(inputs, task_id, updated_ms) is Ok,
    ensures
        ({
            let plan = task_plan(inputs, task_id, updated_ms)->Ok_0;
            &&& plan.member.gid == inputs.task.gid
            &&& plan.member.source == inputs.task.queue_state
            &&& plan.member.position == inputs.task.queue_position
            &&& plan.engine.gid == inputs.task.gid
            &&& plan.engine.task_id == task_id
            &&& plan.scheduler.gid == inputs.task.gid
            &&& plan.scheduler.task_id == task_id
        }),
{
}

/// Plans stand in ascending GID order.
pub proof fn lemma_plans_ascend(records: StartupRecords, config: StartupRecoveryConfig)
    requires
        owners(records.snapshot.tasks@).no_duplicates(),
        plan_fault_from(records, config, 0) is None,
    ensures
        forall|k: int|
            0 <= k < records.snapshot.tasks.len() ==> (#[trigger] plans(records, config)[k]).member.gid
                == ranked_task(records, k).gid,
        forall|a: int, b: int|
            0 <= a < b < records.snapshot.tasks.len() ==> (#[trigger] plans(records, config)[a]).member.gid.0 < (
            #[trigger] plans(records, config)[b]).member.gid.0,
        crate::queues::distinct_members(plan_members(plans(records, config))),
{
    let gids = owners(records.snapshot.tasks@);
    let n = records.snapshot.tasks@.len() as int;
    let all = plans(records, config);
    lemma_gid_order(gids);
    assert forall|k: int| 0 <= k < n implies (#[trigger] all[k]).member.gid == ranked_task(records, k).gid by {
        lemma_planned(records, config, 0, k);
        lemma_plan_identity(
            ranked_inputs(records, k),
            TaskId((k + 1) as u64),
            repair_time(records.snapshot, config.now_wall_unix_ms),
        );
    }
    assert forall|a: int, b: int| 0 <= a < b < n implies (#[trigger] all[a]).member.gid.0 < (#[trigger] all[b]).member.gid.0 by {
        let order = gid_order(gids);
        assert(order[a].position < order[b].position);
        assert(gids[order[a].id as int] == ranked_task(records, a).gid);
        assert(gids[order[b].id as int] == ranked_task(records, b).gid);
    }
    let members = plan_members(all);
    assert forall|a: int, b: int| 0 <= a < b < members.len() implies (#[trigger] members[a]).gid != (#[trigger] members[b]).gid by {
        assert(members[a] == all[a].member);
        assert(members[b] == all[b].member);
    }
}

/// Where no task faults, every task has its plan.
pub proof fn lemma_planned(records: StartupRecords, config: StartupRecoveryConfig, from: int, rank: int)
    requires
        0 <= from <= rank < records.snapshot.tasks.len(),
        plan_fault_from(records, config, from) is None,
    ensures
        ranked_plan(records, config, rank) is Ok,
    decreases rank - from,
{
    if from < rank {
        lemma_planned(records, config, from + 1, rank);
    }
}

/// Everything among `gids` that is not absent is present.
pub(crate) proof fn lemma_none_absent(gids: Seq<Gid>, present: Seq<Gid>)
    requires
        least_absent(gids, present) is None,
    ensures
        forall|i: int| 0 <= i < gids.len() ==> present.contains(#[trigger] gids[i]),
    decreases gids.len(),
{
    if gids.len() > 0 {
        lemma_none_absent(gids.drop_last(), present);
        assert forall|i: int| 0 <= i < gids.len() implies present.contains(#[trigger] gids[i]) by {
            if i < gids.len() - 1 {
                assert(gids.drop_last()[i] == gids[i]);
            }
        }
    }
}

/// Reconciles durable authorities without opening files or publishing state.
pub fn reconcile_startup(
    snapshot: SessionStartupSnapshot,
    journals: Vec<RecoveredTaskJournal>,
    credential_admissions: Vec<DerivedCredentialAdmission>,
    config: StartupRecoveryConfig,
) -> (r: Result<StartupReconciliation, StartupRecoveryError>)
    ensures
        ({
            let records = StartupRecords { snapshot, journals, admissions: credential_admissions };
            &&& r is Err <==> reconcile_fault(records, config) is Some
            &&& r matches Err(error) ==> reconcile_fault(records, config) == Some(error)
            &&& r matches Ok(done) ==> reconciled(done, records, config)
        }),
{
    let records = StartupRecords { snapshot, journals, admissions: credential_admissions };
    let ghost given = records;
    let found = match check_records(&records, config) {
        Ok(found) => found,
        Err(error) => return Err(error),
    };
    let updated_ms = find_repair_time(&records.snapshot, config.now_wall_unix_ms);
    let persisted = collect_persisted_queues(&records.snapshot.tasks);
    let task_gids = owner_list(&records.snapshot.tasks);
    let stopped_gids = owner_list(&records.snapshot.stopped_results);
    let challenge_gids = owner_list(&records.snapshot.host_key_challenges);
    let admission_gids = owner_list(&records.admissions);
    let count = task_gids.len();
    let order = order_by_gid(&task_gids);
    proof {
        lemma_gid_order(task_gids@);
    }
    let rows = records.snapshot;
    let mut task_slots = into_slots(rows.tasks);
    let mut journal_slots = into_slots(records.journals);
    let mut admission_slots = into_slots(records.admissions);
    let mut stopped_slots = into_slots(rows.stopped_results);
    let mut challenge_slots = into_slots(rows.host_key_challenges);
    let mut install_slots = into_slots(rows.journal_installs);
    let mut parts = PlanParts::new();
    let ghost mut done: Seq<TaskPlan> = Seq::empty();
    let ghost mut used: Seq<Gid> = Seq::empty();
    let mut rank: usize = 0;
    while rank < count
        invariant
            rank <= count,
            given == (StartupRecords { snapshot, journals, admissions: credential_admissions }),
            count == given.snapshot.tasks.len(),
            task_gids@ == owners(given.snapshot.tasks@),
            order@ == gid_order(task_gids@),
            order.len() == count,
            found.cover(given),
            record_fault(given, config) is None,
            updated_ms == repair_time(given.snapshot, config.now_wall_unix_ms),
            forall|r: int|
                0 <= r < count ==> (#[trigger] order[r]).id < count && task_gids[order[r].id as int].0
                    == order[r].position,
            forall|a: int, b: int| 0 <= a < b < count ==> (#[trigger] order[a]).position < (#[trigger] order[b]).position,
            plan_fault_from(given, config, 0) == plan_fault_from(given, config, rank as int),
            used.len() == rank,
            forall|k: int| 0 <= k < rank ==> (#[trigger] used[k]).0 == order[k].position,
            done.len() == rank,
            forall|k: int| 0 <= k < rank ==> Ok::<TaskPlan, StartupRecoveryError>(#[trigger] done[k]) == ranked_plan(given, config, k),
            parts.hold(done),
            unused_held(task_slots@, given.snapshot.tasks@, used),
            unused_held(journal_slots@, given.journals@, used),
            unused_held(admission_slots@, given.admissions@, used),
            unused_held(stopped_slots@, given.snapshot.stopped_results@, used),
            unused_held(challenge_slots@, given.snapshot.host_key_challenges@, used),
            unused_held(install_slots@, given.snapshot.journal_installs@, used),
        decreases count - rank,
    {
        let place: usize = order[rank].id as usize;
        let gid = task_gids[place];
        proof {
            assert(gid.0 == order[rank as int].position);
            assert(given.snapshot.tasks[place as int].gid == gid) by {
                assert(owners(given.snapshot.tasks@)[place as int] == gid);
            }
            assert(!used.contains(gid)) by {
                if used.contains(gid) {
                    let k = used.index_of(gid);
                    assert(used[k] == gid);
                    assert(order[k].position < order[rank as int].position);
                }
            }
            assert(owners(given.snapshot.tasks@).contains(gid));
            let w = owners(given.snapshot.tasks@).index_of(gid);
            assert(w == place as int);
            lemma_none_absent(owners(given.snapshot.tasks@), owners(given.journals@));
            assert(owners(given.journals@).contains(gid));
        }
        let task = match take_record(
            &mut task_slots,
            &found.tasks,
            gid,
            Ghost(given.snapshot.tasks@),
            Ghost(used),
        ) {
            Some(task) => task,
            None => return Err(StartupRecoveryError::DuplicateTask(gid)),
        };
        assert(task == ranked_task(given, rank as int));
        let admission = match take_record(
            &mut admission_slots,
            &found.admissions,
            gid,
            Ghost(given.admissions@),
            Ghost(used),
        ) {
            Some(admission) => admission,
            None => return Err(StartupRecoveryError::MissingCredentialAdmission(gid)),
        };
        let journal = match take_record(
            &mut journal_slots,
            &found.journals,
            gid,
            Ghost(given.journals@),
            Ghost(used),
        ) {
            Some(journal) => journal,
            None => return Err(StartupRecoveryError::MissingJournal(gid)),
        };
        let stopped = take_record(
            &mut stopped_slots,
            &found.stopped,
            gid,
            Ghost(given.snapshot.stopped_results@),
            Ghost(used),
        );
        let challenge = take_record(
            &mut challenge_slots,
            &found.challenges,
            gid,
            Ghost(given.snapshot.host_key_challenges@),
            Ghost(used),
        );
        let install = take_record(
            &mut install_slots,
            &found.installs,
            gid,
            Ghost(given.snapshot.journal_installs@),
            Ghost(used),
        );
        let inputs = TaskInputs {
            task,
            journal,
            requirement: admission.requirement,
            stopped,
            challenge,
            install,
        };
        assert(inputs == ranked_inputs(given, rank as int));
        let plan = match plan_task(inputs, TaskId(rank as u64 + 1), updated_ms) {
            Ok(plan) => plan,
            Err(error) => return Err(error),
        };
        assert(Ok::<TaskPlan, StartupRecoveryError>(plan) == ranked_plan(given, config, rank as int));
        parts.add_plan(plan, Ghost(done));
        proof {
            done = done.push(plan);
            used = used.push(gid);
        }
        rank = rank + 1;
    }
    if let Some(gid) = find_least_absent(&stopped_gids, &found.tasks, Ghost(task_gids@)) {
        return Err(StartupRecoveryError::ExtraStoppedResult(gid));
    }
    if let Some(gid) = find_least_absent(&challenge_gids, &found.tasks, Ghost(task_gids@)) {
        return Err(StartupRecoveryError::HostKeyChallengeMismatch(gid));
    }
    if let Some(gid) = find_least_absent(&admission_gids, &found.tasks, Ghost(task_gids@)) {
        return Err(StartupRecoveryError::ExtraCredentialAdmission(gid));
    }
    proof {
        assert(done =~= plans(given, config));
        lemma_plans_ascend(given, config);
    }
    finish_reconciliation(parts, persisted, Ghost(given), Ghost(config))
}

/// Failures from the ordinary source-derived startup path.
#[derive(Clone, Copy, Debug, PartialEq, Eq, Structural)]
pub enum DerivedStartupError {
    Credentials(CredentialDerivationError),
    Recovery(StartupRecoveryError),
}

/// Whether an outcome is what the source-derived startup path leads to.
pub open spec fn derives(
    r: Result<StartupReconciliation, DerivedStartupError>,
    snapshot: SessionStartupSnapshot,
    journals: Vec<RecoveredTaskJournal>,
    config: StartupRecoveryConfig,
    limits: SessionLimits,
) -> bool {
    match derivation_fault(snapshot, limits) {
        Some(error) => r == Err::<StartupReconciliation, DerivedStartupError>(
            DerivedStartupError::Credentials(error),
        ),
        None => exists|admissions: Vec<DerivedCredentialAdmission>|
            {
                let records = StartupRecords { snapshot, journals, admissions };
                &&& #[trigger] admits(admissions@, snapshot)
                &&& match reconcile_fault(records, config) {
                    Some(error) => r == Err::<StartupReconciliation, DerivedStartupError>(
                        DerivedStartupError::Recovery(error),
                    ),
                    None => r is Ok && reconciled(r->Ok_0, records, config),
                }
            },
    }
}

/// Reconciles the ordinary plaintext-free startup path after deriving one
/// admission decision from every materialized source set.
pub fn reconcile_startup_derived(
    snapshot: SessionStartupSnapshot,
    journals: Vec<RecoveredTaskJournal>,
    config: StartupRecoveryConfig,
    limits: SessionLimits,
) -> (r: Result<StartupReconciliation, DerivedStartupError>)
    ensures
        derives(r, snapshot, journals, config, limits),
{
    let admissions = match derive_credential_admissions(&snapshot, limits) {
        Ok(admissions) => admissions,
        Err(error) => return Err(DerivedStartupError::Credentials(error)),
    };
    assert(admits(admissions@, snapshot));
    match reconcile_startup(snapshot, journals, admissions, config) {
        Ok(done) => Ok(done),
        Err(error) => Err(DerivedStartupError::Recovery(error)),
    }
}

} // verus!
