//! Native targets of the scheduler's startup no-space probes.
use vstd::prelude::*;
use crate::effects::{ProbeNoSpace, TransitionEffect};
use crate::session::{
    Generation, Gid, MonotonicInstant, NoSpaceProbeId, NoSpaceProbeOrigin, PlatformPath, RecoveredDelayDecision,
    TaskId,
};

verus! {

/// One probe target and the identity it is bound to.
#[derive(Debug, PartialEq, Eq)]
pub struct NoSpaceProbeTargetEntry {
    pub task_id: TaskId,
    pub gid: Gid,
    pub generation: Generation,
    pub decision: RecoveredDelayDecision,
    pub target: Option<PlatformPath>,
}

impl NoSpaceProbeTargetEntry {
    /// Whether this entry belongs to a task attempt.
    pub open spec fn identifies(self, probe: ProbeNoSpace) -> bool {
        self.task_id == probe.identity.task_id && self.gid == probe.identity.gid && self.generation
            == probe.identity.generation
    }
}

/// One exact scheduler-owned probe identity paired with its native target.
#[derive(Debug, PartialEq, Eq)]
pub struct BoundNoSpaceProbe {
    pub task_id: TaskId,
    pub gid: Gid,
    pub generation: Generation,
    pub probe_id: NoSpaceProbeId,
    pub origin: NoSpaceProbeOrigin,
    pub at: MonotonicInstant,
    pub target: PlatformPath,
    pub decision: RecoveredDelayDecision,
}

impl BoundNoSpaceProbe {
    pub fn task_id(&self) -> (r: TaskId)
        ensures
            r == self.task_id,
    {
        self.task_id
    }

    pub fn gid(&self) -> (r: Gid)
        ensures
            r == self.gid,
    {
        self.gid
    }

    pub fn generation(&self) -> (r: Generation)
        ensures
            r == self.generation,
    {
        self.generation
    }

    pub fn probe_id(&self) -> (r: NoSpaceProbeId)
        ensures
            r == self.probe_id,
    {
        self.probe_id
    }

    pub fn origin(&self) -> (r: NoSpaceProbeOrigin)
        ensures
            r == self.origin,
    {
        self.origin
    }

    pub fn at(&self) -> (r: MonotonicInstant)
        ensures
            r == self.at,
    {
        self.at
    }

    pub fn target(&self) -> (r: &PlatformPath)
        ensures
            *r == self.target,
    {
        &self.target
    }

    pub fn decision(&self) -> (r: RecoveredDelayDecision)
        ensures
            r == self.decision,
    {
        self.decision
    }

    pub fn into_target(self) -> (r: PlatformPath)
        ensures
            r == self.target,
    {
        self.target
    }
}

/// Why a deferred native target cannot be bound to a scheduler effect.
#[derive(Clone, Copy, Debug, PartialEq, Eq, Structural)]
pub enum NoSpaceProbeTargetError {
    NotProbeEffect,
    UnexpectedOrigin,
    UnknownIdentity,
    DeadlineMismatch,
    AlreadyConsumed,
}

impl NoSpaceProbeTargetError {
    pub open spec fn spec_message(self) -> Seq<char> {
        match self {
            NoSpaceProbeTargetError::NotProbeEffect => "effect is not a no-space probe"@,
            NoSpaceProbeTargetError::UnexpectedOrigin => "startup target requires an automatic retry probe"@,
            NoSpaceProbeTargetError::UnknownIdentity => "no startup target matches the probe task identity"@,
            NoSpaceProbeTargetError::DeadlineMismatch => "startup target and probe deadline disagree"@,
            NoSpaceProbeTargetError::AlreadyConsumed => "startup no-space target was already consumed"@,
        }
    }

    /// The readable form of the error.
    pub fn message(self) -> (r: &'static str)
        ensures
            r@ == self.spec_message(),
    {
        match self {
            NoSpaceProbeTargetError::NotProbeEffect => "effect is not a no-space probe",
            NoSpaceProbeTargetError::UnexpectedOrigin => "startup target requires an automatic retry probe",
            NoSpaceProbeTargetError::UnknownIdentity => "no startup target matches the probe task identity",
            NoSpaceProbeTargetError::DeadlineMismatch => "startup target and probe deadline disagree",
            NoSpaceProbeTargetError::AlreadyConsumed => "startup no-space target was already consumed",
        }
    }
}

/// The targets still held among `entries`.
pub open spec fn held(entries: Seq<NoSpaceProbeTargetEntry>) -> nat
    decreases entries.len(),
{
    if entries.len() == 0 {
        0
    } else {
        held(entries.drop_last()) + if entries.last().target is Some {
            1nat
        } else {
            0nat
        }
    }
}

/// The entry that answers a probe: the first with its identity, from `from` on.
pub open spec fn entry_for(entries: Seq<NoSpaceProbeTargetEntry>, probe: ProbeNoSpace, from: int) -> Option<int>
    decreases entries.len() - from,
{
    if from < 0 || from >= entries.len() {
        None
    } else if entries[from].identifies(probe) {
        Some(from)
    } else {
        entry_for(entries, probe, from + 1)
    }
}

/// The probe that an effect asks for, if it does.
pub open spec fn probe_of(effect: TransitionEffect) -> Option<ProbeNoSpace> {
    match effect {
        TransitionEffect::ProbeNoSpace(probe) => Some(probe),
        _ => None,
    }
}

/// The target that `effect` is bound to.
pub open spec fn bound_for(entries: Seq<NoSpaceProbeTargetEntry>, effect: TransitionEffect) -> BoundNoSpaceProbe {
    let probe = probe_of(effect)->0;
    let i = entry_for(entries, probe, 0)->0;
    BoundNoSpaceProbe {
        task_id: probe.identity.task_id,
        gid: probe.identity.gid,
        generation: probe.identity.generation,
        probe_id: probe.probe_id,
        origin: probe.origin,
        at: probe.at,
        target: entries[i].target->0,
        decision: entries[i].decision,
    }
}

/// The catalog after `effect` was bound.
pub open spec fn after_binding(entries: Seq<NoSpaceProbeTargetEntry>, effect: TransitionEffect) -> Seq<
    NoSpaceProbeTargetEntry,
> {
    let i = entry_for(entries, probe_of(effect)->0, 0)->0;
    entries.update(i, spent(entries[i]))
}

/// Why `effect` cannot be bound, if it cannot.
pub open spec fn consume_error(
    entries: Seq<NoSpaceProbeTargetEntry>,
    effect: TransitionEffect,
) -> Option<NoSpaceProbeTargetError> {
    match probe_of(effect) {
        None => Some(NoSpaceProbeTargetError::NotProbeEffect),
        Some(probe) => if probe.origin != NoSpaceProbeOrigin::AutomaticRetry {
            Some(NoSpaceProbeTargetError::UnexpectedOrigin)
        } else {
            match entry_for(entries, probe, 0) {
                None => Some(NoSpaceProbeTargetError::UnknownIdentity),
                Some(i) => if entries[i].decision.deadline != probe.at {
                    Some(NoSpaceProbeTargetError::DeadlineMismatch)
                } else if entries[i].target is None {
                    Some(NoSpaceProbeTargetError::AlreadyConsumed)
                } else {
                    None
                },
            }
        },
    }
}

/// An entry whose target was handed out.
pub open spec fn spent(entry: NoSpaceProbeTargetEntry) -> NoSpaceProbeTargetEntry {
    NoSpaceProbeTargetEntry { target: None, ..entry }
}

/// Bounded, move-only native targets for scheduler-owned startup probes.
///
/// The catalog consumes each exact task/GID/generation/deadline entry once and
/// adopts the fresh scheduler-owned probe id from the matching effect.
#[derive(Debug, PartialEq, Eq)]
pub struct NoSpaceProbeTargetCatalog {
    entries: Vec<NoSpaceProbeTargetEntry>,
}

impl View for NoSpaceProbeTargetCatalog {
    type V = Seq<NoSpaceProbeTargetEntry>;

    closed spec fn view(&self) -> Seq<NoSpaceProbeTargetEntry> {
        self.entries@
    }
}

impl NoSpaceProbeTargetCatalog {
    pub fn new(entries: Vec<NoSpaceProbeTargetEntry>) -> (r: Self)
        ensures
            r@ == entries@,
    {
        NoSpaceProbeTargetCatalog { entries }
    }

    pub fn len(&self) -> (r: usize)
        ensures
            r == held(self@),
    {
        self.remaining()
    }

    pub fn is_empty(&self) -> (r: bool)
        ensures
            r == (held(self@) == 0),
    {
        self.remaining() == 0
    }

    /// How many targets have not been handed out.
    pub fn remaining(&self) -> (r: usize)
        ensures
            r == held(self@),
            r <= self@.len(),
    {
        let mut count: usize = 0;
        let mut i: usize = 0;
        while i < self.entries.len()
            invariant
                i <= self.entries.len(),
                count <= i,
                count == held(self.entries@.take(i as int)),
            decreases self.entries.len() - i,
        {
            assert(self.entries@.take(i as int + 1).drop_last() =~= self.entries@.take(i as int));
            if self.entries[i].target.is_some() {
                count = count + 1;
            }
            i = i + 1;
        }
        assert(self.entries@.take(i as int) =~= self.entries@);
        count
    }

    /// Binds the target of a probe effect.
    pub fn consume(&mut self, effect: &TransitionEffect) -> (r: Result<
        BoundNoSpaceProbe,
        NoSpaceProbeTargetError,
    >)
        ensures
            r is Err <==> consume_error(old(self)@, *effect) is Some,
            r matches Err(error) ==> consume_error(old(self)@, *effect) == Some(error) && final(self)@ == old(self)@,
            r matches Ok(bound) ==> {
                &&& final(self)@ == after_binding(old(self)@, *effect)
                &&& bound == bound_for(old(self)@, *effect)
            },
    {
        let probe = match effect {
            TransitionEffect::ProbeNoSpace(probe) => *probe,
            _ => return Err(NoSpaceProbeTargetError::NotProbeEffect),
        };
        if probe.origin != NoSpaceProbeOrigin::AutomaticRetry {
            return Err(NoSpaceProbeTargetError::UnexpectedOrigin);
        }
        let mut i: usize = 0;
        while i < self.entries.len()
            invariant
                i <= self.entries.len(),
                self.entries@ == old(self).entries@,
                *effect == TransitionEffect::ProbeNoSpace(probe),
                probe.origin == NoSpaceProbeOrigin::AutomaticRetry,
                entry_for(self.entries@, probe, 0) == entry_for(self.entries@, probe, i as int),
            decreases self.entries.len() - i,
        {
            let entry = &self.entries[i];
            if entry.task_id == probe.identity.task_id && entry.gid == probe.identity.gid
                && entry.generation == probe.identity.generation {
                if entry.decision.deadline != probe.at {
                    return Err(NoSpaceProbeTargetError::DeadlineMismatch);
                }
                let decision = entry.decision;
                if entry.target.is_none() {
                    return Err(NoSpaceProbeTargetError::AlreadyConsumed);
                }
                self.entries.push(
                    NoSpaceProbeTargetEntry {
                        task_id: probe.identity.task_id,
                        gid: probe.identity.gid,
                        generation: probe.identity.generation,
                        decision,
                        target: None,
                    },
                );
                let taken = self.entries.swap_remove(i);
                assert(self.entries@ =~= old(self).entries@.update(
                    i as int,
                    spent(old(self).entries@[i as int]),
                ));
                match taken.target {
                    Some(target) => return Ok(
                        BoundNoSpaceProbe {
                            task_id: probe.identity.task_id,
                            gid: probe.identity.gid,
                            generation: probe.identity.generation,
                            probe_id: probe.probe_id,
                            origin: probe.origin,
                            at: probe.at,
                            target,
                            decision,
                        },
                    ),
                    None => return Err(NoSpaceProbeTargetError::AlreadyConsumed),
                }
            }
            i = i + 1;
        }
        Err(NoSpaceProbeTargetError::UnknownIdentity)
    }
}

/// Handing out one entry leaves which entry answers any probe as it was.
proof fn lemma_entry_for_after_spending(
    entries: Seq<NoSpaceProbeTargetEntry>,
    spent_at: int,
    probe: ProbeNoSpace,
    from: int,
)
    requires
        0 <= spent_at < entries.len(),
        0 <= from <= entries.len(),
    ensures
        entry_for(entries.update(spent_at, spent(entries[spent_at])), probe, from) == entry_for(
            entries,
            probe,
            from,
        ),
    decreases entries.len() - from,
{
    if from < entries.len() {
        lemma_entry_for_after_spending(entries, spent_at, probe, from + 1);
    }
}

/// An entry found is in range.
pub(crate) proof fn lemma_entry_in_range(entries: Seq<NoSpaceProbeTargetEntry>, probe: ProbeNoSpace, from: int)
    requires
        0 <= from <= entries.len(),
    ensures
        entry_for(entries, probe, from) matches Some(i) ==> from <= i < entries.len()
            && entries[i].identifies(probe),
    decreases entries.len() - from,
{
    if from < entries.len() {
        lemma_entry_in_range(entries, probe, from + 1);
    }
}

/// Spending one held target lowers the count by one.
proof fn lemma_spending_lowers_held(entries: Seq<NoSpaceProbeTargetEntry>, i: int)
    requires
        0 <= i < entries.len(),
        entries[i].target is Some,
    ensures
        held(entries) > 0,
        held(entries.update(i, spent(entries[i]))) == held(entries) - 1,
    decreases entries.len(),
{
    let after = entries.update(i, spent(entries[i]));
    if i == entries.len() - 1 {
        assert(after.drop_last() =~= entries.drop_last());
    } else {
        lemma_spending_lowers_held(entries.drop_last(), i);
        assert(after.drop_last() =~= entries.drop_last().update(i, spent(entries[i])));
    }
}

/// A probe effect consumes its target at most once: after it was bound, the
/// same effect is answered with `AlreadyConsumed`, and exactly one target fewer
/// is held.
pub proof fn law_probe_target_consumed_once(entries: Seq<NoSpaceProbeTargetEntry>, effect: TransitionEffect)
    requires
        consume_error(entries, effect) is None,
    ensures
        consume_error(after_binding(entries, effect), effect) == Some(
            NoSpaceProbeTargetError::AlreadyConsumed,
        ),
        held(after_binding(entries, effect)) == held(entries) - 1,
{
    let probe = probe_of(effect)->0;
    lemma_entry_in_range(entries, probe, 0);
    let i = entry_for(entries, probe, 0)->0;
    lemma_entry_for_after_spending(entries, i, probe, 0);
    lemma_spending_lowers_held(entries, i);
}

/// Binding one probe does not disturb the answer to a probe with another identity.
pub proof fn law_probe_targets_are_independent(
    entries: Seq<NoSpaceProbeTargetEntry>,
    effect: TransitionEffect,
    other: TransitionEffect,
)
    requires
        consume_error(entries, effect) is None,
        probe_of(other) matches Some(o) ==> o.identity != probe_of(effect)->0.identity,
    ensures
        consume_error(after_binding(entries, effect), other) == consume_error(entries, other),
{
    let probe = probe_of(effect)->0;
    lemma_entry_in_range(entries, probe, 0);
    let i = entry_for(entries, probe, 0)->0;
    if probe_of(other) is Some {
        let o = probe_of(other)->0;
        lemma_entry_in_range(entries, o, 0);
        lemma_entry_for_after_spending(entries, i, o, 0);
    }
}

} // verus!
