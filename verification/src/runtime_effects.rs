//! Bounded adapter between scheduler effects and runtime workers.
use vstd::prelude::*;
use crate::effects::{
    ProbeNoSpace, RetryTimerId, RuntimeIdentity, SlowReadmissionId, TaskEvent, TaskEventEnvelope, TransitionEffect,
};
use crate::index::KeySet;
use crate::order::{key_at_most, key_le, OrderKey};
use crate::probe_targets::BoundNoSpaceProbe;
use crate::session::{
    Generation, Gid, MonotonicInstant, NoSpaceProbeId, NoSpaceProbeOrigin, PlatformPath, PresentedHostKeyChallenge,
    PublicError, TaskId,
};
use crate::text::{decimal_digits, decimal_text};

verus! {

/// Hard ceiling for each runtime adapter queue or exact-effect catalog.
pub const MAX_RUNTIME_EFFECT_CAPACITY: usize = 1024;

/// Bounded queue sizes used by one scheduler runtime adapter.
#[derive(Clone, Copy, Debug, PartialEq, Eq, Structural)]
pub struct RuntimeEffectConfig {
    pub request_capacity: usize,
    pub event_capacity: usize,
    pub timer_capacity: usize,
    pub option_plan_capacity: usize,
}

/// A queue of the runtime adapter.
#[derive(Clone, Copy, Debug, PartialEq, Eq, Structural)]
pub enum RuntimeQueue {
    Request,
    Event,
    Timer,
    OptionPlan,
}

impl RuntimeQueue {
    pub open spec fn spec_name(self) -> Seq<char> {
        match self {
            RuntimeQueue::Request => "request"@,
            RuntimeQueue::Event => "event"@,
            RuntimeQueue::Timer => "timer"@,
            RuntimeQueue::OptionPlan => "option_plan"@,
        }
    }

    pub fn name(self) -> (r: &'static str)
        ensures
            r@ == self.spec_name(),
    {
        match self {
            RuntimeQueue::Request => "request",
            RuntimeQueue::Event => "event",
            RuntimeQueue::Timer => "timer",
            RuntimeQueue::OptionPlan => "option_plan",
        }
    }
}

#[derive(Clone, Copy, Debug, PartialEq, Eq, Structural)]
pub enum RuntimeEffectConfigError {
    CapacityTooLarge { queue: RuntimeQueue, capacity: usize },
}

impl RuntimeEffectConfigError {
    pub open spec fn spec_message(self) -> Seq<char> {
        match self {
            RuntimeEffectConfigError::CapacityTooLarge { queue, capacity } => "runtime "@ + queue.spec_name()
                + " capacity "@ + decimal_digits(capacity as nat) + " exceeds hard maximum 1024"@,
        }
    }

    /// The readable form of the error.
    pub fn message(self) -> (r: String)
        ensures
            r@ == self.spec_message(),
    {
        match self {
            RuntimeEffectConfigError::CapacityTooLarge { queue, capacity } => {
                let mut r = "runtime ".to_owned();
                r.append(queue.name());
                r.append(" capacity ");
                r.append(decimal_text(capacity as u64).as_str());
                r.append(" exceeds hard maximum 1024");
                r
            },
        }
    }
}

impl RuntimeEffectConfig {
    /// The first capacity over the ceiling: requests, events, timers, then plans.
    pub open spec fn fault(self) -> Option<RuntimeEffectConfigError> {
        if self.request_capacity > MAX_RUNTIME_EFFECT_CAPACITY {
            Some(
                RuntimeEffectConfigError::CapacityTooLarge {
                    queue: RuntimeQueue::Request,
                    capacity: self.request_capacity,
                },
            )
        } else if self.event_capacity > MAX_RUNTIME_EFFECT_CAPACITY {
            Some(
                RuntimeEffectConfigError::CapacityTooLarge {
                    queue: RuntimeQueue::Event,
                    capacity: self.event_capacity,
                },
            )
        } else if self.timer_capacity > MAX_RUNTIME_EFFECT_CAPACITY {
            Some(
                RuntimeEffectConfigError::CapacityTooLarge {
                    queue: RuntimeQueue::Timer,
                    capacity: self.timer_capacity,
                },
            )
        } else if self.option_plan_capacity > MAX_RUNTIME_EFFECT_CAPACITY {
            Some(
                RuntimeEffectConfigError::CapacityTooLarge {
                    queue: RuntimeQueue::OptionPlan,
                    capacity: self.option_plan_capacity,
                },
            )
        } else {
            None
        }
    }

    pub fn validate(self) -> (r: Result<Self, RuntimeEffectConfigError>)
        ensures
            r == (match self.fault() {
                Some(error) => Err::<Self, RuntimeEffectConfigError>(error),
                None => Ok::<Self, RuntimeEffectConfigError>(self),
            }),
    {
        let queues = [
            (RuntimeQueue::Request, self.request_capacity),
            (RuntimeQueue::Event, self.event_capacity),
            (RuntimeQueue::Timer, self.timer_capacity),
            (RuntimeQueue::OptionPlan, self.option_plan_capacity),
        ];
        let mut i: usize = 0;
        while i < 4
            invariant
                i <= 4,
                queues@.len() == 4,
                queues@[0] == (RuntimeQueue::Request, self.request_capacity),
                queues@[1] == (RuntimeQueue::Event, self.event_capacity),
                queues@[2] == (RuntimeQueue::Timer, self.timer_capacity),
                queues@[3] == (RuntimeQueue::OptionPlan, self.option_plan_capacity),
                forall|k: int| 0 <= k < i ==> (#[trigger] queues@[k]).1 <= MAX_RUNTIME_EFFECT_CAPACITY,
            decreases 4 - i,
        {
            let (queue, capacity) = queues[i];
            if capacity > MAX_RUNTIME_EFFECT_CAPACITY {
                assert(i > 0 ==> queues@[0].1 <= MAX_RUNTIME_EFFECT_CAPACITY);
                assert(i > 1 ==> queues@[1].1 <= MAX_RUNTIME_EFFECT_CAPACITY);
                assert(i > 2 ==> queues@[2].1 <= MAX_RUNTIME_EFFECT_CAPACITY);
                return Err(RuntimeEffectConfigError::CapacityTooLarge { queue, capacity });
            }
            i = i + 1;
        }
        assert(queues@[0].1 <= MAX_RUNTIME_EFFECT_CAPACITY);
        assert(queues@[1].1 <= MAX_RUNTIME_EFFECT_CAPACITY);
        assert(queues@[2].1 <= MAX_RUNTIME_EFFECT_CAPACITY);
        assert(queues@[3].1 <= MAX_RUNTIME_EFFECT_CAPACITY);
        Ok(self)
    }
}

impl Default for RuntimeEffectConfig {
    fn default() -> (r: Self)
        ensures
            r == (RuntimeEffectConfig {
                request_capacity: 64,
                event_capacity: 64,
                timer_capacity: 64,
                option_plan_capacity: 64,
            }),
    {
        RuntimeEffectConfig {
            request_capacity: 64,
            event_capacity: 64,
            timer_capacity: 64,
            option_plan_capacity: 64,
        }
    }
}

/// Result that the owning configuration adapter will return for one exact
/// scheduler-issued option application.
#[derive(Clone, Debug, PartialEq, Eq)]
pub enum OptionApplicationOutcome {
    Applied,
    Failed(PublicError),
}

/// Bounded, exact-effect authority for an option application.
#[derive(Clone, Debug, PartialEq, Eq)]
pub struct OptionApplicationPlan {
    pub effect: TransitionEffect,
    pub outcome: OptionApplicationOutcome,
}

#[derive(Clone, Copy, Debug, PartialEq, Eq, Structural)]
pub enum OptionApplicationPlanError {
    NotOptionApplication,
}

impl OptionApplicationPlanError {
    /// The readable form of the error.
    pub fn message(self) -> (r: &'static str)
        ensures
            r@ == "runtime option plan does not describe ApplyOptionPatch"@,
    {
        "runtime option plan does not describe ApplyOptionPatch"
    }
}

impl OptionApplicationPlan {
    pub fn new(effect: TransitionEffect, outcome: OptionApplicationOutcome) -> (r: Result<
        Self,
        OptionApplicationPlanError,
    >)
        ensures
            r == (if effect is ApplyOptionPatch {
                Ok::<Self, OptionApplicationPlanError>(OptionApplicationPlan { effect, outcome })
            } else {
                Err::<Self, OptionApplicationPlanError>(OptionApplicationPlanError::NotOptionApplication)
            }),
    {
        match effect {
            TransitionEffect::ApplyOptionPatch { .. } => Ok(OptionApplicationPlan { effect, outcome }),
            _ => Err(OptionApplicationPlanError::NotOptionApplication),
        }
    }

    pub fn effect(&self) -> (r: &TransitionEffect)
        ensures
            *r == self.effect,
    {
        &self.effect
    }
}

#[derive(Clone, Debug, PartialEq, Eq)]
pub enum RuntimeEffectPreparation {
    OptionApplication(Box<OptionApplicationPlan>),
    DiscardOptionApplications,
}

#[derive(Clone, Copy, Debug, PartialEq, Eq, Structural)]
pub enum RuntimeEffectPrepareError {
    Full,
    Duplicate,
}

/// A queued cancellation.
#[derive(Clone, Copy, Debug, PartialEq, Eq, Structural)]
pub struct CancellationEntry {
    pub identity: RuntimeIdentity,
    pub force: bool,
}

/// A queued no-space probe.
#[derive(Debug, PartialEq, Eq)]
pub struct NoSpaceProbeEntry {
    pub probe: ProbeNoSpace,
    pub startup: Option<BoundNoSpaceProbe>,
}

/// A scheduled retry.
#[derive(Clone, Copy, Debug, PartialEq, Eq, Structural)]
pub struct RetryTimerEntry {
    pub identity: RuntimeIdentity,
    pub timer_id: RetryTimerId,
    pub at: MonotonicInstant,
}

/// A scheduled slow readmission.
#[derive(Clone, Copy, Debug, PartialEq, Eq, Structural)]
pub struct SlowTimerEntry {
    pub identity: RuntimeIdentity,
    pub readmission_id: SlowReadmissionId,
    pub at: MonotonicInstant,
}

/// Worker-side requests, events and timers.
pub struct RuntimeEffectHandle {
    pub closed: bool,
    pub bt_tasks: KeySet,
    pub request_capacity: usize,
    pub event_capacity: usize,
    pub timer_capacity: usize,
    pub allocations: Vec<RuntimeIdentity>,
    pub cancellations: Vec<CancellationEntry>,
    pub probes: Vec<NoSpaceProbeEntry>,
    pub events: Vec<TaskEventEnvelope>,
    pub retry_timers: Vec<RetryTimerEntry>,
    pub slow_timers: Vec<SlowTimerEntry>,
}

/// The contents of a mailbox.
#[verifier::ext_equal]
pub struct MailboxView {
    pub closed: bool,
    pub bt_tasks: Set<u128>,
    pub request_capacity: usize,
    pub event_capacity: usize,
    pub timer_capacity: usize,
    pub allocations: Seq<RuntimeIdentity>,
    pub cancellations: Seq<CancellationEntry>,
    pub probes: Seq<NoSpaceProbeEntry>,
    pub events: Seq<TaskEventEnvelope>,
    pub retry_timers: Seq<RetryTimerEntry>,
    pub slow_timers: Seq<SlowTimerEntry>,
}

impl MailboxView {
    pub open spec fn request_count(self) -> nat {
        self.allocations.len() + self.cancellations.len() + self.probes.len()
    }

    pub open spec fn timer_count(self) -> nat {
        self.retry_timers.len() + self.slow_timers.len()
    }

    /// Every queue keeps to its capacity.
    pub open spec fn bounded(self) -> bool {
        &&& self.request_count() <= self.request_capacity <= MAX_RUNTIME_EFFECT_CAPACITY
        &&& self.events.len() <= self.event_capacity <= MAX_RUNTIME_EFFECT_CAPACITY
        &&& self.timer_count() <= self.timer_capacity <= MAX_RUNTIME_EFFECT_CAPACITY
    }
}

impl View for RuntimeEffectHandle {
    type V = MailboxView;

    open spec fn view(&self) -> MailboxView {
        MailboxView {
            closed: self.closed,
            bt_tasks: self.bt_tasks@,
            request_capacity: self.request_capacity,
            event_capacity: self.event_capacity,
            timer_capacity: self.timer_capacity,
            allocations: self.allocations@,
            cancellations: self.cancellations@,
            probes: self.probes@,
            events: self.events@,
            retry_timers: self.retry_timers@,
            slow_timers: self.slow_timers@,
        }
    }
}

/// The earliest due key: by time, then GID, then identity; the first of equals.
pub open spec fn earliest_due(keys: Seq<OrderKey>, now: MonotonicInstant) -> Option<int>
    decreases keys.len(),
{
    if keys.len() == 0 {
        None
    } else {
        let rest = earliest_due(keys.drop_last(), now);
        if keys.last().rank > now.0 {
            rest
        } else {
            match rest {
                Some(i) => if key_le(keys[i], keys.last()) {
                    Some(i)
                } else {
                    Some(keys.len() - 1)
                },
                None => Some(keys.len() - 1),
            }
        }
    }
}

/// An earliest key is due, and no due key is earlier.
pub proof fn lemma_earliest_due(keys: Seq<OrderKey>, now: MonotonicInstant)
    ensures
        earliest_due(keys, now) matches Some(i) ==> 0 <= i < keys.len() && keys[i].rank <= now.0 && forall|k: int|
            0 <= k < keys.len() && (#[trigger] keys[k]).rank <= now.0 ==> key_le(keys[i], keys[k]),
        earliest_due(keys, now) is None ==> forall|k: int|
            0 <= k < keys.len() ==> (#[trigger] keys[k]).rank > now.0,
    decreases keys.len(),
{
    if keys.len() > 0 {
        let rest = keys.drop_last();
        lemma_earliest_due(rest, now);
        assert forall|k: int| 0 <= k < rest.len() implies rest[k] == #[trigger] keys[k] by {}
    }
}

fn find_earliest_due(keys: &Vec<OrderKey>, now: MonotonicInstant) -> (r: Option<usize>)
    ensures
        r is Some <==> earliest_due(keys@, now) is Some,
        r matches Some(i) ==> i < keys.len() && earliest_due(keys@, now) == Some(i as int),
{
    let mut best: Option<usize> = None;
    let mut i: usize = 0;
    while i < keys.len()
        invariant
            i <= keys.len(),
            best is Some <==> earliest_due(keys@.take(i as int), now) is Some,
            best matches Some(b) ==> b < i && earliest_due(keys@.take(i as int), now) == Some(b as int),
        decreases keys.len() - i,
    {
        proof {
            assert(keys@.take(i as int + 1).drop_last() =~= keys@.take(i as int));
        }
        if keys[i].rank <= now.0 {
            best = match best {
                Some(b) => if key_at_most(keys[b], keys[i]) {
                    Some(b)
                } else {
                    Some(i)
                },
                None => Some(i),
            };
        }
        i = i + 1;
    }
    assert(keys@.take(i as int) =~= keys@);
    best
}

/// The order keys of queued probes.
pub open spec fn probe_keys(probes: Seq<NoSpaceProbeEntry>) -> Seq<OrderKey> {
    probes.map_values(
        |p: NoSpaceProbeEntry|
            OrderKey { rank: p.probe.at.0, position: p.probe.identity.gid.0, id: p.probe.probe_id.0 },
    )
}

/// The order keys of retry timers.
pub open spec fn retry_keys(timers: Seq<RetryTimerEntry>) -> Seq<OrderKey> {
    timers.map_values(
        |t: RetryTimerEntry| OrderKey { rank: t.at.0, position: t.identity.gid.0, id: t.timer_id.0 },
    )
}

/// The order keys of slow readmission timers.
pub open spec fn slow_keys(timers: Seq<SlowTimerEntry>) -> Seq<OrderKey> {
    timers.map_values(
        |t: SlowTimerEntry|
            OrderKey { rank: t.at.0, position: t.identity.gid.0, id: t.readmission_id.0 },
    )
}

/// The first queued identity from `from` on whose membership in `owned` is `wanted`.
pub open spec fn first_by_owner(
    identities: Seq<RuntimeIdentity>,
    owned: Set<u128>,
    wanted: bool,
    from: int,
) -> Option<int>
    decreases identities.len() - from,
{
    if from < 0 || from >= identities.len() {
        None
    } else if owned.contains(identities[from].task_id.0 as u128) == wanted {
        Some(from)
    } else {
        first_by_owner(identities, owned, wanted, from + 1)
    }
}

/// The identities of queued cancellations.
pub open spec fn cancelled(entries: Seq<CancellationEntry>) -> Seq<RuntimeIdentity> {
    entries.map_values(|e: CancellationEntry| e.identity)
}

/// The first queued cancellation from `from` on of one attempt.
pub open spec fn cancellation_of(entries: Seq<CancellationEntry>, identity: RuntimeIdentity, from: int) -> Option<int>
    decreases entries.len() - from,
{
    if from < 0 || from >= entries.len() {
        None
    } else if entries[from].identity == identity {
        Some(from)
    } else {
        cancellation_of(entries, identity, from + 1)
    }
}

/// What a due retry timer reports.
pub open spec fn retry_report(timer: RetryTimerEntry) -> TaskEventEnvelope {
    TaskEventEnvelope {
        task_id: timer.identity.task_id,
        event: TaskEvent::RetryReady {
            gid: timer.identity.gid,
            generation: timer.identity.generation,
            retry_timer_id: timer.timer_id,
        },
    }
}

/// What a due slow readmission timer reports.
pub open spec fn slow_report(timer: SlowTimerEntry) -> TaskEventEnvelope {
    TaskEventEnvelope {
        task_id: timer.identity.task_id,
        event: TaskEvent::SlowReadmit {
            gid: timer.identity.gid,
            generation: timer.identity.generation,
            readmission_id: timer.readmission_id,
        },
    }
}

/// The next event and the mailbox without it: a worker result first, then the
/// earliest due timer, where a retry goes before a readmission of the same key.
pub open spec fn polled(mail: MailboxView, now: MonotonicInstant) -> (Option<TaskEventEnvelope>, MailboxView) {
    let retry = earliest_due(retry_keys(mail.retry_timers), now);
    let slow = earliest_due(slow_keys(mail.slow_timers), now);
    if mail.events.len() > 0 {
        (Some(mail.events[0]), MailboxView { events: mail.events.drop_first(), ..mail })
    } else if retry is Some && (slow is None || key_le(
        retry_keys(mail.retry_timers)[retry->0],
        slow_keys(mail.slow_timers)[slow->0],
    )) {
        (
            Some(retry_report(mail.retry_timers[retry->0])),
            MailboxView { retry_timers: mail.retry_timers.remove(retry->0), ..mail },
        )
    } else if slow is Some {
        (
            Some(slow_report(mail.slow_timers[slow->0])),
            MailboxView { slow_timers: mail.slow_timers.remove(slow->0), ..mail },
        )
    } else {
        (None, mail)
    }
}

fn retry_event(timer: RetryTimerEntry) -> (r: TaskEventEnvelope)
    ensures
        r == retry_report(timer),
{
    TaskEventEnvelope {
        task_id: timer.identity.task_id,
        event: TaskEvent::RetryReady {
            gid: timer.identity.gid,
            generation: timer.identity.generation,
            retry_timer_id: timer.timer_id,
        },
    }
}

fn slow_event(timer: SlowTimerEntry) -> (r: TaskEventEnvelope)
    ensures
        r == slow_report(timer),
{
    TaskEventEnvelope {
        task_id: timer.identity.task_id,
        event: TaskEvent::SlowReadmit {
            gid: timer.identity.gid,
            generation: timer.identity.generation,
            readmission_id: timer.readmission_id,
        },
    }
}

impl RuntimeEffectHandle {
    fn retry_timer_keys(&self) -> (keys: Vec<OrderKey>)
        ensures
            keys@ == retry_keys(self.retry_timers@),
    {
        let mut keys: Vec<OrderKey> = Vec::new();
        let mut i: usize = 0;
        while i < self.retry_timers.len()
            invariant
                i <= self.retry_timers.len(),
                keys@ == retry_keys(self.retry_timers@).take(i as int),
            decreases self.retry_timers.len() - i,
        {
            let t = self.retry_timers[i];
            keys.push(OrderKey { rank: t.at.0, position: t.identity.gid.0, id: t.timer_id.0 });
            i = i + 1;
            assert(keys@ =~= retry_keys(self.retry_timers@).take(i as int));
        }
        assert(keys@ =~= retry_keys(self.retry_timers@));
        keys
    }

    fn slow_timer_keys(&self) -> (keys: Vec<OrderKey>)
        ensures
            keys@ == slow_keys(self.slow_timers@),
    {
        let mut keys: Vec<OrderKey> = Vec::new();
        let mut i: usize = 0;
        while i < self.slow_timers.len()
            invariant
                i <= self.slow_timers.len(),
                keys@ == slow_keys(self.slow_timers@).take(i as int),
            decreases self.slow_timers.len() - i,
        {
            let t = self.slow_timers[i];
            keys.push(OrderKey { rank: t.at.0, position: t.identity.gid.0, id: t.readmission_id.0 });
            i = i + 1;
            assert(keys@ =~= slow_keys(self.slow_timers@).take(i as int));
        }
        assert(keys@ =~= slow_keys(self.slow_timers@));
        keys
    }

    /// Returns a worker result first, then the earliest due scheduler timer.
    pub fn poll_event_at(&mut self, now: MonotonicInstant) -> (r: Option<TaskEventEnvelope>)
        ensures
            (r, final(self)@) == polled(old(self)@, now),
            old(self)@.bounded() ==> final(self)@.bounded(),
    {
        if self.events.len() > 0 {
            let event = self.events.remove(0);
            assert(self.events@ =~= old(self).events@.drop_first());
            return Some(event);
        }
        let retry_order = self.retry_timer_keys();
        let slow_order = self.slow_timer_keys();
        let retry = find_earliest_due(&retry_order, now);
        let slow = find_earliest_due(&slow_order, now);
        let event = match (retry, slow) {
            (None, None) => None,
            (Some(index), None) => Some(retry_event(self.retry_timers.remove(index))),
            (None, Some(index)) => Some(slow_event(self.slow_timers.remove(index))),
            (Some(retry_index), Some(slow_index)) => {
                if key_at_most(retry_order[retry_index], slow_order[slow_index]) {
                    Some(retry_event(self.retry_timers.remove(retry_index)))
                } else {
                    Some(slow_event(self.slow_timers.remove(slow_index)))
                }
            },
        };
        event
    }

    /// Marks a task as served by the torrent worker.
    pub fn register_bt_task(&mut self, task: TaskId)
        ensures
            final(self)@ == (MailboxView { bt_tasks: old(self)@.bt_tasks.insert(task.0 as u128), ..old(self)@ }),
    {
        self.bt_tasks.insert(task.0 as u128);
    }

    pub fn unregister_bt_task(&mut self, task: TaskId)
        ensures
            final(self)@ == (MailboxView { bt_tasks: old(self)@.bt_tasks.remove(task.0 as u128), ..old(self)@ }),
    {
        self.bt_tasks.remove(task.0 as u128);
    }

    fn allocation_index(&self, owned: &KeySet, wanted: bool) -> (r: Option<usize>)
        ensures
            r is Some <==> first_by_owner(self.allocations@, owned@, wanted, 0) is Some,
            r matches Some(i) ==> i < self.allocations.len() && first_by_owner(
                self.allocations@,
                owned@,
                wanted,
                0,
            ) == Some(i as int),
    {
        let mut i: usize = 0;
        while i < self.allocations.len()
            invariant
                i <= self.allocations.len(),
                first_by_owner(self.allocations@, owned@, wanted, 0) == first_by_owner(
                    self.allocations@,
                    owned@,
                    wanted,
                    i as int,
                ),
            decreases self.allocations.len() - i,
        {
            if owned.contains(self.allocations[i].task_id.0 as u128) == wanted {
                return Some(i);
            }
            i = i + 1;
        }
        None
    }

    fn cancellation_index(&self, owned: &KeySet, wanted: bool) -> (r: Option<usize>)
        ensures
            r is Some <==> first_by_owner(cancelled(self.cancellations@), owned@, wanted, 0) is Some,
            r matches Some(i) ==> i < self.cancellations.len() && first_by_owner(
                cancelled(self.cancellations@),
                owned@,
                wanted,
                0,
            ) == Some(i as int),
    {
        let mut i: usize = 0;
        while i < self.cancellations.len()
            invariant
                i <= self.cancellations.len(),
                first_by_owner(cancelled(self.cancellations@), owned@, wanted, 0) == first_by_owner(
                    cancelled(self.cancellations@),
                    owned@,
                    wanted,
                    i as int,
                ),
            decreases self.cancellations.len() - i,
        {
            assert(cancelled(self.cancellations@)[i as int] == self.cancellations@[i as int].identity);
            if owned.contains(self.cancellations[i].identity.task_id.0 as u128) == wanted {
                return Some(i);
            }
            i = i + 1;
        }
        None
    }

    /// Takes the first allocation of a task in `owned`; the others keep their order.
    pub fn take_allocation_matching(&mut self, owned: &KeySet) -> (r: Option<AllocationRequest>)
        ensures
            (r, final(self)@) == taken_allocation(old(self)@, owned@, true),
            old(self)@.bounded() ==> final(self)@.bounded(),
    {
        match self.allocation_index(owned, true) {
            Some(index) => Some(AllocationRequest { identity: self.allocations.remove(index) }),
            None => None,
        }
    }

    /// Takes the first cancellation of a task in `owned`; the others keep their order.
    pub fn take_cancellation_matching(&mut self, owned: &KeySet) -> (r: Option<CancellationRequest>)
        ensures
            (r, final(self)@) == taken_cancellation(
                old(self)@,
                first_by_owner(cancelled(old(self)@.cancellations), owned@, true, 0),
            ),
            old(self)@.bounded() ==> final(self)@.bounded(),
    {
        match self.cancellation_index(owned, true) {
            Some(index) => {
                let entry = self.cancellations.remove(index);
                Some(CancellationRequest { identity: entry.identity, force: entry.force })
            },
            None => None,
        }
    }

    /// Takes the first allocation that is not for the torrent worker.
    pub fn take_allocation(&mut self) -> (r: Option<AllocationRequest>)
        ensures
            (r, final(self)@) == taken_allocation(old(self)@, old(self)@.bt_tasks, false),
            old(self)@.bounded() ==> final(self)@.bounded(),
    {
        match self.allocation_index(&self.bt_tasks, false) {
            Some(index) => Some(AllocationRequest { identity: self.allocations.remove(index) }),
            None => None,
        }
    }

    /// Takes the first cancellation that is not for the torrent worker.
    pub fn take_cancellation(&mut self) -> (r: Option<CancellationRequest>)
        ensures
            (r, final(self)@) == taken_cancellation(
                old(self)@,
                first_by_owner(cancelled(old(self)@.cancellations), old(self)@.bt_tasks, false, 0),
            ),
            old(self)@.bounded() ==> final(self)@.bounded(),
    {
        match self.cancellation_index(&self.bt_tasks, false) {
            Some(index) => {
                let entry = self.cancellations.remove(index);
                Some(CancellationRequest { identity: entry.identity, force: entry.force })
            },
            None => None,
        }
    }

    /// Takes the first cancellation of exactly this attempt.
    pub fn take_cancellation_for(&mut self, task_id: TaskId, gid: Gid, generation: Generation) -> (r: Option<
        CancellationRequest,
    >)
        ensures
            (r, final(self)@) == taken_cancellation(
                old(self)@,
                cancellation_of(old(self)@.cancellations, RuntimeIdentity { task_id, gid, generation }, 0),
            ),
            old(self)@.bounded() ==> final(self)@.bounded(),
    {
        let identity = RuntimeIdentity { task_id, gid, generation };
        let mut i: usize = 0;
        while i < self.cancellations.len()
            invariant
                i <= self.cancellations.len(),
                *self == *old(self),
                identity == (RuntimeIdentity { task_id, gid, generation }),
                cancellation_of(self.cancellations@, identity, 0) == cancellation_of(
                    self.cancellations@,
                    identity,
                    i as int,
                ),
            decreases self.cancellations.len() - i,
        {
            if self.cancellations[i].identity == identity {
                let entry = self.cancellations.remove(i);
                return Some(CancellationRequest { identity: entry.identity, force: entry.force });
            }
            i = i + 1;
        }
        None
    }

    /// Takes the earliest no-space probe that is due.
    pub fn take_no_space_probe_at(&mut self, now: MonotonicInstant) -> (r: Option<NoSpaceProbeRequest>)
        ensures
            (r, final(self)@) == taken_probe(old(self)@, now),
            old(self)@.bounded() ==> final(self)@.bounded(),
    {
        let mut keys: Vec<OrderKey> = Vec::new();
        let mut i: usize = 0;
        while i < self.probes.len()
            invariant
                i <= self.probes.len(),
                *self == *old(self),
                keys@ == probe_keys(self.probes@).take(i as int),
            decreases self.probes.len() - i,
        {
            let probe = self.probes[i].probe;
            keys.push(OrderKey { rank: probe.at.0, position: probe.identity.gid.0, id: probe.probe_id.0 });
            i = i + 1;
            assert(keys@ =~= probe_keys(self.probes@).take(i as int));
        }
        assert(keys@ =~= probe_keys(self.probes@));
        match find_earliest_due(&keys, now) {
            Some(index) => {
                let entry = self.probes.remove(index);
                Some(NoSpaceProbeRequest { probe: entry.probe, startup: entry.startup })
            },
            None => None,
        }
    }

    /// Queues a worker event. A closed mailbox refuses before a full one, and
    /// the refusal hands the event back.
    pub fn try_submit_event(&mut self, submission: RuntimeEventSubmission) -> (r: Result<
        (),
        RuntimeEventRejection,
    >)
        requires
            old(self)@.bounded(),
        ensures
            r == (match submit_fault(old(self)@) {
                Some(error) => Err::<(), RuntimeEventRejection>(
                    RuntimeEventRejection { submission: Box::new(submission), error },
                ),
                None => Ok::<(), RuntimeEventRejection>(()),
            }),
            final(self)@ == (if submit_fault(old(self)@) is Some {
                old(self)@
            } else {
                MailboxView { events: old(self)@.events.push(submission.event), ..old(self)@ }
            }),
            final(self)@.bounded(),
    {
        if self.closed {
            return Err(
                RuntimeEventRejection {
                    submission: Box::new(submission),
                    error: RuntimeEventSubmitError::Closed,
                },
            );
        }
        if self.events.len() == self.event_capacity {
            return Err(
                RuntimeEventRejection { submission: Box::new(submission), error: RuntimeEventSubmitError::Full },
            );
        }
        self.events.push(submission.event);
        Ok(())
    }

    pub fn close(&mut self)
        ensures
            final(self)@ == (MailboxView { closed: true, ..old(self)@ }),
    {
        self.closed = true;
    }

    pub fn is_closed(&self) -> (r: bool)
        ensures
            r == self@.closed,
    {
        self.closed
    }
}

/// Why a mailbox refuses an event.
pub open spec fn submit_fault(mail: MailboxView) -> Option<RuntimeEventSubmitError> {
    if mail.closed {
        Some(RuntimeEventSubmitError::Closed)
    } else if mail.events.len() == mail.event_capacity {
        Some(RuntimeEventSubmitError::Full)
    } else {
        None
    }
}

/// The allocation taken by owner, and the mailbox without it.
pub open spec fn taken_allocation(mail: MailboxView, owned: Set<u128>, wanted: bool) -> (
    Option<AllocationRequest>,
    MailboxView,
) {
    match first_by_owner(mail.allocations, owned, wanted, 0) {
        Some(i) => (
            Some(AllocationRequest { identity: mail.allocations[i] }),
            MailboxView { allocations: mail.allocations.remove(i), ..mail },
        ),
        None => (None, mail),
    }
}

/// The cancellation at an index, and the mailbox without it.
pub open spec fn taken_cancellation(mail: MailboxView, index: Option<int>) -> (
    Option<CancellationRequest>,
    MailboxView,
) {
    match index {
        Some(i) => (
            Some(
                CancellationRequest {
                    identity: mail.cancellations[i].identity,
                    force: mail.cancellations[i].force,
                },
            ),
            MailboxView { cancellations: mail.cancellations.remove(i), ..mail },
        ),
        None => (None, mail),
    }
}

/// The earliest due probe, and the mailbox without it.
pub open spec fn taken_probe(mail: MailboxView, now: MonotonicInstant) -> (Option<NoSpaceProbeRequest>, MailboxView) {
    match earliest_due(probe_keys(mail.probes), now) {
        Some(i) => (
            Some(NoSpaceProbeRequest { probe: mail.probes[i].probe, startup: mail.probes[i].startup }),
            MailboxView { probes: mail.probes.remove(i), ..mail },
        ),
        None => (None, mail),
    }
}

/// An event on its way to the scheduler.
#[derive(Clone, Debug, PartialEq, Eq)]
pub struct RuntimeEventSubmission {
    pub event: TaskEventEnvelope,
}

impl RuntimeEventSubmission {
    pub fn event(&self) -> (r: &TaskEventEnvelope)
        ensures
            *r == self.event,
    {
        &self.event
    }

    /// What an attempt reports of itself.
    pub open spec fn reports(self, identity: RuntimeIdentity, event: TaskEvent) -> bool {
        self.event == (TaskEventEnvelope { task_id: identity.task_id, event })
    }
}

fn submission(identity: RuntimeIdentity, event: TaskEvent) -> (r: RuntimeEventSubmission)
    ensures
        r.reports(identity, event),
{
    RuntimeEventSubmission { event: TaskEventEnvelope { task_id: identity.task_id, event } }
}

#[derive(Clone, Copy, Debug, PartialEq, Eq, Structural)]
pub enum RuntimeEventSubmitError {
    Full,
    Closed,
}

/// An event that the mailbox did not take.
#[derive(Debug, PartialEq, Eq)]
pub struct RuntimeEventRejection {
    pub submission: Box<RuntimeEventSubmission>,
    pub error: RuntimeEventSubmitError,
}

impl RuntimeEventRejection {
    pub fn error(&self) -> (r: RuntimeEventSubmitError)
        ensures
            r == self.error,
    {
        self.error
    }

    pub fn into_submission(self) -> (r: RuntimeEventSubmission)
        ensures
            r == *self.submission,
    {
        *self.submission
    }
}

/// Authority over one allocation attempt.
#[derive(Debug, PartialEq, Eq)]
pub struct AllocationRequest {
    pub identity: RuntimeIdentity,
}

impl AllocationRequest {
    pub fn task_id(&self) -> (r: TaskId)
        ensures
            r == self.identity.task_id,
    {
        self.identity.task_id
    }

    pub fn gid(&self) -> (r: Gid)
        ensures
            r == self.identity.gid,
    {
        self.identity.gid
    }

    pub fn generation(&self) -> (r: Generation)
        ensures
            r == self.identity.generation,
    {
        self.identity.generation
    }

    pub fn succeeded(self) -> (r: RuntimeEventSubmission)
        ensures
            r.reports(
                self.identity,
                TaskEvent::AllocationSucceeded { gid: self.identity.gid, generation: self.identity.generation },
            ),
    {
        submission(
            self.identity,
            TaskEvent::AllocationSucceeded { gid: self.identity.gid, generation: self.identity.generation },
        )
    }

    pub fn activate(self) -> (r: (RuntimeEventSubmission, ActiveTransferRequest))
        ensures
            r.0.reports(
                self.identity,
                TaskEvent::AllocationSucceeded { gid: self.identity.gid, generation: self.identity.generation },
            ),
            r.1.identity == self.identity,
    {
        (
            submission(
                self.identity,
                TaskEvent::AllocationSucceeded { gid: self.identity.gid, generation: self.identity.generation },
            ),
            ActiveTransferRequest { identity: self.identity },
        )
    }

    pub fn retryable(self, retry_at: MonotonicInstant) -> (r: RuntimeEventSubmission)
        ensures
            r.reports(
                self.identity,
                TaskEvent::AllocationRetryable { gid: self.identity.gid, generation: self.identity.generation, retry_at },
            ),
    {
        submission(
            self.identity,
            TaskEvent::AllocationRetryable { gid: self.identity.gid, generation: self.identity.generation, retry_at },
        )
    }

    pub fn host_key_challenge(self, challenge: PresentedHostKeyChallenge) -> (r: RuntimeEventSubmission)
        ensures
            r.reports(
                self.identity,
                TaskEvent::AllocationHostKeyChallenge { gid: self.identity.gid, generation: self.identity.generation, challenge },
            ),
    {
        submission(
            self.identity,
            TaskEvent::AllocationHostKeyChallenge { gid: self.identity.gid, generation: self.identity.generation, challenge },
        )
    }

    pub fn failed(self, error: PublicError) -> (r: RuntimeEventSubmission)
        ensures
            r.reports(
                self.identity,
                TaskEvent::AllocationFailed { gid: self.identity.gid, generation: self.identity.generation, error },
            ),
    {
        submission(
            self.identity,
            TaskEvent::AllocationFailed { gid: self.identity.gid, generation: self.identity.generation, error },
        )
    }
}

/// Move-only authority for one scheduler-visible active transfer generation.
#[derive(Debug, PartialEq, Eq)]
pub struct ActiveTransferRequest {
    pub identity: RuntimeIdentity,
}

impl ActiveTransferRequest {
    pub fn task_id(&self) -> (r: TaskId)
        ensures
            r == self.identity.task_id,
    {
        self.identity.task_id
    }

    pub fn gid(&self) -> (r: Gid)
        ensures
            r == self.identity.gid,
    {
        self.identity.gid
    }

    pub fn generation(&self) -> (r: Generation)
        ensures
            r == self.identity.generation,
    {
        self.identity.generation
    }

    /// Transfers ownership to the seeding lifecycle after verified data completion.
    pub fn start_seeding(self) -> (r: (RuntimeEventSubmission, SeedingRequest))
        ensures
            r.0.reports(
                self.identity,
                TaskEvent::DataComplete { gid: self.identity.gid, generation: self.identity.generation, seed: true },
            ),
            r.1.identity == self.identity,
    {
        (
            submission(
                self.identity,
                TaskEvent::DataComplete { gid: self.identity.gid, generation: self.identity.generation, seed: true },
            ),
            SeedingRequest { identity: self.identity },
        )
    }

    /// The supervisor may consume this only after the worker has joined.
    pub fn host_key_challenge(self, challenge: PresentedHostKeyChallenge) -> (r: RuntimeEventSubmission)
        ensures
            r.reports(
                self.identity,
                TaskEvent::ActiveHostKeyChallenge { gid: self.identity.gid, generation: self.identity.generation, challenge },
            ),
    {
        submission(
            self.identity,
            TaskEvent::ActiveHostKeyChallenge { gid: self.identity.gid, generation: self.identity.generation, challenge },
        )
    }

    pub fn retryable(self, retry_at: MonotonicInstant) -> (r: RuntimeEventSubmission)
        ensures
            r.reports(
                self.identity,
                TaskEvent::ActiveRetryIdle { gid: self.identity.gid, generation: self.identity.generation, retry_at },
            ),
    {
        submission(
            self.identity,
            TaskEvent::ActiveRetryIdle { gid: self.identity.gid, generation: self.identity.generation, retry_at },
        )
    }

    /// Requests a newly persisted generation after the worker has drained.
    pub fn restart_representation(self) -> (r: RuntimeEventSubmission)
        ensures
            r.reports(
                self.identity,
                TaskEvent::ActiveRepresentationRestart { gid: self.identity.gid, generation: self.identity.generation },
            ),
    {
        submission(
            self.identity,
            TaskEvent::ActiveRepresentationRestart { gid: self.identity.gid, generation: self.identity.generation },
        )
    }

    pub fn failed(self, error: PublicError) -> (r: RuntimeEventSubmission)
        ensures
            r.reports(
                self.identity,
                TaskEvent::TerminalFailure { gid: self.identity.gid, generation: self.identity.generation, error },
            ),
    {
        submission(
            self.identity,
            TaskEvent::TerminalFailure { gid: self.identity.gid, generation: self.identity.generation, error },
        )
    }

    pub fn data_complete(self, seed: bool) -> (r: (RuntimeEventSubmission, VerifyingTransferRequest))
        ensures
            r.0.reports(
                self.identity,
                TaskEvent::DataComplete { gid: self.identity.gid, generation: self.identity.generation, seed },
            ),
            r.1.identity == self.identity,
    {
        (
            submission(
                self.identity,
                TaskEvent::DataComplete { gid: self.identity.gid, generation: self.identity.generation, seed },
            ),
            VerifyingTransferRequest { identity: self.identity },
        )
    }
}

/// Move-only authority created only after the scheduler-visible data-complete
/// transition has been queued.
#[derive(Debug, PartialEq, Eq)]
pub struct VerifyingTransferRequest {
    pub identity: RuntimeIdentity,
}

impl VerifyingTransferRequest {
    pub fn succeeded(self) -> (r: RuntimeEventSubmission)
        ensures
            r.reports(
                self.identity,
                TaskEvent::VerificationSucceeded { gid: self.identity.gid, generation: self.identity.generation },
            ),
    {
        submission(
            self.identity,
            TaskEvent::VerificationSucceeded { gid: self.identity.gid, generation: self.identity.generation },
        )
    }

    pub fn recoverable(self) -> (r: RuntimeEventSubmission)
        ensures
            r.reports(
                self.identity,
                TaskEvent::VerificationRecoverable { gid: self.identity.gid, generation: self.identity.generation },
            ),
    {
        submission(
            self.identity,
            TaskEvent::VerificationRecoverable { gid: self.identity.gid, generation: self.identity.generation },
        )
    }

    pub fn failed(self, error: PublicError) -> (r: RuntimeEventSubmission)
        ensures
            r.reports(
                self.identity,
                TaskEvent::VerificationFailed { gid: self.identity.gid, generation: self.identity.generation, error },
            ),
    {
        submission(
            self.identity,
            TaskEvent::VerificationFailed { gid: self.identity.gid, generation: self.identity.generation, error },
        )
    }
}

/// Authority over one seeding generation.
#[derive(Debug, PartialEq, Eq)]
pub struct SeedingRequest {
    pub identity: RuntimeIdentity,
}

impl SeedingRequest {
    pub fn complete(self) -> (r: RuntimeEventSubmission)
        ensures
            r.reports(
                self.identity,
                TaskEvent::SeedingComplete { gid: self.identity.gid, generation: self.identity.generation },
            ),
    {
        submission(
            self.identity,
            TaskEvent::SeedingComplete { gid: self.identity.gid, generation: self.identity.generation },
        )
    }

    pub fn failed(self, error: PublicError) -> (r: RuntimeEventSubmission)
        ensures
            r.reports(
                self.identity,
                TaskEvent::SeedingFailed { gid: self.identity.gid, generation: self.identity.generation, error },
            ),
    {
        submission(
            self.identity,
            TaskEvent::SeedingFailed { gid: self.identity.gid, generation: self.identity.generation, error },
        )
    }
}

/// Authority over one cancellation.
#[derive(Debug, PartialEq, Eq)]
pub struct CancellationRequest {
    pub identity: RuntimeIdentity,
    pub force: bool,
}

impl CancellationRequest {
    pub fn task_id(&self) -> (r: TaskId)
        ensures
            r == self.identity.task_id,
    {
        self.identity.task_id
    }

    pub fn gid(&self) -> (r: Gid)
        ensures
            r == self.identity.gid,
    {
        self.identity.gid
    }

    pub fn generation(&self) -> (r: Generation)
        ensures
            r == self.identity.generation,
    {
        self.identity.generation
    }

    pub fn force(&self) -> (r: bool)
        ensures
            r == self.force,
    {
        self.force
    }

    pub fn drained(self) -> (r: RuntimeEventSubmission)
        ensures
            r.reports(
                self.identity,
                TaskEvent::CancellationDrained { gid: self.identity.gid, generation: self.identity.generation },
            ),
    {
        submission(
            self.identity,
            TaskEvent::CancellationDrained { gid: self.identity.gid, generation: self.identity.generation },
        )
    }
}

/// Authority over one no-space probe.
#[derive(Debug, PartialEq, Eq)]
pub struct NoSpaceProbeRequest {
    pub probe: ProbeNoSpace,
    pub startup: Option<BoundNoSpaceProbe>,
}

impl NoSpaceProbeRequest {
    pub fn task_id(&self) -> (r: TaskId)
        ensures
            r == self.probe.identity.task_id,
    {
        self.probe.identity.task_id
    }

    pub fn gid(&self) -> (r: Gid)
        ensures
            r == self.probe.identity.gid,
    {
        self.probe.identity.gid
    }

    pub fn generation(&self) -> (r: Generation)
        ensures
            r == self.probe.identity.generation,
    {
        self.probe.identity.generation
    }

    pub fn probe_id(&self) -> (r: NoSpaceProbeId)
        ensures
            r == self.probe.probe_id,
    {
        self.probe.probe_id
    }

    pub fn origin(&self) -> (r: NoSpaceProbeOrigin)
        ensures
            r == self.probe.origin,
    {
        self.probe.origin
    }

    pub fn at(&self) -> (r: MonotonicInstant)
        ensures
            r == self.probe.at,
    {
        self.probe.at
    }

    /// The path that startup recovery bound to this probe.
    pub fn startup_target(&self) -> (r: Option<&PlatformPath>)
        ensures
            r == (match self.startup {
                Some(bound) => Some(&bound.target),
                None => None::<&PlatformPath>,
            }),
    {
        match &self.startup {
            Some(bound) => Some(bound.target()),
            None => None,
        }
    }

    pub fn completed(self, ready: bool, next_retry_at: Option<MonotonicInstant>) -> (r: RuntimeEventSubmission)
        ensures
            r.reports(
                self.probe.identity,
                TaskEvent::NoSpaceProbeCompleted {
                    gid: self.probe.identity.gid,
                    generation: self.probe.identity.generation,
                    probe_id: self.probe.probe_id,
                    origin: self.probe.origin,
                    ready,
                    next_retry_at,
                },
            ),
    {
        submission(
            self.probe.identity,
            TaskEvent::NoSpaceProbeCompleted {
                gid: self.probe.identity.gid,
                generation: self.probe.identity.generation,
                probe_id: self.probe.probe_id,
                origin: self.probe.origin,
                ready,
                next_retry_at,
            },
        )
    }
}

/// Worker events come out before any timer, in the order they went in.
pub proof fn law_worker_events_come_first(mail: MailboxView, now: MonotonicInstant)
    requires
        mail.events.len() > 0,
    ensures
        polled(mail, now).0 == Some(mail.events[0]),
        polled(mail, now).1.retry_timers == mail.retry_timers,
        polled(mail, now).1.slow_timers == mail.slow_timers,
{
}

/// A timer never reports before it is due, and no timer that is left would
/// have been due earlier than the one reported.
pub proof fn law_timers_report_in_order(mail: MailboxView, now: MonotonicInstant)
    requires
        mail.events.len() == 0,
    ensures
        match polled(mail, now).0 {
            Some(event) => exists|at: u64|
                at <= now.0 && no_timer_before(mail, at) && #[trigger] timer_reports(mail, event, at),
            None => no_timer_due(mail, now),
        },
{
    let retries = retry_keys(mail.retry_timers);
    let slows = slow_keys(mail.slow_timers);
    lemma_earliest_due(retries, now);
    lemma_earliest_due(slows, now);
    let retry = earliest_due(retries, now);
    let slow = earliest_due(slows, now);
    assert forall|i: int| 0 <= i < mail.retry_timers.len() implies (#[trigger] mail.retry_timers[i]).at.0
        == retries[i].rank by {}
    assert forall|i: int| 0 <= i < mail.slow_timers.len() implies (#[trigger] mail.slow_timers[i]).at.0
        == slows[i].rank by {}
    if retry is Some && (slow is None || key_le(retries[retry->0], slows[slow->0])) {
        assert(mail.retry_timers[retry->0].at.0 == retries[retry->0].rank);
        assert(timer_reports(mail, polled(mail, now).0->0, mail.retry_timers[retry->0].at.0));
    } else if slow is Some {
        assert(mail.slow_timers[slow->0].at.0 == slows[slow->0].rank);
        assert(timer_reports(mail, polled(mail, now).0->0, mail.slow_timers[slow->0].at.0));
    }
}

/// Some timer set for `at` reports `event`.
pub open spec fn timer_reports(mail: MailboxView, event: TaskEventEnvelope, at: u64) -> bool {
    ||| exists|i: int|
        0 <= i < mail.retry_timers.len() && (#[trigger] mail.retry_timers[i]).at.0 == at && event == retry_report(
            mail.retry_timers[i],
        )
    ||| exists|i: int|
        0 <= i < mail.slow_timers.len() && (#[trigger] mail.slow_timers[i]).at.0 == at && event == slow_report(
            mail.slow_timers[i],
        )
}

/// No timer is set for before `at`.
pub open spec fn no_timer_before(mail: MailboxView, at: u64) -> bool {
    &&& forall|i: int| 0 <= i < mail.retry_timers.len() ==> (#[trigger] mail.retry_timers[i]).at.0 >= at
    &&& forall|i: int| 0 <= i < mail.slow_timers.len() ==> (#[trigger] mail.slow_timers[i]).at.0 >= at
}

/// No timer is due by `now`.
pub open spec fn no_timer_due(mail: MailboxView, now: MonotonicInstant) -> bool {
    &&& forall|i: int| 0 <= i < mail.retry_timers.len() ==> (#[trigger] mail.retry_timers[i]).at.0 > now.0
    &&& forall|i: int| 0 <= i < mail.slow_timers.len() ==> (#[trigger] mail.slow_timers[i]).at.0 > now.0
}

} // verus!
