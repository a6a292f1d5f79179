//! The scheduler side of the runtime adapter: every effect is queued, answered
//! at once, held back for want of room, or refused.
use vstd::prelude::*;
use crate::effects::{
    DispatchPoll, DispatchedEffect, EffectCompletion, EffectDispatchId, ProbeNoSpace, RetryTimerId, RuntimeIdentity,
    SlowReadmissionId, TaskEvent, TaskEventEnvelope, TransitionEffect,
};
use crate::index::KeySet;
use crate::probe_targets::{
    after_binding, bound_for, consume_error, held, NoSpaceProbeTargetCatalog, NoSpaceProbeTargetEntry,
};
use crate::runtime_effects::{
    CancellationEntry, MailboxView, NoSpaceProbeEntry, OptionApplicationOutcome, OptionApplicationPlan,
    RetryTimerEntry, RuntimeEffectConfig, RuntimeEffectConfigError, RuntimeEffectHandle, RuntimeEffectPreparation,
    RuntimeEffectPrepareError, SlowTimerEntry,
};
use crate::session::{MonotonicInstant, NoSpaceProbeOrigin};

verus! {

/// Concrete bounded adapter for scheduler-owned worker, timer, cancellation,
/// no-space, and option-application effects.
pub struct RuntimeSchedulerEffectSink {
    pub no_space_targets: NoSpaceProbeTargetCatalog,
    pub option_plan_capacity: usize,
    pub option_plans: Vec<OptionApplicationPlan>,
    pub immediate: Option<EffectCompletion>,
}

/// The contents of a sink.
#[verifier::ext_equal]
pub struct SinkView {
    pub targets: Seq<NoSpaceProbeTargetEntry>,
    pub option_plan_capacity: usize,
    pub option_plans: Seq<OptionApplicationPlan>,
    pub immediate: Option<EffectCompletion>,
}

impl SinkView {
    /// The catalog of plans keeps to its capacity and holds no effect twice.
    pub open spec fn bounded(self) -> bool {
        &&& self.option_plans.len() <= self.option_plan_capacity
        &&& forall|i: int, j: int|
            0 <= i < j < self.option_plans.len() ==> (#[trigger] self.option_plans[i]).effect != (
            #[trigger] self.option_plans[j]).effect
    }
}

impl View for RuntimeSchedulerEffectSink {
    type V = SinkView;

    open spec fn view(&self) -> SinkView {
        SinkView {
            targets: self.no_space_targets@,
            option_plan_capacity: self.option_plan_capacity,
            option_plans: self.option_plans@,
            immediate: self.immediate,
        }
    }
}

/// What comes of dispatching an effect.
#[verifier::ext_equal]
pub struct Dispatched {
    pub poll: DispatchPoll,
    pub sink: SinkView,
    pub mail: MailboxView,
}

/// The first plan from `from` on for exactly this effect.
pub open spec fn plan_for(plans: Seq<OptionApplicationPlan>, effect: TransitionEffect, from: int) -> Option<int>
    decreases plans.len() - from,
{
    if from < 0 || from >= plans.len() {
        None
    } else if plans[from].effect == effect {
        Some(from)
    } else {
        plan_for(plans, effect, from + 1)
    }
}

/// The first retry timer from `from` on of an attempt.
pub open spec fn retry_for(
    timers: Seq<RetryTimerEntry>,
    identity: RuntimeIdentity,
    id: RetryTimerId,
    from: int,
) -> Option<int>
    decreases timers.len() - from,
{
    if from < 0 || from >= timers.len() {
        None
    } else if timers[from].identity == identity && timers[from].timer_id == id {
        Some(from)
    } else {
        retry_for(timers, identity, id, from + 1)
    }
}

/// The first slow readmission timer from `from` on of an attempt.
pub open spec fn slow_for(
    timers: Seq<SlowTimerEntry>,
    identity: RuntimeIdentity,
    id: SlowReadmissionId,
    from: int,
) -> Option<int>
    decreases timers.len() - from,
{
    if from < 0 || from >= timers.len() {
        None
    } else if timers[from].identity == identity && timers[from].readmission_id == id {
        Some(from)
    } else {
        slow_for(timers, identity, id, from + 1)
    }
}

/// The retry timers other than the one named.
pub open spec fn without_retry(
    timers: Seq<RetryTimerEntry>,
    identity: RuntimeIdentity,
    id: RetryTimerId,
) -> Seq<RetryTimerEntry> {
    timers.filter(|t: RetryTimerEntry| t.identity != identity || t.timer_id != id)
}

/// The slow readmission timers other than the one named.
pub open spec fn without_slow(
    timers: Seq<SlowTimerEntry>,
    identity: RuntimeIdentity,
    id: SlowReadmissionId,
) -> Seq<SlowTimerEntry> {
    timers.filter(|t: SlowTimerEntry| t.identity != identity || t.readmission_id != id)
}

/// A sink that answers at once.
pub open spec fn answered(sink: SinkView, completion: EffectCompletion) -> SinkView {
    SinkView { immediate: Some(completion), ..sink }
}

/// The plain completion of a dispatch.
pub open spec fn completed(dispatch_id: EffectDispatchId) -> EffectCompletion {
    EffectCompletion::Completed { dispatch_id, acknowledgement: None }
}

/// What the scheduler is told of a planned option application.
pub open spec fn application_report(
    dispatched: DispatchedEffect,
    outcome: OptionApplicationOutcome,
) -> EffectCompletion {
    let effect = dispatched.effect;
    EffectCompletion::Completed {
        dispatch_id: dispatched.dispatch_id,
        acknowledgement: Some(
            TaskEventEnvelope {
                task_id: effect->ApplyOptionPatch_task_id,
                event: match outcome {
                    OptionApplicationOutcome::Applied => TaskEvent::OptionPatchApplied {
                        gid: effect->ApplyOptionPatch_gid,
                        generation: dispatched.task_generation,
                        patch_id: effect->ApplyOptionPatch_patch_id,
                    },
                    OptionApplicationOutcome::Failed(error) => TaskEvent::OptionPatchApplicationFailed {
                        gid: effect->ApplyOptionPatch_gid,
                        generation: dispatched.task_generation,
                        patch_id: effect->ApplyOptionPatch_patch_id,
                        error,
                    },
                },
            },
        ),
    }
}

/// An effect that is done as soon as `mail` holds it.
pub open spec fn accepted(dispatched: DispatchedEffect, sink: SinkView, mail: MailboxView) -> Dispatched {
    Dispatched { poll: DispatchPoll::Accepted, sink: answered(sink, completed(dispatched.dispatch_id)), mail }
}

/// An effect that is answered by a failure.
pub open spec fn failed(dispatched: DispatchedEffect, sink: SinkView, mail: MailboxView) -> Dispatched {
    Dispatched {
        poll: DispatchPoll::Accepted,
        sink: answered(
            sink,
            EffectCompletion::UnrepresentableFailure { dispatch_id: dispatched.dispatch_id },
        ),
        mail,
    }
}

/// An effect that is left for later or refused.
pub open spec fn untouched(poll: DispatchPoll, sink: SinkView, mail: MailboxView) -> Dispatched {
    Dispatched { poll, sink, mail }
}

/// A probe in the mailbox, with the target that startup recovery holds for it.
pub open spec fn dispatched_probe(
    dispatched: DispatchedEffect,
    probe: ProbeNoSpace,
    sink: SinkView,
    mail: MailboxView,
) -> Dispatched {
    let recovered = probe.origin == NoSpaceProbeOrigin::AutomaticRetry && held(sink.targets) != 0;
    if recovered && consume_error(sink.targets, dispatched.effect) is Some {
        failed(dispatched, sink, mail)
    } else if recovered {
        accepted(
            dispatched,
            SinkView { targets: after_binding(sink.targets, dispatched.effect), ..sink },
            MailboxView {
                probes: mail.probes.push(
                    NoSpaceProbeEntry { probe, startup: Some(bound_for(sink.targets, dispatched.effect)) },
                ),
                ..mail
            },
        )
    } else {
        accepted(
            dispatched,
            sink,
            MailboxView { probes: mail.probes.push(NoSpaceProbeEntry { probe, startup: None }), ..mail },
        )
    }
}

/// What comes of dispatching an effect to a sink and its mailbox.
pub open spec fn dispatched(effect: DispatchedEffect, sink: SinkView, mail: MailboxView) -> Dispatched {
    let requests_full = mail.request_count() == mail.request_capacity;
    let timers_full = mail.timer_count() == mail.timer_capacity;
    if sink.immediate is Some {
        untouched(DispatchPoll::Failed, sink, mail)
    } else if mail.closed {
        untouched(DispatchPoll::Closed, sink, mail)
    } else {
        match effect.effect {
            TransitionEffect::ApplyOptionPatch { .. } => match plan_for(sink.option_plans, effect.effect, 0) {
                None => failed(effect, sink, mail),
                Some(i) => Dispatched {
                    poll: DispatchPoll::Accepted,
                    sink: answered(
                        SinkView { option_plans: sink.option_plans.remove(i), ..sink },
                        application_report(effect, sink.option_plans[i].outcome),
                    ),
                    mail,
                },
            },
            TransitionEffect::StartAllocation { identity } => if requests_full {
                untouched(DispatchPoll::Pending, sink, mail)
            } else {
                accepted(effect, sink, MailboxView { allocations: mail.allocations.push(identity), ..mail })
            },
            TransitionEffect::CancelGeneration { identity, force } => if requests_full {
                untouched(DispatchPoll::Pending, sink, mail)
            } else {
                accepted(
                    effect,
                    sink,
                    MailboxView {
                        cancellations: mail.cancellations.push(CancellationEntry { identity, force }),
                        ..mail
                    },
                )
            },
            TransitionEffect::ReleaseSlot => accepted(effect, sink, mail),
            TransitionEffect::ScheduleRetry { identity, retry_timer_id, at } => match retry_for(
                mail.retry_timers,
                identity,
                retry_timer_id,
                0,
            ) {
                Some(i) => if mail.retry_timers[i].at != at {
                    failed(effect, sink, mail)
                } else {
                    accepted(effect, sink, mail)
                },
                None => if timers_full {
                    untouched(DispatchPoll::Pending, sink, mail)
                } else {
                    accepted(
                        effect,
                        sink,
                        MailboxView {
                            retry_timers: mail.retry_timers.push(
                                RetryTimerEntry { identity, timer_id: retry_timer_id, at },
                            ),
                            ..mail
                        },
                    )
                },
            },
            TransitionEffect::CancelRetry { identity, retry_timer_id } => accepted(
                effect,
                sink,
                MailboxView { retry_timers: without_retry(mail.retry_timers, identity, retry_timer_id), ..mail },
            ),
            TransitionEffect::ScheduleSlowReadmission { identity, readmission_id, at } => match slow_for(
                mail.slow_timers,
                identity,
                readmission_id,
                0,
            ) {
                Some(i) => if mail.slow_timers[i].at != at {
                    failed(effect, sink, mail)
                } else {
                    accepted(effect, sink, mail)
                },
                None => if timers_full {
                    untouched(DispatchPoll::Pending, sink, mail)
                } else {
                    accepted(
                        effect,
                        sink,
                        MailboxView {
                            slow_timers: mail.slow_timers.push(
                                SlowTimerEntry { identity, readmission_id, at },
                            ),
                            ..mail
                        },
                    )
                },
            },
            TransitionEffect::CancelSlowReadmission { identity, readmission_id } => accepted(
                effect,
                sink,
                MailboxView { slow_timers: without_slow(mail.slow_timers, identity, readmission_id), ..mail },
            ),
            TransitionEffect::ProbeNoSpace(probe) => if requests_full {
                untouched(DispatchPoll::Pending, sink, mail)
            } else {
                dispatched_probe(effect, probe, sink, mail)
            },
            _ => untouched(DispatchPoll::Failed, sink, mail),
        }
    }
}

/// Why an option plan is refused.
pub open spec fn prepare_fault(sink: SinkView, plan: OptionApplicationPlan) -> Option<RuntimeEffectPrepareError> {
    if plan_for(sink.option_plans, plan.effect, 0) is Some {
        Some(RuntimeEffectPrepareError::Duplicate)
    } else if sink.option_plans.len() == sink.option_plan_capacity {
        Some(RuntimeEffectPrepareError::Full)
    } else {
        None
    }
}

/// A plan found is the one asked for, and one not found is absent.
pub proof fn lemma_plan_for(plans: Seq<OptionApplicationPlan>, effect: TransitionEffect, from: int)
    requires
        0 <= from,
    ensures
        plan_for(plans, effect, from) matches Some(i) ==> from <= i < plans.len() && plans[i].effect == effect,
        plan_for(plans, effect, from) is None ==> forall|k: int|
            from <= k < plans.len() ==> (#[trigger] plans[k]).effect != effect,
    decreases plans.len() - from,
{
    if from < plans.len() && plans[from].effect != effect {
        lemma_plan_for(plans, effect, from + 1);
    }
}

/// Removing a plan keeps the catalog bounded.
pub proof fn lemma_plan_removal(sink: SinkView, index: int)
    requires
        sink.bounded(),
        0 <= index < sink.option_plans.len(),
    ensures
        (SinkView { option_plans: sink.option_plans.remove(index), ..sink }).bounded(),
{
    let plans = sink.option_plans;
    let rest = plans.remove(index);
    assert forall|i: int, j: int| 0 <= i < j < rest.len() implies (#[trigger] rest[i]).effect != (
    #[trigger] rest[j]).effect by {
        let a = if i < index { i } else { i + 1 };
        let b = if j < index { j } else { j + 1 };
        assert(plans[a].effect != plans[b].effect);
    }
}

/// Keeping some timers keeps no more than there were.
pub proof fn lemma_filter_len<T>(s: Seq<T>, keep: spec_fn(T) -> bool)
    ensures
        s.filter(keep).len() <= s.len(),
    decreases s.len(),
{
    reveal(Seq::filter);
    if s.len() > 0 {
        lemma_filter_len(s.drop_last(), keep);
    }
}

fn keep_retry_timers(
    timers: &Vec<RetryTimerEntry>,
    identity: RuntimeIdentity,
    id: RetryTimerId,
) -> (r: Vec<RetryTimerEntry>)
    ensures
        r@ == without_retry(timers@, identity, id),
{
    let mut kept: Vec<RetryTimerEntry> = Vec::new();
    let mut i: usize = 0;
    proof {
        reveal(Seq::filter);
    }
    while i < timers.len()
        invariant
            i <= timers.len(),
            kept@ == without_retry(timers@.take(i as int), identity, id),
        decreases timers.len() - i,
    {
        proof {
            reveal(Seq::filter);
            assert(timers@.take(i as int + 1).drop_last() =~= timers@.take(i as int));
        }
        let timer = timers[i];
        if timer.identity != identity || timer.timer_id != id {
            kept.push(timer);
        }
        i = i + 1;
    }
    assert(timers@.take(i as int) =~= timers@);
    kept
}

fn keep_slow_timers(
    timers: &Vec<SlowTimerEntry>,
    identity: RuntimeIdentity,
    id: SlowReadmissionId,
) -> (r: Vec<SlowTimerEntry>)
    ensures
        r@ == without_slow(timers@, identity, id),
{
    let mut kept: Vec<SlowTimerEntry> = Vec::new();
    let mut i: usize = 0;
    proof {
        reveal(Seq::filter);
    }
    while i < timers.len()
        invariant
            i <= timers.len(),
            kept@ == without_slow(timers@.take(i as int), identity, id),
        decreases timers.len() - i,
    {
        proof {
            reveal(Seq::filter);
            assert(timers@.take(i as int + 1).drop_last() =~= timers@.take(i as int));
        }
        let timer = timers[i];
        if timer.identity != identity || timer.readmission_id != id {
            kept.push(timer);
        }
        i = i + 1;
    }
    assert(timers@.take(i as int) =~= timers@);
    kept
}

fn find_retry(timers: &Vec<RetryTimerEntry>, identity: RuntimeIdentity, id: RetryTimerId) -> (r: Option<
    MonotonicInstant,
>)
    ensures
        r == (match retry_for(timers@, identity, id, 0) {
            Some(i) => Some(timers@[i].at),
            None => None,
        }),
{
    let mut i: usize = 0;
    while i < timers.len()
        invariant
            i <= timers.len(),
            retry_for(timers@, identity, id, 0) == retry_for(timers@, identity, id, i as int),
        decreases timers.len() - i,
    {
        if timers[i].identity == identity && timers[i].timer_id == id {
            return Some(timers[i].at);
        }
        i = i + 1;
    }
    None
}

fn find_slow(timers: &Vec<SlowTimerEntry>, identity: RuntimeIdentity, id: SlowReadmissionId) -> (r: Option<
    MonotonicInstant,
>)
    ensures
        r == (match slow_for(timers@, identity, id, 0) {
            Some(i) => Some(timers@[i].at),
            None => None,
        }),
{
    let mut i: usize = 0;
    while i < timers.len()
        invariant
            i <= timers.len(),
            slow_for(timers@, identity, id, 0) == slow_for(timers@, identity, id, i as int),
        decreases timers.len() - i,
    {
        if timers[i].identity == identity && timers[i].readmission_id == id {
            return Some(timers[i].at);
        }
        i = i + 1;
    }
    None
}

fn find_plan(plans: &Vec<OptionApplicationPlan>, effect: TransitionEffect) -> (r: Option<usize>)
    ensures
        r is Some <==> plan_for(plans@, effect, 0) is Some,
        r matches Some(i) ==> i < plans.len() && plan_for(plans@, effect, 0) == Some(i as int),
{
    let mut i: usize = 0;
    while i < plans.len()
        invariant
            i <= plans.len(),
            plan_for(plans@, effect, 0) == plan_for(plans@, effect, i as int),
        decreases plans.len() - i,
    {
        if plans[i].effect == effect {
            return Some(i);
        }
        i = i + 1;
    }
    None
}

impl RuntimeEffectHandle {
    fn requests_full(&self) -> (r: bool)
        requires
            self@.bounded(),
        ensures
            r == (self@.request_count() == self@.request_capacity),
    {
        self.allocations.len() + self.cancellations.len() + self.probes.len() == self.request_capacity
    }

    fn timers_full(&self) -> (r: bool)
        requires
            self@.bounded(),
        ensures
            r == (self@.timer_count() == self@.timer_capacity),
    {
        self.retry_timers.len() + self.slow_timers.len() == self.timer_capacity
    }
}

impl RuntimeSchedulerEffectSink {
    pub fn new(config: RuntimeEffectConfig, no_space_targets: NoSpaceProbeTargetCatalog) -> (r: Result<
        (Self, RuntimeEffectHandle),
        RuntimeEffectConfigError,
    >)
        ensures
            r is Err <==> config.fault() is Some,
            r matches Err(error) ==> config.fault() == Some(error),
            r matches Ok((sink, handle)) ==> {
                &&& sink@ == (SinkView {
                    targets: no_space_targets@,
                    option_plan_capacity: config.option_plan_capacity,
                    option_plans: Seq::empty(),
                    immediate: None,
                })
                &&& handle@ == (MailboxView {
                    closed: false,
                    bt_tasks: Set::empty(),
                    request_capacity: config.request_capacity,
                    event_capacity: config.event_capacity,
                    timer_capacity: config.timer_capacity,
                    allocations: Seq::empty(),
                    cancellations: Seq::empty(),
                    probes: Seq::empty(),
                    events: Seq::empty(),
                    retry_timers: Seq::empty(),
                    slow_timers: Seq::empty(),
                })
                &&& sink@.bounded()
                &&& handle@.bounded()
            },
    {
        let config = match config.validate() {
            Ok(config) => config,
            Err(error) => return Err(error),
        };
        let handle = RuntimeEffectHandle {
            closed: false,
            bt_tasks: KeySet::new(),
            request_capacity: config.request_capacity,
            event_capacity: config.event_capacity,
            timer_capacity: config.timer_capacity,
            allocations: Vec::new(),
            cancellations: Vec::new(),
            probes: Vec::new(),
            events: Vec::new(),
            retry_timers: Vec::new(),
            slow_timers: Vec::new(),
        };
        let sink = RuntimeSchedulerEffectSink {
            no_space_targets,
            option_plan_capacity: config.option_plan_capacity,
            option_plans: Vec::new(),
            immediate: None,
        };
        Ok((sink, handle))
    }

    /// How many targets recovered at startup have not been handed to a probe.
    pub fn remaining_startup_probe_targets(&self) -> (r: usize)
        ensures
            r == held(self@.targets),
    {
        self.no_space_targets.remaining()
    }

    fn accept(&mut self, dispatch_id: EffectDispatchId) -> (r: DispatchPoll)
        ensures
            r == DispatchPoll::Accepted,
            final(self)@ == answered(old(self)@, completed(dispatch_id)),
    {
        self.immediate = Some(EffectCompletion::Completed { dispatch_id, acknowledgement: None });
        DispatchPoll::Accepted
    }

    fn fail_representably(&mut self, dispatch_id: EffectDispatchId) -> (r: DispatchPoll)
        ensures
            r == DispatchPoll::Accepted,
            final(self)@ == answered(old(self)@, EffectCompletion::UnrepresentableFailure { dispatch_id }),
    {
        self.immediate = Some(EffectCompletion::UnrepresentableFailure { dispatch_id });
        DispatchPoll::Accepted
    }

    fn apply_option_patch(&mut self, effect: &DispatchedEffect) -> (r: DispatchPoll)
        requires
            effect.effect is ApplyOptionPatch,
        ensures
            r == DispatchPoll::Accepted,
            final(self)@ == (match plan_for(old(self)@.option_plans, effect.effect, 0) {
                None => answered(
                    old(self)@,
                    EffectCompletion::UnrepresentableFailure { dispatch_id: effect.dispatch_id },
                ),
                Some(i) => answered(
                    SinkView { option_plans: old(self)@.option_plans.remove(i), ..old(self)@ },
                    application_report(*effect, old(self)@.option_plans[i].outcome),
                ),
            }),
    {
        let index = match find_plan(&self.option_plans, effect.effect) {
            Some(index) => index,
            None => return self.fail_representably(effect.dispatch_id),
        };
        let plan = self.option_plans.remove(index);
        if let TransitionEffect::ApplyOptionPatch { task_id, gid, patch_id, .. } = effect.effect {
            let event = match plan.outcome {
                OptionApplicationOutcome::Applied => TaskEvent::OptionPatchApplied {
                    gid,
                    generation: effect.task_generation,
                    patch_id,
                },
                OptionApplicationOutcome::Failed(error) => TaskEvent::OptionPatchApplicationFailed {
                    gid,
                    generation: effect.task_generation,
                    patch_id,
                    error,
                },
            };
            self.immediate = Some(
                EffectCompletion::Completed {
                    dispatch_id: effect.dispatch_id,
                    acknowledgement: Some(TaskEventEnvelope { task_id, event }),
                },
            );
        }
        DispatchPoll::Accepted
    }

    fn probe_no_space(
        &mut self,
        mailbox: &mut RuntimeEffectHandle,
        effect: &DispatchedEffect,
        probe: ProbeNoSpace,
    ) -> (r: DispatchPoll)
        requires
            effect.effect == TransitionEffect::ProbeNoSpace(probe),
        ensures
            (Dispatched { poll: r, sink: final(self)@, mail: final(mailbox)@ }) == dispatched_probe(
                *effect,
                probe,
                old(self)@,
                old(mailbox)@,
            ),
    {
        let startup = if probe.origin == NoSpaceProbeOrigin::AutomaticRetry
            && self.no_space_targets.remaining() != 0 {
            match self.no_space_targets.consume(&effect.effect) {
                Ok(target) => Some(target),
                Err(_) => return self.fail_representably(effect.dispatch_id),
            }
        } else {
            None
        };
        mailbox.probes.push(NoSpaceProbeEntry { probe, startup });
        self.accept(effect.dispatch_id)
    }

    /// Takes on one scheduler effect. Nothing changes where it is left pending
    /// or refused.
    pub fn poll_dispatch(&mut self, mailbox: &mut RuntimeEffectHandle, effect: &DispatchedEffect) -> (r: DispatchPoll)
        requires
            old(mailbox)@.bounded(),
        ensures
            (Dispatched { poll: r, sink: final(self)@, mail: final(mailbox)@ }) == dispatched(
                *effect,
                old(self)@,
                old(mailbox)@,
            ),
            final(mailbox)@.bounded(),
            old(self)@.bounded() ==> final(self)@.bounded(),
    {
        if self.immediate.is_some() {
            return DispatchPoll::Failed;
        }
        if mailbox.closed {
            return DispatchPoll::Closed;
        }
        let dispatch_id = effect.dispatch_id;
        match effect.effect {
            TransitionEffect::ApplyOptionPatch { .. } => {
                proof {
                    lemma_plan_for(self.option_plans@, effect.effect, 0);
                    if self@.bounded() && plan_for(self.option_plans@, effect.effect, 0) is Some {
                        lemma_plan_removal(self@, plan_for(self.option_plans@, effect.effect, 0)->0);
                    }
                }
                self.apply_option_patch(effect)
            },
            TransitionEffect::StartAllocation { identity } => {
                if mailbox.requests_full() {
                    return DispatchPoll::Pending;
                }
                mailbox.allocations.push(identity);
                self.accept(dispatch_id)
            },
            TransitionEffect::CancelGeneration { identity, force } => {
                if mailbox.requests_full() {
                    return DispatchPoll::Pending;
                }
                mailbox.cancellations.push(CancellationEntry { identity, force });
                self.accept(dispatch_id)
            },
            TransitionEffect::ReleaseSlot => self.accept(dispatch_id),
            TransitionEffect::ScheduleRetry { identity, retry_timer_id, at } => {
                match find_retry(&mailbox.retry_timers, identity, retry_timer_id) {
                    Some(existing) => {
                        if existing != at {
                            return self.fail_representably(dispatch_id);
                        }
                    },
                    None => {
                        if mailbox.timers_full() {
                            return DispatchPoll::Pending;
                        }
                        mailbox.retry_timers.push(RetryTimerEntry { identity, timer_id: retry_timer_id, at });
                    },
                }
                self.accept(dispatch_id)
            },
            TransitionEffect::CancelRetry { identity, retry_timer_id } => {
                proof {
                    lemma_filter_len(
                        mailbox.retry_timers@,
                        |t: RetryTimerEntry| t.identity != identity || t.timer_id != retry_timer_id,
                    );
                }
                mailbox.retry_timers = keep_retry_timers(&mailbox.retry_timers, identity, retry_timer_id);
                self.accept(dispatch_id)
            },
            TransitionEffect::ScheduleSlowReadmission { identity, readmission_id, at } => {
                match find_slow(&mailbox.slow_timers, identity, readmission_id) {
                    Some(existing) => {
                        if existing != at {
                            return self.fail_representably(dispatch_id);
                        }
                    },
                    None => {
                        if mailbox.timers_full() {
                            return DispatchPoll::Pending;
                        }
                        mailbox.slow_timers.push(SlowTimerEntry { identity, readmission_id, at });
                    },
                }
                self.accept(dispatch_id)
            },
            TransitionEffect::CancelSlowReadmission { identity, readmission_id } => {
                proof {
                    lemma_filter_len(
                        mailbox.slow_timers@,
                        |t: SlowTimerEntry| t.identity != identity || t.readmission_id != readmission_id,
                    );
                }
                mailbox.slow_timers = keep_slow_timers(&mailbox.slow_timers, identity, readmission_id);
                self.accept(dispatch_id)
            },
            TransitionEffect::ProbeNoSpace(probe) => {
                if mailbox.requests_full() {
                    return DispatchPoll::Pending;
                }
                self.probe_no_space(mailbox, effect, probe)
            },
            TransitionEffect::PersistTask
            | TransitionEffect::PersistQueueTransition
            | TransitionEffect::StageOptionPatch
            | TransitionEffect::PersistGenerationStarted
            | TransitionEffect::PersistConditions
            | TransitionEffect::PersistHostKeyChallenge
            | TransitionEffect::PersistHostKeyPinAndClearChallenge
            | TransitionEffect::PersistHostKeyChallengeRejected
            | TransitionEffect::PersistTerminal
            | TransitionEffect::DeleteStoppedTaskMetadata
            | TransitionEffect::PublishSnapshot => DispatchPoll::Failed,
        }
    }

    /// The completion of the last dispatch, once.
    pub fn poll_completion(&mut self) -> (r: Option<EffectCompletion>)
        ensures
            r == old(self)@.immediate,
            final(self)@ == (SinkView { immediate: None, ..old(self)@ }),
    {
        self.immediate.take()
    }

    /// Adds one exact option plan, or drops them all.
    pub fn prepare(&mut self, preparation: RuntimeEffectPreparation) -> (r: Result<(), RuntimeEffectPrepareError>)
        requires
            old(self)@.bounded(),
        ensures
            final(self)@.bounded(),
            match preparation {
                RuntimeEffectPreparation::DiscardOptionApplications => {
                    &&& r is Ok
                    &&& final(self)@ == (SinkView { option_plans: Seq::empty(), ..old(self)@ })
                },
                RuntimeEffectPreparation::OptionApplication(plan) => {
                    &&& r == (match prepare_fault(old(self)@, *plan) {
                        Some(error) => Err::<(), RuntimeEffectPrepareError>(error),
                        None => Ok::<(), RuntimeEffectPrepareError>(()),
                    })
                    &&& final(self)@ == (if r is Ok {
                        SinkView { option_plans: old(self)@.option_plans.push(*plan), ..old(self)@ }
                    } else {
                        old(self)@
                    })
                },
            },
    {
        match preparation {
            RuntimeEffectPreparation::DiscardOptionApplications => {
                self.option_plans.clear();
                Ok(())
            },
            RuntimeEffectPreparation::OptionApplication(plan) => {
                proof {
                    lemma_plan_for(self.option_plans@, plan.effect, 0);
                }
                if find_plan(&self.option_plans, plan.effect).is_some() {
                    return Err(RuntimeEffectPrepareError::Duplicate);
                }
                if self.option_plans.len() == self.option_plan_capacity {
                    return Err(RuntimeEffectPrepareError::Full);
                }
                self.option_plans.push(*plan);
                Ok(())
            },
        }
    }
}

/// An effect that is held back, or refused, changes neither the sink nor the
/// mailbox.
pub proof fn law_backpressure_changes_nothing(effect: DispatchedEffect, sink: SinkView, mail: MailboxView)
    ensures
        ({
            let out = dispatched(effect, sink, mail);
            out.poll != DispatchPoll::Accepted ==> out.sink == sink && out.mail == mail
        }),
{
}

/// Every accepted effect is answered exactly once, under its own identity: no
/// other effect is accepted before that answer was taken.
pub proof fn law_one_answer_per_accepted_effect(
    effect: DispatchedEffect,
    next: DispatchedEffect,
    sink: SinkView,
    mail: MailboxView,
)
    ensures
        ({
            let out = dispatched(effect, sink, mail);
            out.poll == DispatchPoll::Accepted ==> {
                &&& match out.sink.immediate {
                    Some(EffectCompletion::Completed { dispatch_id, .. }) => dispatch_id == effect.dispatch_id,
                    Some(EffectCompletion::UnrepresentableFailure { dispatch_id }) => dispatch_id
                        == effect.dispatch_id,
                    None => false,
                }
                &&& dispatched(next, out.sink, out.mail) == untouched(DispatchPoll::Failed, out.sink, out.mail)
            }
        }),
{
}

/// Scheduling a retry that is already scheduled for the same time changes
/// nothing but the answer, even where there is no more room.
pub proof fn law_rescheduling_a_retry_is_idempotent(
    effect: DispatchedEffect,
    identity: RuntimeIdentity,
    id: RetryTimerId,
    at: MonotonicInstant,
    sink: SinkView,
    mail: MailboxView,
)
    requires
        effect.effect == (TransitionEffect::ScheduleRetry { identity, retry_timer_id: id, at }),
        sink.immediate is None,
        dispatched(effect, sink, mail).poll == DispatchPoll::Accepted,
        dispatched(effect, sink, mail).sink.immediate == Some(completed(effect.dispatch_id)),
    ensures
        ({
            let once = dispatched(effect, sink, mail);
            let again = dispatched(effect, SinkView { immediate: None, ..once.sink }, once.mail);
            again == once
        }),
{
    let once = dispatched(effect, sink, mail);
    lemma_retry_for(mail.retry_timers, identity, id, 0);
    lemma_retry_for(once.mail.retry_timers, identity, id, 0);
    if retry_for(mail.retry_timers, identity, id, 0) is None {
        let entry = RetryTimerEntry { identity, timer_id: id, at };
        assert(once.mail.retry_timers == mail.retry_timers.push(entry));
        assert(once.mail.retry_timers[mail.retry_timers.len() as int] == entry);
        let i = retry_for(once.mail.retry_timers, identity, id, 0);
        assert(i is Some);
        if i->0 < mail.retry_timers.len() {
            assert(once.mail.retry_timers[i->0] == mail.retry_timers[i->0]);
        }
    }
}

/// A retry timer found is the one asked for, and one not found is absent.
pub proof fn lemma_retry_for(timers: Seq<RetryTimerEntry>, identity: RuntimeIdentity, id: RetryTimerId, from: int)
    requires
        0 <= from,
    ensures
        retry_for(timers, identity, id, from) matches Some(i) ==> from <= i < timers.len()
            && timers[i].identity == identity && timers[i].timer_id == id,
        retry_for(timers, identity, id, from) is None ==> forall|k: int|
            from <= k < timers.len() ==> (#[trigger] timers[k]).identity != identity || timers[k].timer_id != id,
    decreases timers.len() - from,
{
    if from < timers.len() {
        lemma_retry_for(timers, identity, id, from + 1);
    }
}

/// A cancelled retry is no longer scheduled.
pub proof fn law_cancelled_retry_is_gone(timers: Seq<RetryTimerEntry>, identity: RuntimeIdentity, id: RetryTimerId)
    ensures
        retry_for(without_retry(timers, identity, id), identity, id, 0) is None,
{
    let keep = |t: RetryTimerEntry| t.identity != identity || t.timer_id != id;
    let kept = timers.filter(keep);
    lemma_retry_for(kept, identity, id, 0);
    if let Some(i) = retry_for(kept, identity, id, 0) {
        timers.lemma_filter_pred(keep, i);
    }
}

} // verus!
