//! Laws of effects: what the scheduler asks for arrives as it was asked, and comes back under
//! the identity that it was asked for.
use vstd::prelude::*;
use crate::effect_sink::{
    dispatched, lemma_plan_for, lemma_retry_for, plan_for, prepare_fault, without_slow, SinkView,
};
use crate::effects::{
    DispatchPoll, DispatchedEffect, EffectCompletion, ProbeNoSpace, RetryTimerId, RuntimeIdentity, SlowReadmissionId,
    TaskEvent, TaskEventEnvelope, TransitionEffect,
};
use crate::probe_targets::{entry_for, lemma_entry_in_range};
use crate::runtime_effects::{
    cancellation_of, earliest_due, first_by_owner, lemma_earliest_due, polled, probe_keys, retry_keys, slow_keys,
    submit_fault, taken_allocation, taken_cancellation, taken_probe, CancellationEntry, CancellationRequest,
    MailboxView, OptionApplicationOutcome, OptionApplicationPlan, RetryTimerEntry, RuntimeEffectPrepareError,
    RuntimeEventSubmitError, SlowTimerEntry,
};
use crate::session::{MonotonicInstant, NoSpaceProbeOrigin};

verus! {

/// Whether a retry timer's event says that this very retry is ready.
pub open spec fn says_ready(event: TaskEventEnvelope, timer: RetryTimerEntry) -> bool {
    &&& event.task_id == timer.identity.task_id
    &&& event.event matches TaskEvent::RetryReady { gid, generation, retry_timer_id } && gid == timer.identity.gid
        && generation == timer.identity.generation && retry_timer_id == timer.timer_id
}

/// Whether a readmission timer's event says that this very readmission is due.
pub open spec fn says_readmit(event: TaskEventEnvelope, timer: SlowTimerEntry) -> bool {
    &&& event.task_id == timer.identity.task_id
    &&& event.event matches TaskEvent::SlowReadmit { gid, generation, readmission_id } && gid == timer.identity.gid
        && generation == timer.identity.generation && readmission_id == timer.readmission_id
}

/// A poll takes one thing out of the mailbox: the first event, or a timer that is due, which it
/// reports under the timer's own identity. Without any it changes nothing.
pub proof fn law_a_poll_takes_what_it_reports(mail: MailboxView, now: MonotonicInstant)
    ensures
        ({
            let (r, after) = polled(mail, now);
            &&& after.allocations == mail.allocations
            &&& after.cancellations == mail.cancellations
            &&& after.probes == mail.probes
            &&& r is None ==> after == mail
            &&& r matches Some(event) ==> {
                ||| mail.events == seq![event] + after.events && after.retry_timers == mail.retry_timers
                    && after.slow_timers == mail.slow_timers
                ||| after.events == mail.events && after.slow_timers == mail.slow_timers && exists|i: int|
                    0 <= i < mail.retry_timers.len() && says_ready(event, #[trigger] mail.retry_timers[i])
                        && mail.retry_timers[i].at.0 <= now.0 && after.retry_timers == mail.retry_timers.remove(i)
                ||| after.events == mail.events && after.retry_timers == mail.retry_timers && exists|i: int|
                    0 <= i < mail.slow_timers.len() && says_readmit(event, #[trigger] mail.slow_timers[i])
                        && mail.slow_timers[i].at.0 <= now.0 && after.slow_timers == mail.slow_timers.remove(i)
            }
        }),
{
    lemma_earliest_due(retry_keys(mail.retry_timers), now);
    lemma_earliest_due(slow_keys(mail.slow_timers), now);
    let (r, after) = polled(mail, now);
    if mail.events.len() > 0 {
        assert(mail.events =~= seq![mail.events[0]] + mail.events.drop_first());
    } else if let Some(event) = r {
        let retry = earliest_due(retry_keys(mail.retry_timers), now);
        let slow = earliest_due(slow_keys(mail.slow_timers), now);
        if after.slow_timers == mail.slow_timers && retry is Some {
            let i = retry->0;
            assert(retry_keys(mail.retry_timers)[i].rank == mail.retry_timers[i].at.0);
        }
        if slow is Some {
            let i = slow->0;
            assert(slow_keys(mail.slow_timers)[i].rank == mail.slow_timers[i].at.0);
        }
    }
}

/// Whether the first so many tasks are all not of the wanted kind.
proof fn lemma_first_owned(identities: Seq<RuntimeIdentity>, owned: Set<u128>, wanted: bool, from: int)
    requires
        0 <= from,
    ensures
        first_by_owner(identities, owned, wanted, from) matches Some(i) ==> from <= i < identities.len()
            && owned.contains(identities[i].task_id.0 as u128) == wanted && forall|k: int|
            from <= k < i ==> owned.contains((#[trigger] identities[k]).task_id.0 as u128) != wanted,
        first_by_owner(identities, owned, wanted, from) is None ==> forall|k: int|
            from <= k < identities.len() ==> owned.contains((#[trigger] identities[k]).task_id.0 as u128) != wanted,
    decreases identities.len() - from,
{
    if from < identities.len() && owned.contains(identities[from].task_id.0 as u128) != wanted {
        lemma_first_owned(identities, owned, wanted, from + 1);
    }
}

/// Allocations are taken in the order in which they were asked for, each by the side that
/// owns its task.
pub proof fn law_allocations_are_taken_in_order(mail: MailboxView, owned: Set<u128>, wanted: bool)
    ensures
        ({
            let (r, after) = taken_allocation(mail, owned, wanted);
            &&& r is None ==> after == mail && forall|k: int|
                0 <= k < mail.allocations.len() ==> owned.contains(
                    (#[trigger] mail.allocations[k]).task_id.0 as u128,
                ) != wanted
            &&& r matches Some(request) ==> exists|i: int|
                {
                    &&& 0 <= i < mail.allocations.len()
                    &&& request.identity == #[trigger] mail.allocations[i]
                    &&& owned.contains(request.identity.task_id.0 as u128) == wanted
                    &&& after.allocations == mail.allocations.remove(i)
                    &&& forall|k: int|
                        0 <= k < i ==> owned.contains((#[trigger] mail.allocations[k]).task_id.0 as u128) != wanted
                }
        }),
{
    lemma_first_owned(mail.allocations, owned, wanted, 0);
    if let Some(i) = first_by_owner(mail.allocations, owned, wanted, 0) {
        assert(mail.allocations[i] == taken_allocation(mail, owned, wanted).0->0.identity);
    }
}

/// A probe is taken only once it is due, none that is left is due earlier, and with the target
/// that was bound to it.
pub proof fn law_probes_are_taken_when_due(mail: MailboxView, now: MonotonicInstant)
    ensures
        ({
            let (r, after) = taken_probe(mail, now);
            &&& r is None ==> after == mail && forall|k: int|
                0 <= k < mail.probes.len() ==> (#[trigger] mail.probes[k]).probe.at.0 > now.0
            &&& r matches Some(request) ==> request.probe.at.0 <= now.0 && exists|i: int|
                {
                    &&& 0 <= i < mail.probes.len()
                    &&& request.probe == (#[trigger] mail.probes[i]).probe
                    &&& request.startup == mail.probes[i].startup
                    &&& after.probes == mail.probes.remove(i)
                    &&& forall|k: int|
                        0 <= k < mail.probes.len() ==> (#[trigger] mail.probes[k]).probe.at.0 >= request.probe.at.0
                }
        }),
{
    let keys = probe_keys(mail.probes);
    lemma_earliest_due(keys, now);
    assert forall|k: int| 0 <= k < mail.probes.len() implies keys[k].rank == (#[trigger] mail.probes[k]).probe.at.0 by {
    }
    if let Some(i) = earliest_due(keys, now) {
        assert(mail.probes[i].probe == taken_probe(mail, now).0->0.probe);
        assert forall|k: int| 0 <= k < mail.probes.len() implies (#[trigger] mail.probes[k]).probe.at.0
            >= mail.probes[i].probe.at.0 by {
            assert(keys[k].rank == mail.probes[k].probe.at.0);
        }
    }
}

/// An allocation or cancellation that is accepted waits behind those that wait already, as
/// it was asked for.
pub proof fn law_requests_arrive_as_asked(effect: DispatchedEffect, sink: SinkView, mail: MailboxView)
    requires
        dispatched(effect, sink, mail).poll == DispatchPoll::Accepted,
    ensures
        ({
            let after = dispatched(effect, sink, mail).mail;
            &&& effect.effect matches TransitionEffect::StartAllocation { identity } ==> after.allocations
                == mail.allocations.push(identity) && after.cancellations == mail.cancellations && after.probes
                == mail.probes && after.retry_timers == mail.retry_timers && after.slow_timers == mail.slow_timers
            &&& effect.effect matches TransitionEffect::CancelGeneration { identity, force } ==> after.cancellations
                == mail.cancellations.push(CancellationEntry { identity, force }) && after.allocations
                == mail.allocations && after.probes == mail.probes && after.retry_timers == mail.retry_timers
                && after.slow_timers == mail.slow_timers
            &&& effect.effect is ReleaseSlot ==> after == mail
        }),
{
}

/// What was cancelled last comes out again as it went in, force and all, when it is its
/// turn.
pub proof fn law_cancellations_come_out_as_they_went_in(
    effect: DispatchedEffect,
    identity: RuntimeIdentity,
    force: bool,
    sink: SinkView,
    mail: MailboxView,
)
    requires
        effect.effect == (TransitionEffect::CancelGeneration { identity, force }),
        dispatched(effect, sink, mail).poll == DispatchPoll::Accepted,
    ensures
        ({
            let after = dispatched(effect, sink, mail).mail;
            let (taken, left) = taken_cancellation(after, Some(mail.cancellations.len() as int));
            taken == Some(CancellationRequest { identity, force }) && left == mail
        }),
{
    let after = dispatched(effect, sink, mail).mail;
    let at = mail.cancellations.len() as int;
    assert(after.cancellations.remove(at) =~= mail.cancellations);
}

/// A retry that is scheduled reports once its time has come, and not before.
pub proof fn law_scheduled_retries_report_at_their_time(
    effect: DispatchedEffect,
    identity: RuntimeIdentity,
    id: RetryTimerId,
    at: MonotonicInstant,
    sink: SinkView,
    mail: MailboxView,
    now: MonotonicInstant,
)
    requires
        effect.effect == (TransitionEffect::ScheduleRetry { identity, retry_timer_id: id, at }),
        dispatched(effect, sink, mail).poll == DispatchPoll::Accepted,
        mail.events.len() == 0,
        mail.retry_timers.len() == 0,
        mail.slow_timers.len() == 0,
    ensures
        ({
            let after = dispatched(effect, sink, mail).mail;
            let (report, left) = polled(after, now);
            &&& now.0 >= at.0 ==> report == Some(
                TaskEventEnvelope {
                    task_id: identity.task_id,
                    event: TaskEvent::RetryReady {
                        gid: identity.gid,
                        generation: identity.generation,
                        retry_timer_id: id,
                    },
                },
            ) && left == mail
            &&& now.0 < at.0 ==> report is None && left == after
        }),
{
    let after = dispatched(effect, sink, mail).mail;
    assert(after.retry_timers =~= seq![RetryTimerEntry { identity, timer_id: id, at }]);
    let keys = retry_keys(after.retry_timers);
    assert(keys.len() == 1 && keys[0].rank == at.0);
    assert(keys.drop_last() =~= Seq::empty());
    reveal_with_fuel(earliest_due, 2);
    assert(slow_keys(after.slow_timers) =~= Seq::empty());
    assert(after.retry_timers.remove(0) =~= mail.retry_timers);
    lemma_retry_for(mail.retry_timers, identity, id, 0);
}

/// A readmission that is scheduled reports once its time has come, and not before.
pub proof fn law_scheduled_readmissions_report_at_their_time(
    effect: DispatchedEffect,
    identity: RuntimeIdentity,
    id: SlowReadmissionId,
    at: MonotonicInstant,
    sink: SinkView,
    mail: MailboxView,
    now: MonotonicInstant,
)
    requires
        effect.effect == (TransitionEffect::ScheduleSlowReadmission { identity, readmission_id: id, at }),
        dispatched(effect, sink, mail).poll == DispatchPoll::Accepted,
        mail.events.len() == 0,
        mail.retry_timers.len() == 0,
        mail.slow_timers.len() == 0,
    ensures
        ({
            let after = dispatched(effect, sink, mail).mail;
            let (report, left) = polled(after, now);
            &&& now.0 >= at.0 ==> report == Some(
                TaskEventEnvelope {
                    task_id: identity.task_id,
                    event: TaskEvent::SlowReadmit {
                        gid: identity.gid,
                        generation: identity.generation,
                        readmission_id: id,
                    },
                },
            ) && left == mail
            &&& now.0 < at.0 ==> report is None && left == after
        }),
{
    let after = dispatched(effect, sink, mail).mail;
    assert(after.slow_timers =~= seq![SlowTimerEntry { identity, readmission_id: id, at }]);
    let keys = slow_keys(after.slow_timers);
    assert(keys.len() == 1 && keys[0].rank == at.0);
    assert(keys.drop_last() =~= Seq::empty());
    reveal_with_fuel(earliest_due, 2);
    assert(retry_keys(after.retry_timers) =~= Seq::empty());
    assert(after.slow_timers.remove(0) =~= mail.slow_timers);
}

/// A readmission that is cancelled is gone, and no other timer with it.
pub proof fn law_cancelled_readmission_is_gone(
    timers: Seq<SlowTimerEntry>,
    identity: RuntimeIdentity,
    id: SlowReadmissionId,
    i: int,
)
    requires
        0 <= i < timers.len(),
    ensures
        without_slow(timers, identity, id).contains(timers[i]) <==> !(timers[i].identity == identity
            && timers[i].readmission_id == id),
{
    broadcast use vstd::seq_lib::group_filter_ensures;

    let keep = |t: SlowTimerEntry| t.identity != identity || t.readmission_id != id;
    let left = without_slow(timers, identity, id);
    if left.contains(timers[i]) {
        let k = left.index_of(timers[i]);
        assert(keep(left[k]));
    } else if keep(timers[i]) {
        assert(timers.contains(timers[i]));
        assert(left.contains(timers[i]));
    }
}

/// An option patch is answered as the plan for it says, to the task and under the number that
/// it was applied for; the plan is used up. Without a plan it fails.
pub proof fn law_option_patches_are_answered_as_planned(effect: DispatchedEffect, sink: SinkView, mail: MailboxView)
    requires
        effect.effect is ApplyOptionPatch,
        dispatched(effect, sink, mail).poll == DispatchPoll::Accepted,
    ensures
        ({
            let out = dispatched(effect, sink, mail);
            let planned = exists|i: int| 0 <= i < sink.option_plans.len() && (#[trigger] sink.option_plans[i]).effect
                == effect.effect;
            &&& out.mail == mail
            &&& !planned ==> out.sink.immediate == Some(
                EffectCompletion::UnrepresentableFailure { dispatch_id: effect.dispatch_id },
            )
            &&& planned ==> exists|i: int|
                {
                    let plan = #[trigger] sink.option_plans[i];
                    &&& 0 <= i < sink.option_plans.len()
                    &&& plan.effect == effect.effect
                    &&& out.sink.option_plans == sink.option_plans.remove(i)
                    &&& out.sink.immediate matches Some(
                        EffectCompletion::Completed { dispatch_id, acknowledgement: Some(told) },
                    ) && dispatch_id == effect.dispatch_id && told.task_id == effect.effect->ApplyOptionPatch_task_id
                        && match plan.outcome {
                        OptionApplicationOutcome::Applied => told.event == (TaskEvent::OptionPatchApplied {
                            gid: effect.effect->ApplyOptionPatch_gid,
                            generation: effect.task_generation,
                            patch_id: effect.effect->ApplyOptionPatch_patch_id,
                        }),
                        OptionApplicationOutcome::Failed(fault) => told.event == (
                        TaskEvent::OptionPatchApplicationFailed {
                            gid: effect.effect->ApplyOptionPatch_gid,
                            generation: effect.task_generation,
                            patch_id: effect.effect->ApplyOptionPatch_patch_id,
                            error: fault,
                        }),
                    }
                }
        }),
{
    lemma_plan_for(sink.option_plans, effect.effect, 0);
    if let Some(i) = plan_for(sink.option_plans, effect.effect, 0) {
        assert(sink.option_plans[i].effect == effect.effect);
    }
}

/// A probe that is accepted waits as it was asked for. An automatic one carries the target that
/// startup kept for it, if startup kept any, and that target is then spent.
pub proof fn law_probes_carry_their_targets(
    effect: DispatchedEffect,
    probe: ProbeNoSpace,
    sink: SinkView,
    mail: MailboxView,
)
    requires
        effect.effect == TransitionEffect::ProbeNoSpace(probe),
        dispatched(effect, sink, mail).poll == DispatchPoll::Accepted,
    ensures
        ({
            let out = dispatched(effect, sink, mail);
            out.sink.immediate matches Some(EffectCompletion::Completed { .. }) ==> {
                &&& out.mail.probes.len() == mail.probes.len() + 1
                &&& out.mail.probes.last().probe == probe
                &&& out.mail.probes.drop_last() == mail.probes
                &&& out.mail.probes.last().startup matches Some(bound) ==> {
                    &&& bound.task_id == probe.identity.task_id
                    &&& bound.gid == probe.identity.gid
                    &&& bound.generation == probe.identity.generation
                    &&& bound.probe_id == probe.probe_id
                    &&& bound.at == probe.at
                    &&& probe.origin == NoSpaceProbeOrigin::AutomaticRetry
                    &&& exists|i: int|
                        {
                            let entry = #[trigger] sink.targets[i];
                            &&& 0 <= i < sink.targets.len()
                            &&& entry.task_id == bound.task_id
                            &&& entry.gid == bound.gid
                            &&& entry.generation == bound.generation
                            &&& entry.target == Some(bound.target)
                            &&& entry.decision == bound.decision
                            &&& entry.decision.deadline == probe.at
                            &&& out.sink.targets[i].target is None
                        }
                }
                &&& out.mail.probes.last().startup is None ==> out.sink.targets == sink.targets
            }
        }),
{
    lemma_entry_in_range(sink.targets, probe, 0);
    let out = dispatched(effect, sink, mail);
    if out.mail.probes.len() == mail.probes.len() + 1 {
        assert(out.mail.probes.drop_last() =~= mail.probes);
        if out.mail.probes.last().startup is Some {
            let i = entry_for(sink.targets, probe, 0)->0;
            assert(out.sink.targets[i].target is None);
            assert(sink.targets[i].task_id == probe.identity.task_id);
        }
    }
}

/// An event is taken on only where there is room for it and the mailbox is open.
pub proof fn law_events_need_room(mail: MailboxView)
    requires
        mail.bounded(),
    ensures
        submit_fault(mail) is None <==> !mail.closed && mail.events.len() < mail.event_capacity,
        mail.closed ==> submit_fault(mail) == Some(RuntimeEventSubmitError::Closed),
        !mail.closed && mail.events.len() >= mail.event_capacity ==> submit_fault(mail) == Some(
            RuntimeEventSubmitError::Full,
        ),
{
}

/// A plan is prepared only once for an effect, and only where there is room for it.
pub proof fn law_plans_are_prepared_once(sink: SinkView, plan: OptionApplicationPlan)
    requires
        sink.bounded(),
    ensures
        ({
            let known = exists|i: int| 0 <= i < sink.option_plans.len() && (#[trigger] sink.option_plans[i]).effect
                == plan.effect;
            &&& known ==> prepare_fault(sink, plan) == Some(RuntimeEffectPrepareError::Duplicate)
            &&& !known && sink.option_plans.len() >= sink.option_plan_capacity ==> prepare_fault(sink, plan) == Some(
                RuntimeEffectPrepareError::Full,
            )
            &&& !known && sink.option_plans.len() < sink.option_plan_capacity ==> prepare_fault(sink, plan) is None
        }),
{
    lemma_plan_for(sink.option_plans, plan.effect, 0);
    if let Some(i) = plan_for(sink.option_plans, plan.effect, 0) {
        assert(sink.option_plans[i].effect == plan.effect);
    }
}

/// A cancellation is found by the attempt that it is of, the first of them where there are
/// several.
pub proof fn law_cancellations_are_found_by_attempt(entries: Seq<CancellationEntry>, identity: RuntimeIdentity, from: int)
    requires
        0 <= from,
    ensures
        cancellation_of(entries, identity, from) matches Some(i) ==> from <= i < entries.len() && entries[i].identity
            == identity && forall|k: int| from <= k < i ==> (#[trigger] entries[k]).identity != identity,
        cancellation_of(entries, identity, from) is None ==> forall|k: int|
            from <= k < entries.len() ==> (#[trigger] entries[k]).identity != identity,
    decreases entries.len() - from,
{
    if from < entries.len() && entries[from].identity != identity {
        law_cancellations_are_found_by_attempt(entries, identity, from + 1);
    }
}

} // verus!
