use ariax_engine::effect_sink::RuntimeSchedulerEffectSink;
use ariax_engine::effects::{
    DispatchPoll, DispatchedEffect, EffectCompletion, EffectDispatchId, OptionPatchId, ProbeNoSpace,
    RetryTimerId, RuntimeIdentity, SlowReadmissionId, TaskEvent, TransitionEffect,
};
use ariax_engine::index::KeySet;
use ariax_engine::probe_targets::NoSpaceProbeTargetCatalog;
use ariax_engine::runtime_effects::{
    OptionApplicationOutcome, OptionApplicationPlan, OptionApplicationPlanError, RuntimeEffectConfig,
    RuntimeEffectConfigError, RuntimeEffectHandle, RuntimeEffectPreparation, RuntimeEffectPrepareError,
    RuntimeEventSubmitError, RuntimeQueue,
};
use ariax_engine::session::{
    Generation, Gid, MonotonicInstant, NoSpaceProbeId, NoSpaceProbeOrigin, TaskId,
};

fn config(capacity: usize) -> RuntimeEffectConfig {
    RuntimeEffectConfig {
        request_capacity: capacity,
        event_capacity: capacity,
        timer_capacity: capacity,
        option_plan_capacity: capacity,
    }
}

fn sink(capacity: usize) -> (RuntimeSchedulerEffectSink, RuntimeEffectHandle) {
    match RuntimeSchedulerEffectSink::new(config(capacity), NoSpaceProbeTargetCatalog::new(Vec::new())) {
        Ok(parts) => parts,
        Err(error) => panic!("runtime sink: {error:?}"),
    }
}

fn identity(value: u64) -> RuntimeIdentity {
    RuntimeIdentity { task_id: TaskId(value), gid: Gid(value), generation: Generation(1) }
}

fn dispatch(id: u64, effect: TransitionEffect) -> DispatchedEffect {
    DispatchedEffect { dispatch_id: EffectDispatchId(id), task_generation: Generation(1), effect }
}

fn retry(value: u64, at: MonotonicInstant) -> TransitionEffect {
    TransitionEffect::ScheduleRetry { identity: identity(value), retry_timer_id: RetryTimerId(value), at }
}

#[test]
fn recovered_retry_timer_is_not_visible_before_its_deadline() {
    let now = MonotonicInstant(1_000);
    let deadline = MonotonicInstant(2_000);
    let (mut sink, mut handle) = sink(2);
    assert_eq!(sink.poll_dispatch(&mut handle, &dispatch(1, retry(1, deadline))), DispatchPoll::Accepted);
    assert!(handle.poll_event_at(now).is_none());
    let event = handle.poll_event_at(deadline).expect("retry event at deadline");
    assert_eq!(event.task_id, TaskId(1));
    assert_eq!(
        event.event,
        TaskEvent::RetryReady {
            gid: Gid(1),
            generation: Generation(1),
            retry_timer_id: RetryTimerId(1)
        }
    );
    assert!(handle.poll_event_at(deadline).is_none());
}

#[test]
fn bounded_timer_admission_backpressures_without_losing_the_offer() {
    let deadline = MonotonicInstant(2_000);
    let (mut sink, mut handle) = sink(1);
    assert_eq!(sink.poll_dispatch(&mut handle, &dispatch(1, retry(1, deadline))), DispatchPoll::Accepted);
    assert!(sink.poll_completion().is_some());
    let offer = dispatch(2, retry(2, deadline));
    assert_eq!(sink.poll_dispatch(&mut handle, &offer), DispatchPoll::Pending);
    assert!(sink.poll_completion().is_none());
    assert!(handle.poll_event_at(deadline).is_some());
    assert_eq!(sink.poll_dispatch(&mut handle, &offer), DispatchPoll::Accepted);
}

#[test]
fn option_application_catalog_is_exact_and_bounded() {
    let (mut sink, _) = sink(1);
    let effect = TransitionEffect::ApplyOptionPatch {
        task_id: TaskId(1),
        gid: Gid(1),
        patch_id: OptionPatchId(1),
        satisfies_credentials: None,
    };
    let plan = OptionApplicationPlan::new(effect, OptionApplicationOutcome::Applied).expect("option plan");
    sink.prepare(RuntimeEffectPreparation::OptionApplication(Box::new(plan.clone())))
        .expect("register option plan");
    assert_eq!(
        sink.prepare(RuntimeEffectPreparation::OptionApplication(Box::new(plan))),
        Err(RuntimeEffectPrepareError::Duplicate)
    );
    let other = OptionApplicationPlan::new(
        TransitionEffect::ApplyOptionPatch {
            task_id: TaskId(2),
            gid: Gid(2),
            patch_id: OptionPatchId(2),
            satisfies_credentials: None,
        },
        OptionApplicationOutcome::Applied,
    )
    .expect("other option plan");
    assert_eq!(
        sink.prepare(RuntimeEffectPreparation::OptionApplication(Box::new(other.clone()))),
        Err(RuntimeEffectPrepareError::Full)
    );
    sink.prepare(RuntimeEffectPreparation::DiscardOptionApplications)
        .expect("discard unused preparations");
    assert!(sink.option_plans.is_empty());
    sink.prepare(RuntimeEffectPreparation::OptionApplication(Box::new(other)))
        .expect("capacity restored");
}

#[test]
fn planned_option_application_is_acknowledged_once() {
    let (mut sink, mut handle) = sink(1);
    let effect = TransitionEffect::ApplyOptionPatch {
        task_id: TaskId(1),
        gid: Gid(1),
        patch_id: OptionPatchId(7),
        satisfies_credentials: None,
    };
    let plan = OptionApplicationPlan::new(effect, OptionApplicationOutcome::Applied).expect("option plan");
    sink.prepare(RuntimeEffectPreparation::OptionApplication(Box::new(plan))).expect("register");
    assert_eq!(sink.poll_dispatch(&mut handle, &dispatch(1, effect)), DispatchPoll::Accepted);
    assert_eq!(sink.poll_dispatch(&mut handle, &dispatch(2, effect)), DispatchPoll::Failed);
    match sink.poll_completion() {
        Some(EffectCompletion::Completed { dispatch_id, acknowledgement: Some(event) }) => {
            assert_eq!(dispatch_id, EffectDispatchId(1));
            assert_eq!(
                event.event,
                TaskEvent::OptionPatchApplied {
                    gid: Gid(1),
                    generation: Generation(1),
                    patch_id: OptionPatchId(7)
                }
            );
        }
        other => panic!("unexpected completion {other:?}"),
    }
    assert_eq!(sink.poll_dispatch(&mut handle, &dispatch(3, effect)), DispatchPoll::Accepted);
    assert_eq!(
        sink.poll_completion(),
        Some(EffectCompletion::UnrepresentableFailure { dispatch_id: EffectDispatchId(3) })
    );
    assert_eq!(
        OptionApplicationPlan::new(TransitionEffect::ReleaseSlot, OptionApplicationOutcome::Applied),
        Err(OptionApplicationPlanError::NotOptionApplication)
    );
}

#[test]
fn rescheduling_a_retry_is_idempotent_and_a_moved_deadline_fails() {
    let (mut sink, mut handle) = sink(1);
    let effect = retry(1, MonotonicInstant(5));
    for id in 1..4 {
        assert_eq!(sink.poll_dispatch(&mut handle, &dispatch(id, effect)), DispatchPoll::Accepted);
        assert_eq!(
            sink.poll_completion(),
            Some(EffectCompletion::Completed { dispatch_id: EffectDispatchId(id), acknowledgement: None })
        );
    }
    assert_eq!(handle.retry_timers.len(), 1);
    assert_eq!(
        sink.poll_dispatch(&mut handle, &dispatch(9, retry(1, MonotonicInstant(6)))),
        DispatchPoll::Accepted
    );
    assert_eq!(
        sink.poll_completion(),
        Some(EffectCompletion::UnrepresentableFailure { dispatch_id: EffectDispatchId(9) })
    );
    let cancel = TransitionEffect::CancelRetry { identity: identity(1), retry_timer_id: RetryTimerId(1) };
    assert_eq!(sink.poll_dispatch(&mut handle, &dispatch(10, cancel)), DispatchPoll::Accepted);
    assert!(handle.retry_timers.is_empty());
}

#[test]
fn timers_come_out_by_time_then_gid_and_after_worker_events() {
    let (mut sink, mut handle) = sink(4);
    let effects = [
        retry(3, MonotonicInstant(20)),
        retry(2, MonotonicInstant(10)),
        TransitionEffect::ScheduleSlowReadmission {
            identity: identity(1),
            readmission_id: SlowReadmissionId(1),
            at: MonotonicInstant(10),
        },
        TransitionEffect::StartAllocation { identity: identity(9) },
    ];
    for (id, effect) in effects.into_iter().enumerate() {
        assert_eq!(sink.poll_dispatch(&mut handle, &dispatch(id as u64, effect)), DispatchPoll::Accepted);
        assert!(sink.poll_completion().is_some());
    }
    let request = handle.take_allocation().expect("allocation");
    assert_eq!(request.gid(), Gid(9));
    let (submission, active) = request.activate();
    assert_eq!(active.task_id(), TaskId(9));
    assert!(handle.try_submit_event(submission).is_ok());
    let mut tasks = Vec::new();
    while let Some(event) = handle.poll_event_at(MonotonicInstant(30)) {
        tasks.push(event.task_id);
    }
    assert_eq!(tasks, vec![TaskId(9), TaskId(1), TaskId(2), TaskId(3)]);
}

#[test]
fn full_and_closed_mailboxes_hand_the_event_back() {
    let (mut sink, mut handle) = sink(1);
    assert_eq!(
        sink.poll_dispatch(&mut handle, &dispatch(1, TransitionEffect::StartAllocation { identity: identity(1) })),
        DispatchPoll::Accepted
    );
    assert!(sink.poll_completion().is_some());
    let allocation = handle.take_allocation().expect("allocation");
    assert!(handle.try_submit_event(allocation.succeeded()).is_ok());
    assert_eq!(
        sink.poll_dispatch(
            &mut handle,
            &dispatch(2, TransitionEffect::CancelGeneration { identity: identity(1), force: true })
        ),
        DispatchPoll::Accepted
    );
    assert!(sink.poll_completion().is_some());
    let cancellation = handle
        .take_cancellation_for(TaskId(1), Gid(1), Generation(1))
        .expect("cancellation");
    assert!(cancellation.force());
    let rejection = handle.try_submit_event(cancellation.drained()).expect_err("full");
    assert_eq!(rejection.error(), RuntimeEventSubmitError::Full);
    handle.close();
    assert!(handle.is_closed());
    let rejection = handle.try_submit_event(rejection.into_submission()).expect_err("closed");
    assert_eq!(rejection.error(), RuntimeEventSubmitError::Closed);
    assert_eq!(
        sink.poll_dispatch(&mut handle, &dispatch(3, TransitionEffect::ReleaseSlot)),
        DispatchPoll::Closed
    );
}

#[test]
fn torrent_requests_are_left_for_their_owner() {
    let (mut sink, mut handle) = sink(4);
    handle.register_bt_task(TaskId(1));
    for value in 1..3 {
        assert_eq!(
            sink.poll_dispatch(
                &mut handle,
                &dispatch(value, TransitionEffect::StartAllocation { identity: identity(value) })
            ),
            DispatchPoll::Accepted
        );
        assert!(sink.poll_completion().is_some());
    }
    assert_eq!(handle.take_allocation().map(|request| request.task_id()), Some(TaskId(2)));
    assert!(handle.take_allocation().is_none());
    let mut owned = KeySet::new();
    owned.insert(1);
    assert_eq!(
        handle.take_allocation_matching(&owned).map(|request| request.task_id()),
        Some(TaskId(1))
    );
    handle.unregister_bt_task(TaskId(1));
    assert!(handle.take_cancellation().is_none());
    assert!(handle.take_cancellation_matching(&owned).is_none());
}

#[test]
fn probes_wait_for_their_time() {
    let (mut sink, mut handle) = sink(2);
    let probe = ProbeNoSpace {
        identity: identity(1),
        probe_id: NoSpaceProbeId(4),
        origin: NoSpaceProbeOrigin::AutomaticRetry,
        at: MonotonicInstant(50),
    };
    assert_eq!(
        sink.poll_dispatch(&mut handle, &dispatch(1, TransitionEffect::ProbeNoSpace(probe))),
        DispatchPoll::Accepted
    );
    assert_eq!(sink.remaining_startup_probe_targets(), 0);
    assert!(handle.take_no_space_probe_at(MonotonicInstant(49)).is_none());
    let request = handle.take_no_space_probe_at(MonotonicInstant(50)).expect("probe");
    assert_eq!(request.probe_id(), NoSpaceProbeId(4));
    assert!(request.startup_target().is_none());
    let submission = request.completed(true, None);
    assert_eq!(
        submission.event().event,
        TaskEvent::NoSpaceProbeCompleted {
            gid: Gid(1),
            generation: Generation(1),
            probe_id: NoSpaceProbeId(4),
            origin: NoSpaceProbeOrigin::AutomaticRetry,
            ready: true,
            next_retry_at: None,
        }
    );
}

#[test]
fn adapter_capacities_have_a_hard_ceiling() {
    assert_eq!(RuntimeEffectConfig::default(), config(64));
    assert_eq!(config(1024).validate(), Ok(config(1024)));
    let mut over = config(1);
    over.event_capacity = 1025;
    over.timer_capacity = 2000;
    let error = RuntimeEffectConfigError::CapacityTooLarge { queue: RuntimeQueue::Event, capacity: 1025 };
    assert_eq!(over.validate(), Err(error));
    assert_eq!(error.message(), "runtime event capacity 1025 exceeds hard maximum 1024");
}
