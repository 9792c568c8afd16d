use rakka_agent::budget::{
    charge, find_refused, AgentBudgetAllocation, AgentBudgetConsumption, AgentBudgetDimension,
};
use rakka_agent::calendar::{
    civil_year_month, days_of_month_start, next_calendar_boundary, AgentBudgetWindow,
    AgentCalendarUnit, MILLIS_PER_DAY,
};
use rakka_agent::identity::{
    AgentGoalId, AgentOperationId, AgentPolicyRef, AgentRevisionNumber, AgentRevisionProvenance,
    AgentRunId, AgentTaskId, AgentTimestampMillis, AgentWakeCallbackId, AgentWakeEventId,
    AgentWakeId, PrincipalRef, TenantId,
};
use rakka_agent::wake::{
    epoch_admission_operation_id, epoch_result_operation_id, wake_admission_operation_id,
    wake_id_for_occurrence, AgentTriggerSource, AgentWakeBinding, AgentWakeOccurrence,
    AgentWakeRewakeCause, AgentWakeTriggerKind, ScheduleRevision,
};
use rakka_agent::wake_controller::{
    bounded_reason, AgentWakeControllerState, AGENT_WAKE_ACTIVE_CAPACITY,
    AGENT_WAKE_PENDING_CAPACITY, AGENT_WAKE_REASON_MAX_LENGTH, AGENT_WAKE_RECENT_CAPACITY,
};
use rakka_agent::wake_error::AgentTriggerSourceError;
use rakka_agent::wake_policy::{
    AgentGoalLifecycleStatus, AgentGoalWindowCeiling, AgentWakeBackoffPolicy,
    AgentWakeLifecyclePolicy, AgentWakePolicy, AgentWakePolicyRevision, AgentWakeRenewalPolicy,
    AgentWakeRetirementPolicy, AgentWakeTriggerSet,
};
use rakka_agent::wake_state::{AgentEpochOutcomeClass, AgentEpochRef, AgentWakeDisposition};

fn tenant() -> TenantId {
    TenantId::new("acme")
}

fn goal() -> AgentGoalId {
    AgentGoalId::new("goal-1").expect("the goal id is valid")
}

fn now(at: u64) -> AgentTimestampMillis {
    AgentTimestampMillis::new(at)
}

fn provenance() -> AgentRevisionProvenance {
    AgentRevisionProvenance {
        principal: PrincipalRef {
            principal_type: "service".to_string(),
            principal_id: "control-plane".to_string(),
            display_name: None,
        },
        accepted_at: now(1),
        causation_id: "cause-1".to_string(),
        audit_ref: "audit-1".to_string(),
    }
}

fn budget(model_calls: u64) -> AgentBudgetAllocation {
    let mut budget = AgentBudgetAllocation::unbounded();
    budget.set(AgentBudgetDimension::ModelCalls, Some(model_calls));
    budget
}

fn policy() -> AgentWakePolicy {
    AgentWakePolicy::new(
        &[
            AgentWakeTriggerKind::DurableTimer,
            AgentWakeTriggerKind::ExternalEvent,
        ],
        budget(16),
        Some(60_000),
    )
    .expect("the policy is valid")
}

fn binding(occurrence: AgentWakeOccurrence, trigger: AgentWakeTriggerKind) -> AgentWakeBinding {
    AgentWakeBinding::new(
        tenant(),
        goal(),
        ScheduleRevision::initial(),
        occurrence,
        trigger,
        now(5),
        AgentRevisionNumber::initial(),
    )
    .expect("the binding is valid")
}

fn scheduled(due_at: u64) -> AgentWakeBinding {
    binding(
        AgentWakeOccurrence::Scheduled { due_at: now(due_at) },
        AgentWakeTriggerKind::DurableTimer,
    )
}

fn event(name: &str) -> AgentWakeBinding {
    binding(
        AgentWakeOccurrence::ExternalEvent {
            event: AgentWakeEventId::new(name).expect("the event id is valid"),
        },
        AgentWakeTriggerKind::ExternalEvent,
    )
}

#[test]
fn each_occurrence_kind_has_its_identity() {
    let cases = [
        (
            AgentWakeOccurrence::Scheduled { due_at: now(12) },
            "scheduled",
            "12",
            Some(12),
        ),
        (
            AgentWakeOccurrence::ExternalEvent {
                event: AgentWakeEventId::new("deploy").expect("the id is valid"),
            },
            "external-event",
            "deploy",
            None,
        ),
        (
            AgentWakeOccurrence::Command {
                operation: AgentOperationId::new("op-1").expect("the id is valid"),
            },
            "a2a-command",
            "op-1",
            None,
        ),
        (
            AgentWakeOccurrence::Callback {
                callback: AgentWakeCallbackId::new("cb-1").expect("the id is valid"),
            },
            "callback",
            "cb-1",
            None,
        ),
        (
            AgentWakeOccurrence::Retry {
                due_at: now(30),
                cause: AgentWakeRewakeCause::WindowTurn,
                attempt: 2,
            },
            "controller-retry",
            "window-turn:30:2",
            Some(30),
        ),
    ];
    let mut seen: Vec<String> = Vec::new();
    for (occurrence, kind, identity, due) in cases {
        assert_eq!(occurrence.kind_label(), kind);
        assert_eq!(occurrence.identity_value(), identity);
        assert_eq!(occurrence.due_at().map(|at| at.as_millis()), due);
        let wake = wake_id_for_occurrence(
            &tenant(),
            &goal(),
            ScheduleRevision::initial(),
            &occurrence,
        )
        .expect("the wake derives");
        assert_eq!(wake.as_str().len(), 69);
        assert!(!seen.contains(&wake.as_str().to_string()));
        seen.push(wake.as_str().to_string());
    }
}

#[test]
fn a_wake_is_keyed_by_all_it_is_derived_from() {
    let occurrence = AgentWakeOccurrence::Scheduled { due_at: now(12) };
    let derive = |tenant: &str, goal: &str, revision: u64| {
        wake_id_for_occurrence(
            &TenantId::new(tenant),
            &AgentGoalId::new(goal).expect("the goal id is valid"),
            ScheduleRevision::new(revision),
            &occurrence,
        )
        .expect("the wake derives")
        .as_str()
        .to_string()
    };
    let base = derive("acme", "goal", 1);
    assert_eq!(base, derive("acme", "goal", 1));
    assert_ne!(base, derive("acmeg", "oal", 1));
    assert_ne!(base, derive("acme", "goal", 2));
    let error = wake_id_for_occurrence(
        &TenantId::new(""),
        &goal(),
        ScheduleRevision::initial(),
        &occurrence,
    )
    .expect_err("a tenant keys the wake");
    assert_eq!(error.code(), "wake-identity");
}

#[test]
fn the_operations_of_a_wake_are_distinct() {
    let bound = scheduled(12);
    let wake = bound.wake_id();
    let admission = wake_admission_operation_id(&tenant(), &goal(), wake).expect("it derives");
    let epoch = epoch_admission_operation_id(&tenant(), &goal(), wake).expect("it derives");
    let result = epoch_result_operation_id(&tenant(), &goal(), wake).expect("it derives");
    assert_ne!(admission.as_str(), epoch.as_str());
    assert_ne!(epoch.as_str(), result.as_str());
    assert_ne!(admission.as_str(), result.as_str());
    assert_eq!(
        admission.as_str(),
        bound
            .admission_operation_id()
            .expect("it derives")
            .as_str()
    );
}

#[test]
fn a_source_never_reaches_the_identity() {
    let plain = scheduled(12);
    let sourced = scheduled(12)
        .with_source(
            AgentTriggerSource {
                metadata: "timer-host-3".to_string(),
            },
            Ok(()),
        )
        .expect("the source is accepted");
    assert_eq!(plain.wake_id().as_str(), sourced.wake_id().as_str());
    assert!(plain.same_identity(&sourced));
    assert!(sourced.source().is_some());
    let error = scheduled(12)
        .with_source(
            AgentTriggerSource {
                metadata: String::new(),
            },
            Err(AgentTriggerSourceError {
                message: "the source is empty".to_string(),
            }),
        )
        .expect_err("the source is refused");
    assert_eq!(error.code(), "wake-trigger-source");
}

#[test]
fn every_policy_refusal_has_its_cause() {
    let backoff = |backoff: AgentWakeBackoffPolicy| {
        policy()
            .with_failure_backoff(backoff)
            .expect_err("the backoff is refused")
            .code()
    };
    let default = AgentWakeBackoffPolicy::default();
    assert_eq!(
        backoff(AgentWakeBackoffPolicy {
            initial_millis: 0,
            ..default
        }),
        "wake-backoff-initial-zero"
    );
    assert_eq!(
        backoff(AgentWakeBackoffPolicy {
            multiplier_percent: 99,
            ..default
        }),
        "wake-backoff-multiplier-below-unit"
    );
    assert_eq!(
        backoff(AgentWakeBackoffPolicy {
            max_millis: 999,
            ..default
        }),
        "wake-backoff-maximum-below-initial"
    );
    assert_eq!(
        backoff(AgentWakeBackoffPolicy {
            escalate_after_failures: Some(0),
            ..default
        }),
        "wake-zero-escalation-threshold"
    );
    let lifecycle = |lifecycle: AgentWakeLifecyclePolicy| {
        policy()
            .with_lifecycle(lifecycle)
            .expect_err("the lifecycle is refused")
            .code()
    };
    let default = AgentWakeLifecyclePolicy::default();
    assert_eq!(
        lifecycle(AgentWakeLifecyclePolicy {
            retirement: AgentWakeRetirementPolicy::AfterOccurrences { occurrences: 0 },
            ..default
        }),
        "wake-zero-retirement-occurrences"
    );
    assert_eq!(
        lifecycle(AgentWakeLifecyclePolicy {
            renewal: AgentWakeRenewalPolicy::RequiredBefore { window_millis: 0 },
            expires_at: Some(now(10)),
            ..default
        }),
        "wake-zero-duration"
    );
    assert_eq!(
        policy()
            .with_admission_window(0)
            .expect_err("zero is refused")
            .code(),
        "wake-zero-duration"
    );
    assert_eq!(
        policy()
            .with_maximum_lateness(0)
            .expect_err("zero is refused")
            .code(),
        "wake-zero-duration"
    );
    assert_eq!(
        policy()
            .with_goal_window(AgentGoalWindowCeiling {
                window: AgentBudgetWindow::Rolling { length_millis: 0 },
                ceiling: budget(16),
            })
            .expect_err("zero is refused")
            .code(),
        "wake-zero-duration"
    );
    let mut unbounded = policy();
    unbounded.epoch_deadline_millis = Some(0);
    assert_eq!(
        unbounded.validate().expect_err("zero is refused").code(),
        "wake-zero-duration"
    );
    assert!(policy().allows_trigger(AgentWakeTriggerKind::ExternalEvent));
    assert!(!policy().allows_trigger(AgentWakeTriggerKind::Callback));
}

#[test]
fn a_policy_revision_is_validated() {
    let mut broken = policy();
    broken.triggers = AgentWakeTriggerSet::none();
    let error = AgentWakePolicyRevision::initial(broken, provenance()).expect_err("no trigger");
    assert_eq!(error.code(), "wake-empty-triggers");
    let revision = AgentWakePolicyRevision::initial(policy(), provenance()).expect("it is valid");
    assert!(revision
        .policy()
        .allows_trigger(AgentWakeTriggerKind::DurableTimer));
    assert_eq!(revision.provenance().causation_id, "cause-1");
}

#[test]
fn parallel_epochs_admit_to_their_bound() {
    let parallel = policy()
        .with_parallel_epochs(
            2,
            AgentPolicyRef::new("merge").expect("the policy ref is valid"),
        )
        .expect("the policy is valid");
    let mut controller = AgentWakeControllerState::new();
    for (name, admitted) in [("one", true), ("two", true), ("three", false)] {
        let disposition = controller
            .admit_wake(&parallel, ScheduleRevision::initial(), event(name), now(10))
            .expect("the wake is dispositioned");
        assert_eq!(disposition.is_admission(), admitted, "{name}");
    }
    assert_eq!(controller.active().len(), 2);
    assert_eq!(controller.pending().len(), 1);
    assert_eq!(controller.last_admitted_at(), Some(now(10)));
    assert!(controller.contains(event("three").wake_id()));
    assert!(!controller.contains(event("four").wake_id()));
}

#[test]
fn an_epoch_is_attached_to_its_wake() {
    let mut controller = AgentWakeControllerState::new();
    let bound = event("one");
    let wake = bound.wake_id().clone();
    controller
        .admit_wake(&policy(), ScheduleRevision::initial(), bound, now(10))
        .expect("the wake is admitted");
    let epoch = || AgentEpochRef {
        task: AgentTaskId::new("epoch-1").expect("the id is valid"),
        run: AgentRunId::new("run-1").expect("the id is valid"),
    };
    controller
        .attach_epoch(&wake, epoch())
        .expect("the wake is active");
    assert_eq!(
        controller.active()[0]
            .epoch()
            .map(|epoch| epoch.task.as_str()),
        Some("epoch-1")
    );
    let view = controller.status_view(
        ScheduleRevision::new(3),
        AgentRevisionNumber::new(4),
    );
    assert_eq!(view.schedule_revision, ScheduleRevision::new(3));
    assert_eq!(view.policy_revision, AgentRevisionNumber::new(4));
    assert_eq!(view.active.len(), 1);
    assert_eq!(view.active[0].as_str(), wake.as_str());
    assert!(view.pending.is_empty());
    assert_eq!(view.counters.admitted, 1);
    assert_eq!(view.epochs.len(), 1);
    assert_eq!(view.epochs[0].run.as_str(), "run-1");
    assert!(view.lifecycle.is_some());
    let error = controller
        .attach_epoch(
            &AgentWakeId::new("wake-none").expect("the id is valid"),
            epoch(),
        )
        .expect_err("no such wake is active");
    assert_eq!(error.code(), "wake-not-active");
    let release = controller
        .release(&policy(), &wake, now(20))
        .expect("the wake releases");
    assert_eq!(
        release.epoch.as_ref().map(|epoch| epoch.run.as_str()),
        Some("run-1")
    );
}

#[test]
fn a_state_is_bounded_in_every_list() {
    let many = |count: usize| -> Vec<AgentWakeBinding> {
        (0..count).map(|at| scheduled(at as u64 + 1)).collect()
    };
    let mut record = AgentWakeControllerState::new().into_record();
    record.pending = many(AGENT_WAKE_PENDING_CAPACITY);
    let state = AgentWakeControllerState::restore(record).expect("the bound is inclusive");
    state.validate().expect("the state is within its bounds");
    let mut record = state.into_record();
    record.pending = many(AGENT_WAKE_PENDING_CAPACITY + 1);
    let error = AgentWakeControllerState::restore(record).expect_err("one too many");
    assert_eq!(error.code(), "wake-state-out-of-bounds");
    assert!(error.message().contains("parked occurrences"));
    assert_eq!(AGENT_WAKE_ACTIVE_CAPACITY, 8);
    assert_eq!(AGENT_WAKE_RECENT_CAPACITY, 16);
}

#[test]
fn the_recent_ring_still_answers_a_redelivery() {
    let mut controller = AgentWakeControllerState::new();
    let first = event("event-0");
    controller
        .admit_wake(&policy(), ScheduleRevision::initial(), first.clone(), now(1))
        .expect("it is admitted");
    controller
        .release(&policy(), first.wake_id(), now(2))
        .expect("it releases");
    let again = controller
        .admit_wake(&policy(), ScheduleRevision::initial(), first, now(3))
        .expect("it is answered");
    assert!(matches!(again, AgentWakeDisposition::Duplicate { .. }));
    assert_eq!(again.as_label(), "duplicate");
}

#[test]
fn revisions_are_ordered_as_their_numbers() {
    let (low, high) = (ScheduleRevision::new(2), ScheduleRevision::new(3));
    assert!(low < high);
    assert!(!(high < low));
    assert_eq!(low.partial_cmp(&low), Some(std::cmp::Ordering::Equal));
    assert_eq!(low.max(high).get(), 3);
    assert_eq!(ScheduleRevision::new(low.get()), low);
    assert_eq!(ScheduleRevision::new(0).get(), 1);
}

#[test]
fn only_the_counters_that_move_need_room() {
    let mut record = AgentWakeControllerState::new().into_record();
    record.counters.dropped = u64::MAX;
    record.counters.superseded = u64::MAX;
    let mut controller = AgentWakeControllerState::restore(record).expect("it is bounded");
    let deliver = |controller: &mut AgentWakeControllerState, at: u64| {
        controller
            .admit_wake(
                &policy(),
                ScheduleRevision::initial(),
                event("first"),
                now(at),
            )
            .expect("the delivery is dispositioned")
    };
    assert!(matches!(
        deliver(&mut controller, 10),
        AgentWakeDisposition::Admitted { .. }
    ));

    // With every counter full a redelivery is still a duplicate.
    let mut record = controller.into_record();
    record.counters.admitted = u64::MAX;
    record.counters.coalesced = u64::MAX;
    record.counters.missed = u64::MAX;
    let mut controller = AgentWakeControllerState::restore(record).expect("it is bounded");
    assert!(matches!(
        deliver(&mut controller, 20),
        AgentWakeDisposition::Duplicate { .. }
    ));
}

#[test]
fn no_status_but_active_promotes() {
    let policy = policy();
    for status in [
        AgentGoalLifecycleStatus::Active,
        AgentGoalLifecycleStatus::Suspended,
        AgentGoalLifecycleStatus::Expired,
        AgentGoalLifecycleStatus::Retired,
    ] {
        assert_eq!(
            status.permits_admission(),
            status == AgentGoalLifecycleStatus::Active
        );
        assert!(!(status.permits_admission() && status.is_terminal()));
        let mut controller = AgentWakeControllerState::new();
        for name in ["first", "second"] {
            controller
                .admit_wake(&policy, ScheduleRevision::initial(), event(name), now(10))
                .expect("the delivery is dispositioned");
        }
        let mut record = controller.into_record();
        record.active.clear();
        record.lifecycle.status = status;
        let mut controller =
            AgentWakeControllerState::restore(record).expect("the record is bounded");
        let promoted = controller.promote_admittable(&policy, now(20));
        assert_eq!(
            promoted.is_some(),
            status == AgentGoalLifecycleStatus::Active
        );
    }
}

#[test]
fn a_calendar_window_turns_with_its_unit() {
    // One epoch for each day.
    let daily = policy()
        .with_goal_window(AgentGoalWindowCeiling {
            window: AgentBudgetWindow::Calendar {
                unit: AgentCalendarUnit::Day,
            },
            ceiling: budget(16),
        })
        .expect("the policy is valid");
    let mut controller = AgentWakeControllerState::new();
    let noon = 20_661 * MILLIS_PER_DAY + MILLIS_PER_DAY / 2;
    let first = event("first");
    controller
        .admit_wake(&daily, ScheduleRevision::initial(), first.clone(), now(noon))
        .expect("it is admitted");
    controller
        .release(&daily, first.wake_id(), now(noon + 1))
        .expect("it releases");
    let deferred = controller
        .admit_wake(
            &daily,
            ScheduleRevision::initial(),
            event("second"),
            now(noon + 2),
        )
        .expect("it is dispositioned");
    assert!(matches!(
        deferred,
        AgentWakeDisposition::Deferred {
            dimension: AgentBudgetDimension::ModelCalls,
            ..
        }
    ));
    controller.ensure_rewakes(&daily, now(noon + 2));
    let slot = controller
        .lifecycle()
        .rewakes()
        .window_turn
        .expect("a re-wake is owed");
    assert_eq!(slot.due_at.as_millis(), 20_662 * MILLIS_PER_DAY);
    assert!(controller
        .promote_admittable(&daily, now(20_662 * MILLIS_PER_DAY))
        .is_some());
}

#[test]
fn an_escalation_reason_is_bounded() {
    let long = "x".repeat(AGENT_WAKE_REASON_MAX_LENGTH + 10);
    assert_eq!(bounded_reason(long).len(), AGENT_WAKE_REASON_MAX_LENGTH);
    let mut controller = AgentWakeControllerState::new();
    let revision = controller.lifecycle().lifecycle_revision();
    controller
        .suspend(
            revision,
            Some("y".repeat(AGENT_WAKE_REASON_MAX_LENGTH + 1)),
            provenance(),
        )
        .expect("the suspend applies");
    assert_eq!(
        controller
            .lifecycle()
            .suspended_reason()
            .map(|reason| reason.len()),
        Some(AGENT_WAKE_REASON_MAX_LENGTH)
    );
    assert!(controller.lifecycle().changed_by().is_some());
}

#[test]
fn a_renewal_revives_nothing_terminal() {
    let renewing = policy()
        .with_lifecycle(AgentWakeLifecyclePolicy {
            expires_at: Some(now(100)),
            ..AgentWakeLifecyclePolicy::default()
        })
        .expect("the policy is valid");
    let mut controller = AgentWakeControllerState::new();
    assert_eq!(
        controller.observe_lifecycle(&renewing, now(100)),
        Some(AgentGoalLifecycleStatus::Expired)
    );
    let revision = controller.lifecycle().lifecycle_revision();
    let error = controller
        .renew(revision, &renewing, now(500), provenance(), now(101))
        .expect_err("an expired goal stays expired");
    assert_eq!(error.code(), "wake-lifecycle-terminal");
    assert!(!AgentGoalLifecycleStatus::Expired.permits_admission());
    assert_eq!(AgentEpochOutcomeClass::Failed.as_label(), "failed");
}

#[test]
fn civil_months_follow_the_calendar() {
    assert_eq!(civil_year_month(0), (1970, 1));
    assert_eq!(civil_year_month(58), (1970, 2));
    assert_eq!(civil_year_month(59), (1970, 3));
    // 2000 was a leap year, 1900 and 2100 are none.
    assert_eq!(civil_year_month(11_016), (2000, 2));
    assert_eq!(civil_year_month(11_017), (2000, 3));
    assert_eq!(days_of_month_start(2000, 3), 11_017);
    assert_eq!(days_of_month_start(2100, 3) - days_of_month_start(2100, 2), 28);
    assert_eq!(days_of_month_start(2024, 3) - days_of_month_start(2024, 2), 29);
    assert_eq!(
        next_calendar_boundary(AgentCalendarUnit::Month, now(20_661 * MILLIS_PER_DAY)),
        20_666 * MILLIS_PER_DAY
    );
    assert_eq!(
        next_calendar_boundary(AgentCalendarUnit::Week, now(20_661 * MILLIS_PER_DAY)),
        20_668 * MILLIS_PER_DAY
    );
}

#[test]
fn a_charge_stops_at_the_ceiling() {
    let consumed = AgentBudgetConsumption::zero();
    let ceiling = budget(24);
    assert_eq!(find_refused(&ceiling, &budget(16), &consumed), None);
    let consumed = charge(&ceiling, &budget(16), consumed);
    assert_eq!(consumed.get(AgentBudgetDimension::ModelCalls), 16);
    assert_eq!(
        find_refused(&ceiling, &budget(16), &consumed),
        Some(AgentBudgetDimension::ModelCalls)
    );
    assert_eq!(find_refused(&ceiling, &budget(8), &consumed), None);
    assert_eq!(consumed.get(AgentBudgetDimension::Tokens), 0);
    assert!(AgentBudgetAllocation::unbounded().is_unbounded());
    assert_eq!(AgentBudgetDimension::conserved().len(), 2);
}
