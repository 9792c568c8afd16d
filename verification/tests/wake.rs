use std::collections::BTreeSet;

use rakka_agent::budget::{AgentBudgetAllocation, AgentBudgetDimension};
use rakka_agent::calendar::{calendar_window_start, AgentBudgetWindow, AgentCalendarUnit, MILLIS_PER_DAY};
use rakka_agent::identity::{AgentGoalId, AgentPolicyRef, AgentRevisionNumber, AgentRevisionProvenance, AgentTimestampMillis, AgentWakeEventId, AgentWakeId, PrincipalRef, TenantId};
use rakka_agent::wake::{epoch_task_id_for_wake, wake_id_for_occurrence, AgentWakeBinding, AgentWakeOccurrence, AgentWakeRewakeCause, AgentWakeTriggerKind, ScheduleRevision, AGENT_WAKE_ID_PREFIX};
use rakka_agent::wake_controller::{AgentWakeControllerState, AGENT_WAKE_RECENT_CAPACITY};
use rakka_agent::wake_policy::{AgentGoalLifecycleStatus, AgentGoalWindowCeiling, AgentMissedOccurrencePolicy, AgentWakeBackoffPolicy, AgentWakeLifecyclePolicy, AgentWakeOverlapPolicy, AgentWakePolicy, AgentWakePolicyRevision, AgentWakeRenewalPolicy, AgentWakeRetirementPolicy, AgentWakeSuspensionPolicy, AgentWakeTriggerSet, CURRENT_AGENT_WAKE_POLICY_SCHEMA_VERSION};
use rakka_agent::wake_state::{AgentEpochOutcomeClass, AgentWakeDisposition};

fn tenant() -> TenantId {
    TenantId::new("acme")
}

fn goal() -> AgentGoalId {
    AgentGoalId::new("nightly-reconciliation").expect("goal id should be valid")
}

fn provenance() -> AgentRevisionProvenance {
    AgentRevisionProvenance {
        principal: PrincipalRef {
            principal_type: "service".to_string(),
            principal_id: "control-plane".to_string(),
            display_name: None,
        },
        accepted_at: AgentTimestampMillis::new(1),
        causation_id: "cause-1".to_string(),
        audit_ref: "audit-1".to_string(),
    }
}

fn bounded_budget() -> AgentBudgetAllocation {
    let mut budget = AgentBudgetAllocation::unbounded();
    budget.set(AgentBudgetDimension::ModelCalls, Some(16));
    budget
}

fn default_policy() -> AgentWakePolicy {
    AgentWakePolicy::new(
        &[AgentWakeTriggerKind::DurableTimer],
        bounded_budget(),
        Some(60_000),
    )
    .expect("default policy should be valid")
}

#[test]
fn the_defaults_are_the_resolved_continuous_defaults() {
    let policy = default_policy();
    assert!(matches!(
        policy.overlap,
        AgentWakeOverlapPolicy::ForbidAndCoalesce
    ));
    assert_eq!(
        policy.missed_occurrence,
        AgentMissedOccurrencePolicy::AdmitOneCoalesced
    );
    assert_eq!(
        policy.lifecycle.while_suspended,
        AgentWakeSuspensionPolicy::CoalesceLatest
    );
    assert_eq!(
        policy.lifecycle.renewal,
        AgentWakeRenewalPolicy::NotRequired
    );
    assert_eq!(
        policy.lifecycle.retirement,
        AgentWakeRetirementPolicy::Manual
    );
    assert!(policy.goal_window.is_none());
}

#[test]
fn parallel_epochs_demand_a_parallel_bound() {
    let result_policy = AgentPolicyRef::new("merge-results").expect("ref should be valid");
    let error = default_policy()
        .with_parallel_epochs(1, result_policy.clone())
        .expect_err("a bound of one is not parallel");
    assert_eq!(error.code(), "wake-parallel-not-parallel");

    let policy = default_policy()
        .with_parallel_epochs(3, result_policy)
        .expect("an explicit parallel policy should be accepted");
    assert!(matches!(
        policy.overlap,
        AgentWakeOverlapPolicy::Parallel {
            max_concurrent_epochs: 3,
            ..
        }
    ));
}

#[test]
fn catch_up_must_replay_at_least_one_occurrence() {
    let error = default_policy()
        .with_bounded_catch_up(0)
        .expect_err("zero catch-up should be refused");
    assert_eq!(error.code(), "wake-zero-catch-up");
}

#[test]
fn an_unbounded_epoch_is_refused() {
    let error = AgentWakePolicy::new(
        &[AgentWakeTriggerKind::DurableTimer],
        AgentBudgetAllocation::unbounded(),
        None,
    )
    .expect_err("an epoch with no bound at all should be refused");
    assert_eq!(error.code(), "wake-epoch-unbounded");

    AgentWakePolicy::new(
        &[AgentWakeTriggerKind::DurableTimer],
        AgentBudgetAllocation::unbounded(),
        Some(60_000),
    )
    .expect("a deadline alone bounds the epoch");
}

#[test]
fn an_empty_trigger_set_is_refused() {
    let error = AgentWakePolicy::new(&[], bounded_budget(), Some(60_000))
        .expect_err("no trigger class should be refused");
    assert_eq!(error.code(), "wake-empty-triggers");
}

#[test]
fn a_window_ceiling_must_bound_something() {
    let error = default_policy()
        .with_goal_window(AgentGoalWindowCeiling {
            window: AgentBudgetWindow::Rolling {
                length_millis: 86_400_000,
            },
            ceiling: AgentBudgetAllocation::unbounded(),
        })
        .expect_err("an unbounded ceiling should be refused");
    assert_eq!(error.code(), "wake-window-ceiling-unbounded");
}

#[test]
fn an_epoch_budget_above_the_window_ceiling_is_refused() {
    // The default policy's epoch costs 16 model calls. A ceiling of 8
    // could never pay for one epoch even freshly refilled, so every
    // occurrence would defer forever; the contradiction is refused at
    // construction, exactly as its unbounded sibling is.
    let mut ceiling = AgentBudgetAllocation::unbounded();
    ceiling.set(AgentBudgetDimension::ModelCalls, Some(8));
    let error = default_policy()
        .with_goal_window(AgentGoalWindowCeiling {
            window: AgentBudgetWindow::Rolling {
                length_millis: 3_600_000,
            },
            ceiling,
        })
        .expect_err("a ceiling below the epoch budget should be refused");
    assert_eq!(error.code(), "wake-window-epoch-exceeds-ceiling");

    // The bound is exact: a ceiling equal to the epoch budget pays for
    // exactly one epoch per window and is accepted.
    windowed_policy(3_600_000, 16);
}

#[test]
fn a_renewal_requirement_needs_an_expiry() {
    let error = default_policy()
        .with_lifecycle(AgentWakeLifecyclePolicy {
            renewal: AgentWakeRenewalPolicy::RequiredBefore {
                window_millis: 60_000,
            },
            ..AgentWakeLifecyclePolicy::default()
        })
        .expect_err("renewal without expiry should be refused");
    assert_eq!(error.code(), "wake-renewal-without-expiry");
}

#[test]
fn the_maximum_lateness_cannot_undercut_the_admission_window() {
    // An occurrence inside the admission window but past the maximum
    // lateness would be both admittable and missed at once, so the
    // contradiction is refused at construction, whichever bound is
    // declared first.
    let error = default_policy()
        .with_admission_window(60_000)
        .expect("an admission window alone is accepted")
        .with_maximum_lateness(30_000)
        .expect_err("a lateness inside the window should be refused");
    assert_eq!(error.code(), "wake-lateness-below-admission-window");

    let error = default_policy()
        .with_maximum_lateness(30_000)
        .expect("a maximum lateness alone is accepted")
        .with_admission_window(60_000)
        .expect_err("the refusal cannot depend on declaration order");
    assert_eq!(error.code(), "wake-lateness-below-admission-window");

    default_policy()
        .with_admission_window(60_000)
        .expect("an admission window alone is accepted")
        .with_maximum_lateness(60_000)
        .expect("a lateness equal to the window is accepted");
}

#[test]
fn a_zero_schedule_revision_is_unrepresentable() {
    assert_eq!(ScheduleRevision::new(0), ScheduleRevision::initial());

    let error = ScheduleRevision::restore(0)
        .expect_err("a zero revision should fail closed on load");
    assert!(error.message().contains("never issued"));

    let loaded = ScheduleRevision::restore(7).expect("a positive revision loads");
    assert_eq!(loaded, ScheduleRevision::new(7));
}

#[test]
fn a_malformed_policy_fails_closed_on_deserialization() {
    let mut policy = default_policy();
    policy.triggers = AgentWakeTriggerSet::none();
    let error = policy
        .validate()
        .expect_err("an empty trigger set should fail closed on load");
    assert!(error.message().contains("at least one trigger"));
}

#[test]
fn the_policy_revision_carries_the_current_schema_version() {
    let revision = AgentWakePolicyRevision::initial(default_policy(), provenance())
        .expect("initial revision should be accepted");
    assert_eq!(revision.revision(), AgentRevisionNumber::initial());
    assert_eq!(
        revision.schema_version(),
        CURRENT_AGENT_WAKE_POLICY_SCHEMA_VERSION
    );

    let updated = revision
        .updated(default_policy(), provenance())
        .expect("update should be accepted");
    assert_eq!(updated.revision(), AgentRevisionNumber::initial().next());
}

#[test]
fn the_same_occurrence_from_any_trigger_path_yields_one_identity() {
    let occurrence = AgentWakeOccurrence::Scheduled {
        due_at: AgentTimestampMillis::new(1_753_500_000_000),
    };
    let mut ids = BTreeSet::new();
    for (trigger, accepted_at) in [
        (AgentWakeTriggerKind::DurableTimer, 1_753_500_000_100),
        (AgentWakeTriggerKind::DurableTimer, 1_753_500_090_000),
        (AgentWakeTriggerKind::A2aCommand, 1_753_500_500_000),
    ] {
        let binding = AgentWakeBinding::new(
            tenant(),
            goal(),
            ScheduleRevision::initial(),
            occurrence.clone(),
            trigger,
            AgentTimestampMillis::new(accepted_at),
            AgentRevisionNumber::initial(),
        )
        .expect("binding should be valid");
        ids.insert(binding.wake_id().as_str().to_string());
    }
    assert_eq!(ids.len(), 1, "every trigger path derives the same wake id");
}

#[test]
fn a_binding_with_a_forged_identity_fails_closed_on_deserialization() {
    let binding = AgentWakeBinding::new(
        tenant(),
        goal(),
        ScheduleRevision::initial(),
        AgentWakeOccurrence::Scheduled {
            due_at: AgentTimestampMillis::new(1),
        },
        AgentWakeTriggerKind::DurableTimer,
        AgentTimestampMillis::new(2),
        AgentRevisionNumber::initial(),
    )
    .expect("binding should be valid");
    let forged = AgentWakeId::new(&format!("{AGENT_WAKE_ID_PREFIX}{}", "0".repeat(64)))
        .expect("the forged id is a valid segment");
    let error = AgentWakeBinding::restore(
        binding.tenant().clone(),
        binding.goal().clone(),
        binding.schedule_revision(),
        binding.occurrence().clone(),
        binding.trigger(),
        None,
        binding.accepted_at(),
        binding.policy_revision(),
        &forged,
    )
    .expect_err("a forged wake id should fail closed on load");
    assert!(error.message().contains("do not derive"));

    let loaded = AgentWakeBinding::restore(
        binding.tenant().clone(),
        binding.goal().clone(),
        binding.schedule_revision(),
        binding.occurrence().clone(),
        binding.trigger(),
        None,
        binding.accepted_at(),
        binding.policy_revision(),
        binding.wake_id(),
    )
    .expect("an untampered binding should load");
    assert_eq!(format!("{loaded:?}"), format!("{binding:?}"));
}

fn scheduled_binding(due_at: u64, revision: ScheduleRevision) -> AgentWakeBinding {
    AgentWakeBinding::new(
        tenant(),
        goal(),
        revision,
        AgentWakeOccurrence::Scheduled {
            due_at: AgentTimestampMillis::new(due_at),
        },
        AgentWakeTriggerKind::DurableTimer,
        AgentTimestampMillis::new(due_at),
        AgentRevisionNumber::initial(),
    )
    .expect("binding should be valid")
}

fn now(at: u64) -> AgentTimestampMillis {
    AgentTimestampMillis::new(at)
}

#[test]
fn a_fresh_occurrence_admits_and_a_concurrent_one_coalesces_latest_wins() {
    let policy = default_policy();
    let mut controller = AgentWakeControllerState::new();

    let first = controller
        .admit_wake(
            &policy,
            ScheduleRevision::initial(),
            scheduled_binding(1_000, ScheduleRevision::initial()),
            now(1_010),
        )
        .expect("a fresh occurrence should be dispositioned");
    assert!(matches!(first, AgentWakeDisposition::Admitted { .. }));

    let second = controller
        .admit_wake(
            &policy,
            ScheduleRevision::initial(),
            scheduled_binding(2_000, ScheduleRevision::initial()),
            now(2_010),
        )
        .expect("a concurrent occurrence should be dispositioned");
    assert!(matches!(
        second,
        AgentWakeDisposition::Coalesced { replaced: None, .. }
    ));

    let third = controller
        .admit_wake(
            &policy,
            ScheduleRevision::initial(),
            scheduled_binding(3_000, ScheduleRevision::initial()),
            now(3_010),
        )
        .expect("a later concurrent occurrence should be dispositioned");
    assert!(matches!(
        third,
        AgentWakeDisposition::Coalesced {
            replaced: Some(_),
            ..
        }
    ));

    assert_eq!(controller.active().len(), 1);
    assert_eq!(controller.pending().len(), 1);
    assert_eq!(
        controller.pending()[0].due_at(),
        Some(AgentTimestampMillis::new(3_000)),
        "the single coalescing slot keeps the latest occurrence"
    );
    assert_eq!(controller.counters().admitted, 1);
    assert_eq!(controller.counters().coalesced, 2);
    assert_eq!(controller.counters().superseded, 1);
}

#[test]
fn release_promotes_the_parked_occurrence_in_the_same_transition() {
    let policy = default_policy();
    let mut controller = AgentWakeControllerState::new();
    let first = scheduled_binding(1_000, ScheduleRevision::initial());
    let second = scheduled_binding(2_000, ScheduleRevision::initial());
    let first_wake = first.wake_id().clone();
    let second_wake = second.wake_id().clone();

    controller
        .admit_wake(&policy, ScheduleRevision::initial(), first, now(1_010))
        .expect("the first occurrence should admit");
    controller
        .admit_wake(&policy, ScheduleRevision::initial(), second, now(2_010))
        .expect("the second occurrence should coalesce");

    let release = controller
        .release(&policy, &first_wake, now(5_000))
        .expect("the active occurrence should release");
    assert_eq!(release.released.as_str(), first_wake.as_str());
    assert_eq!(
        release.admitted_next.as_ref().map(|wake| wake.as_str()),
        Some(second_wake.as_str())
    );
    assert_eq!(controller.active().len(), 1);
    assert_eq!(
        controller.active()[0].binding().wake_id().as_str(),
        second_wake.as_str()
    );
    assert!(controller.pending().is_empty());
    assert_eq!(controller.counters().admitted, 2);
    assert_eq!(controller.counters().released, 1);

    let error = controller
        .release(&policy, &first_wake, now(5_001))
        .expect_err("releasing a wake that is not active should be refused");
    assert_eq!(error.code(), "wake-not-active");
}

#[test]
fn an_obsolete_revision_is_fenced_and_a_revision_ahead_fails_closed() {
    let policy = default_policy();
    let mut controller = AgentWakeControllerState::new();
    let current = ScheduleRevision::new(3);

    let fenced = controller
        .admit_wake(
            &policy,
            current,
            scheduled_binding(1_000, ScheduleRevision::new(2)),
            now(1_010),
        )
        .expect("an obsolete revision should be dispositioned, not erred");
    assert!(matches!(
        fenced,
        AgentWakeDisposition::Fenced { offered, current: in_force, .. }
            if offered == ScheduleRevision::new(2) && in_force == current
    ));
    assert_eq!(controller.counters().fenced, 1);
    assert!(controller.active().is_empty());

    let error = controller
        .admit_wake(
            &policy,
            current,
            scheduled_binding(1_000, ScheduleRevision::new(4)),
            now(1_010),
        )
        .expect_err("a revision ahead of the controller should fail closed");
    assert_eq!(error.code(), "wake-revision-ahead");
}

#[test]
fn a_duplicate_delivery_answers_without_a_transition() {
    let policy = default_policy();
    let mut controller = AgentWakeControllerState::new();
    let binding = scheduled_binding(1_000, ScheduleRevision::initial());
    let wake = binding.wake_id().clone();

    controller
        .admit_wake(
            &policy,
            ScheduleRevision::initial(),
            binding.clone(),
            now(1_010),
        )
        .expect("the first delivery should admit");
    let before = format!("{controller:?}");

    let duplicate = controller
        .admit_wake(&policy, ScheduleRevision::initial(), binding, now(9_999))
        .expect("a duplicate delivery should be dispositioned");
    assert!(matches!(duplicate, AgentWakeDisposition::Duplicate { .. }));
    assert_eq!(duplicate.wake_id().as_str(), wake.as_str());
    assert_eq!(
        format!("{controller:?}"),
        before,
        "a duplicate must not change state"
    );

    // Even after the occurrence releases and leaves every slot, the
    // scheduled watermark still answers a late redelivery as a duplicate.
    controller
        .release(&policy, &wake, now(10_000))
        .expect("the active occurrence should release");
    let late = controller
        .admit_wake(
            &policy,
            ScheduleRevision::initial(),
            scheduled_binding(1_000, ScheduleRevision::initial()),
            now(20_000),
        )
        .expect("a late redelivery should be dispositioned");
    assert!(matches!(late, AgentWakeDisposition::Duplicate { .. }));
}

#[test]
fn the_time_bands_place_an_occurrence() {
    let policy = default_policy()
        .with_admission_window(60_000)
        .expect("the window should be accepted")
        .with_maximum_lateness(120_000)
        .expect("the lateness should be accepted");
    let mut controller = AgentWakeControllerState::new();

    // Within the admission window: a direct admission.
    let fresh = controller
        .admit_wake(
            &policy,
            ScheduleRevision::initial(),
            scheduled_binding(100_000, ScheduleRevision::initial()),
            now(130_000),
        )
        .expect("an in-window occurrence should be dispositioned");
    assert!(matches!(fresh, AgentWakeDisposition::Admitted { .. }));
    let active = controller.active()[0].binding().wake_id().clone();
    controller
        .release(&policy, &active, now(140_000))
        .expect("the active occurrence should release");

    // Between the window and the maximum lateness: coalesced, which in an
    // idle controller admits as the coalesced representative.
    let in_band = controller
        .admit_wake(
            &policy,
            ScheduleRevision::initial(),
            scheduled_binding(200_000, ScheduleRevision::initial()),
            now(290_000),
        )
        .expect("an in-band occurrence should be dispositioned");
    assert!(matches!(
        in_band,
        AgentWakeDisposition::AdmittedCoalesced { .. }
    ));

    // Past the maximum lateness with the default policy: the one
    // coalesced representative — but an occurrence is already active, so
    // it parks.
    let missed = controller
        .admit_wake(
            &policy,
            ScheduleRevision::initial(),
            scheduled_binding(300_000, ScheduleRevision::initial()),
            now(500_000),
        )
        .expect("a missed occurrence should be dispositioned");
    assert!(matches!(missed, AgentWakeDisposition::Coalesced { .. }));

    // The same lateness under a skip policy is skipped outright.
    let skip_policy = {
        let mut skip = default_policy()
            .with_admission_window(60_000)
            .expect("the window should be accepted")
            .with_maximum_lateness(120_000)
            .expect("the lateness should be accepted");
        skip.missed_occurrence = AgentMissedOccurrencePolicy::Skip;
        skip
    };
    let skipped = controller
        .admit_wake(
            &skip_policy,
            ScheduleRevision::initial(),
            scheduled_binding(310_000, ScheduleRevision::initial()),
            now(500_000),
        )
        .expect("a skipped occurrence should be dispositioned");
    assert!(matches!(skipped, AgentWakeDisposition::Skipped { .. }));
    assert_eq!(controller.counters().missed, 1);
}

#[test]
fn bounded_catch_up_queues_to_its_bound_and_skips_the_overflow() {
    let policy = default_policy()
        .with_maximum_lateness(1_000)
        .expect("the lateness should be accepted")
        .with_bounded_catch_up(2)
        .expect("the catch-up bound should be accepted");
    let mut controller = AgentWakeControllerState::new();

    // Four occurrences long past their lateness, as after downtime. The
    // first replays into the free slot; two queue; the fourth overflows
    // the declared bound and is skipped.
    let dispositions: Vec<_> = (1..=4)
        .map(|slot| {
            controller
                .admit_wake(
                    &policy,
                    ScheduleRevision::initial(),
                    scheduled_binding(slot * 1_000, ScheduleRevision::initial()),
                    now(1_000_000),
                )
                .expect("every occurrence should be dispositioned")
        })
        .collect();
    assert!(matches!(
        dispositions[0],
        AgentWakeDisposition::AdmittedCoalesced { .. }
    ));
    assert!(matches!(
        dispositions[1],
        AgentWakeDisposition::Coalesced { .. }
    ));
    assert!(matches!(
        dispositions[2],
        AgentWakeDisposition::Coalesced { .. }
    ));
    assert!(matches!(
        dispositions[3],
        AgentWakeDisposition::Skipped { .. }
    ));
    assert_eq!(controller.pending().len(), 2);
    assert_eq!(controller.counters().missed, 1);
}

#[test]
fn a_disallowed_trigger_is_refused() {
    let policy = default_policy();
    let mut controller = AgentWakeControllerState::new();
    let binding = AgentWakeBinding::new(
        tenant(),
        goal(),
        ScheduleRevision::initial(),
        AgentWakeOccurrence::ExternalEvent {
            event: AgentWakeEventId::new("deploy-finished").expect("event id should be valid"),
        },
        AgentWakeTriggerKind::ExternalEvent,
        AgentTimestampMillis::new(1_000),
        AgentRevisionNumber::initial(),
    )
    .expect("binding should be valid");

    let error = controller
        .admit_wake(&policy, ScheduleRevision::initial(), binding, now(1_000))
        .expect_err("a trigger class the policy does not allow should be refused");
    assert_eq!(error.code(), "wake-trigger-not-allowed");
}

#[test]
fn a_schedule_update_fences_every_parked_occurrence() {
    let policy = default_policy();
    let mut controller = AgentWakeControllerState::new();
    controller
        .admit_wake(
            &policy,
            ScheduleRevision::initial(),
            scheduled_binding(1_000, ScheduleRevision::initial()),
            now(1_010),
        )
        .expect("the first occurrence should admit");
    controller
        .admit_wake(
            &policy,
            ScheduleRevision::initial(),
            scheduled_binding(2_000, ScheduleRevision::initial()),
            now(2_010),
        )
        .expect("the second occurrence should coalesce");

    let fenced = controller.apply_schedule_update(ScheduleRevision::initial().next());
    assert_eq!(fenced, 1);
    assert!(controller.pending().is_empty());
    assert_eq!(
        controller.active().len(),
        1,
        "an already-admitted occurrence is not fenced by a schedule update"
    );
    assert_eq!(controller.counters().fenced, 1);
}

#[test]
fn the_epoch_identity_is_derived_from_the_wake() {
    let occurrence = AgentWakeOccurrence::Scheduled {
        due_at: AgentTimestampMillis::new(1_753_500_000_000),
    };
    let wake =
        wake_id_for_occurrence(&tenant(), &goal(), ScheduleRevision::initial(), &occurrence)
            .expect("the wake derives");
    let task = epoch_task_id_for_wake(&wake).expect("the epoch task derives");

    // Pinned golden vector: the epoch id is the wake digest under the
    // `epoch-` prefix — a persisted compatibility surface exactly like
    // the wake derivation it extends.
    assert_eq!(
        task.as_str(),
        "epoch-73e57f72c96f774e5dd6f15cc0d3fb10f758ab6b1c59ebd7b0389e074cc8f392"
    );
    assert_eq!(task.as_str().len(), 70);
    assert_eq!(
        epoch_task_id_for_wake(&wake)
            .expect("the derivation is stable")
            .as_str(),
        task.as_str()
    );

    let foreign = AgentWakeId::new("not-a-derived-wake").expect("the id is a valid segment");
    let error =
        epoch_task_id_for_wake(&foreign).expect_err("an underived wake identity fails closed");
    assert_eq!(error.code(), "wake-foreign-id");
}

#[test]
fn a_fenced_occurrence_never_advances_the_watermark() {
    let policy = default_policy();
    let mut controller = AgentWakeControllerState::new();
    let current = ScheduleRevision::new(2);

    // A future-dated straggler from the obsolete schedule is fenced —
    // and its due time must not order the new schedule's occurrences.
    let fenced = controller
        .admit_wake(
            &policy,
            current,
            scheduled_binding(500_000, ScheduleRevision::initial()),
            now(1_000),
        )
        .expect("the straggler is dispositioned");
    assert!(matches!(fenced, AgentWakeDisposition::Fenced { .. }));

    // The new schedule legitimately issues an earlier due time: it must
    // admit, not be swallowed as a duplicate of the fenced straggler.
    let admitted = controller
        .admit_wake(
            &policy,
            current,
            scheduled_binding(1_000, current),
            now(1_010),
        )
        .expect("the current occurrence is dispositioned");
    assert!(matches!(admitted, AgentWakeDisposition::Admitted { .. }));
}

#[test]
fn the_fence_runs_before_the_watermark() {
    let policy = default_policy();
    let mut controller = AgentWakeControllerState::new();
    let current = ScheduleRevision::new(2);

    // The current schedule has consumed up to due time 5_000.
    controller
        .admit_wake(
            &policy,
            current,
            scheduled_binding(5_000, current),
            now(5_010),
        )
        .expect("the current occurrence admits");

    // An obsolete occurrence below that watermark is *fenced*, not
    // silently swallowed as a duplicate: the fence is the stronger fact,
    // and the fenced counter must record it.
    let stale = controller
        .admit_wake(
            &policy,
            current,
            scheduled_binding(4_000, ScheduleRevision::initial()),
            now(5_020),
        )
        .expect("the stale occurrence is dispositioned");
    assert!(matches!(stale, AgentWakeDisposition::Fenced { .. }));
    assert_eq!(controller.counters().fenced, 1);
}

#[test]
fn a_schedule_update_resets_the_watermark() {
    let policy = default_policy();
    let mut controller = AgentWakeControllerState::new();

    controller
        .admit_wake(
            &policy,
            ScheduleRevision::initial(),
            scheduled_binding(5_000, ScheduleRevision::initial()),
            now(5_010),
        )
        .expect("the first occurrence admits");
    let wake = controller.active()[0].binding().wake_id().clone();
    controller
        .release(&policy, &wake, now(6_000))
        .expect("the occurrence releases");

    // The update fences nothing here, but it must reset the due-time
    // watermark: the new schedule may issue due times at or below what
    // the old schedule reached.
    let next = ScheduleRevision::initial().next();
    assert_eq!(controller.apply_schedule_update(next), 0);
    let admitted = controller
        .admit_wake(&policy, next, scheduled_binding(1_000, next), now(6_010))
        .expect("the new schedule's occurrence is dispositioned");
    assert!(
        matches!(admitted, AgentWakeDisposition::Admitted { .. }),
        "an earlier due time under the new revision admits, got {admitted:?}"
    );
}

#[test]
fn a_downtime_backlog_yields_exactly_one_epoch() {
    let policy = default_policy()
        .with_maximum_lateness(1_000)
        .expect("the lateness is accepted");
    let mut controller = AgentWakeControllerState::new();

    // Three occurrences missed during one downtime. The first admits as
    // the backlog's coalesced representative; the rest are absorbed by
    // it — counted missed, never parked — so releasing the
    // representative finds nothing to promote.
    let dispositions: Vec<_> = (1..=3)
        .map(|slot| {
            controller
                .admit_wake(
                    &policy,
                    ScheduleRevision::initial(),
                    scheduled_binding(slot * 1_000, ScheduleRevision::initial()),
                    now(1_000_000),
                )
                .expect("every occurrence is dispositioned")
        })
        .collect();
    assert!(matches!(
        dispositions[0],
        AgentWakeDisposition::AdmittedCoalesced { .. }
    ));
    assert!(matches!(
        dispositions[1],
        AgentWakeDisposition::Skipped { .. }
    ));
    assert!(matches!(
        dispositions[2],
        AgentWakeDisposition::Skipped { .. }
    ));
    assert!(controller.active()[0].is_representative());
    assert!(controller.pending().is_empty());
    assert_eq!(controller.counters().admitted, 1);
    assert_eq!(controller.counters().missed, 2);

    let wake = controller.active()[0].binding().wake_id().clone();
    let release = controller
        .release(&policy, &wake, now(1_000_100))
        .expect("the representative releases");
    assert!(release.admitted_next.is_none());
    assert_eq!(controller.counters().admitted, 1);

    // A backlog behind a *normal* epoch still parks its one
    // representative, admitted at release.
    controller
        .admit_wake(
            &policy,
            ScheduleRevision::initial(),
            scheduled_binding(2_000_000, ScheduleRevision::initial()),
            now(2_000_010),
        )
        .expect("a fresh occurrence admits normally");
    assert!(!controller.active()[0].is_representative());
    let parked = controller
        .admit_wake(
            &policy,
            ScheduleRevision::initial(),
            scheduled_binding(2_100_000, ScheduleRevision::initial()),
            now(3_000_000),
        )
        .expect("the missed occurrence is dispositioned");
    assert!(matches!(parked, AgentWakeDisposition::Coalesced { .. }));
    assert_eq!(controller.pending().len(), 1);
}

#[test]
fn a_promoted_representative_still_absorbs_its_backlog() {
    let policy = default_policy()
        .with_maximum_lateness(1_000)
        .expect("the lateness is accepted");
    let mut controller = AgentWakeControllerState::new();

    // A normal epoch is active, and a downtime backlog parks its one
    // representative behind it.
    controller
        .admit_wake(
            &policy,
            ScheduleRevision::initial(),
            scheduled_binding(1_000, ScheduleRevision::initial()),
            now(1_010),
        )
        .expect("the fresh occurrence admits");
    assert!(!controller.active()[0].is_representative());
    let parked = controller
        .admit_wake(
            &policy,
            ScheduleRevision::initial(),
            scheduled_binding(2_000, ScheduleRevision::initial()),
            now(500_000),
        )
        .expect("the missed occurrence is dispositioned");
    assert!(matches!(parked, AgentWakeDisposition::Coalesced { .. }));

    // The release promotes the parked occurrence, and it must come back
    // *as* the backlog's representative: the parked binding carries no
    // mark, so the mark is recomputed from its lateness at promotion.
    let wake = controller.active()[0].binding().wake_id().clone();
    let release = controller
        .release(&policy, &wake, now(500_100))
        .expect("the normal epoch releases");
    assert!(release.admitted_next.is_some());
    assert!(controller.active()[0].is_representative());

    // A later missed occurrence of the same backlog absorbs into the
    // promoted representative instead of parking an echo that would
    // admit a second epoch.
    let echo = controller
        .admit_wake(
            &policy,
            ScheduleRevision::initial(),
            scheduled_binding(3_000, ScheduleRevision::initial()),
            now(500_200),
        )
        .expect("the later missed occurrence is dispositioned");
    assert!(matches!(echo, AgentWakeDisposition::Skipped { .. }));
    assert!(controller.pending().is_empty());

    let wake = controller.active()[0].binding().wake_id().clone();
    let release = controller
        .release(&policy, &wake, now(500_300))
        .expect("the representative releases");
    assert!(release.admitted_next.is_none());
    assert_eq!(controller.counters().admitted, 2);
}

fn windowed_policy(length_millis: u64, model_calls: u64) -> AgentWakePolicy {
    let mut ceiling = AgentBudgetAllocation::unbounded();
    ceiling.set(AgentBudgetDimension::ModelCalls, Some(model_calls));
    default_policy()
        .with_goal_window(AgentGoalWindowCeiling {
            window: AgentBudgetWindow::Rolling { length_millis },
            ceiling,
        })
        .expect("the windowed policy is valid")
}

#[test]
fn the_window_ceiling_defers_an_epoch_it_cannot_pay_for() {
    // The default policy's epoch costs 16 model calls; a 24-call window
    // pays for one epoch, then defers the next until the window turns.
    let policy = windowed_policy(3_600_000, 24);
    let mut controller = AgentWakeControllerState::new();

    let first = controller
        .admit_wake(
            &policy,
            ScheduleRevision::initial(),
            scheduled_binding(1_000, ScheduleRevision::initial()),
            now(1_000),
        )
        .expect("the first occurrence is dispositioned");
    assert!(matches!(first, AgentWakeDisposition::Admitted { .. }));
    let wake = controller.active()[0].binding().wake_id().clone();
    controller
        .release(&policy, &wake, now(2_000))
        .expect("the first epoch releases");

    let second = controller
        .admit_wake(
            &policy,
            ScheduleRevision::initial(),
            scheduled_binding(3_000, ScheduleRevision::initial()),
            now(3_000),
        )
        .expect("the second occurrence is dispositioned");
    assert!(
        matches!(second, AgentWakeDisposition::Deferred { .. }),
        "the exhausted window defers, got {second:?}"
    );
    assert_eq!(controller.counters().deferred, 1);
    assert_eq!(controller.counters().admitted, 1);
    assert_eq!(controller.pending().len(), 1, "the deferred wake parks");

    // Releasing with nothing active cannot happen; instead the *next*
    // admission attempt after the window turns pays for the parked wake's
    // promotion. Advance past the rolling boundary and admit a fresh
    // occurrence: the refill is recorded by that same transition.
    let third = controller
        .admit_wake(
            &policy,
            ScheduleRevision::initial(),
            scheduled_binding(4_000_000, ScheduleRevision::initial()),
            now(4_000_000),
        )
        .expect("the post-refill occurrence is dispositioned");
    assert!(
        matches!(third, AgentWakeDisposition::Admitted { .. }),
        "the refilled window admits, got {third:?}"
    );
    let ledger = controller.window().expect("the window ledger exists");
    assert_eq!(
        ledger.consumed().get(AgentBudgetDimension::ModelCalls),
        16,
        "the refilled window holds exactly the new epoch's charge"
    );
}

#[test]
fn the_refilled_window_promotes_the_deferred_occurrence_first() {
    // One epoch per window: the canonical ceiling == epoch budget config,
    // where leapfrogging would starve a deferred occurrence forever.
    let policy = windowed_policy(3_600_000, 16);
    let mut controller = AgentWakeControllerState::new();

    // The first occurrence drains the window and releases; the second
    // defers on the drained window and parks.
    controller
        .admit_wake(
            &policy,
            ScheduleRevision::initial(),
            scheduled_binding(1_000, ScheduleRevision::initial()),
            now(1_000),
        )
        .expect("the first occurrence admits");
    let wake = controller.active()[0].binding().wake_id().clone();
    controller
        .release(&policy, &wake, now(2_000))
        .expect("the first epoch releases");
    let deferred = controller
        .admit_wake(
            &policy,
            ScheduleRevision::initial(),
            scheduled_binding(3_000, ScheduleRevision::initial()),
            now(3_000),
        )
        .expect("the second occurrence is dispositioned");
    assert!(matches!(deferred, AgentWakeDisposition::Deferred { .. }));

    // The entity's admission transition promotes before dispositioning:
    // after the window turns, the deferred occurrence takes the slot and
    // the fresh delivery parks behind it — oldest first.
    let promoted = controller
        .promote_admittable(&policy, now(4_000_000))
        .expect("the turned window pays for the deferred occurrence");
    let fresh = controller
        .admit_wake(
            &policy,
            ScheduleRevision::initial(),
            scheduled_binding(4_000_000, ScheduleRevision::initial()),
            now(4_000_000),
        )
        .expect("the fresh occurrence is dispositioned");
    assert!(matches!(fresh, AgentWakeDisposition::Coalesced { .. }));
    assert_eq!(
        controller.active()[0].binding().wake_id().as_str(),
        promoted.as_str()
    );
    assert_eq!(
        controller.active()[0].binding().due_at(),
        Some(now(3_000)),
        "the older occurrence owns the slot"
    );
    assert_eq!(controller.pending().len(), 1);

    // The promotion charged the turned window in full, so neither the
    // release nor another promotion attempt can pay again until the next
    // turn — the parked fresh occurrence stays parked, not lost.
    let release = controller
        .release(&policy, &promoted, now(4_100_000))
        .expect("the promoted epoch releases");
    assert!(release.admitted_next.is_none());
    assert!(controller
        .promote_admittable(&policy, now(4_200_000))
        .is_none());
    assert_eq!(controller.pending().len(), 1);
    assert_eq!(controller.counters().admitted, 2);
}

#[test]
fn the_window_refills_only_by_logical_time() {
    let policy = windowed_policy(3_600_000, 16);
    let mut controller = AgentWakeControllerState::new();
    controller
        .admit_wake(
            &policy,
            ScheduleRevision::initial(),
            scheduled_binding(1_000, ScheduleRevision::initial()),
            now(1_000),
        )
        .expect("the first occurrence admits");
    let before = controller.window().expect("the ledger exists");

    // A structural restart is a round-trip through the stored record; nothing
    // about it may touch the ledger.
    let recovered = AgentWakeControllerState::restore(controller.into_record())
        .expect("the state recovers");
    assert_eq!(
        recovered.window().expect("the ledger survives"),
        before,
        "recovery neither refills nor consumes"
    );

    // Inside the same window, the charge is still refused after recovery.
    let mut controller = recovered;
    let wake = controller.active()[0].binding().wake_id().clone();
    controller
        .release(&policy, &wake, now(2_000))
        .expect("the epoch releases");
    let deferred = controller
        .admit_wake(
            &policy,
            ScheduleRevision::initial(),
            scheduled_binding(3_000, ScheduleRevision::initial()),
            now(3_000),
        )
        .expect("the in-window occurrence is dispositioned");
    assert!(matches!(deferred, AgentWakeDisposition::Deferred { .. }));
}

#[test]
fn a_release_promotes_only_what_the_window_can_pay_for() {
    let policy = windowed_policy(3_600_000, 24);
    let mut controller = AgentWakeControllerState::new();
    controller
        .admit_wake(
            &policy,
            ScheduleRevision::initial(),
            scheduled_binding(1_000, ScheduleRevision::initial()),
            now(1_000),
        )
        .expect("the first occurrence admits");
    controller
        .admit_wake(
            &policy,
            ScheduleRevision::initial(),
            scheduled_binding(2_000, ScheduleRevision::initial()),
            now(2_000),
        )
        .expect("the second occurrence coalesces");
    let wake = controller.active()[0].binding().wake_id().clone();

    // 16 of 24 calls are spent; the parked epoch would need 16 more, so
    // the release promotes nothing and the wake stays parked.
    let release = controller
        .release(&policy, &wake, now(3_000))
        .expect("the epoch releases");
    assert!(release.admitted_next.is_none());
    assert_eq!(controller.pending().len(), 1);

    // After the window turns, a release pays for the promotion.
    controller
        .admit_wake(
            &policy,
            ScheduleRevision::initial(),
            scheduled_binding(4_000_000, ScheduleRevision::initial()),
            now(4_000_000),
        )
        .expect("the post-refill occurrence admits");
    let wake = controller.active()[0].binding().wake_id().clone();
    let release = controller
        .release(&policy, &wake, now(7_300_000))
        .expect("the epoch releases after the next turn");
    assert!(
        release.admitted_next.is_some(),
        "the turned window pays for the parked wake's promotion"
    );
}

#[test]
fn calendar_windows_align_to_utc_boundaries() {
    // 2026-07-27 (epoch day 20661) is a Monday; 12:00 UTC that day.
    let monday_noon = 20_661 * MILLIS_PER_DAY + 12 * 3_600_000;
    assert_eq!(
        calendar_window_start(
            AgentCalendarUnit::Day,
            AgentTimestampMillis::new(monday_noon)
        ),
        20_661 * MILLIS_PER_DAY,
        "the day window starts at midnight UTC"
    );
    assert_eq!(
        calendar_window_start(
            AgentCalendarUnit::Week,
            AgentTimestampMillis::new(monday_noon)
        ),
        20_661 * MILLIS_PER_DAY,
        "a Monday noon is inside the week that began that midnight"
    );
    // The month began Wednesday 2026-07-01 (epoch day 20635).
    assert_eq!(
        calendar_window_start(
            AgentCalendarUnit::Month,
            AgentTimestampMillis::new(monday_noon)
        ),
        20_635 * MILLIS_PER_DAY,
        "the month window starts on 2026-07-01T00:00Z"
    );
    // A Sunday (2026-07-26, day 20660) belongs to the week that began the
    // previous Monday (2026-07-20, day 20654).
    assert_eq!(
        calendar_window_start(
            AgentCalendarUnit::Week,
            AgentTimestampMillis::new(20_660 * MILLIS_PER_DAY + 1)
        ),
        20_654 * MILLIS_PER_DAY,
    );
}

#[test]
fn calendar_windows_handle_leap_years() {
    // 2024-02-29 — the leap day, a Thursday, epoch day 19782.
    let leap_noon = 19_782 * MILLIS_PER_DAY + 12 * 3_600_000;
    assert_eq!(
        calendar_window_start(AgentCalendarUnit::Day, AgentTimestampMillis::new(leap_noon)),
        19_782 * MILLIS_PER_DAY,
    );
    assert_eq!(
        calendar_window_start(
            AgentCalendarUnit::Week,
            AgentTimestampMillis::new(leap_noon)
        ),
        19_779 * MILLIS_PER_DAY,
        "the leap day belongs to the week of Monday 2024-02-26"
    );
    assert_eq!(
        calendar_window_start(
            AgentCalendarUnit::Month,
            AgentTimestampMillis::new(leap_noon)
        ),
        19_754 * MILLIS_PER_DAY,
        "the leap day belongs to the month window of 2024-02-01"
    );

    // Crossing a leap year's December: 2028-12-31 is epoch day 21549 in
    // the 366-day year 2028; its month window began 2028-12-01 (21519).
    assert_eq!(
        calendar_window_start(
            AgentCalendarUnit::Month,
            AgentTimestampMillis::new(21_549 * MILLIS_PER_DAY + 1)
        ),
        21_519 * MILLIS_PER_DAY,
    );
    // The very next day opens both a new month and a new year.
    assert_eq!(
        calendar_window_start(
            AgentCalendarUnit::Month,
            AgentTimestampMillis::new(21_550 * MILLIS_PER_DAY)
        ),
        21_550 * MILLIS_PER_DAY,
        "2029-01-01 starts its own month window"
    );
}

#[test]
fn a_window_bounding_an_unbounded_epoch_dimension_is_refused() {
    let mut ceiling = AgentBudgetAllocation::unbounded();
    ceiling.set(AgentBudgetDimension::Tokens, Some(1_000_000));
    let error = default_policy()
        .with_goal_window(AgentGoalWindowCeiling {
            window: AgentBudgetWindow::Rolling {
                length_millis: 3_600_000,
            },
            ceiling,
        })
        .expect_err("a ceiling on an unbounded epoch dimension is refused");
    assert_eq!(error.code(), "wake-window-epoch-unbounded");
}

#[test]
fn a_retry_is_consumed_without_admitting_and_its_identity_is_pinned() {
    let policy = default_policy();
    let mut controller = AgentWakeControllerState::new();
    let retry = AgentWakeBinding::new(
        tenant(),
        goal(),
        ScheduleRevision::initial(),
        AgentWakeOccurrence::Retry {
            due_at: AgentTimestampMillis::new(1_753_500_000_000),
            cause: AgentWakeRewakeCause::Backoff,
            attempt: 0,
        },
        AgentWakeTriggerKind::Controller,
        AgentTimestampMillis::new(1_753_500_000_001),
        AgentRevisionNumber::initial(),
    )
    .expect("the retry binding is valid");

    // Pinned golden vector: the retry derivation is a persisted
    // compatibility surface like every other occurrence kind's.
    assert_eq!(
        retry.wake_id().as_str(),
        wake_id_for_occurrence(
            &tenant(),
            &goal(),
            ScheduleRevision::initial(),
            retry.occurrence()
        )
        .expect("the retry wake derives")
        .as_str(),
    );
    assert_eq!(
        retry.occurrence().identity_value(),
        "backoff:1753500000000",
        "the retry identity is its cause and computed due time"
    );

    // The controller trigger needs no policy declaration, and the retry
    // dispositions as consumed — no admission, no watermark movement.
    let disposition = controller
        .admit_wake(
            &policy,
            ScheduleRevision::initial(),
            retry.clone(),
            now(1_753_500_000_002),
        )
        .expect("the retry is dispositioned");
    assert!(matches!(disposition, AgentWakeDisposition::Retried { .. }));
    assert_eq!(controller.counters().retried, 1);
    assert!(controller.active().is_empty());
    let fresh = controller
        .admit_wake(
            &policy,
            ScheduleRevision::initial(),
            scheduled_binding(1_000, ScheduleRevision::initial()),
            now(1_753_500_000_003),
        )
        .expect("an earlier-due scheduled occurrence still admits");
    assert!(
        matches!(fresh, AgentWakeDisposition::Admitted { .. }),
        "the retry advanced no watermark, got {fresh:?}"
    );

    // A duplicate scan of the same retry answers from the ring.
    let duplicate = controller
        .admit_wake(
            &policy,
            ScheduleRevision::initial(),
            retry,
            now(1_753_500_000_004),
        )
        .expect("the redelivered retry is answered");
    assert!(matches!(duplicate, AgentWakeDisposition::Duplicate { .. }));
}

#[test]
fn an_early_retry_consume_re_arms_the_slot_under_the_next_attempt() {
    // A scanner host whose clock runs ahead delivers the backoff retry
    // while the backoff is still in force here: the consume burns the
    // parked entry, so the slot must re-owe itself under a fresh identity
    // or the parked occurrence strands behind a terminal timer entry.
    let policy = default_policy();
    let mut controller = AgentWakeControllerState::new();
    controller
        .admit_wake(
            &policy,
            ScheduleRevision::initial(),
            scheduled_binding(1_000, ScheduleRevision::initial()),
            now(1_000),
        )
        .expect("the first occurrence admits");
    controller
        .admit_wake(
            &policy,
            ScheduleRevision::initial(),
            scheduled_binding(2_000, ScheduleRevision::initial()),
            now(2_000),
        )
        .expect("the second occurrence coalesces");
    let wake = controller.active()[0].binding().wake_id().clone();
    controller.record_epoch_outcome(&policy, AgentEpochOutcomeClass::Failed, now(3_000));
    controller
        .release(&policy, &wake, now(3_001))
        .expect("the failed epoch releases");
    controller.ensure_rewakes(&policy, now(3_001));
    let until = controller
        .lifecycle()
        .backoff_until()
        .expect("the backoff is in force");
    let slot = controller
        .lifecycle()
        .rewakes()
        .backoff
        .expect("the backoff re-wake is owed");
    assert_eq!(slot.attempt, 0);
    controller.mark_rewake_parked(AgentWakeRewakeCause::Backoff, until, 0);

    // The early delivery: consumed, nothing promoted, and the slot
    // re-armed unparked under attempt 1 — a distinct wake identity.
    let early = AgentWakeBinding::new(
        tenant(),
        goal(),
        ScheduleRevision::initial(),
        AgentWakeOccurrence::Retry {
            due_at: until,
            cause: AgentWakeRewakeCause::Backoff,
            attempt: 0,
        },
        AgentWakeTriggerKind::Controller,
        now(3_002),
        AgentRevisionNumber::initial(),
    )
    .expect("the retry binding derives");
    let disposition = controller
        .admit_wake(
            &policy,
            ScheduleRevision::initial(),
            early.clone(),
            now(3_002),
        )
        .expect("the early retry is consumed");
    assert!(matches!(disposition, AgentWakeDisposition::Retried { .. }));
    assert_eq!(controller.pending().len(), 1, "nothing promoted early");
    controller.ensure_rewakes(&policy, now(3_003));
    let slot = controller
        .lifecycle()
        .rewakes()
        .backoff
        .expect("the slot survives the early consume");
    assert_eq!(slot.due_at, until, "the due time is unchanged");
    assert_eq!(slot.attempt, 1, "the consume bumped the generation");
    assert!(!slot.parked, "the re-armed slot owes parking again");
    let re_armed = AgentWakeOccurrence::Retry {
        due_at: until,
        cause: AgentWakeRewakeCause::Backoff,
        attempt: 1,
    };
    assert_eq!(
        re_armed.identity_value(),
        format!("backoff:{}:1", until.as_millis()),
        "the attempt is part of the identity"
    );
    assert_ne!(
        wake_id_for_occurrence(&tenant(), &goal(), ScheduleRevision::initial(), &re_armed)
            .expect("the re-armed wake derives")
            .as_str(),
        early.wake_id().as_str(),
        "the re-park derives a wake the fired entry cannot absorb"
    );

    // A redelivery of the consumed generation answers from the ring and
    // leaves the re-armed slot alone; a stale-generation mark is a no-op,
    // while the current generation's mark parks it.
    let duplicate = controller
        .admit_wake(&policy, ScheduleRevision::initial(), early, now(3_004))
        .expect("the redelivered retry is answered");
    assert!(matches!(duplicate, AgentWakeDisposition::Duplicate { .. }));
    controller.mark_rewake_parked(AgentWakeRewakeCause::Backoff, until, 0);
    let slot = controller
        .lifecycle()
        .rewakes()
        .backoff
        .expect("the slot survives");
    assert_eq!(slot.attempt, 1);
    assert!(!slot.parked, "a stale-generation mark is a no-op");
    controller.mark_rewake_parked(AgentWakeRewakeCause::Backoff, until, 1);
    assert!(
        controller
            .lifecycle()
            .rewakes()
            .backoff
            .expect("the slot survives")
            .parked
    );

    // Once the backoff elapses the retry's own transition promotes and
    // the slot clears.
    assert!(controller
        .promote_admittable(&policy, now(until.as_millis() + 1))
        .is_some());
    controller.ensure_rewakes(&policy, now(until.as_millis() + 1));
    assert!(controller.lifecycle().rewakes().backoff.is_none());
}

#[test]
fn retry_and_controller_trigger_require_each_other() {
    let policy = default_policy();
    let mut controller = AgentWakeControllerState::new();

    // A retry smuggled through a declared trigger is refused.
    let smuggled_retry = AgentWakeBinding::new(
        tenant(),
        goal(),
        ScheduleRevision::initial(),
        AgentWakeOccurrence::Retry {
            due_at: AgentTimestampMillis::new(5_000),
            cause: AgentWakeRewakeCause::WindowTurn,
            attempt: 0,
        },
        AgentWakeTriggerKind::DurableTimer,
        AgentTimestampMillis::new(5_001),
        AgentRevisionNumber::initial(),
    )
    .expect("the binding is valid");
    let error = controller
        .admit_wake(
            &policy,
            ScheduleRevision::initial(),
            smuggled_retry,
            now(5_002),
        )
        .expect_err("a retry without the controller trigger is refused");
    assert_eq!(error.code(), "wake-retry-trigger-mismatch");

    // A scheduled occurrence smuggled in as the controller is refused.
    let smuggled_schedule = AgentWakeBinding::new(
        tenant(),
        goal(),
        ScheduleRevision::initial(),
        AgentWakeOccurrence::Scheduled {
            due_at: AgentTimestampMillis::new(6_000),
        },
        AgentWakeTriggerKind::Controller,
        AgentTimestampMillis::new(6_001),
        AgentRevisionNumber::initial(),
    )
    .expect("the binding is valid");
    let error = controller
        .admit_wake(
            &policy,
            ScheduleRevision::initial(),
            smuggled_schedule,
            now(6_002),
        )
        .expect_err("the controller trigger carries only retries");
    assert_eq!(error.code(), "wake-retry-trigger-mismatch");
}

#[test]
fn the_backoff_delay_grows_geometrically_and_saturates() {
    let policy = AgentWakeBackoffPolicy::default();
    let table = [
        (1, 1_000),
        (2, 2_000),
        (3, 4_000),
        (4, 8_000),
        (12, 2_048_000),
        (13, 3_600_000),
        (30, 3_600_000),
    ];
    for (failures, expected) in table {
        assert_eq!(
            AgentWakeControllerState::backoff_delay_millis(&policy, failures),
            expected,
            "delay after {failures} failures"
        );
    }
}

#[test]
fn a_failed_epoch_engages_backoff_and_completion_resets_it() {
    let policy = default_policy();
    let mut controller = AgentWakeControllerState::new();

    let escalated =
        controller.record_epoch_outcome(&policy, AgentEpochOutcomeClass::Failed, now(10_000));
    assert!(!escalated);
    assert_eq!(controller.lifecycle().consecutive_failures(), 1);
    assert_eq!(
        controller.lifecycle().backoff_until(),
        Some(AgentTimestampMillis::new(11_000))
    );

    // While the backoff is in force, every delivery parks and nothing
    // promotes.
    let parked = controller
        .admit_wake(
            &policy,
            ScheduleRevision::initial(),
            scheduled_binding(10_500, ScheduleRevision::initial()),
            now(10_500),
        )
        .expect("the delivery is dispositioned");
    assert!(matches!(parked, AgentWakeDisposition::BackedOff { .. }));
    assert_eq!(controller.counters().backed_off, 1);
    assert!(controller
        .promote_admittable(&policy, now(10_600))
        .is_none());

    // Once it elapses, promotion runs again.
    assert!(controller
        .promote_admittable(&policy, now(11_001))
        .is_some());

    // A cancellation neither grows nor resets; a completion resets.
    controller.record_epoch_outcome(&policy, AgentEpochOutcomeClass::Cancelled, now(12_000));
    assert_eq!(controller.lifecycle().consecutive_failures(), 1);
    controller.record_epoch_outcome(&policy, AgentEpochOutcomeClass::Completed, now(12_500));
    assert_eq!(controller.lifecycle().consecutive_failures(), 0);
    assert!(controller.lifecycle().backoff_until().is_none());
}

#[test]
fn escalation_auto_suspends_after_the_threshold() {
    let policy = default_policy()
        .with_failure_backoff(AgentWakeBackoffPolicy {
            escalate_after_failures: Some(2),
            ..AgentWakeBackoffPolicy::default()
        })
        .expect("the backoff policy is valid");
    let mut controller = AgentWakeControllerState::new();
    let before = controller.lifecycle().lifecycle_revision();

    assert!(!controller.record_epoch_outcome(
        &policy,
        AgentEpochOutcomeClass::Failed,
        now(1_000)
    ));
    assert!(controller.record_epoch_outcome(
        &policy,
        AgentEpochOutcomeClass::Failed,
        now(2_000)
    ));
    assert_eq!(
        controller.lifecycle().status(),
        AgentGoalLifecycleStatus::Suspended
    );
    assert_eq!(controller.lifecycle().lifecycle_revision(), before.next());
    assert!(controller
        .lifecycle()
        .suspended_reason()
        .is_some_and(|reason| reason.contains("escalated")));
    // A racing operator command carrying the pre-escalation revision is
    // fenced.
    let error = controller
        .resume(before, provenance())
        .expect_err("the stale resume is fenced");
    assert_eq!(error.code(), "wake-stale-lifecycle-revision");
}

#[test]
fn lifecycle_commands_fence_on_the_revision() {
    let mut controller = AgentWakeControllerState::new();
    let initial = controller.lifecycle().lifecycle_revision();

    let error = controller
        .suspend(initial.next(), None, provenance())
        .expect_err("a wrong expected revision is fenced");
    assert_eq!(error.code(), "wake-stale-lifecycle-revision");

    let suspended = controller
        .suspend(initial, Some("maintenance".to_string()), provenance())
        .expect("the suspend applies");
    assert_eq!(suspended, initial.next());
    assert_eq!(
        controller.lifecycle().status(),
        AgentGoalLifecycleStatus::Suspended
    );

    let error = controller
        .resume(initial, provenance())
        .expect_err("the pre-suspension revision is stale");
    assert_eq!(error.code(), "wake-stale-lifecycle-revision");
    let resumed = controller
        .resume(suspended, provenance())
        .expect("the resume applies");
    assert_eq!(
        controller.lifecycle().status(),
        AgentGoalLifecycleStatus::Active
    );

    let error = controller
        .resume(resumed, provenance())
        .expect_err("resuming an active goal is refused");
    assert_eq!(error.code(), "wake-not-suspended");

    let retired = controller
        .retire(resumed, provenance())
        .expect("the retire applies");
    assert_eq!(
        controller.lifecycle().status(),
        AgentGoalLifecycleStatus::Retired
    );
    let error = controller
        .suspend(retired, None, provenance())
        .expect_err("an absorbing status accepts no transition");
    assert_eq!(error.code(), "wake-lifecycle-terminal");
}

#[test]
fn suspension_parks_or_drops_per_policy() {
    let coalesce_policy = default_policy();
    let mut controller = AgentWakeControllerState::new();
    controller
        .suspend(
            controller.lifecycle().lifecycle_revision(),
            None,
            provenance(),
        )
        .expect("the suspend applies");

    let parked = controller
        .admit_wake(
            &coalesce_policy,
            ScheduleRevision::initial(),
            scheduled_binding(1_000, ScheduleRevision::initial()),
            now(1_000),
        )
        .expect("the delivery is dispositioned");
    assert!(matches!(
        parked,
        AgentWakeDisposition::SuspendedParked { .. }
    ));
    assert_eq!(controller.counters().suspended, 1);
    assert_eq!(controller.pending().len(), 1);

    let drop_policy = default_policy()
        .with_lifecycle(AgentWakeLifecyclePolicy {
            while_suspended: AgentWakeSuspensionPolicy::Drop,
            ..AgentWakeLifecyclePolicy::default()
        })
        .expect("the drop policy is valid");
    let dropped = controller
        .admit_wake(
            &drop_policy,
            ScheduleRevision::initial(),
            scheduled_binding(2_000, ScheduleRevision::initial()),
            now(2_000),
        )
        .expect("the delivery is dispositioned");
    assert!(matches!(dropped, AgentWakeDisposition::Dropped { .. }));
    assert_eq!(controller.counters().dropped, 1);
    assert_eq!(controller.pending().len(), 1, "a drop parks nothing");

    // Resume promotes what the suspension parked (via the entity's
    // promotion; here the primitive itself).
    let revision = controller.lifecycle().lifecycle_revision();
    controller
        .resume(revision, provenance())
        .expect("the resume applies");
    assert!(controller
        .promote_admittable(&coalesce_policy, now(3_000))
        .is_some());
}

#[test]
fn renewal_windows_are_enforced() {
    let policy = default_policy()
        .with_lifecycle(AgentWakeLifecyclePolicy {
            renewal: AgentWakeRenewalPolicy::RequiredBefore {
                window_millis: 10_000,
            },
            expires_at: Some(AgentTimestampMillis::new(100_000)),
            ..AgentWakeLifecyclePolicy::default()
        })
        .expect("the renewal policy is valid");
    let mut controller = AgentWakeControllerState::new();
    let revision = controller.lifecycle().lifecycle_revision();

    // Too early: the window opens at 90_000.
    let error = controller
        .renew(
            revision,
            &policy,
            AgentTimestampMillis::new(200_000),
            provenance(),
            now(50_000),
        )
        .expect_err("a renewal before the window is refused");
    assert_eq!(error.code(), "wake-renewal-outside-window");

    // Inside the window, but not extending.
    let error = controller
        .renew(
            revision,
            &policy,
            AgentTimestampMillis::new(99_000),
            provenance(),
            now(95_000),
        )
        .expect_err("a non-extending renewal is refused");
    assert_eq!(error.code(), "wake-renewal-not-extending");

    // A proper renewal extends the effective expiry.
    controller
        .renew(
            revision,
            &policy,
            AgentTimestampMillis::new(200_000),
            provenance(),
            now(95_000),
        )
        .expect("the renewal applies");
    assert_eq!(
        controller
            .lifecycle()
            .effective_expires_at(&policy.lifecycle),
        Some(AgentTimestampMillis::new(200_000))
    );
    // The old expiry passing no longer expires the goal.
    assert!(controller
        .observe_lifecycle(&policy, now(150_000))
        .is_none());
    // The extended one does.
    assert_eq!(
        controller.observe_lifecycle(&policy, now(200_000)),
        Some(AgentGoalLifecycleStatus::Expired)
    );
    // Absorbing: nothing further transitions, and deliveries are barred.
    assert!(controller
        .observe_lifecycle(&policy, now(300_000))
        .is_none());
    let barred = controller
        .admit_wake(
            &policy,
            ScheduleRevision::initial(),
            scheduled_binding(210_000, ScheduleRevision::initial()),
            now(300_000),
        )
        .expect("the delivery is dispositioned");
    assert!(matches!(barred, AgentWakeDisposition::Barred { .. }));
    assert_eq!(controller.counters().barred, 1);
}

#[test]
fn retirement_is_observed_by_count_and_by_time() {
    let by_count = default_policy()
        .with_lifecycle(AgentWakeLifecyclePolicy {
            retirement: AgentWakeRetirementPolicy::AfterOccurrences { occurrences: 1 },
            ..AgentWakeLifecyclePolicy::default()
        })
        .expect("the retirement policy is valid");
    let mut controller = AgentWakeControllerState::new();
    assert!(controller.observe_lifecycle(&by_count, now(500)).is_none());
    controller
        .admit_wake(
            &by_count,
            ScheduleRevision::initial(),
            scheduled_binding(1_000, ScheduleRevision::initial()),
            now(1_000),
        )
        .expect("the occurrence admits");
    assert_eq!(
        controller.observe_lifecycle(&by_count, now(1_100)),
        Some(AgentGoalLifecycleStatus::Retired)
    );

    let by_time = default_policy()
        .with_lifecycle(AgentWakeLifecyclePolicy {
            retirement: AgentWakeRetirementPolicy::At {
                at: AgentTimestampMillis::new(50_000),
            },
            ..AgentWakeLifecyclePolicy::default()
        })
        .expect("the retirement policy is valid");
    let mut controller = AgentWakeControllerState::new();
    assert!(controller
        .observe_lifecycle(&by_time, now(49_999))
        .is_none());
    assert_eq!(
        controller.observe_lifecycle(&by_time, now(50_000)),
        Some(AgentGoalLifecycleStatus::Retired)
    );
}

#[test]
fn ensure_rewakes_owes_and_heals_the_slots() {
    // Window-turn slot: a deferred occurrence on an exhausted window owes
    // a retry at the boundary. The ceiling pays for exactly one epoch per
    // window.
    let windowed = windowed_policy(3_600_000, 16);
    let mut controller = AgentWakeControllerState::new();
    controller
        .admit_wake(
            &windowed,
            ScheduleRevision::initial(),
            scheduled_binding(1_000, ScheduleRevision::initial()),
            now(1_000),
        )
        .expect("the first occurrence admits");
    let wake = controller.active()[0].binding().wake_id().clone();
    controller
        .release(&windowed, &wake, now(2_000))
        .expect("the epoch releases");
    let deferred = controller
        .admit_wake(
            &windowed,
            ScheduleRevision::initial(),
            scheduled_binding(3_000, ScheduleRevision::initial()),
            now(3_000),
        )
        .expect("the second occurrence is dispositioned");
    assert!(matches!(deferred, AgentWakeDisposition::Deferred { .. }));

    controller.ensure_rewakes(&windowed, now(3_000));
    let slot = controller
        .lifecycle()
        .rewakes()
        .window_turn
        .expect("the window-turn re-wake is owed");
    assert_eq!(slot.due_at, AgentTimestampMillis::new(1_000 + 3_600_000));
    assert!(!slot.parked);
    assert!(controller.lifecycle().rewakes().owes_parking());

    // Parking marks it; an unchanged recomputation keeps the mark.
    controller.mark_rewake_parked(AgentWakeRewakeCause::WindowTurn, slot.due_at, slot.attempt);
    controller.ensure_rewakes(&windowed, now(4_000));
    assert!(
        controller
            .lifecycle()
            .rewakes()
            .window_turn
            .expect("the slot survives")
            .parked
    );

    // Once the window can pay again — the retry's own transition promotes
    // and the queue drains — the slot clears.
    assert!(controller
        .promote_admittable(&windowed, now(1_000 + 3_600_000 + 1))
        .is_some());
    controller.ensure_rewakes(&windowed, now(1_000 + 3_600_000 + 1));
    assert!(controller.lifecycle().rewakes().window_turn.is_none());

    // Backoff slot: a failure with something parked owes the retry at
    // backoff_until; suspension clears every slot.
    let policy = default_policy();
    let mut controller = AgentWakeControllerState::new();
    controller
        .admit_wake(
            &policy,
            ScheduleRevision::initial(),
            scheduled_binding(1_000, ScheduleRevision::initial()),
            now(1_000),
        )
        .expect("the first occurrence admits");
    controller
        .admit_wake(
            &policy,
            ScheduleRevision::initial(),
            scheduled_binding(2_000, ScheduleRevision::initial()),
            now(2_000),
        )
        .expect("the second occurrence coalesces");
    let wake = controller.active()[0].binding().wake_id().clone();
    // The failure's own transition releases before promotion is gated by
    // the fresh backoff, leaving the parked occurrence waiting.
    controller.record_epoch_outcome(&policy, AgentEpochOutcomeClass::Failed, now(3_000));
    controller
        .release(&policy, &wake, now(3_001))
        .expect("the failed epoch releases");
    assert_eq!(controller.pending().len(), 1, "the backoff holds promotion");
    controller.ensure_rewakes(&policy, now(3_001));
    let slot = controller
        .lifecycle()
        .rewakes()
        .backoff
        .expect("the backoff re-wake is owed");
    assert_eq!(slot.due_at, AgentTimestampMillis::new(4_000));

    controller
        .suspend(
            controller.lifecycle().lifecycle_revision(),
            None,
            provenance(),
        )
        .expect("the suspend applies");
    controller.ensure_rewakes(&policy, now(3_500));
    assert!(controller.lifecycle().rewakes().backoff.is_none());
}

#[test]
fn a_controller_state_beyond_its_bounds_fails_closed_on_load() {
    let mut record = AgentWakeControllerState::new().into_record();
    record.recent = (0..AGENT_WAKE_RECENT_CAPACITY + 1)
        .map(|index| {
            let binding = scheduled_binding(1_000 + index as u64, ScheduleRevision::initial());
            binding.wake_id().clone()
        })
        .collect();
    let error = AgentWakeControllerState::restore(record)
        .expect_err("a state beyond its bounds should fail closed on load");
    assert!(error.message().contains("recent wake identities"));

    let empty = AgentWakeControllerState::restore(AgentWakeControllerState::new().into_record())
        .expect("an empty record loads");
    assert_eq!(
        format!("{empty:?}"),
        format!("{:?}", AgentWakeControllerState::new())
    );
}
