//! What every wake transition keeps.

use vstd::prelude::*;

use crate::budget::{charged, charging_keeps_the_ceiling, first_refused, AgentBudgetDimension};
use crate::calendar::a_window_start_only_advances;
use crate::identity::{
    AgentRevisionNumber, AgentRevisionProvenance, AgentTimestampMillis, AgentWakeId,
};
use crate::wake::{AgentWakeBinding, ScheduleRevision};
use crate::wake_controller::{
    active_holds, active_limit, backoff_delay, bounds_verdict, grown_delay, later_than,
    pending_limit, policy_covers, recent_holds, remembered, streak_delay, WakeModel,
};
use crate::wake_error::AgentWakeError;
use crate::wake_policy::{
    AgentGoalLifecycleStatus, AgentGoalWindowCeiling, AgentMissedOccurrencePolicy,
    AgentWakeBackoffPolicy, AgentWakePolicy,
};
use crate::wake_state::{AgentEpochOutcomeClass, AgentWakeCounters, AgentWakeDisposition};

verus! {

/// Every transition keeps the state within its bounded capacities.
pub proof fn every_transition_keeps_the_bounds(
    model: WakeModel,
    policy: AgentWakePolicy,
    current: ScheduleRevision,
    binding: AgentWakeBinding,
    position: int,
    now: AgentTimestampMillis,
)
    requires
        model.within_bounds(),
    ensures
        model.dispositioning(policy, current, binding, now).0.within_bounds(),
        model.promoting(policy, now).0.within_bounds(),
        0 <= position < model.active.len() ==> model.freeing(position).promoting(
            policy,
            now,
        ).0.within_bounds(),
        model.rescheduling(current).within_bounds(),
{
    assert(active_limit(policy) <= 8);
    assert(pending_limit(policy) <= 8);
    model.pending.lemma_filter_len(
        |binding: AgentWakeBinding| binding.spec_schedule_revision().number() >= current.number(),
    );
}

/// Recovery accepts every state the bounds hold of, so a state that transitions
/// reached is accepted back as it was stored.
pub proof fn recovery_accepts_what_transitions_reach(
    model: WakeModel,
    policy: AgentWakePolicy,
    current: ScheduleRevision,
    binding: AgentWakeBinding,
    now: AgentTimestampMillis,
)
    requires
        bounds_verdict(model) is Ok,
    ensures
        bounds_verdict(model.dispositioning(policy, current, binding, now).0) is Ok,
        bounds_verdict(model.promoting(policy, now).0) is Ok,
        bounds_verdict(model.rescheduling(current)) is Ok,
{
    every_transition_keeps_the_bounds(model, policy, current, binding, 0, now);
}

proof fn lemma_remembered_holds(
    recent: Seq<AgentWakeId>,
    wake: AgentWakeId,
)
    ensures
        recent_holds(remembered(recent, wake), wake@),
{
    let ring = remembered(recent, wake);
    assert(ring[ring.len() - 1] == wake);
}

/// Delivering an accepted occurrence again, at whatever time, is answered as a
/// duplicate and changes nothing: one occurrence is dispositioned once. The second
/// delivery asks for no room in any counter and consults no goal window.
pub proof fn a_redelivery_is_a_duplicate(
    model: WakeModel,
    policy: AgentWakePolicy,
    current: ScheduleRevision,
    binding: AgentWakeBinding,
    now: AgentTimestampMillis,
    later: AgentTimestampMillis,
)
    requires
        model.dispositioning(policy, current, binding, now).1 is Ok,
    ensures
        ({
            let next = model.dispositioning(policy, current, binding, now).0;
            let again = next.dispositioning(policy, current, binding, later);
            &&& again.0 == next
            &&& again.1 is Ok
            &&& again.1->Ok_0 == (AgentWakeDisposition::Duplicate { wake: *binding.spec_wake_id() })
            &&& next.can_count(policy, current, binding, later)
            &&& !next.consults_window(policy, current, binding, later)
        }),
{
    let (next, answer) = model.answering(policy, current, binding, now);
    let wake = *binding.spec_wake_id();
    lemma_remembered_holds(model.recent, wake);
    if answer is Duplicate {
        assert(next == model);
    } else {
        assert(next.recent == remembered(model.recent, wake));
        assert(next.knows(wake@));
    }
}

/// A wake the controller knows is never dispositioned again, by whatever path,
/// under whatever policy and at whatever time it arrives: an acceptable delivery
/// is a duplicate, and nothing changes.
pub proof fn a_known_wake_is_a_duplicate(
    model: WakeModel,
    policy: AgentWakePolicy,
    current: ScheduleRevision,
    binding: AgentWakeBinding,
    now: AgentTimestampMillis,
)
    requires
        model.knows(binding.spec_wake_id()@),
    ensures
        model.dispositioning(policy, current, binding, now).0 == model,
        model.dispositioning(policy, current, binding, now).1 is Ok ==> model.dispositioning(
            policy,
            current,
            binding,
            now,
        ).1->Ok_0 == (AgentWakeDisposition::Duplicate { wake: *binding.spec_wake_id() }),
{
}

/// Whether two positions of the active and parked occurrences, counted on, hold
/// different wakes wherever they differ.
pub open spec fn holds_no_wake_twice(model: WakeModel) -> bool {
    &&& forall|i: int, j: int|
        0 <= i < j < model.active.len() ==> (#[trigger] model.active[i]).binding.spec_wake_id()@
            != (#[trigger] model.active[j]).binding.spec_wake_id()@
    &&& forall|i: int, j: int|
        0 <= i < j < model.pending.len() ==> (#[trigger] model.pending[i]).spec_wake_id()@ != (
        #[trigger] model.pending[j]).spec_wake_id()@
    &&& forall|i: int, j: int|
        0 <= i < model.active.len() && 0 <= j < model.pending.len() ==> (
        #[trigger] model.active[i]).binding.spec_wake_id()@ != (
        #[trigger] model.pending[j]).spec_wake_id()@
}

/// No wake is ever held twice: an occurrence is active or parked at most once,
/// so it admits at most one epoch at a time.
pub proof fn no_wake_is_held_twice(
    model: WakeModel,
    policy: AgentWakePolicy,
    current: ScheduleRevision,
    binding: AgentWakeBinding,
    position: int,
    now: AgentTimestampMillis,
)
    requires
        holds_no_wake_twice(model),
    ensures
        holds_no_wake_twice(WakeModel::fresh()),
        holds_no_wake_twice(model.dispositioning(policy, current, binding, now).0),
        holds_no_wake_twice(model.promoting(policy, now).0),
        0 <= position < model.active.len() ==> holds_no_wake_twice(
            model.freeing(position).promoting(policy, now).0,
        ),
        holds_no_wake_twice(model.rescheduling(current)),
{
    lemma_dispositioning_distinct(model, policy, current, binding, now);
    lemma_promoting_distinct(model, policy, now);
    if 0 <= position < model.active.len() {
        let freed = model.freeing(position);
        assert(holds_no_wake_twice(freed));
        lemma_promoting_distinct(freed, policy, now);
    }
    lemma_rescheduling_distinct(model, current);
}

proof fn lemma_dispositioning_distinct(
    model: WakeModel,
    policy: AgentWakePolicy,
    current: ScheduleRevision,
    binding: AgentWakeBinding,
    now: AgentTimestampMillis,
)
    requires
        holds_no_wake_twice(model),
    ensures
        holds_no_wake_twice(model.dispositioning(policy, current, binding, now).0),
{
    let next = model.dispositioning(policy, current, binding, now).0;
    let wake = binding.spec_wake_id()@;
    if model.knows(wake) {
    } else {
        assert forall|i: int| 0 <= i < model.active.len() implies (
        #[trigger] model.active[i]).binding.spec_wake_id()@ != wake by {}
        assert forall|i: int| 0 <= i < model.pending.len() implies (
        #[trigger] model.pending[i]).spec_wake_id()@ != wake by {}
        assert(next.active == model.active || (next.active.len() == model.active.len() + 1
            && next.active.drop_last() =~= model.active && next.active.last().binding == binding
            && next.pending == model.pending));
        assert(next.pending == model.pending || next.pending == model.pending.push(binding)
            || next.pending == model.pending.update(0, binding));
    }
}

proof fn lemma_promoting_distinct(
    model: WakeModel,
    policy: AgentWakePolicy,
    now: AgentTimestampMillis,
)
    requires
        holds_no_wake_twice(model),
    ensures
        holds_no_wake_twice(model.promoting(policy, now).0),
{
    let next = model.promoting(policy, now).0;
    if next.active != model.active {
        assert(next.active.last().binding == model.pending[0]);
        assert(next.pending =~= model.pending.drop_first());
    }
}

proof fn lemma_rescheduling_distinct(model: WakeModel, current: ScheduleRevision)
    requires
        holds_no_wake_twice(model),
    ensures
        holds_no_wake_twice(model.rescheduling(current)),
{
    let keep = |binding: AgentWakeBinding|
        binding.spec_schedule_revision().number() >= current.number();
    lemma_filter_distinct(model.pending, keep);
    let kept = model.pending.filter(keep);
    assert forall|i: int, j: int|
        0 <= i < model.active.len() && 0 <= j < kept.len() implies (
    #[trigger] model.active[i]).binding.spec_wake_id()@ != (#[trigger] kept[j]).spec_wake_id()@ by {
        model.pending.lemma_filter_contains_rev(keep, kept[j]);
        let k = choose|k: int| 0 <= k < model.pending.len() && model.pending[k] == kept[j];
        assert(model.pending[k] == kept[j]);
    }
}

proof fn lemma_filter_distinct(
    pending: Seq<AgentWakeBinding>,
    keep: spec_fn(AgentWakeBinding) -> bool,
)
    requires
        forall|i: int, j: int|
            0 <= i < j < pending.len() ==> (#[trigger] pending[i]).spec_wake_id()@ != (
            #[trigger] pending[j]).spec_wake_id()@,
    ensures
        ({
            let kept = pending.filter(keep);
            forall|i: int, j: int|
                0 <= i < j < kept.len() ==> (#[trigger] kept[i]).spec_wake_id()@ != (
                #[trigger] kept[j]).spec_wake_id()@
        }),
    decreases pending.len(),
{
    reveal(Seq::filter);
    if pending.len() > 0 {
        let shorter = pending.drop_last();
        lemma_filter_distinct(shorter, keep);
        let kept = shorter.filter(keep);
        assert forall|i: int| 0 <= i < kept.len() implies (#[trigger] kept[i]).spec_wake_id()@
            != pending.last().spec_wake_id()@ by {
            shorter.lemma_filter_contains_rev(keep, kept[i]);
            let k = choose|k: int| 0 <= k < shorter.len() && shorter[k] == kept[i];
            assert(pending[k] == kept[i]);
        }
    }
}

/// A delivery moves the due-time watermark only forward, a fenced one not at
/// all.
pub proof fn the_watermark_only_advances(
    model: WakeModel,
    policy: AgentWakePolicy,
    current: ScheduleRevision,
    binding: AgentWakeBinding,
    now: AgentTimestampMillis,
)
    ensures
        ({
            let (next, answer) = model.dispositioning(policy, current, binding, now);
            &&& model.scheduled_watermark is Some ==> next.scheduled_watermark is Some
                && next.scheduled_watermark->Some_0.millis
                >= model.scheduled_watermark->Some_0.millis
            &&& answer is Ok && (answer->Ok_0 is Fenced || answer->Ok_0 is Retried
                || answer->Ok_0 is Barred || answer->Ok_0 is Duplicate)
                ==> next.scheduled_watermark == model.scheduled_watermark
            &&& binding.spec_schedule_revision().number() < current.number()
                ==> next.scheduled_watermark == model.scheduled_watermark
        }),
{
}

/// How many deliveries the counters have accounted.
pub open spec fn deliveries_counted(counters: AgentWakeCounters) -> int {
    counters.admitted + counters.coalesced + counters.missed + counters.fenced + counters.deferred
        + counters.backed_off + counters.suspended + counters.dropped + counters.barred
        + counters.retried
}

/// Each delivery moves exactly one primary counter by one, a duplicate or a
/// refused one none: a replay never counts twice.
pub proof fn each_delivery_counts_once(
    model: WakeModel,
    policy: AgentWakePolicy,
    current: ScheduleRevision,
    binding: AgentWakeBinding,
    now: AgentTimestampMillis,
)
    requires
        model.can_count(policy, current, binding, now),
    ensures
        ({
            let (next, answer) = model.dispositioning(policy, current, binding, now);
            let counted = answer is Ok && !(answer->Ok_0 is Duplicate);
            &&& deliveries_counted(next.counters) == deliveries_counted(model.counters)
                + if counted {
                1int
            } else {
                0int
            }
            &&& next.counters.released == model.counters.released
            &&& answer is Ok && answer->Ok_0.admits() <==> next.counters.admitted
                == model.counters.admitted + 1
        }),
{
}

/// A refused delivery changes nothing.
pub proof fn a_refused_delivery_changes_nothing(
    model: WakeModel,
    policy: AgentWakePolicy,
    current: ScheduleRevision,
    binding: AgentWakeBinding,
    now: AgentTimestampMillis,
)
    requires
        model.dispositioning(policy, current, binding, now).1 is Err,
    ensures
        model.dispositioning(policy, current, binding, now).0 == model,
{
}

/// A delivery is admitted only under an active lifecycle, outside any backoff,
/// into a free slot, for an occurrence of the schedule in force that no earlier
/// delivery consumed, and paid for by the goal window.
pub proof fn an_admission_passes_every_gate(
    model: WakeModel,
    policy: AgentWakePolicy,
    current: ScheduleRevision,
    binding: AgentWakeBinding,
    now: AgentTimestampMillis,
)
    requires
        model.dispositioning(policy, current, binding, now).1 is Ok,
        model.dispositioning(policy, current, binding, now).1->Ok_0.admits(),
    ensures
        binding.spec_schedule_revision().number() == current.number(),
        policy.triggers@.contains(binding.spec_trigger()),
        !(*binding.spec_occurrence() is Retry),
        !model.knows(binding.spec_wake_id()@),
        model.lifecycle.status == AgentGoalLifecycleStatus::Active,
        !model.lifecycle.backing_off(now),
        model.has_free_slot(policy),
        model.refusal(policy, now) is None,
        active_holds(
            model.dispositioning(policy, current, binding, now).0.active,
            binding.spec_wake_id()@,
        ),
{
    let next = model.dispositioning(policy, current, binding, now).0;
    assert(next.active.last().binding == binding);
    assert(next.active[next.active.len() - 1].binding.spec_wake_id()@
        == binding.spec_wake_id()@);
}

/// No more occurrences run at once than the policy lets: one, unless it
/// declares parallel epochs.
pub proof fn concurrency_is_bounded(
    model: WakeModel,
    policy: AgentWakePolicy,
    current: ScheduleRevision,
    binding: AgentWakeBinding,
    position: int,
    now: AgentTimestampMillis,
)
    requires
        model.active.len() <= active_limit(policy),
    ensures
        model.dispositioning(policy, current, binding, now).0.active.len() <= active_limit(policy),
        model.promoting(policy, now).0.active.len() <= active_limit(policy),
        0 <= position < model.active.len() ==> model.freeing(position).promoting(
            policy,
            now,
        ).0.active.len() <= active_limit(policy),
{
}

/// No more occurrences wait than the policy lets: one, unless it declares
/// catch-up.
pub proof fn waiting_is_bounded(
    model: WakeModel,
    policy: AgentWakePolicy,
    current: ScheduleRevision,
    binding: AgentWakeBinding,
    now: AgentTimestampMillis,
)
    requires
        model.pending.len() <= pending_limit(policy),
    ensures
        model.dispositioning(policy, current, binding, now).0.pending.len() <= pending_limit(
            policy,
        ),
        model.promoting(policy, now).0.pending.len() <= pending_limit(policy),
{
}

/// While a downtime backlog's representative runs and no slot is free, every
/// further missed occurrence of the backlog is absorbed: one downtime yields
/// one epoch.
pub proof fn a_running_representative_absorbs_its_backlog(
    model: WakeModel,
    policy: AgentWakePolicy,
    binding: AgentWakeBinding,
    now: AgentTimestampMillis,
)
    requires
        policy.missed_occurrence == AgentMissedOccurrencePolicy::AdmitOneCoalesced,
        model.runs_representative(),
        !model.has_free_slot(policy),
        later_than(binding, policy.maximum_lateness_millis, now),
    ensures
        model.placing(policy, binding, now).1 == (AgentWakeDisposition::Skipped {
            wake: *binding.spec_wake_id(),
        }),
        model.placing(policy, binding, now).0.active == model.active,
        model.placing(policy, binding, now).0.pending == model.pending,
{
}

/// Absorbing statuses stay absorbed: no delivery, promotion, outcome,
/// observation or command moves them, and nothing is admitted under them.
pub proof fn an_absorbing_status_stays(
    model: WakeModel,
    policy: AgentWakePolicy,
    current: ScheduleRevision,
    binding: AgentWakeBinding,
    outcome: AgentEpochOutcomeClass,
    expected: AgentRevisionNumber,
    now: AgentTimestampMillis,
)
    requires
        model.lifecycle.status.absorbs(),
    ensures
        ({
            let (next, answer) = model.dispositioning(policy, current, binding, now);
            &&& next.lifecycle.status == model.lifecycle.status
            &&& next.active == model.active
            &&& answer is Ok ==> !answer->Ok_0.admits()
        }),
        model.promoting(policy, now) == (model, None::<AgentWakeId>),
        model.accounting(policy, outcome, now).lifecycle.status == model.lifecycle.status,
        model.crossed_status(policy, now) is None,
        model.owing(policy, now).lifecycle.status == model.lifecycle.status,
        model.fence(expected) == Some(
            AgentWakeError::LifecycleTerminal { status: model.lifecycle.status },
        ),
{
}

/// A delivery never changes the lifecycle but for its re-wake slots.
pub proof fn a_delivery_keeps_the_lifecycle(
    model: WakeModel,
    policy: AgentWakePolicy,
    current: ScheduleRevision,
    binding: AgentWakeBinding,
    now: AgentTimestampMillis,
)
    ensures
        ({
            let next = model.dispositioning(policy, current, binding, now).0;
            next.lifecycle == model.lifecycle.with_rewakes(next.lifecycle.rewakes)
        }),
        model.promoting(policy, now).0.lifecycle == model.lifecycle,
{
}

/// The lifecycle revision never goes back.
pub proof fn the_lifecycle_revision_only_advances(
    model: WakeModel,
    policy: AgentWakePolicy,
    status: AgentGoalLifecycleStatus,
    reason: Option<Seq<char>>,
    outcome: AgentEpochOutcomeClass,
    expiry: AgentTimestampMillis,
    provenance: AgentRevisionProvenance,
    now: AgentTimestampMillis,
)
    ensures
        ({
            let number = model.lifecycle.lifecycle_revision.number;
            &&& number <= model.taking_status(status).lifecycle.lifecycle_revision.number
            &&& number <= model.suspending(reason, provenance).lifecycle.lifecycle_revision.number
            &&& number <= model.resuming(provenance).lifecycle.lifecycle_revision.number
            &&& number <= model.renewing(expiry, provenance).lifecycle.lifecycle_revision.number
            &&& number <= model.retiring(provenance).lifecycle.lifecycle_revision.number
            &&& number <= model.accounting(
                policy,
                outcome,
                now,
            ).lifecycle.lifecycle_revision.number
        }),
{
}

/// An accepted lifecycle command fences its own replay: the revision it carried
/// is refused from then on.
pub proof fn an_accepted_command_fences_its_replay(
    model: WakeModel,
    expected: AgentRevisionNumber,
    reason: Option<Seq<char>>,
    expiry: AgentTimestampMillis,
    provenance: AgentRevisionProvenance,
)
    requires
        model.fence(expected) is None,
        expected.number < u64::MAX,
    ensures
        model.suspending(reason, provenance).fence(expected) is Some,
        model.resuming(provenance).fence(expected) is Some,
        model.renewing(expiry, provenance).fence(expected) is Some,
        model.retiring(provenance).fence(expected) is Some,
{
}

/// A resume lifts a suspension: the goal is active again, with what was parked
/// still parked, and its failure streak starts over.
pub proof fn a_resume_lifts_a_suspension(
    model: WakeModel,
    reason: Option<Seq<char>>,
    provenance: AgentRevisionProvenance,
)
    ensures
        ({
            let resumed = model.suspending(reason, provenance).resuming(provenance);
            &&& resumed.lifecycle.status == AgentGoalLifecycleStatus::Active
            &&& resumed.lifecycle.suspended_reason is None
            &&& resumed.lifecycle.consecutive_failures == 0
            &&& resumed.lifecycle.backoff_until is None
            &&& resumed.pending == model.pending
            &&& resumed.active == model.active
            &&& resumed.counters == model.counters
        }),
{
}

/// Recomputing the owed re-wakes twice is recomputing them once.
pub proof fn owing_rewakes_is_idempotent(
    model: WakeModel,
    policy: AgentWakePolicy,
    now: AgentTimestampMillis,
)
    ensures
        model.owing(policy, now).owing(policy, now) == model.owing(policy, now),
{
    let once = model.owing(policy, now);
    assert(once.wanted_backoff(now) == model.wanted_backoff(now));
    if policy.goal_window is Some {
        let ceiling = policy.goal_window->Some_0;
        assert(once.current_start(ceiling, now) == model.current_start(ceiling, now));
        assert(once.current_spending(ceiling, now) == model.current_spending(ceiling, now));
        assert(once.waiting_start(ceiling, now) == model.waiting_start(ceiling, now));
    }
    assert(once.wanted_window_turn(policy, now) == model.wanted_window_turn(policy, now));
}

/// Nothing is owed while nothing waits or the goal cannot admit.
pub proof fn nothing_is_owed_without_need(
    model: WakeModel,
    policy: AgentWakePolicy,
    now: AgentTimestampMillis,
)
    requires
        model.pending.len() == 0 || model.lifecycle.status != AgentGoalLifecycleStatus::Active,
    ensures
        model.owing(policy, now).lifecycle.rewakes.backoff is None,
        model.owing(policy, now).lifecycle.rewakes.window_turn is None,
{
}

/// Whether a window has spent no more than its ceiling on every dimension.
pub open spec fn spent_within_ceiling(model: WakeModel, ceiling: AgentGoalWindowCeiling) -> bool {
    model.window is Some ==> forall|dimension: AgentBudgetDimension| #[trigger]
        ceiling.ceiling.limit(dimension) is Some ==> model.window->Some_0.consumed.spent(dimension)
            <= ceiling.ceiling.limit(dimension)->Some_0
}

/// A goal window never spends more than its ceiling.
pub proof fn a_window_never_overspends(
    model: WakeModel,
    policy: AgentWakePolicy,
    current: ScheduleRevision,
    binding: AgentWakeBinding,
    now: AgentTimestampMillis,
)
    requires
        policy.goal_window is Some,
        spent_within_ceiling(model, policy.goal_window->Some_0),
    ensures
        spent_within_ceiling(
            model.dispositioning(policy, current, binding, now).0,
            policy.goal_window->Some_0,
        ),
        spent_within_ceiling(model.promoting(policy, now).0, policy.goal_window->Some_0),
{
    broadcast use crate::budget::lemma_nothing_spent;

    let ceiling = policy.goal_window->Some_0;
    let spent = model.current_spending(ceiling, now);
    if first_refused(ceiling.ceiling, policy.epoch_budget, spent) is None {
        charging_keeps_the_ceiling(ceiling.ceiling, policy.epoch_budget, spent);
    }
    assert(spent_within_ceiling(model.paying(policy, now), ceiling));
    let next = model.dispositioning(policy, current, binding, now).0;
    assert(next.window == model.window || next.window == model.paying(policy, now).window);
    let promoted = model.promoting(policy, now).0;
    assert(promoted.window == model.window || promoted.window
        == model.paying(policy, now).window);
}

/// A window is refilled by logical time alone: its start never goes back, and
/// while it stays nothing spent is given back.
pub proof fn a_window_refills_by_logical_time_only(
    model: WakeModel,
    policy: AgentWakePolicy,
    now: AgentTimestampMillis,
)
    requires
        policy_covers(policy, now),
        policy.goal_window is Some,
        model.window is Some,
    ensures
        ({
            let before = model.window->Some_0;
            let after = model.paying(policy, now).window->Some_0;
            &&& model.paying(policy, now).window is Some
            &&& before.window_start.millis <= after.window_start.millis
            &&& after.window_start == before.window_start ==> forall|
                dimension: AgentBudgetDimension,
            | #[trigger] before.consumed.spent(dimension) <= after.consumed.spent(dimension)
        }),
{
    let ceiling = policy.goal_window->Some_0;
    let before = model.window->Some_0;
    a_window_start_only_advances(ceiling.window, before.window_start, now);
    lemma_charging_only_adds(
        ceiling.ceiling,
        policy.epoch_budget,
        model.current_spending(ceiling, now),
    );
}

proof fn lemma_charging_only_adds(
    ceiling: crate::budget::AgentBudgetAllocation,
    epoch_budget: crate::budget::AgentBudgetAllocation,
    consumed: crate::budget::AgentBudgetConsumption,
)
    ensures
        forall|dimension: AgentBudgetDimension| #[trigger]
            consumed.spent(dimension) <= charged(ceiling, epoch_budget, consumed).spent(dimension),
{
    reveal_with_fuel(crate::budget::charged_from, 4);
    broadcast use crate::budget::lemma_adding;

}

/// A goal admits exactly while it is active, and never once it is terminal; in
/// any other status no parked occurrence is promoted and a promotion attempt
/// changes nothing, and no delivery is admitted.
pub proof fn only_an_active_goal_admits(
    model: WakeModel,
    policy: AgentWakePolicy,
    current: ScheduleRevision,
    binding: AgentWakeBinding,
    now: AgentTimestampMillis,
)
    ensures
        model.lifecycle.status.admits() <==> model.lifecycle.status
            == AgentGoalLifecycleStatus::Active,
        !(model.lifecycle.status.admits() && model.lifecycle.status.absorbs()),
        !model.lifecycle.status.admits() ==> {
            let answer = model.dispositioning(policy, current, binding, now).1;
            &&& model.promoting(policy, now) == (model, None::<AgentWakeId>)
            &&& answer is Ok ==> !(answer->Ok_0 is Admitted) && !(answer->Ok_0 is AdmittedCoalesced)
        },
{
}

/// A schedule update leaves no parked occurrence of an older revision, and
/// touches no active one.
pub proof fn a_schedule_update_fences_the_old_schedule(model: WakeModel, current: ScheduleRevision)
    ensures
        forall|i: int|
            0 <= i < model.rescheduling(current).pending.len() ==> (#[trigger] model.rescheduling(
                current,
            ).pending[i]).spec_schedule_revision().number() >= current.number(),
        model.rescheduling(current).active == model.active,
        model.rescheduling(current).scheduled_watermark is None,
{
    let keep = |binding: AgentWakeBinding|
        binding.spec_schedule_revision().number() >= current.number();
    let kept = model.pending.filter(keep);
    assert forall|i: int| 0 <= i < kept.len() implies (
    #[trigger] kept[i]).spec_schedule_revision().number() >= current.number() by {
        model.pending.lemma_filter_pred(keep, i);
    }
}

/// The backoff delay of a valid policy lies between the initial delay and the
/// ceiling, and never shrinks as the streak grows. An initial delay beyond a
/// hundredth of the largest number of milliseconds is left out: there the
/// percentage saturates before it is divided.
pub proof fn backoff_grows_to_its_ceiling(policy: AgentWakeBackoffPolicy, failures: nat)
    requires
        policy.verdict() is Ok,
        policy.initial_millis <= u64::MAX / 100,
    ensures
        policy.initial_millis <= backoff_delay(policy, failures) <= policy.max_millis,
        backoff_delay(policy, failures) <= backoff_delay(policy, failures + 1),
{
    lemma_streak_grows(policy, failures);
    lemma_streak_grows(policy, failures + 1);
}

proof fn lemma_grown_delay(policy: AgentWakeBackoffPolicy, delay: nat)
    requires
        policy.multiplier_percent >= 100,
        delay <= u64::MAX / 100,
    ensures
        delay <= grown_delay(policy, delay) <= u64::MAX / 100,
{
    let product = delay * policy.multiplier_percent as nat;
    assert(product >= delay * 100) by (nonlinear_arith)
        requires
            product == delay * policy.multiplier_percent as nat,
            policy.multiplier_percent >= 100,
    ;
}

proof fn lemma_streak_grows(policy: AgentWakeBackoffPolicy, failures: nat)
    requires
        policy.verdict() is Ok,
        policy.initial_millis <= u64::MAX / 100,
    ensures
        streak_delay(policy, failures) >= policy.initial_millis,
        streak_delay(policy, failures) <= u64::MAX / 100 || streak_delay(policy, failures)
            == policy.max_millis,
        failures > 1 ==> streak_delay(policy, (failures - 1) as nat) <= streak_delay(
            policy,
            failures,
        ) || streak_delay(policy, failures) == policy.max_millis,
    decreases failures,
{
    if failures > 1 {
        let previous = streak_delay(policy, (failures - 1) as nat);
        lemma_streak_grows(policy, (failures - 1) as nat);
        if previous <= u64::MAX / 100 {
            lemma_grown_delay(policy, previous);
        }
    }
}

} // verus!
