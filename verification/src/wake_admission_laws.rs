//! What a delivered wake promises: who is admitted, who waits, who is turned away,
//! and what each leaves of the controller.
//!
//! Each law speaks of a call of the controller: of the state it found, of what it
//! was given, of the state it left and of what it answered.

use vstd::prelude::*;

use crate::budget::{first_refused_from, AgentBudgetAllocation, AgentBudgetDimension};
use crate::identity::{AgentTimestampMillis, AgentWakeId};
use crate::wake::{
    AgentWakeBinding, AgentWakeOccurrence, AgentWakeRewakeCause, AgentWakeTriggerKind,
    ScheduleRevision,
};
use crate::wake_controller::{AgentWakeControllerState, WakeModel};
use crate::wake_error::AgentWakeError;
use crate::wake_policy::{
    AgentGoalLifecycleStatus, AgentGoalWindowCeiling, AgentMissedOccurrencePolicy,
    AgentWakeOverlapPolicy, AgentWakePolicy, AgentWakeSuspensionPolicy,
};
use crate::wake_state::{AgentWakeCounters, AgentWakeDisposition, AgentWakeRelease, AgentWakeRewake};

verus! {

/// How many milliseconds past its due time an occurrence arrives; one without a
/// due time is never late.
pub open spec fn late_by(binding: AgentWakeBinding, now: AgentTimestampMillis) -> int {
    match *binding.spec_occurrence() {
        AgentWakeOccurrence::Scheduled { due_at } => if now.millis > due_at.millis {
            now.millis - due_at.millis
        } else {
            0
        },
        AgentWakeOccurrence::Retry { due_at, .. } => if now.millis > due_at.millis {
            now.millis - due_at.millis
        } else {
            0
        },
        _ => 0,
    }
}

/// Whether an occurrence is past a bound on its lateness, where one is set.
pub open spec fn is_past(
    binding: AgentWakeBinding,
    bound: Option<u64>,
    now: AgentTimestampMillis,
) -> bool {
    match bound {
        Some(bound) => late_by(binding, now) > bound,
        None => false,
    }
}

/// Whether the controller has met a wake: it runs, it waits, it is among the
/// recent ones, or it was the last admitted.
pub open spec fn has_met(model: WakeModel, wake: Seq<char>) -> bool {
    ||| exists|i: int|
        0 <= i < model.active.len() && (#[trigger] model.active[i]).binding.spec_wake_id()@ == wake
    ||| exists|i: int|
        0 <= i < model.pending.len() && (#[trigger] model.pending[i]).spec_wake_id()@ == wake
    ||| exists|i: int| 0 <= i < model.recent.len() && (#[trigger] model.recent[i])@ == wake
    ||| model.last_admitted is Some && model.last_admitted->Some_0@ == wake
}

/// Whether a scheduled occurrence is due no later than one already consumed.
pub open spec fn is_overtaken(model: WakeModel, binding: AgentWakeBinding) -> bool {
    match (*binding.spec_occurrence(), model.scheduled_watermark) {
        (AgentWakeOccurrence::Scheduled { due_at }, Some(watermark)) => due_at.millis
            <= watermark.millis,
        _ => false,
    }
}

/// How many occurrences may run at once.
pub open spec fn slots(policy: AgentWakePolicy) -> int {
    match policy.overlap {
        AgentWakeOverlapPolicy::ForbidAndCoalesce => 1,
        AgentWakeOverlapPolicy::Parallel { max_concurrent_epochs, .. } => if max_concurrent_epochs
            <= 8 {
            max_concurrent_epochs as int
        } else {
            8
        },
    }
}

/// How many occurrences may wait.
pub open spec fn places(policy: AgentWakePolicy) -> int {
    match policy.missed_occurrence {
        AgentMissedOccurrencePolicy::BoundedCatchUp { max_occurrences } => if max_occurrences
            <= 8 {
            max_occurrences as int
        } else {
            8
        },
        _ => 1,
    }
}

/// What the goal window that holds `now` has spent on a dimension.
pub open spec fn spent_on(
    model: WakeModel,
    ceiling: AgentGoalWindowCeiling,
    now: AgentTimestampMillis,
    dimension: AgentBudgetDimension,
) -> int {
    match model.window {
        Some(ledger) => if ledger.window_start == model.current_start(ceiling, now) {
            ledger.consumed.spent(dimension) as int
        } else {
            0
        },
        None => 0,
    }
}

/// Whether one dimension of the goal window has room for an epoch: it has no
/// ceiling, or the epoch's own bound fits under it on top of what was spent.
pub open spec fn affords(
    model: WakeModel,
    ceiling: AgentGoalWindowCeiling,
    epoch: AgentBudgetAllocation,
    now: AgentTimestampMillis,
    dimension: AgentBudgetDimension,
) -> bool {
    match ceiling.ceiling.limit(dimension) {
        None => true,
        Some(limit) => match epoch.limit(dimension) {
            None => false,
            Some(requested) => {
                let total = spent_on(model, ceiling, now, dimension) + requested;
                total <= limit || (total > u64::MAX && limit == u64::MAX)
            },
        },
    }
}

/// Whether the policy's goal window, if it has one, pays for an epoch now.
pub open spec fn pays(model: WakeModel, policy: AgentWakePolicy, now: AgentTimestampMillis) -> bool {
    match policy.goal_window {
        None => true,
        Some(ceiling) => {
            &&& affords(model, ceiling, policy.epoch_budget, now, AgentBudgetDimension::ModelCalls)
            &&& affords(model, ceiling, policy.epoch_budget, now, AgentBudgetDimension::Tokens)
        },
    }
}

/// The window refuses an epoch exactly where it cannot afford it, and names the
/// first dimension that lacks the room.
pub proof fn a_window_pays_for_what_fits(
    model: WakeModel,
    policy: AgentWakePolicy,
    now: AgentTimestampMillis,
)
    ensures
        model.refusal(policy, now) is None <==> pays(model, policy, now),
        policy.goal_window is Some ==> {
            let ceiling = policy.goal_window->Some_0;
            let calls = affords(
                model,
                ceiling,
                policy.epoch_budget,
                now,
                AgentBudgetDimension::ModelCalls,
            );
            let tokens = affords(
                model,
                ceiling,
                policy.epoch_budget,
                now,
                AgentBudgetDimension::Tokens,
            );
            &&& !calls ==> model.refusal(policy, now) == Some(AgentBudgetDimension::ModelCalls)
            &&& calls && !tokens ==> model.refusal(policy, now) == Some(
                AgentBudgetDimension::Tokens,
            )
        },
{
    reveal_with_fuel(first_refused_from, 4);
    broadcast use crate::budget::lemma_nothing_spent;

}

/// Whether the controller took note of a wake: it is the newest of the ring of
/// recent wakes, which keeps sixteen.
pub open spec fn noted(before: WakeModel, after: WakeModel, wake: AgentWakeId) -> bool {
    &&& after.recent.len() > 0
    &&& after.recent.last() == wake
    &&& before.recent.len() < 16 ==> after.recent == before.recent.push(wake)
    &&& before.recent.len() >= 16 ==> after.recent == before.recent.push(wake).drop_first()
}

/// Whether an occurrence was consumed: it was noted, and if it was scheduled the
/// watermark is no earlier than its due time.
pub open spec fn consumed(before: WakeModel, after: WakeModel, binding: AgentWakeBinding) -> bool {
    &&& noted(before, after, *binding.spec_wake_id())
    &&& match *binding.spec_occurrence() {
        AgentWakeOccurrence::Scheduled { due_at } => {
            &&& after.scheduled_watermark is Some
            &&& before.scheduled_watermark is None ==> after.scheduled_watermark == Some(due_at)
            &&& before.scheduled_watermark is Some && before.scheduled_watermark->Some_0.millis
                < due_at.millis ==> after.scheduled_watermark == Some(due_at)
            &&& before.scheduled_watermark is Some && before.scheduled_watermark->Some_0.millis
                >= due_at.millis ==> after.scheduled_watermark == before.scheduled_watermark
        },
        _ => after.scheduled_watermark == before.scheduled_watermark,
    }
}

/// Whether an occurrence got an active slot, last and without an epoch yet.
pub open spec fn admitted_into(
    before: WakeModel,
    after: WakeModel,
    binding: AgentWakeBinding,
    representative: bool,
    now: AgentTimestampMillis,
) -> bool {
    &&& after.active.len() == before.active.len() + 1
    &&& after.active.drop_last() == before.active
    &&& after.active.last().binding == binding
    &&& after.active.last().admitted_at == now
    &&& after.active.last().representative == representative
    &&& after.active.last().epoch is None
    &&& after.last_admitted == Some(*binding.spec_wake_id())
    &&& after.last_admitted_at == Some(now)
    &&& after.lifecycle == before.lifecycle
    &&& after.counters == (AgentWakeCounters {
        admitted: (before.counters.admitted + 1) as u64,
        ..before.counters
    })
}

/// Whether an occurrence waits: in a free place, or in the only one, or, where
/// a longer queue is full, not at all.
pub open spec fn waits(
    before: WakeModel,
    after: WakeModel,
    policy: AgentWakePolicy,
    binding: AgentWakeBinding,
) -> bool {
    &&& before.pending.len() < places(policy) ==> after.pending == before.pending.push(binding)
    &&& before.pending.len() >= places(policy) && places(policy) == 1 ==> after.pending.len()
        == before.pending.len() && after.pending[0] == binding && forall|i: int|
        0 < i < after.pending.len() ==> #[trigger] after.pending[i] == before.pending[i]
    &&& before.pending.len() >= places(policy) && places(policy) != 1 ==> after.pending
        == before.pending
}

/// Whether a longer catch-up queue has no place left.
pub open spec fn is_full(model: WakeModel, policy: AgentWakePolicy) -> bool {
    model.pending.len() >= places(policy) && places(policy) != 1
}

/// Whether parking takes the only place from another occurrence.
pub open spec fn displaces(model: WakeModel, policy: AgentWakePolicy) -> bool {
    model.pending.len() >= places(policy) && places(policy) == 1
}

/// Whether nothing ran, stopped or changed its goal.
pub open spec fn runs_on(before: WakeModel, after: WakeModel) -> bool {
    &&& after.active == before.active
    &&& after.last_admitted == before.last_admitted
    &&& after.last_admitted_at == before.last_admitted_at
    &&& after.lifecycle == before.lifecycle
}

/// Whether a delivery is one the schedule and the policy accept at all.
pub open spec fn is_acceptable(
    policy: AgentWakePolicy,
    current: ScheduleRevision,
    binding: AgentWakeBinding,
) -> bool {
    let retry = *binding.spec_occurrence() is Retry;
    let controller = binding.spec_trigger() == AgentWakeTriggerKind::Controller;
    &&& binding.spec_schedule_revision().number() <= current.number()
    &&& retry == controller
    &&& retry || policy.triggers@.contains(binding.spec_trigger())
}

/// Whether a delivery is a new occurrence of the schedule in force.
pub open spec fn is_new(
    model: WakeModel,
    policy: AgentWakePolicy,
    current: ScheduleRevision,
    binding: AgentWakeBinding,
) -> bool {
    &&& is_acceptable(policy, current, binding)
    &&& binding.spec_schedule_revision().number() == current.number()
    &&& !has_met(model, binding.spec_wake_id()@)
    &&& !(*binding.spec_occurrence() is Retry)
    &&& !is_overtaken(model, binding)
}

/// Whether the goal takes new occurrences: it is active and not backing off.
pub open spec fn is_open(model: WakeModel, now: AgentTimestampMillis) -> bool {
    &&& model.lifecycle.status == AgentGoalLifecycleStatus::Active
    &&& match model.lifecycle.backoff_until {
        Some(until) => now.millis >= until.millis,
        None => true,
    }
}

/// A delivery is refused exactly for a revision the schedule has not reached, for
/// a retry that is not the controller's own or the reverse, and for a trigger the
/// policy does not allow, in this order; a refused one changes nothing.
pub proof fn a_delivery_is_refused_for_its_revision_or_trigger(
    state: &mut AgentWakeControllerState,
    policy: &AgentWakePolicy,
    current: ScheduleRevision,
    binding: AgentWakeBinding,
    now: AgentTimestampMillis,
    result: Result<AgentWakeDisposition, AgentWakeError>,
)
    requires
        call_ensures(
            AgentWakeControllerState::admit_wake,
            (state, policy, current, binding, now),
            result,
        ),
    ensures
        ({
            let offered = binding.spec_schedule_revision();
            let trigger = binding.spec_trigger();
            let retry = *binding.spec_occurrence() is Retry;
            let mismatch = retry != (trigger == AgentWakeTriggerKind::Controller);
            &&& result is Ok <==> is_acceptable(*policy, current, binding)
            &&& result is Err ==> final(state)@ == old(state)@
            &&& offered.number() > current.number() ==> result->Err_0 == (
            AgentWakeError::RevisionAhead { offered, current })
            &&& offered.number() <= current.number() && mismatch ==> result->Err_0 == (
            AgentWakeError::RetryTriggerMismatch { trigger })
            &&& offered.number() <= current.number() && !mismatch && result is Err
                ==> result->Err_0 == (AgentWakeError::TriggerNotAllowed { trigger })
        }),
{
}

/// A wake the controller has met, and a scheduled one that a later one overtook,
/// is a duplicate and changes nothing; nothing else is called a duplicate.
pub proof fn a_duplicate_is_a_wake_met_or_overtaken(
    state: &mut AgentWakeControllerState,
    policy: &AgentWakePolicy,
    current: ScheduleRevision,
    binding: AgentWakeBinding,
    now: AgentTimestampMillis,
    result: Result<AgentWakeDisposition, AgentWakeError>,
)
    requires
        call_ensures(
            AgentWakeControllerState::admit_wake,
            (state, policy, current, binding, now),
            result,
        ),
        is_acceptable(*policy, current, binding),
    ensures
        ({
            let wake = *binding.spec_wake_id();
            let met = has_met(old(state)@, wake@);
            let overtaken = binding.spec_schedule_revision().number() == current.number()
                && is_overtaken(old(state)@, binding);
            &&& result->Ok_0 is Duplicate <==> met || overtaken
            &&& met || overtaken ==> final(state)@ == old(state)@ && result->Ok_0 == (
            AgentWakeDisposition::Duplicate { wake })
        }),
{
}

/// An occurrence of an earlier schedule is fenced: it is noted and counted, and
/// neither runs nor waits nor moves the watermark.
pub proof fn an_obsolete_occurrence_is_fenced(
    state: &mut AgentWakeControllerState,
    policy: &AgentWakePolicy,
    current: ScheduleRevision,
    binding: AgentWakeBinding,
    now: AgentTimestampMillis,
    result: Result<AgentWakeDisposition, AgentWakeError>,
)
    requires
        call_ensures(
            AgentWakeControllerState::admit_wake,
            (state, policy, current, binding, now),
            result,
        ),
        is_acceptable(*policy, current, binding),
        !has_met(old(state)@, binding.spec_wake_id()@),
    ensures
        ({
            let (before, after) = (old(state)@, final(state)@);
            let offered = binding.spec_schedule_revision();
            &&& result->Ok_0 is Fenced <==> offered.number() < current.number()
            &&& result->Ok_0 is Fenced ==> {
                &&& result->Ok_0 == (AgentWakeDisposition::Fenced {
                    wake: *binding.spec_wake_id(),
                    offered,
                    current,
                })
                &&& runs_on(before, after)
                &&& noted(before, after, *binding.spec_wake_id())
                &&& after.pending == before.pending
                &&& after.scheduled_watermark == before.scheduled_watermark
                &&& after.window == before.window
                &&& after.counters == (AgentWakeCounters {
                    fenced: (before.counters.fenced + 1) as u64,
                    ..before.counters
                })
            }
        }),
{
}

/// Whether a re-wake slot is as the retry of one of its generations leaves it:
/// owed again under the next attempt if it was that generation's, and untouched
/// otherwise.
pub open spec fn rearmed(
    before: Option<AgentWakeRewake>,
    after: Option<AgentWakeRewake>,
    due_at: AgentTimestampMillis,
    attempt: u64,
) -> bool {
    let own = before is Some && before->Some_0.due_at == due_at && before->Some_0.attempt
        == attempt;
    &&& !own ==> after == before
    &&& own ==> {
        &&& after is Some
        &&& after->Some_0.due_at == due_at
        &&& !after->Some_0.parked
        &&& attempt < u64::MAX ==> after->Some_0.attempt == attempt + 1
        &&& attempt == u64::MAX ==> after->Some_0.attempt == u64::MAX
    }
}

/// A retry of the controller's own is consumed, not admitted: it is noted and
/// counted, re-arms the slot it came from, and nothing else moves.
pub proof fn a_retry_rearms_its_own_slot(
    state: &mut AgentWakeControllerState,
    policy: &AgentWakePolicy,
    current: ScheduleRevision,
    binding: AgentWakeBinding,
    now: AgentTimestampMillis,
    result: Result<AgentWakeDisposition, AgentWakeError>,
)
    requires
        call_ensures(
            AgentWakeControllerState::admit_wake,
            (state, policy, current, binding, now),
            result,
        ),
        is_acceptable(*policy, current, binding),
        binding.spec_schedule_revision().number() == current.number(),
        !has_met(old(state)@, binding.spec_wake_id()@),
        *binding.spec_occurrence() is Retry,
    ensures
        ({
            let (before, after) = (old(state)@, final(state)@);
            let retry = *binding.spec_occurrence();
            let (slots, next) = (before.lifecycle.rewakes, after.lifecycle.rewakes);
            let backoff = retry->cause == AgentWakeRewakeCause::Backoff;
            &&& result->Ok_0 == (AgentWakeDisposition::Retried { wake: *binding.spec_wake_id() })
            &&& noted(before, after, *binding.spec_wake_id())
            &&& after.active == before.active
            &&& after.pending == before.pending
            &&& after.scheduled_watermark == before.scheduled_watermark
            &&& after.last_admitted == before.last_admitted
            &&& after.last_admitted_at == before.last_admitted_at
            &&& after.window == before.window
            &&& after.counters == (AgentWakeCounters {
                retried: (before.counters.retried + 1) as u64,
                ..before.counters
            })
            &&& after.lifecycle.with_rewakes(slots) == before.lifecycle
            &&& backoff ==> next.window_turn == slots.window_turn && rearmed(
                slots.backoff,
                next.backoff,
                retry->Retry_due_at,
                retry->attempt,
            )
            &&& !backoff ==> next.backoff == slots.backoff && rearmed(
                slots.window_turn,
                next.window_turn,
                retry->Retry_due_at,
                retry->attempt,
            )
        }),
{
}

/// A goal that is over bars a new occurrence; it is noted and counted, and does
/// not run or wait.
pub proof fn a_goal_that_is_over_bars(
    state: &mut AgentWakeControllerState,
    policy: &AgentWakePolicy,
    current: ScheduleRevision,
    binding: AgentWakeBinding,
    now: AgentTimestampMillis,
    result: Result<AgentWakeDisposition, AgentWakeError>,
)
    requires
        call_ensures(
            AgentWakeControllerState::admit_wake,
            (state, policy, current, binding, now),
            result,
        ),
        is_new(old(state)@, *policy, current, binding),
    ensures
        ({
            let (before, after) = (old(state)@, final(state)@);
            let status = before.lifecycle.status;
            &&& result->Ok_0 is Barred <==> status == AgentGoalLifecycleStatus::Expired || status
                == AgentGoalLifecycleStatus::Retired
            &&& result->Ok_0 is Barred ==> {
                &&& result->Ok_0 == (AgentWakeDisposition::Barred {
                    wake: *binding.spec_wake_id(),
                    status,
                })
                &&& runs_on(before, after)
                &&& noted(before, after, *binding.spec_wake_id())
                &&& after.pending == before.pending
                &&& after.scheduled_watermark == before.scheduled_watermark
                &&& after.window == before.window
                &&& after.counters == (AgentWakeCounters {
                    barred: (before.counters.barred + 1) as u64,
                    ..before.counters
                })
            }
        }),
{
}

/// While a goal is suspended a new occurrence is dropped where the policy says
/// so, and waits otherwise; it never runs.
pub proof fn a_suspended_goal_parks_or_drops(
    state: &mut AgentWakeControllerState,
    policy: &AgentWakePolicy,
    current: ScheduleRevision,
    binding: AgentWakeBinding,
    now: AgentTimestampMillis,
    result: Result<AgentWakeDisposition, AgentWakeError>,
)
    requires
        call_ensures(
            AgentWakeControllerState::admit_wake,
            (state, policy, current, binding, now),
            result,
        ),
        is_new(old(state)@, *policy, current, binding),
        old(state)@.lifecycle.status == AgentGoalLifecycleStatus::Suspended,
    ensures
        ({
            let (before, after) = (old(state)@, final(state)@);
            let wake = *binding.spec_wake_id();
            let drops = policy.lifecycle.while_suspended == AgentWakeSuspensionPolicy::Drop;
            &&& runs_on(before, after)
            &&& consumed(before, after, binding)
            &&& after.window == before.window
            &&& drops ==> {
                &&& result->Ok_0 == (AgentWakeDisposition::Dropped { wake })
                &&& after.pending == before.pending
                &&& after.counters == (AgentWakeCounters {
                    dropped: (before.counters.dropped + 1) as u64,
                    ..before.counters
                })
            }
            &&& !drops ==> waits(before, after, *policy, binding)
            &&& !drops && is_full(before, *policy) ==> {
                &&& result->Ok_0 == (AgentWakeDisposition::Skipped { wake })
                &&& after.counters == (AgentWakeCounters {
                    missed: (before.counters.missed + 1) as u64,
                    ..before.counters
                })
            }
            &&& !drops && !is_full(before, *policy) ==> {
                &&& result->Ok_0 == (AgentWakeDisposition::SuspendedParked { wake })
                &&& after.counters == (AgentWakeCounters {
                    suspended: (before.counters.suspended + 1) as u64,
                    superseded: if displaces(before, *policy) {
                        (before.counters.superseded + 1) as u64
                    } else {
                        before.counters.superseded
                    },
                    ..before.counters
                })
            }
        }),
{
}

/// While a failure backoff is in force a new occurrence waits; it never runs.
pub proof fn a_backoff_parks(
    state: &mut AgentWakeControllerState,
    policy: &AgentWakePolicy,
    current: ScheduleRevision,
    binding: AgentWakeBinding,
    now: AgentTimestampMillis,
    result: Result<AgentWakeDisposition, AgentWakeError>,
)
    requires
        call_ensures(
            AgentWakeControllerState::admit_wake,
            (state, policy, current, binding, now),
            result,
        ),
        is_new(old(state)@, *policy, current, binding),
        old(state)@.lifecycle.status == AgentGoalLifecycleStatus::Active,
        !is_open(old(state)@, now),
    ensures
        ({
            let (before, after) = (old(state)@, final(state)@);
            let wake = *binding.spec_wake_id();
            &&& runs_on(before, after)
            &&& consumed(before, after, binding)
            &&& waits(before, after, *policy, binding)
            &&& after.window == before.window
            &&& is_full(before, *policy) ==> {
                &&& result->Ok_0 == (AgentWakeDisposition::Skipped { wake })
                &&& after.counters == (AgentWakeCounters {
                    missed: (before.counters.missed + 1) as u64,
                    ..before.counters
                })
            }
            &&& !is_full(before, *policy) ==> {
                &&& result->Ok_0 == (AgentWakeDisposition::BackedOff {
                    wake,
                    until: before.lifecycle.backoff_until->Some_0,
                })
                &&& after.counters == (AgentWakeCounters {
                    backed_off: (before.counters.backed_off + 1) as u64,
                    superseded: if displaces(before, *policy) {
                        (before.counters.superseded + 1) as u64
                    } else {
                        before.counters.superseded
                    },
                    ..before.counters
                })
            }
        }),
{
}

/// Under the skip policy an occurrence past the maximum lateness is never
/// admitted and never waits, whether or not a slot is free: it is skipped,
/// consumed and counted as missed.
pub proof fn a_missed_occurrence_is_skipped_under_the_skip_policy(
    state: &mut AgentWakeControllerState,
    policy: &AgentWakePolicy,
    current: ScheduleRevision,
    binding: AgentWakeBinding,
    now: AgentTimestampMillis,
    result: Result<AgentWakeDisposition, AgentWakeError>,
)
    requires
        call_ensures(
            AgentWakeControllerState::admit_wake,
            (state, policy, current, binding, now),
            result,
        ),
        policy.missed_occurrence == AgentMissedOccurrencePolicy::Skip,
        is_past(binding, policy.maximum_lateness_millis, now),
    ensures
        final(state)@.active == old(state)@.active,
        result is Ok ==> !(result->Ok_0 is Admitted) && !(result->Ok_0 is AdmittedCoalesced),
        is_new(old(state)@, *policy, current, binding) && is_open(old(state)@, now) ==> {
            let (before, after) = (old(state)@, final(state)@);
            &&& result->Ok_0 == (AgentWakeDisposition::Skipped { wake: *binding.spec_wake_id() })
            &&& runs_on(before, after)
            &&& consumed(before, after, binding)
            &&& after.pending == before.pending
            &&& after.window == before.window
            &&& after.counters == (AgentWakeCounters {
                missed: (before.counters.missed + 1) as u64,
                ..before.counters
            })
        },
{
}

/// An occurrence runs at once exactly when it is new, the goal is open, a slot is
/// free, it is not skipped for its lateness, and the goal window pays. It is
/// admitted as it is within its admission window and as coalesced beyond it; past
/// the maximum lateness it stands for its backlog where one is to stand for all.
pub proof fn an_occurrence_runs_when_there_is_room_and_budget(
    state: &mut AgentWakeControllerState,
    policy: &AgentWakePolicy,
    current: ScheduleRevision,
    binding: AgentWakeBinding,
    now: AgentTimestampMillis,
    result: Result<AgentWakeDisposition, AgentWakeError>,
)
    requires
        call_ensures(
            AgentWakeControllerState::admit_wake,
            (state, policy, current, binding, now),
            result,
        ),
    ensures
        ({
            let (before, after) = (old(state)@, final(state)@);
            let wake = *binding.spec_wake_id();
            let missed = is_past(binding, policy.maximum_lateness_millis, now);
            let late = is_past(binding, policy.admission_window_millis, now);
            let one = policy.missed_occurrence == AgentMissedOccurrencePolicy::AdmitOneCoalesced;
            let runs = is_new(before, *policy, current, binding) && is_open(before, now)
                && before.active.len() < slots(*policy) && !(missed && policy.missed_occurrence
                == AgentMissedOccurrencePolicy::Skip) && pays(before, *policy, now);
            &&& result is Ok && (result->Ok_0 is Admitted || result->Ok_0 is AdmittedCoalesced)
                <==> runs
            &&& runs ==> {
                &&& !missed && !late ==> result->Ok_0 == (AgentWakeDisposition::Admitted { wake })
                &&& missed || late ==> result->Ok_0 == (AgentWakeDisposition::AdmittedCoalesced {
                    wake,
                })
                &&& admitted_into(before, after, binding, missed && one, now)
                &&& consumed(before, after, binding)
                &&& after.pending == before.pending
                &&& policy.goal_window is None ==> after.window == before.window
            }
            &&& !runs ==> after.active == before.active && after.last_admitted
                == before.last_admitted
        }),
{
    let (before, after) = (old(state)@, final(state)@);
    a_window_pays_for_what_fits(before, *policy, now);
    if after.active != before.active {
        assert(after.active.drop_last() =~= before.active);
    }
}

/// An occurrence that has a free slot but no budget waits, and says for which
/// dimension; it costs the window nothing.
pub proof fn an_unpaid_occurrence_is_deferred(
    state: &mut AgentWakeControllerState,
    policy: &AgentWakePolicy,
    current: ScheduleRevision,
    binding: AgentWakeBinding,
    now: AgentTimestampMillis,
    result: Result<AgentWakeDisposition, AgentWakeError>,
)
    requires
        call_ensures(
            AgentWakeControllerState::admit_wake,
            (state, policy, current, binding, now),
            result,
        ),
        is_new(old(state)@, *policy, current, binding),
        is_open(old(state)@, now),
        old(state)@.active.len() < slots(*policy),
        !(is_past(binding, policy.maximum_lateness_millis, now) && policy.missed_occurrence
            == AgentMissedOccurrencePolicy::Skip),
        !pays(old(state)@, *policy, now),
    ensures
        ({
            let (before, after) = (old(state)@, final(state)@);
            let ceiling = policy.goal_window->Some_0;
            let wake = *binding.spec_wake_id();
            let calls = affords(
                before,
                ceiling,
                policy.epoch_budget,
                now,
                AgentBudgetDimension::ModelCalls,
            );
            &&& runs_on(before, after)
            &&& consumed(before, after, binding)
            &&& waits(before, after, *policy, binding)
            &&& after.window is Some
            &&& forall|dimension: AgentBudgetDimension| #[trigger]
                after.window->Some_0.consumed.spent(dimension) == spent_on(
                    before,
                    ceiling,
                    now,
                    dimension,
                )
            &&& is_full(before, *policy) ==> {
                &&& result->Ok_0 == (AgentWakeDisposition::Skipped { wake })
                &&& after.counters == (AgentWakeCounters {
                    missed: (before.counters.missed + 1) as u64,
                    ..before.counters
                })
            }
            &&& !is_full(before, *policy) ==> {
                &&& result->Ok_0 == (AgentWakeDisposition::Deferred {
                    wake,
                    dimension: if calls {
                        AgentBudgetDimension::Tokens
                    } else {
                        AgentBudgetDimension::ModelCalls
                    },
                })
                &&& after.counters == (AgentWakeCounters {
                    deferred: (before.counters.deferred + 1) as u64,
                    superseded: if displaces(before, *policy) {
                        (before.counters.superseded + 1) as u64
                    } else {
                        before.counters.superseded
                    },
                    ..before.counters
                })
            }
        }),
{
    broadcast use crate::budget::lemma_nothing_spent;

    a_window_pays_for_what_fits(old(state)@, *policy, now);
}

/// An occurrence that finds every slot taken waits behind them, unless it is
/// missed and either skipped by policy or stood for by a running representative:
/// then it is skipped. Either way the goal window is not touched.
pub proof fn an_occurrence_without_a_slot_waits_or_is_absorbed(
    state: &mut AgentWakeControllerState,
    policy: &AgentWakePolicy,
    current: ScheduleRevision,
    binding: AgentWakeBinding,
    now: AgentTimestampMillis,
    result: Result<AgentWakeDisposition, AgentWakeError>,
)
    requires
        call_ensures(
            AgentWakeControllerState::admit_wake,
            (state, policy, current, binding, now),
            result,
        ),
        is_new(old(state)@, *policy, current, binding),
        is_open(old(state)@, now),
        old(state)@.active.len() >= slots(*policy),
    ensures
        ({
            let (before, after) = (old(state)@, final(state)@);
            let wake = *binding.spec_wake_id();
            let missed = is_past(binding, policy.maximum_lateness_millis, now);
            let stood_for = exists|i: int|
                0 <= i < before.active.len() && (#[trigger] before.active[i]).representative;
            let absorbed = missed && (policy.missed_occurrence == AgentMissedOccurrencePolicy::Skip
                || (policy.missed_occurrence == AgentMissedOccurrencePolicy::AdmitOneCoalesced
                && stood_for));
            &&& runs_on(before, after)
            &&& consumed(before, after, binding)
            &&& after.window == before.window
            &&& absorbed ==> after.pending == before.pending
            &&& !absorbed ==> waits(before, after, *policy, binding)
            &&& absorbed || is_full(before, *policy) ==> {
                &&& result->Ok_0 == (AgentWakeDisposition::Skipped { wake })
                &&& after.counters == (AgentWakeCounters {
                    missed: (before.counters.missed + 1) as u64,
                    ..before.counters
                })
            }
            &&& !absorbed && !is_full(before, *policy) ==> {
                &&& result->Ok_0 == (AgentWakeDisposition::Coalesced {
                    wake,
                    replaced: if displaces(before, *policy) {
                        Some(*before.pending[0].spec_wake_id())
                    } else {
                        None
                    },
                })
                &&& after.counters == (AgentWakeCounters {
                    coalesced: (before.counters.coalesced + 1) as u64,
                    superseded: if displaces(before, *policy) {
                        (before.counters.superseded + 1) as u64
                    } else {
                        before.counters.superseded
                    },
                    ..before.counters
                })
            }
        }),
{
}

/// The oldest parked occurrence is promoted exactly when the goal is open, one
/// waits, a slot is free and the goal window pays; the others wait on, in order.
pub proof fn the_oldest_is_promoted_when_there_is_room_and_budget(
    state: &mut AgentWakeControllerState,
    policy: &AgentWakePolicy,
    now: AgentTimestampMillis,
    promoted: Option<AgentWakeId>,
)
    requires
        call_ensures(
            AgentWakeControllerState::promote_admittable,
            (state, policy, now),
            promoted,
        ),
    ensures
        ({
            let (before, after) = (old(state)@, final(state)@);
            let ready = is_open(before, now) && before.pending.len() > 0 && before.active.len()
                < slots(*policy);
            let oldest = before.pending[0];
            &&& promoted is Some <==> ready && pays(before, *policy, now)
            &&& promoted is None ==> runs_on(before, after) && after.pending == before.pending
                && after.recent == before.recent && after.counters == before.counters
                && after.scheduled_watermark == before.scheduled_watermark
            &&& !ready ==> after == before
            &&& promoted is Some ==> {
                &&& promoted == Some(*oldest.spec_wake_id())
                &&& after.pending.len() == before.pending.len() - 1
                &&& forall|i: int|
                    0 <= i < after.pending.len() ==> #[trigger] after.pending[i]
                        == before.pending[i + 1]
                &&& admitted_into(
                    before,
                    after,
                    oldest,
                    policy.missed_occurrence == AgentMissedOccurrencePolicy::AdmitOneCoalesced
                        && is_past(oldest, policy.maximum_lateness_millis, now),
                    now,
                )
                &&& consumed(before, after, oldest)
                &&& policy.goal_window is None ==> after.window == before.window
            }
        }),
{
    let (before, after) = (old(state)@, final(state)@);
    a_window_pays_for_what_fits(before, *policy, now);
    if promoted is Some {
        assert(after.active.drop_last() =~= before.active);
    }
}

/// A release takes its own occurrence out of its slot, hands back the epoch it
/// ran, counts, and then promotes as a promotion of what is left would; a wake
/// that does not run is refused without a change.
pub proof fn a_release_frees_its_slot_and_promotes(
    state: &mut AgentWakeControllerState,
    policy: &AgentWakePolicy,
    wake: &AgentWakeId,
    now: AgentTimestampMillis,
    result: Result<AgentWakeRelease, AgentWakeError>,
    freed: &mut AgentWakeControllerState,
    promoted: Option<AgentWakeId>,
    position: int,
)
    requires
        call_ensures(AgentWakeControllerState::release, (state, policy, wake, now), result),
        call_ensures(
            AgentWakeControllerState::promote_admittable,
            (freed, policy, now),
            promoted,
        ),
        0 <= position < old(state)@.active.len(),
        old(state)@.active[position].binding.spec_wake_id()@ == wake@,
        forall|i: int|
            0 <= i < position ==> (#[trigger] old(state)@.active[i]).binding.spec_wake_id()@
                != wake@,
        old(freed)@ == (WakeModel {
            active: old(state)@.active.remove(position),
            counters: AgentWakeCounters {
                released: (old(state)@.counters.released + 1) as u64,
                ..old(state)@.counters
            },
            ..old(state)@
        }),
    ensures
        result is Ok,
        result->Ok_0.released == *wake,
        result->Ok_0.epoch == old(state)@.active[position].epoch,
        result->Ok_0.admitted_next == promoted,
        final(state)@ == final(freed)@,
{
    lemma_first_active(old(state)@.active, wake@, position, 0);
}

/// A wake that does not run is released by nobody.
pub proof fn only_what_runs_is_released(
    state: &mut AgentWakeControllerState,
    policy: &AgentWakePolicy,
    wake: &AgentWakeId,
    now: AgentTimestampMillis,
    result: Result<AgentWakeRelease, AgentWakeError>,
)
    requires
        call_ensures(AgentWakeControllerState::release, (state, policy, wake, now), result),
        forall|i: int|
            0 <= i < old(state)@.active.len() ==> (
            #[trigger] old(state)@.active[i]).binding.spec_wake_id()@ != wake@,
    ensures
        result == Err::<AgentWakeRelease, _>(AgentWakeError::NotActive { wake: *wake }),
        final(state)@ == old(state)@,
{
}

proof fn lemma_first_active(
    active: Seq<crate::wake_state::AgentActiveWake>,
    wake: Seq<char>,
    position: int,
    from: nat,
)
    requires
        from <= position < active.len(),
        active[position].binding.spec_wake_id()@ == wake,
        forall|i: int|
            from <= i < position ==> (#[trigger] active[i]).binding.spec_wake_id()@ != wake,
    ensures
        crate::wake_controller::active_position(active, wake, from) == position,
    decreases position - from,
{
    if from < position {
        lemma_first_active(active, wake, position, from + 1);
    }
}

/// An epoch is attached to the occurrence that runs under its wake, and to no
/// other.
pub proof fn an_epoch_is_attached_to_its_own_occurrence(
    state: &mut AgentWakeControllerState,
    wake: &AgentWakeId,
    epoch: crate::wake_state::AgentEpochRef,
    result: Result<(), AgentWakeError>,
    position: int,
)
    requires
        call_ensures(AgentWakeControllerState::attach_epoch, (state, wake, epoch), result),
        0 <= position < old(state)@.active.len(),
        old(state)@.active[position].binding.spec_wake_id()@ == wake@,
        forall|i: int|
            0 <= i < position ==> (#[trigger] old(state)@.active[i]).binding.spec_wake_id()@
                != wake@,
    ensures
        ({
            let (before, after) = (old(state)@, final(state)@);
            &&& result is Ok
            &&& after.active.len() == before.active.len()
            &&& after.active[position].epoch == Some(epoch)
            &&& after.active[position].binding == before.active[position].binding
            &&& after.active[position].admitted_at == before.active[position].admitted_at
            &&& after.active[position].representative == before.active[position].representative
            &&& forall|i: int|
                0 <= i < after.active.len() && i != position ==> #[trigger] after.active[i]
                    == before.active[i]
            &&& after.pending == before.pending
            &&& after.recent == before.recent
            &&& after.counters == before.counters
            &&& after.lifecycle == before.lifecycle
            &&& after.window == before.window
            &&& after.scheduled_watermark == before.scheduled_watermark
            &&& after.last_admitted == before.last_admitted
        }),
{
    lemma_first_active(old(state)@.active, wake@, position, 0);
}

/// A charge takes an epoch's bounds out of the window that holds `now`, on every
/// dimension the window bounds, exactly when all of them fit; a refused one costs
/// nothing. A window that has turned starts from nothing.
pub proof fn a_charge_is_all_or_nothing(
    state: &mut AgentWakeControllerState,
    ceiling: &AgentGoalWindowCeiling,
    epoch: &AgentBudgetAllocation,
    now: AgentTimestampMillis,
    result: Result<(), AgentBudgetDimension>,
    dimension: AgentBudgetDimension,
)
    requires
        call_ensures(
            AgentWakeControllerState::charge_goal_window,
            (state, ceiling, epoch, now),
            result,
        ),
    ensures
        ({
            let (before, after) = (old(state)@, final(state)@);
            let calls = affords(before, *ceiling, *epoch, now, AgentBudgetDimension::ModelCalls);
            let tokens = affords(before, *ceiling, *epoch, now, AgentBudgetDimension::Tokens);
            let spent = spent_on(before, *ceiling, now, dimension);
            let left = after.window->Some_0.consumed.spent(dimension) as int;
            let bound = ceiling.ceiling.limit(dimension) is Some;
            &&& result is Ok <==> calls && tokens
            &&& !calls ==> result == Err::<(), _>(AgentBudgetDimension::ModelCalls)
            &&& calls && !tokens ==> result == Err::<(), _>(AgentBudgetDimension::Tokens)
            &&& after.window is Some
            &&& after.window->Some_0.window_start == before.current_start(*ceiling, now)
            &&& result is Err ==> left == spent
            &&& result is Ok && !bound ==> left == spent
            &&& result is Ok && bound && spent + epoch.limit(dimension)->Some_0 <= u64::MAX
                ==> left == spent + epoch.limit(dimension)->Some_0
            &&& runs_on(before, after)
            &&& after.pending == before.pending
            &&& after.counters == before.counters
            &&& after.recent == before.recent
        }),
{
    reveal_with_fuel(first_refused_from, 4);
    reveal_with_fuel(crate::budget::charged_from, 4);
    broadcast use crate::budget::lemma_nothing_spent, crate::budget::lemma_adding;

}

/// A rolling window starts with its first charge, holds its whole length, and then
/// moves on by whole lengths to the one that holds `now`; time running backwards
/// never moves it.
pub proof fn a_rolling_window_moves_by_whole_lengths(
    model: WakeModel,
    ceiling: AgentGoalWindowCeiling,
    length: u64,
    now: AgentTimestampMillis,
)
    requires
        ceiling.window == (crate::calendar::AgentBudgetWindow::Rolling { length_millis: length }),
        length > 0,
    ensures
        ({
            let start = model.current_start(ceiling, now).millis as int;
            let ledger = model.window->Some_0.window_start.millis as int;
            &&& model.window is None ==> start == now.millis
            &&& model.window is Some && now.millis < ledger + length ==> start == ledger
            &&& model.window is Some && now.millis >= ledger ==> start <= now.millis < start
                + length && (start - ledger) % (length as int) == 0
        }),
{
    if model.window is Some {
        let ledger = model.window->Some_0.window_start;
        let elapsed = crate::calendar::elapsed_millis(ledger, now);
        let whole = length as int;
        vstd::arithmetic::div_mod::lemma_fundamental_div_mod(elapsed, whole);
        vstd::arithmetic::div_mod::lemma_mod_bound(elapsed, whole);
        vstd::arithmetic::div_mod::lemma_div_pos_is_pos(elapsed, whole);
        let turns = elapsed / whole;
        assert(turns * whole == whole * turns) by (nonlinear_arith);
        vstd::arithmetic::div_mod::lemma_mod_multiples_basic(turns, whole);
        assert(turns * whole >= 0) by (nonlinear_arith)
            requires
                turns >= 0,
                whole > 0,
        ;
        if elapsed < whole {
            vstd::arithmetic::div_mod::lemma_basic_div(elapsed, whole);
            assert(turns * whole == 0) by (nonlinear_arith)
                requires
                    turns == 0,
            ;
        }
    }
}

} // verus!
