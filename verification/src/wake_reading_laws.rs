//! What reading, storing and describing a wake controller promises, what the steps
//! of building a policy do, and what a scan starts from.

use vstd::prelude::*;

use crate::budget::{AgentBudgetAllocation, AgentBudgetConsumption, AgentBudgetDimension};
use crate::calendar::advance_window_start;
use crate::identity::{AgentTimestampMillis, AgentWakeId};
use crate::text::{byte_len, truncate_text};
use crate::wake::{AgentWakeBinding, AgentWakeTriggerKind, ScheduleRevision};
use crate::wake_admission_laws::{affords, has_met, is_past};
use crate::wake_controller::{
    attached_epochs, bounded_reason, AgentWakeControllerRecord, AgentWakeControllerState,
};
use crate::wake_error::AgentWakeError;
use crate::wake_policy::{
    AgentGoalLifecycleStatus, AgentGoalWindowCeiling, AgentWakeBackoffPolicy,
    AgentWakeLifecyclePolicy, AgentWakePolicy, AgentWakeTriggerSet,
};
use crate::wake_scanner::{
    check_local_owner, wake_admission_command, AgentExchangeDeliveryError, AgentTaskEntityCommand,
    AgentWakeScanOutcome, AgentWakeScanPass, AgentWakeScannerSettings, AgentWakeTimerEntry,
};
use crate::wake_state::{
    merge_rewake_slot, AgentEpochRef, AgentGoalLifecycleState, AgentWakeDisposition,
    AgentWakeRewake, AgentWakeRewakes, AgentWakeStatusView,
};
use crate::window_laws::has_room_in;

verus! {

/// A new controller runs nothing, waits for nothing, has met nothing and counted
/// nothing, and its goal is active at the first revision.
pub proof fn a_new_controller_is_empty(state: AgentWakeControllerState)
    requires
        call_ensures(AgentWakeControllerState::new, (), state),
    ensures
        state@.active.len() == 0,
        state@.pending.len() == 0,
        state@.recent.len() == 0,
        state@.scheduled_watermark is None,
        state@.last_admitted is None,
        state@.last_admitted_at is None,
        state@.window is None,
        state@.counters.admitted == 0 && state@.counters.coalesced == 0,
        state@.counters.superseded == 0 && state@.counters.missed == 0,
        state@.counters.fenced == 0 && state@.counters.released == 0,
        state@.counters.deferred == 0 && state@.counters.backed_off == 0,
        state@.counters.suspended == 0 && state@.counters.dropped == 0,
        state@.counters.barred == 0 && state@.counters.retried == 0,
        state@.lifecycle.status is Active,
        state@.lifecycle.lifecycle_revision.number == 1,
        state@.lifecycle.changed_by is None,
        state@.lifecycle.suspended_reason is None,
        state@.lifecycle.expires_at_override is None,
        state@.lifecycle.consecutive_failures == 0,
        state@.lifecycle.backoff_until is None,
        state@.lifecycle.rewakes.backoff is None,
        state@.lifecycle.rewakes.window_turn is None,
{
}

/// A stored controller comes back as it was, exactly when its lists are within
/// their bounds: eight that run, eight that wait, sixteen that are recent.
pub proof fn a_stored_controller_comes_back(
    state: AgentWakeControllerState,
    record: AgentWakeControllerRecord,
    result: Result<AgentWakeControllerState, AgentWakeError>,
)
    requires
        call_ensures(AgentWakeControllerState::into_record, (state,), record),
        call_ensures(AgentWakeControllerState::restore, (record,), result),
    ensures
        result is Ok <==> state@.active.len() <= 8 && state@.pending.len() <= 8
            && state@.recent.len() <= 16,
        result is Ok ==> result->Ok_0@ == state@,
        result is Err ==> result->Err_0 is StateOutOfBounds,
{
}

/// A record's lists, marks and counters are those of the restored controller.
pub proof fn a_record_holds_what_the_controller_holds(
    record: AgentWakeControllerRecord,
    result: Result<AgentWakeControllerState, AgentWakeError>,
)
    requires
        call_ensures(AgentWakeControllerState::restore, (record,), result),
        result is Ok,
    ensures
        ({
            let model = result->Ok_0@;
            &&& model.active == record.active@
            &&& model.pending == record.pending@
            &&& model.recent == record.recent@
            &&& model.scheduled_watermark == record.scheduled_watermark
            &&& model.last_admitted == record.last_admitted
            &&& model.last_admitted_at == record.last_admitted_at
            &&& model.counters == record.counters
            &&& model.window == record.window
            &&& model.lifecycle == record.lifecycle@
        }),
{
}

/// A controller is valid exactly when its lists are within their bounds, and says
/// which one is not.
pub proof fn a_controller_is_valid_within_its_bounds(
    state: &AgentWakeControllerState,
    result: Result<(), AgentWakeError>,
)
    requires
        call_ensures(AgentWakeControllerState::validate, (state,), result),
    ensures
        result is Ok <==> state@.active.len() <= 8 && state@.pending.len() <= 8
            && state@.recent.len() <= 16,
        state@.active.len() > 8 ==> result->Err_0 == (AgentWakeError::StateOutOfBounds {
            detail: "active occurrences",
        }),
        state@.active.len() <= 8 && state@.pending.len() > 8 ==> result->Err_0 == (
        AgentWakeError::StateOutOfBounds { detail: "parked occurrences" }),
        state@.active.len() <= 8 && state@.pending.len() <= 8 && state@.recent.len() > 16
            ==> result->Err_0 == (AgentWakeError::StateOutOfBounds {
            detail: "recent wake identities",
        }),
{
}

/// A controller contains a wake exactly when it has met it.
pub proof fn a_controller_contains_what_it_has_met(
    state: &AgentWakeControllerState,
    wake: &AgentWakeId,
    result: bool,
)
    requires
        call_ensures(AgentWakeControllerState::contains, (state, wake), result),
    ensures
        result <==> has_met(state@, wake@),
{
}

/// A goal window can pay exactly when both of its dimensions afford the epoch.
pub proof fn a_window_can_pay_for_what_it_affords(
    state: &AgentWakeControllerState,
    ceiling: &AgentGoalWindowCeiling,
    epoch: &AgentBudgetAllocation,
    now: AgentTimestampMillis,
    result: bool,
)
    requires
        call_ensures(
            AgentWakeControllerState::window_can_pay,
            (state, ceiling, epoch, now),
            result,
        ),
    ensures
        result <==> {
            &&& affords(
                state@,
                *ceiling,
                *epoch,
                now,
                AgentBudgetDimension::ModelCalls,
            )
            &&& affords(state@, *ceiling, *epoch, now, AgentBudgetDimension::Tokens)
        },
{
    broadcast use crate::budget::lemma_nothing_spent;

    reveal_with_fuel(crate::budget::first_refused_from, 4);
}

/// A goal window counts what was spent since the present window started, and
/// nothing of an earlier one.
pub proof fn a_window_counts_its_own_spending(
    state: &AgentWakeControllerState,
    ceiling: &AgentGoalWindowCeiling,
    epoch: &AgentBudgetAllocation,
    now: AgentTimestampMillis,
    start: AgentTimestampMillis,
    spent: &AgentBudgetConsumption,
    result: bool,
)
    requires
        call_ensures(
            AgentWakeControllerState::window_can_pay,
            (state, ceiling, epoch, now),
            result,
        ),
        state@.window is Some,
        call_ensures(
            advance_window_start,
            (&ceiling.window, state@.window->Some_0.window_start, now),
            start,
        ),
        state@.window->Some_0.window_start == start ==> *spent == state@.window->Some_0.consumed,
        state@.window->Some_0.window_start != start ==> forall|dimension: AgentBudgetDimension|
            #[trigger] spent.spent(dimension) == 0,
    ensures
        result <==> {
            &&& has_room_in(&ceiling.ceiling, epoch, spent, AgentBudgetDimension::ModelCalls)
            &&& has_room_in(&ceiling.ceiling, epoch, spent, AgentBudgetDimension::Tokens)
        },
{
    broadcast use crate::budget::lemma_nothing_spent;

    reveal_with_fuel(crate::budget::first_refused_from, 4);
}

/// A goal window that never paid pays out of nothing spent.
pub proof fn a_new_window_has_spent_nothing(
    state: &AgentWakeControllerState,
    ceiling: &AgentGoalWindowCeiling,
    epoch: &AgentBudgetAllocation,
    now: AgentTimestampMillis,
    spent: AgentBudgetConsumption,
    result: bool,
)
    requires
        call_ensures(
            AgentWakeControllerState::window_can_pay,
            (state, ceiling, epoch, now),
            result,
        ),
        state@.window is None,
        call_ensures(AgentBudgetConsumption::zero, (), spent),
    ensures
        result <==> {
            &&& has_room_in(&ceiling.ceiling, epoch, &spent, AgentBudgetDimension::ModelCalls)
            &&& has_room_in(&ceiling.ceiling, epoch, &spent, AgentBudgetDimension::Tokens)
        },
{
    broadcast use crate::budget::lemma_nothing_spent;

    reveal_with_fuel(crate::budget::first_refused_from, 4);
}

/// An occurrence is past the maximum lateness when it is later than the policy
/// bears; without a bound nothing is.
pub proof fn lateness_is_measured_from_the_due_time(
    policy: &AgentWakePolicy,
    binding: &AgentWakeBinding,
    now: AgentTimestampMillis,
    result: bool,
)
    requires
        call_ensures(
            AgentWakeControllerState::past_maximum_lateness,
            (policy, binding, now),
            result,
        ),
    ensures
        result <==> is_past(*binding, policy.maximum_lateness_millis, now),
{
}

/// A status view shows the wakes that run and wait, in order, and everything else
/// as the controller holds it.
pub proof fn a_status_shows_what_runs_and_waits(
    state: &AgentWakeControllerState,
    schedule: ScheduleRevision,
    policy: crate::identity::AgentRevisionNumber,
    view: AgentWakeStatusView,
)
    requires
        call_ensures(AgentWakeControllerState::status_view, (state, schedule, policy), view),
    ensures
        view.schedule_revision == schedule,
        view.policy_revision == policy,
        view.active@.len() == state@.active.len(),
        forall|i: int|
            0 <= i < view.active@.len() ==> #[trigger] view.active@[i]
                == *state@.active[i].binding.spec_wake_id(),
        view.pending@.len() == state@.pending.len(),
        forall|i: int|
            0 <= i < view.pending@.len() ==> #[trigger] view.pending@[i]
                == *state@.pending[i].spec_wake_id(),
        forall|epoch: AgentEpochRef|
            view.epochs@.contains(epoch) <==> exists|i: int|
                0 <= i < state@.active.len() && (#[trigger] state@.active[i]).epoch == Some(epoch),
        view.last_admitted == state@.last_admitted,
        view.last_admitted_at == state@.last_admitted_at,
        view.counters == state@.counters,
        view.window == state@.window,
        view.lifecycle is Some,
        view.lifecycle->Some_0@ == state@.lifecycle,
{
    assert forall|epoch: AgentEpochRef|
        view.epochs@.contains(epoch) <==> exists|i: int|
            0 <= i < state@.active.len() && (#[trigger] state@.active[i]).epoch == Some(epoch) by {
        lemma_attached(state@.active, epoch);
    }
}

proof fn lemma_attached(active: Seq<crate::wake_state::AgentActiveWake>, epoch: AgentEpochRef)
    ensures
        attached_epochs(active).contains(epoch) <==> exists|i: int|
            0 <= i < active.len() && (#[trigger] active[i]).epoch == Some(epoch),
    decreases active.len(),
{
    if active.len() > 0 {
        let front = active.drop_last();
        lemma_attached(front, epoch);
        let (all, fewer) = (attached_epochs(active), attached_epochs(front));
        if fewer.contains(epoch) {
            let i = choose|i: int| 0 <= i < front.len() && (#[trigger] front[i]).epoch == Some(epoch);
            assert(active[i].epoch == Some(epoch));
            let k = choose|k: int| 0 <= k < fewer.len() && fewer[k] == epoch;
            assert(all[k] == epoch);
        }
        if active.last().epoch == Some(epoch) {
            assert(all.last() == epoch);
            assert(active[active.len() - 1].epoch == Some(epoch));
        }
        if exists|i: int| 0 <= i < active.len() && (#[trigger] active[i]).epoch == Some(epoch) {
            let i = choose|i: int|
                0 <= i < active.len() && (#[trigger] active[i]).epoch == Some(epoch);
            if i < front.len() {
                assert(front[i].epoch == Some(epoch));
            }
        }
        if all.contains(epoch) && !fewer.contains(epoch) {
            let k = choose|k: int| 0 <= k < all.len() && all[k] == epoch;
            if k < fewer.len() {
                assert(fewer[k] == epoch);
            }
        }
    }
}

/// A truncated text is the longest start of the text that fits the bound in bytes.
pub proof fn a_truncated_text_is_the_longest_that_fits(text: String, limit: usize, kept: String)
    requires
        call_ensures(truncate_text, (text, limit), kept),
    ensures
        byte_len(kept@) <= limit,
        kept@.len() <= text@.len(),
        kept@ == text@.subrange(0, kept@.len() as int),
        kept@.len() < text@.len() ==> byte_len(text@.subrange(0, kept@.len() as int + 1)) > limit,
{
    crate::text::lemma_bounded_text_fits(text@, limit as nat);
    crate::team_command_laws::lemma_nothing_longer_fits(text@, limit as nat);
}

/// A suspension reason keeps what fits in two hundred and fifty-six bytes.
pub proof fn a_reason_keeps_what_fits(reason: String, kept: String)
    requires
        call_ensures(bounded_reason, (reason,), kept),
    ensures
        byte_len(kept@) <= 256,
        kept@.len() <= reason@.len(),
        kept@ == reason@.subrange(0, kept@.len() as int),
        kept@.len() < reason@.len() ==> byte_len(reason@.subrange(0, kept@.len() as int + 1)) > 256,
{
    crate::text::lemma_bounded_text_fits(reason@, 256);
    crate::team_command_laws::lemma_nothing_longer_fits(reason@, 256);
}

/// Everything of a policy but the parts that its building steps set.
pub open spec fn same_base(a: AgentWakePolicy, b: AgentWakePolicy) -> bool {
    &&& a.triggers == b.triggers
    &&& a.epoch_budget == b.epoch_budget
    &&& a.epoch_deadline_millis == b.epoch_deadline_millis
}

/// A policy built a step further is the policy with that step's part set, exactly
/// when the whole is accepted; otherwise it is refused as the whole is.
pub proof fn a_step_sets_the_lateness(
    policy: AgentWakePolicy,
    millis: u64,
    whole: &AgentWakePolicy,
    verdict: Result<(), AgentWakeError>,
    result: Result<AgentWakePolicy, AgentWakeError>,
)
    requires
        call_ensures(AgentWakePolicy::with_maximum_lateness, (policy, millis), result),
        call_ensures(AgentWakePolicy::validate, (whole,), verdict),
        *whole == (AgentWakePolicy { maximum_lateness_millis: Some(millis), ..policy }),
    ensures
        result is Ok <==> verdict is Ok,
        result is Err ==> result->Err_0 == verdict->Err_0,
        result is Ok ==> {
            let built = result->Ok_0;
            &&& same_base(built, policy)
            &&& built.maximum_lateness_millis == Some(millis)
            &&& built.admission_window_millis == policy.admission_window_millis
            &&& built.overlap == policy.overlap
            &&& built.missed_occurrence == policy.missed_occurrence
            &&& built.goal_window == policy.goal_window
            &&& built.failure_backoff == policy.failure_backoff
            &&& built.lifecycle == policy.lifecycle
        },
{
}

/// The admission window's step sets the admission window alone.
pub proof fn a_step_sets_the_admission_window(
    policy: AgentWakePolicy,
    millis: u64,
    whole: &AgentWakePolicy,
    verdict: Result<(), AgentWakeError>,
    result: Result<AgentWakePolicy, AgentWakeError>,
)
    requires
        call_ensures(AgentWakePolicy::with_admission_window, (policy, millis), result),
        call_ensures(AgentWakePolicy::validate, (whole,), verdict),
        *whole == (AgentWakePolicy { admission_window_millis: Some(millis), ..policy }),
    ensures
        result is Ok <==> verdict is Ok,
        result is Err ==> result->Err_0 == verdict->Err_0,
        result is Ok ==> {
            let built = result->Ok_0;
            &&& same_base(built, policy)
            &&& built.maximum_lateness_millis == policy.maximum_lateness_millis
            &&& built.admission_window_millis == Some(millis)
            &&& built.overlap == policy.overlap
            &&& built.missed_occurrence == policy.missed_occurrence
            &&& built.goal_window == policy.goal_window
            &&& built.failure_backoff == policy.failure_backoff
            &&& built.lifecycle == policy.lifecycle
        },
{
}

/// The overlap's step allows so many epochs side by side, under the named policy.
pub proof fn a_step_sets_the_parallel_epochs(
    policy: AgentWakePolicy,
    epochs: u32,
    named: crate::identity::AgentPolicyRef,
    whole: &AgentWakePolicy,
    verdict: Result<(), AgentWakeError>,
    result: Result<AgentWakePolicy, AgentWakeError>,
)
    requires
        call_ensures(AgentWakePolicy::with_parallel_epochs, (policy, epochs, named), result),
        call_ensures(AgentWakePolicy::validate, (whole,), verdict),
        *whole == (AgentWakePolicy {
            overlap: crate::wake_policy::AgentWakeOverlapPolicy::Parallel {
                max_concurrent_epochs: epochs,
                result_policy: named,
            },
            ..policy
        }),
    ensures
        result is Ok <==> verdict is Ok,
        result is Err ==> result->Err_0 == verdict->Err_0,
        result is Ok ==> {
            let built = result->Ok_0;
            &&& same_base(built, policy)
            &&& built.maximum_lateness_millis == policy.maximum_lateness_millis
            &&& built.admission_window_millis == policy.admission_window_millis
            &&& built.overlap is Parallel
            &&& built.overlap->max_concurrent_epochs == epochs
            &&& built.overlap->result_policy == named
            &&& built.missed_occurrence == policy.missed_occurrence
            &&& built.goal_window == policy.goal_window
            &&& built.failure_backoff == policy.failure_backoff
            &&& built.lifecycle == policy.lifecycle
        },
{
}

/// The catch-up's step bounds how many missed occurrences are caught up with.
pub proof fn a_step_sets_the_catch_up(
    policy: AgentWakePolicy,
    most: u32,
    whole: &AgentWakePolicy,
    verdict: Result<(), AgentWakeError>,
    result: Result<AgentWakePolicy, AgentWakeError>,
)
    requires
        call_ensures(AgentWakePolicy::with_bounded_catch_up, (policy, most), result),
        call_ensures(AgentWakePolicy::validate, (whole,), verdict),
        *whole == (AgentWakePolicy {
            missed_occurrence: crate::wake_policy::AgentMissedOccurrencePolicy::BoundedCatchUp {
                max_occurrences: most,
            },
            ..policy
        }),
    ensures
        result is Ok <==> verdict is Ok,
        result is Err ==> result->Err_0 == verdict->Err_0,
        result is Ok ==> {
            let built = result->Ok_0;
            &&& same_base(built, policy)
            &&& built.maximum_lateness_millis == policy.maximum_lateness_millis
            &&& built.admission_window_millis == policy.admission_window_millis
            &&& built.overlap == policy.overlap
            &&& built.missed_occurrence is BoundedCatchUp
            &&& built.missed_occurrence->max_occurrences == most
            &&& built.goal_window == policy.goal_window
            &&& built.failure_backoff == policy.failure_backoff
            &&& built.lifecycle == policy.lifecycle
        },
{
}

/// The goal window's step sets the goal window alone.
pub proof fn a_step_sets_the_goal_window(
    policy: AgentWakePolicy,
    window: AgentGoalWindowCeiling,
    whole: &AgentWakePolicy,
    verdict: Result<(), AgentWakeError>,
    result: Result<AgentWakePolicy, AgentWakeError>,
)
    requires
        call_ensures(AgentWakePolicy::with_goal_window, (policy, window), result),
        call_ensures(AgentWakePolicy::validate, (whole,), verdict),
        *whole == (AgentWakePolicy { goal_window: Some(window), ..policy }),
    ensures
        result is Ok <==> verdict is Ok,
        result is Err ==> result->Err_0 == verdict->Err_0,
        result is Ok ==> {
            let built = result->Ok_0;
            &&& same_base(built, policy)
            &&& built.maximum_lateness_millis == policy.maximum_lateness_millis
            &&& built.admission_window_millis == policy.admission_window_millis
            &&& built.overlap == policy.overlap
            &&& built.missed_occurrence == policy.missed_occurrence
            &&& built.goal_window == Some(window)
            &&& built.failure_backoff == policy.failure_backoff
            &&& built.lifecycle == policy.lifecycle
        },
{
}

/// The steps of the backoff and of the lifecycle set those parts alone.
pub proof fn a_step_sets_the_backoff(
    policy: AgentWakePolicy,
    backoff: AgentWakeBackoffPolicy,
    whole: &AgentWakePolicy,
    verdict: Result<(), AgentWakeError>,
    result: Result<AgentWakePolicy, AgentWakeError>,
)
    requires
        call_ensures(AgentWakePolicy::with_failure_backoff, (policy, backoff), result),
        call_ensures(AgentWakePolicy::validate, (whole,), verdict),
        *whole == (AgentWakePolicy { failure_backoff: backoff, ..policy }),
    ensures
        result is Ok <==> verdict is Ok,
        result is Err ==> result->Err_0 == verdict->Err_0,
        result is Ok ==> {
            let built = result->Ok_0;
            &&& same_base(built, policy)
            &&& built.maximum_lateness_millis == policy.maximum_lateness_millis
            &&& built.admission_window_millis == policy.admission_window_millis
            &&& built.overlap == policy.overlap
            &&& built.missed_occurrence == policy.missed_occurrence
            &&& built.goal_window == policy.goal_window
            &&& built.failure_backoff == backoff
            &&& built.lifecycle == policy.lifecycle
        },
{
}

/// The lifecycle's step sets the lifecycle alone.
pub proof fn a_step_sets_the_lifecycle(
    policy: AgentWakePolicy,
    lifecycle: AgentWakeLifecyclePolicy,
    whole: &AgentWakePolicy,
    verdict: Result<(), AgentWakeError>,
    result: Result<AgentWakePolicy, AgentWakeError>,
)
    requires
        call_ensures(AgentWakePolicy::with_lifecycle, (policy, lifecycle), result),
        call_ensures(AgentWakePolicy::validate, (whole,), verdict),
        *whole == (AgentWakePolicy { lifecycle, ..policy }),
    ensures
        result is Ok <==> verdict is Ok,
        result is Err ==> result->Err_0 == verdict->Err_0,
        result is Ok ==> {
            let built = result->Ok_0;
            &&& same_base(built, policy)
            &&& built.maximum_lateness_millis == policy.maximum_lateness_millis
            &&& built.admission_window_millis == policy.admission_window_millis
            &&& built.overlap == policy.overlap
            &&& built.missed_occurrence == policy.missed_occurrence
            &&& built.goal_window == policy.goal_window
            &&& built.failure_backoff == policy.failure_backoff
            &&& built.lifecycle == lifecycle
        },
{
}

/// A policy allows the kinds of trigger that its set was made of.
pub proof fn a_policy_allows_the_triggers_it_lists(
    kinds: &[AgentWakeTriggerKind],
    set: AgentWakeTriggerSet,
    policy: &AgentWakePolicy,
    kind: AgentWakeTriggerKind,
    result: bool,
)
    requires
        call_ensures(AgentWakeTriggerSet::of, (kinds,), set),
        policy.triggers == set,
        call_ensures(AgentWakePolicy::allows_trigger, (policy, kind), result),
    ensures
        result <==> kinds@.contains(kind),
{
}

/// Only an active goal takes admissions, and only an expired or a retired one is
/// over.
pub proof fn a_status_takes_admissions_or_is_over(
    status: AgentGoalLifecycleStatus,
    permits: bool,
    over: bool,
)
    requires
        call_ensures(AgentGoalLifecycleStatus::permits_admission, (status,), permits),
        call_ensures(AgentGoalLifecycleStatus::is_terminal, (status,), over),
    ensures
        permits <==> status is Active,
        over <==> status is Expired || status is Retired,
{
}

/// Only the two admissions admit; every answer is about its own wake.
pub proof fn an_answer_is_about_its_wake(
    disposition: &AgentWakeDisposition,
    wake: &AgentWakeId,
    admission: bool,
)
    requires
        call_ensures(AgentWakeDisposition::wake_id, (disposition,), wake),
        call_ensures(AgentWakeDisposition::is_admission, (disposition,), admission),
    ensures
        admission <==> disposition is Admitted || disposition is AdmittedCoalesced,
        match disposition {
            AgentWakeDisposition::Admitted { wake: own } => *wake == *own,
            AgentWakeDisposition::AdmittedCoalesced { wake: own } => *wake == *own,
            AgentWakeDisposition::Coalesced { wake: own, .. } => *wake == *own,
            AgentWakeDisposition::Skipped { wake: own } => *wake == *own,
            AgentWakeDisposition::Deferred { wake: own, .. } => *wake == *own,
            AgentWakeDisposition::BackedOff { wake: own, .. } => *wake == *own,
            AgentWakeDisposition::SuspendedParked { wake: own } => *wake == *own,
            AgentWakeDisposition::Dropped { wake: own } => *wake == *own,
            AgentWakeDisposition::Barred { wake: own, .. } => *wake == *own,
            AgentWakeDisposition::Retried { wake: own } => *wake == *own,
            AgentWakeDisposition::Fenced { wake: own, .. } => *wake == *own,
            AgentWakeDisposition::Duplicate { wake: own } => *wake == *own,
        },
{
}

/// A re-wake slot that is due when it should be stays as it is; one that should be
/// due at another time starts anew, unparked, and one that should not be is gone.
pub proof fn a_rewake_slot_moves_to_its_due_time(
    slot: Option<AgentWakeRewake>,
    desired: Option<AgentTimestampMillis>,
    merged: Option<AgentWakeRewake>,
)
    requires
        call_ensures(merge_rewake_slot, (slot, desired), merged),
    ensures
        merged is Some <==> desired is Some,
        merged is Some ==> merged->Some_0.due_at == desired->Some_0,
        merged is Some && slot is Some && slot->Some_0.due_at == desired->Some_0 ==> merged == slot,
        merged is Some && !(slot is Some && slot->Some_0.due_at == desired->Some_0)
            ==> !merged->Some_0.parked && merged->Some_0.attempt == 0,
{
}

/// Parking is owed exactly where a slot waits without its timer.
pub proof fn parking_is_owed_for_a_slot_without_a_timer(rewakes: &AgentWakeRewakes, owed: bool)
    requires
        call_ensures(AgentWakeRewakes::owes_parking, (rewakes,), owed),
    ensures
        !owed <==> {
            &&& rewakes.backoff is Some ==> rewakes.backoff->Some_0.parked
            &&& rewakes.window_turn is Some ==> rewakes.window_turn->Some_0.parked
        },
{
}

/// A renewal's expiry stands before the policy's own.
pub proof fn a_renewed_expiry_stands(
    state: &AgentGoalLifecycleState,
    policy: &AgentWakeLifecyclePolicy,
    expiry: Option<AgentTimestampMillis>,
)
    requires
        call_ensures(AgentGoalLifecycleState::effective_expires_at, (state, policy), expiry),
    ensures
        state@.expires_at_override is Some ==> expiry == state@.expires_at_override,
        state@.expires_at_override is None ==> expiry == policy.expires_at,
{
}

/// A failed and a rejected delivery block what comes after them; what was answered
/// or held back blocks nothing.
pub proof fn what_was_not_answered_blocks(outcome: &AgentWakeScanOutcome, blocking: bool)
    requires
        call_ensures(AgentWakeScanOutcome::is_blocking, (outcome,), blocking),
    ensures
        outcome is Failed || outcome is Rejected ==> blocking,
        outcome is Dispositioned || outcome is HeldBack ==> !blocking,
{
}

/// Two parked wakes share a task when they are of one tenant and name one task.
pub proof fn a_task_is_of_its_tenant(
    a: &AgentWakeTimerEntry,
    b: &AgentWakeTimerEntry,
    shared: bool,
)
    requires
        call_ensures(AgentWakeTimerEntry::same_task, (a, b), shared),
    ensures
        shared <==> a.task@ == b.task@ && a.binding.spec_tenant()@ == b.binding.spec_tenant()@,
{
}

/// A batch holds one entry at least, and otherwise what it was set to.
pub proof fn a_batch_holds_one_at_least(asked: usize, settings: AgentWakeScannerSettings, size: usize)
    requires
        call_ensures(AgentWakeScannerSettings::new, (asked,), settings),
        call_ensures(AgentWakeScannerSettings::max_batch_size, (settings,), size),
    ensures
        asked > 0 ==> size == asked,
        asked == 0 ==> size == 1,
{
}

/// A pass starts with nothing concluded, over the entries it was given.
pub proof fn a_pass_starts_with_nothing_concluded(
    scanned_at: AgentTimestampMillis,
    due_count: usize,
    entries: Vec<AgentWakeTimerEntry>,
    settings: AgentWakeScannerSettings,
    pass: AgentWakeScanPass,
)
    requires
        call_ensures(
            AgentWakeScanPass::begin,
            (scanned_at, due_count, entries, settings),
            pass,
        ),
    ensures
        pass@.entries == entries@,
        pass@.outcomes.len() == 0,
        pass@.scanned_at == scanned_at,
        pass@.due_count == due_count,
        pass@.settings == settings,
{
}

/// Only the node that owns a task delivers to it.
pub proof fn only_the_owner_delivers(
    task: &str,
    owner: &str,
    is_local: bool,
    result: Result<(), AgentExchangeDeliveryError>,
)
    requires
        call_ensures(check_local_owner, (task, owner, is_local), result),
    ensures
        result is Ok <==> is_local,
        result is Err ==> result->Err_0.code@ == "wake-remote-owner"@,
{
}

/// A parked wake is delivered as the command of its own admission.
pub proof fn a_wake_is_delivered_under_its_own_operation(
    binding: AgentWakeBinding,
    own: Result<crate::identity::AgentOperationId, AgentWakeError>,
    result: Result<AgentTaskEntityCommand, AgentWakeError>,
)
    requires
        call_ensures(AgentWakeBinding::admission_operation_id, (&binding,), own),
        call_ensures(wake_admission_command, (binding,), result),
    ensures
        result is Ok <==> own is Ok,
        result is Err ==> result->Err_0 == own->Err_0,
        result is Ok ==> match result->Ok_0 {
            AgentTaskEntityCommand::AdmitWake { operation_id, binding: bound } => operation_id@
                == own->Ok_0@ && bound == binding,
        },
{
}

} // verus!
