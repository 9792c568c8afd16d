//! What the commands over a continuous goal's lifecycle promise, when time ends a
//! goal, how failures slow it down, and which policies are sound.

use vstd::prelude::*;

use crate::budget::AgentBudgetDimension;
use crate::calendar::AgentBudgetWindow;
use crate::identity::{AgentRevisionNumber, AgentRevisionProvenance, AgentTimestampMillis};
use crate::text::{bounded_text, byte_len, decimal};
use crate::wake::{AgentWakeRewakeCause, ScheduleRevision};
use crate::wake_admission_laws::{a_window_pays_for_what_fits, is_open, pays};
use crate::wake_controller::{grown_delay, streak_delay, AgentWakeControllerState, WakeModel};
use crate::wake_error::AgentWakeError;
use crate::wake_policy::{
    ceiling_verdict_from, AgentGoalLifecycleStatus, AgentMissedOccurrencePolicy,
    AgentWakeBackoffPolicy, AgentWakeOverlapPolicy, AgentWakePolicy, AgentWakePolicyRevision,
    AgentWakeRenewalPolicy, AgentWakeRetirementPolicy, AgentWakeSuspensionPolicy,
};
use crate::wake_state::{
    AgentEpochOutcomeClass, AgentWakeCounters, AgentWakeRewake, LifecycleModel,
};

verus! {

/// Whether nothing of a controller but its lifecycle differs.
pub open spec fn same_but_lifecycle(a: WakeModel, b: WakeModel) -> bool {
    &&& a.active == b.active
    &&& a.pending == b.pending
    &&& a.recent == b.recent
    &&& a.scheduled_watermark == b.scheduled_watermark
    &&& a.last_admitted == b.last_admitted
    &&& a.last_admitted_at == b.last_admitted_at
    &&& a.counters == b.counters
    &&& a.window == b.window
}

/// Whether a goal is over.
pub open spec fn is_over(status: AgentGoalLifecycleStatus) -> bool {
    status == AgentGoalLifecycleStatus::Expired || status == AgentGoalLifecycleStatus::Retired
}

/// Whether a lifecycle command may act: the goal is not over, and the requester
/// saw its revision.
pub open spec fn is_fenced_right(lifecycle: LifecycleModel, expected: AgentRevisionNumber) -> bool {
    !is_over(lifecycle.status) && expected == lifecycle.lifecycle_revision
}

/// Why a lifecycle command may not act.
pub open spec fn fence_error(
    lifecycle: LifecycleModel,
    expected: AgentRevisionNumber,
) -> AgentWakeError {
    if is_over(lifecycle.status) {
        AgentWakeError::LifecycleTerminal { status: lifecycle.status }
    } else {
        AgentWakeError::StaleLifecycleRevision { expected, current: lifecycle.lifecycle_revision }
    }
}

/// Whether a revision follows another.
pub open spec fn follows(after: AgentRevisionNumber, before: AgentRevisionNumber) -> bool {
    if before.number < u64::MAX {
        after.number == before.number + 1
    } else {
        after.number == u64::MAX
    }
}

/// A suspension takes effect exactly at the revision the requester saw, for a goal
/// that is not over; it owes no re-wakes and records why and who.
pub proof fn a_suspension_pauses_the_goal(
    state: &mut AgentWakeControllerState,
    expected: AgentRevisionNumber,
    reason: Option<String>,
    provenance: AgentRevisionProvenance,
    result: Result<AgentRevisionNumber, AgentWakeError>,
)
    requires
        call_ensures(
            AgentWakeControllerState::suspend,
            (state, expected, reason, provenance),
            result,
        ),
    ensures
        ({
            let (before, after) = (old(state)@, final(state)@);
            let (earlier, next) = (before.lifecycle, after.lifecycle);
            &&& result is Ok <==> is_fenced_right(earlier, expected)
            &&& result is Err ==> after == before && result->Err_0 == fence_error(
                earlier,
                expected,
            )
            &&& result is Ok ==> {
                &&& same_but_lifecycle(before, after)
                &&& next.status == AgentGoalLifecycleStatus::Suspended
                &&& follows(next.lifecycle_revision, earlier.lifecycle_revision)
                &&& result->Ok_0 == next.lifecycle_revision
                &&& next.changed_by == Some(provenance)
                &&& next.suspended_reason is Some <==> reason is Some
                &&& reason is Some && byte_len(reason->Some_0@) <= 256 ==> next.suspended_reason
                    == Some(reason->Some_0@)
                &&& reason is Some ==> byte_len(next.suspended_reason->Some_0) <= 256
                &&& next.expires_at_override == earlier.expires_at_override
                &&& next.consecutive_failures == earlier.consecutive_failures
                &&& next.backoff_until == earlier.backoff_until
                &&& next.rewakes.backoff is None
                &&& next.rewakes.window_turn is None
            }
        }),
{
    if reason is Some {
        crate::text::lemma_bounded_text_fits(reason->Some_0@, 256);
    }
}

/// A resume lifts a suspension and nothing else, forgets its reason, the failure
/// streak and the backoff, and keeps what was decided about expiry and re-wakes.
pub proof fn a_resume_lifts_exactly_a_suspension(
    state: &mut AgentWakeControllerState,
    expected: AgentRevisionNumber,
    provenance: AgentRevisionProvenance,
    result: Result<AgentRevisionNumber, AgentWakeError>,
)
    requires
        call_ensures(AgentWakeControllerState::resume, (state, expected, provenance), result),
    ensures
        ({
            let (before, after) = (old(state)@, final(state)@);
            let (earlier, next) = (before.lifecycle, after.lifecycle);
            let fenced = is_fenced_right(earlier, expected);
            &&& result is Ok <==> fenced && earlier.status == AgentGoalLifecycleStatus::Suspended
            &&& result is Err ==> after == before
            &&& !fenced ==> result->Err_0 == fence_error(earlier, expected)
            &&& fenced && result is Err ==> result->Err_0 == (AgentWakeError::NotSuspended {
                status: earlier.status,
            })
            &&& result is Ok ==> {
                &&& same_but_lifecycle(before, after)
                &&& next.status == AgentGoalLifecycleStatus::Active
                &&& follows(next.lifecycle_revision, earlier.lifecycle_revision)
                &&& result->Ok_0 == next.lifecycle_revision
                &&& next.changed_by == Some(provenance)
                &&& next.suspended_reason is None
                &&& next.consecutive_failures == 0
                &&& next.backoff_until is None
                &&& next.expires_at_override == earlier.expires_at_override
                &&& next.rewakes == earlier.rewakes
            }
        }),
{
}

/// A renewal moves an expiry later, never earlier, within the window the policy
/// opens before it, and changes nothing else.
pub proof fn a_renewal_moves_the_expiry_later(
    state: &mut AgentWakeControllerState,
    expected: AgentRevisionNumber,
    policy: &AgentWakePolicy,
    new_expires_at: AgentTimestampMillis,
    provenance: AgentRevisionProvenance,
    now: AgentTimestampMillis,
    result: Result<AgentRevisionNumber, AgentWakeError>,
)
    requires
        call_ensures(
            AgentWakeControllerState::renew,
            (state, expected, policy, new_expires_at, provenance, now),
            result,
        ),
    ensures
        ({
            let (before, after) = (old(state)@, final(state)@);
            let (earlier, next) = (before.lifecycle, after.lifecycle);
            let fenced = is_fenced_right(earlier, expected);
            let effective = if earlier.expires_at_override is Some {
                earlier.expires_at_override
            } else {
                policy.lifecycle.expires_at
            };
            let expiry = effective->Some_0.millis;
            let extends = new_expires_at.millis > expiry;
            let timely = match policy.lifecycle.renewal {
                AgentWakeRenewalPolicy::NotRequired => true,
                AgentWakeRenewalPolicy::RequiredBefore { window_millis } => now.millis < expiry
                    && now.millis + window_millis >= expiry,
            };
            &&& result is Ok <==> fenced && effective is Some && extends && timely
            &&& result is Err ==> after == before
            &&& !fenced ==> result->Err_0 == fence_error(earlier, expected)
            &&& fenced && effective is None ==> result->Err_0
                == AgentWakeError::RenewalWithoutExpiry
            &&& fenced && effective is Some && !extends ==> result->Err_0 == (
            AgentWakeError::RenewalNotExtending {
                offered: new_expires_at,
                effective: effective->Some_0,
            })
            &&& fenced && effective is Some && extends && !timely
                ==> result->Err_0 is RenewalOutsideWindow
            &&& result is Ok ==> {
                &&& same_but_lifecycle(before, after)
                &&& next.expires_at_override == Some(new_expires_at)
                &&& follows(next.lifecycle_revision, earlier.lifecycle_revision)
                &&& result->Ok_0 == next.lifecycle_revision
                &&& next.changed_by == Some(provenance)
                &&& next.status == earlier.status
                &&& next.suspended_reason == earlier.suspended_reason
                &&& next.consecutive_failures == earlier.consecutive_failures
                &&& next.backoff_until == earlier.backoff_until
                &&& next.rewakes == earlier.rewakes
            }
        }),
{
}

/// A retirement ends a goal that is not over, at the revision the requester saw,
/// and owes no re-wakes.
pub proof fn a_retirement_ends_the_goal(
    state: &mut AgentWakeControllerState,
    expected: AgentRevisionNumber,
    provenance: AgentRevisionProvenance,
    result: Result<AgentRevisionNumber, AgentWakeError>,
)
    requires
        call_ensures(AgentWakeControllerState::retire, (state, expected, provenance), result),
    ensures
        ({
            let (before, after) = (old(state)@, final(state)@);
            let (earlier, next) = (before.lifecycle, after.lifecycle);
            &&& result is Ok <==> is_fenced_right(earlier, expected)
            &&& result is Err ==> after == before && result->Err_0 == fence_error(
                earlier,
                expected,
            )
            &&& result is Ok ==> {
                &&& same_but_lifecycle(before, after)
                &&& next.status == AgentGoalLifecycleStatus::Retired
                &&& follows(next.lifecycle_revision, earlier.lifecycle_revision)
                &&& result->Ok_0 == next.lifecycle_revision
                &&& next.changed_by == Some(provenance)
                &&& next.suspended_reason == earlier.suspended_reason
                &&& next.expires_at_override == earlier.expires_at_override
                &&& next.consecutive_failures == earlier.consecutive_failures
                &&& next.backoff_until == earlier.backoff_until
                &&& next.rewakes.backoff is None
                &&& next.rewakes.window_turn is None
            }
        }),
{
}

/// Time ends a goal that is not over: it retires once it ran as often, or as long,
/// as its policy says, and else expires once its expiry, or the one it was renewed
/// to, has come.
pub proof fn time_retires_or_expires_a_goal(
    state: &mut AgentWakeControllerState,
    policy: &AgentWakePolicy,
    now: AgentTimestampMillis,
    crossed: Option<AgentGoalLifecycleStatus>,
)
    requires
        call_ensures(AgentWakeControllerState::observe_lifecycle, (state, policy, now), crossed),
    ensures
        ({
            let (before, after) = (old(state)@, final(state)@);
            let (earlier, next) = (before.lifecycle, after.lifecycle);
            let over = is_over(earlier.status);
            let retires = match policy.lifecycle.retirement {
                AgentWakeRetirementPolicy::Manual => false,
                AgentWakeRetirementPolicy::AfterOccurrences { occurrences } => occurrences
                    <= before.counters.admitted,
                AgentWakeRetirementPolicy::At { at } => at.millis <= now.millis,
            };
            let effective = if earlier.expires_at_override is Some {
                earlier.expires_at_override
            } else {
                policy.lifecycle.expires_at
            };
            let expires = effective is Some && effective->Some_0.millis <= now.millis;
            &&& crossed is Some <==> !over && (retires || expires)
            &&& !over && retires ==> crossed == Some(AgentGoalLifecycleStatus::Retired)
            &&& !over && !retires && expires ==> crossed == Some(AgentGoalLifecycleStatus::Expired)
            &&& crossed is None ==> after == before
            &&& crossed is Some ==> {
                &&& same_but_lifecycle(before, after)
                &&& Some(next.status) == crossed
                &&& follows(next.lifecycle_revision, earlier.lifecycle_revision)
                &&& next.changed_by == earlier.changed_by
                &&& next.suspended_reason == earlier.suspended_reason
                &&& next.expires_at_override == earlier.expires_at_override
                &&& next.consecutive_failures == earlier.consecutive_failures
                &&& next.backoff_until == earlier.backoff_until
                &&& next.rewakes.backoff is None
                &&& next.rewakes.window_turn is None
            }
        }),
{
}

/// A completed epoch ends a streak of failures and its backoff; a cancelled one
/// changes nothing; a failed one lengthens the streak, backs the goal off by the
/// delay of that streak, and, once the policy's threshold is reached, suspends an
/// active goal.
pub proof fn an_outcome_moves_the_failure_streak(
    state: &mut AgentWakeControllerState,
    policy: &AgentWakePolicy,
    outcome: AgentEpochOutcomeClass,
    now: AgentTimestampMillis,
    escalated: bool,
    streak: u32,
    delay: u64,
)
    requires
        call_ensures(
            AgentWakeControllerState::record_epoch_outcome,
            (state, policy, outcome, now),
            escalated,
        ),
        old(state)@.lifecycle.consecutive_failures < u32::MAX ==> streak == old(
            state,
        )@.lifecycle.consecutive_failures + 1,
        old(state)@.lifecycle.consecutive_failures == u32::MAX ==> streak == u32::MAX,
        call_ensures(
            AgentWakeControllerState::backoff_delay_millis,
            (&policy.failure_backoff, streak),
            delay,
        ),
    ensures
        ({
            let (before, after) = (old(state)@, final(state)@);
            let (earlier, next) = (before.lifecycle, after.lifecycle);
            let threshold = policy.failure_backoff.escalate_after_failures;
            let failed = outcome == AgentEpochOutcomeClass::Failed;
            let escalates = failed && threshold is Some && threshold->Some_0 <= streak
                && earlier.status == AgentGoalLifecycleStatus::Active;
            &&& same_but_lifecycle(before, after)
            &&& escalated == escalates
            &&& outcome == AgentEpochOutcomeClass::Cancelled ==> next == earlier
            &&& outcome == AgentEpochOutcomeClass::Completed ==> next.consecutive_failures == 0
                && next.backoff_until is None && next.rewakes == earlier.rewakes
            &&& !escalates ==> next.status == earlier.status && next.lifecycle_revision
                == earlier.lifecycle_revision && next.suspended_reason == earlier.suspended_reason
            &&& next.changed_by == earlier.changed_by
            &&& next.expires_at_override == earlier.expires_at_override
            &&& failed ==> next.consecutive_failures == streak && next.backoff_until is Some
                && next.backoff_until->Some_0.millis == if now.millis + delay <= u64::MAX {
                now.millis + delay
            } else {
                u64::MAX as int
            }
            &&& failed && !escalates ==> next.rewakes == earlier.rewakes
            &&& escalates ==> {
                &&& next.status == AgentGoalLifecycleStatus::Suspended
                &&& follows(next.lifecycle_revision, earlier.lifecycle_revision)
                &&& next.suspended_reason is Some
                &&& next.suspended_reason->Some_0 == bounded_text(
                    "escalated after "@ + decimal(streak as nat) + " consecutive epoch failures"@,
                    256,
                )
                &&& next.rewakes.backoff is None
                &&& next.rewakes.window_turn is None
            }
        }),
{
}

/// The backoff starts at its initial delay, is multiplied with each further
/// failure, and never passes its ceiling.
pub proof fn a_backoff_is_multiplied_up_to_its_ceiling(
    policy: &AgentWakeBackoffPolicy,
    failures: u32,
    delay: u64,
    next: u64,
)
    requires
        call_ensures(
            AgentWakeControllerState::backoff_delay_millis,
            (policy, failures),
            delay,
        ),
        failures < u32::MAX,
        call_ensures(
            AgentWakeControllerState::backoff_delay_millis,
            (policy, (failures + 1) as u32),
            next,
        ),
        policy.multiplier_percent >= 100,
        policy.initial_millis <= policy.max_millis,
        policy.max_millis * policy.multiplier_percent <= u64::MAX,
    ensures
        delay <= policy.max_millis,
        failures <= 1 ==> delay == policy.initial_millis,
        failures == 0 ==> next == policy.initial_millis,
        failures >= 1 ==> next == if (delay * policy.multiplier_percent) / 100 < policy.max_millis {
            (delay * policy.multiplier_percent) / 100
        } else {
            policy.max_millis as int
        },
{
    let percent = policy.multiplier_percent as nat;
    lemma_streak_below(*policy, failures as nat);
    lemma_streak_below(*policy, (failures + 1) as nat);
    let streak = streak_delay(*policy, failures as nat);
    assert(streak * percent <= policy.max_millis * percent) by (nonlinear_arith)
        requires
            streak <= policy.max_millis,
    ;
    if failures >= 1 {
        assert(grown_delay(*policy, streak) == (streak * percent) / 100);
        if streak >= policy.max_millis {
            assert(streak == policy.max_millis);
            assert((streak * percent) / 100 >= streak) by (nonlinear_arith)
                requires
                    percent >= 100,
            ;
        }
    }
}

proof fn lemma_streak_below(policy: AgentWakeBackoffPolicy, failures: nat)
    requires
        policy.initial_millis <= policy.max_millis,
    ensures
        streak_delay(policy, failures) <= policy.max_millis,
    decreases failures,
{
    if failures > 1 {
        lemma_streak_below(policy, (failures - 1) as nat);
    }
}

/// Whether a slot owes a re-wake at a time: newly, or as it already did.
pub open spec fn owes_at(
    before: Option<AgentWakeRewake>,
    after: Option<AgentWakeRewake>,
    due_at: AgentTimestampMillis,
) -> bool {
    let kept = before is Some && before->Some_0.due_at == due_at;
    &&& kept ==> after == before
    &&& !kept ==> after is Some && after->Some_0.due_at == due_at && !after->Some_0.parked
        && after->Some_0.attempt == 0
}

/// A re-wake is owed exactly where a parked occurrence of an active goal waits for
/// a backoff to elapse, or for a window that does not pay to turn; a goal that is
/// not active owes none. Nothing but the slots moves.
pub proof fn rewakes_are_owed_for_what_waits(
    state: &mut AgentWakeControllerState,
    policy: &AgentWakePolicy,
    now: AgentTimestampMillis,
)
    requires
        call_ensures(AgentWakeControllerState::ensure_rewakes, (state, policy, now), ()),
    ensures
        ({
            let (before, after) = (old(state)@, final(state)@);
            let (slots, next) = (before.lifecycle.rewakes, after.lifecycle.rewakes);
            let active = before.lifecycle.status == AgentGoalLifecycleStatus::Active;
            let waiting = active && before.pending.len() > 0;
            let backs_off = waiting && !is_open(before, now);
            let unpaid = waiting && !pays(before, *policy, now);
            &&& same_but_lifecycle(before, after)
            &&& after.lifecycle.with_rewakes(slots) == before.lifecycle
            &&& next.backoff is Some <==> backs_off
            &&& next.window_turn is Some <==> unpaid
            &&& backs_off ==> owes_at(
                slots.backoff,
                next.backoff,
                before.lifecycle.backoff_until->Some_0,
            )
            &&& unpaid ==> owes_at(
                slots.window_turn,
                next.window_turn,
                crate::calendar::turn_of_window(
                    policy.goal_window->Some_0.window,
                    before.waiting_start(policy.goal_window->Some_0, now),
                    now,
                ),
            )
        }),
{
    a_window_pays_for_what_fits(old(state)@, *policy, now);
}

/// A window turns after now: a rolling one at the end of the length that holds
/// now, counted from where it started.
pub proof fn a_rolling_window_turns_at_its_length(
    length: u64,
    start: AgentTimestampMillis,
    now: AgentTimestampMillis,
)
    requires
        length > 0,
        start.millis <= now.millis,
        now.millis + length <= u64::MAX,
    ensures
        ({
            let turn = crate::calendar::turn_of_window(
                AgentBudgetWindow::Rolling { length_millis: length },
                start,
                now,
            );
            &&& now.millis < turn.millis <= now.millis + length
            &&& (turn.millis - start.millis) % (length as int) == 0
        }),
{
    let elapsed = now.millis - start.millis;
    let whole = length as int;
    vstd::arithmetic::div_mod::lemma_fundamental_div_mod(elapsed, whole);
    vstd::arithmetic::div_mod::lemma_mod_bound(elapsed, whole);
    let turns = elapsed / whole + 1;
    assert(turns * whole == whole * (elapsed / whole) + whole) by (nonlinear_arith)
        requires
            turns == elapsed / whole + 1,
    ;
    vstd::arithmetic::div_mod::lemma_mod_multiples_basic(turns, whole);
}

/// A mark for the generation in a slot parks that slot; a mark for another, and
/// every other slot, changes nothing.
pub proof fn a_parked_mark_reaches_its_own_generation(
    state: &mut AgentWakeControllerState,
    cause: AgentWakeRewakeCause,
    due_at: AgentTimestampMillis,
    attempt: u64,
)
    requires
        call_ensures(
            AgentWakeControllerState::mark_rewake_parked,
            (state, cause, due_at, attempt),
            (),
        ),
    ensures
        ({
            let (before, after) = (old(state)@, final(state)@);
            let (slots, next) = (before.lifecycle.rewakes, after.lifecycle.rewakes);
            let backoff = cause == AgentWakeRewakeCause::Backoff;
            let (slot, marked) = if backoff {
                (slots.backoff, next.backoff)
            } else {
                (slots.window_turn, next.window_turn)
            };
            let own = slot is Some && slot->Some_0.due_at == due_at && slot->Some_0.attempt
                == attempt;
            &&& same_but_lifecycle(before, after)
            &&& after.lifecycle.with_rewakes(slots) == before.lifecycle
            &&& backoff ==> next.window_turn == slots.window_turn
            &&& !backoff ==> next.backoff == slots.backoff
            &&& !own ==> marked == slot
            &&& own ==> marked == Some(AgentWakeRewake { due_at, parked: true, attempt })
        }),
{
}

/// A schedule update keeps, in order, exactly the parked occurrences of the new
/// revision on, counts the others as fenced, starts the watermark over, and
/// touches neither what runs nor the lifecycle.
pub proof fn a_schedule_update_keeps_the_new_schedule(
    state: &mut AgentWakeControllerState,
    current: ScheduleRevision,
    fenced: u64,
)
    requires
        call_ensures(
            AgentWakeControllerState::apply_schedule_update,
            (state, current),
            fenced,
        ),
        old(state)@.counters.fenced + old(state)@.pending.len() <= u64::MAX,
    ensures
        ({
            let (before, after) = (old(state)@, final(state)@);
            &&& after.active == before.active
            &&& after.recent == before.recent
            &&& after.scheduled_watermark is None
            &&& after.last_admitted == before.last_admitted
            &&& after.last_admitted_at == before.last_admitted_at
            &&& after.window == before.window
            &&& after.lifecycle == before.lifecycle
            &&& fenced == before.pending.len() - after.pending.len()
            &&& after.counters == (AgentWakeCounters {
                fenced: (before.counters.fenced + fenced) as u64,
                ..before.counters
            })
            &&& forall|i: int|
                0 <= i < after.pending.len() ==> (
                #[trigger] after.pending[i]).spec_schedule_revision().number()
                    >= current.number() && before.pending.contains(after.pending[i])
            &&& forall|i: int|
                0 <= i < before.pending.len() && (
                #[trigger] before.pending[i]).spec_schedule_revision().number()
                    >= current.number() ==> after.pending.contains(before.pending[i])
        }),
{
    let (before, after) = (old(state)@, final(state)@);
    let keep = |binding: crate::wake::AgentWakeBinding|
        binding.spec_schedule_revision().number() >= current.number();
    assert(after.pending == before.pending.filter(keep));
    lemma_filtered(before.pending, keep);
    before.pending.lemma_filter_len(keep);
    assert forall|i: int|
        0 <= i < before.pending.len() && (
        #[trigger] before.pending[i]).spec_schedule_revision().number()
            >= current.number() implies after.pending.contains(before.pending[i]) by {
        assert(keep(before.pending[i]));
    }
}

proof fn lemma_filtered<A>(elements: Seq<A>, keep: spec_fn(A) -> bool)
    ensures
        forall|i: int|
            0 <= i < elements.filter(keep).len() ==> keep(#[trigger] elements.filter(keep)[i])
                && elements.contains(elements.filter(keep)[i]),
        forall|i: int|
            0 <= i < elements.len() && keep(#[trigger] elements[i]) ==> elements.filter(
                keep,
            ).contains(elements[i]),
    decreases elements.len(),
{
    reveal(Seq::filter);
    if elements.len() > 0 {
        let rest = elements.drop_last();
        lemma_filtered(rest, keep);
        let kept = elements.filter(keep);
        assert forall|i: int| 0 <= i < kept.len() implies keep(#[trigger] kept[i])
            && elements.contains(kept[i]) by {
            if i < rest.filter(keep).len() {
                assert(rest.filter(keep)[i] == kept[i]);
                let k = rest.index_of(kept[i]);
                assert(elements[k] == kept[i]);
            } else {
                assert(elements[elements.len() - 1] == kept[i]);
            }
        }
        assert forall|i: int| 0 <= i < elements.len() && keep(#[trigger] elements[i]) implies
            kept.contains(elements[i]) by {
            if i < rest.len() {
                assert(rest[i] == elements[i]);
                assert(rest.filter(keep).contains(rest[i]));
                let k = rest.filter(keep).index_of(elements[i]);
                assert(kept[k] == elements[i]);
            } else {
                assert(kept[kept.len() - 1] == elements[i]);
            }
        }
    }
}

/// Whether a ceiling has room for at least one epoch on a dimension.
pub open spec fn fits_one(policy: AgentWakePolicy, dimension: AgentBudgetDimension) -> bool {
    let ceiling = policy.goal_window->Some_0.ceiling;
    ceiling.limit(dimension) is Some ==> policy.epoch_budget.limit(dimension) is Some
        && policy.epoch_budget.limit(dimension)->Some_0 <= ceiling.limit(dimension)->Some_0
}

/// Whether a budget bounds any dimension.
pub open spec fn bounds_any(budget: crate::budget::AgentBudgetAllocation) -> bool {
    budget.limit(AgentBudgetDimension::ModelCalls) is Some || budget.limit(
        AgentBudgetDimension::Tokens,
    ) is Some
}

/// A policy is accepted exactly when it can do what it says: something triggers
/// it, no duration is empty, what is too late for admission is not yet too late
/// for all, parallel means two at least, catch-up means one at least, every epoch
/// is bounded, the goal window bounds something and fits one epoch, the backoff
/// grows from something to no less, and renewal and retirement can come.
pub proof fn a_policy_is_accepted_when_it_can_be_kept(
    policy: &AgentWakePolicy,
    result: Result<(), AgentWakeError>,
)
    requires
        call_ensures(AgentWakePolicy::validate, (policy,), result),
    ensures
        result is Ok <==> {
            &&& exists|kind: crate::wake::AgentWakeTriggerKind| #[trigger]
                policy.triggers@.contains(kind)
            &&& policy.admission_window_millis is Some ==> policy.admission_window_millis->Some_0
                > 0
            &&& policy.maximum_lateness_millis is Some ==> policy.maximum_lateness_millis->Some_0
                > 0
            &&& policy.epoch_deadline_millis is Some ==> policy.epoch_deadline_millis->Some_0 > 0
            &&& policy.admission_window_millis is Some && policy.maximum_lateness_millis is Some
                ==> policy.admission_window_millis->Some_0
                <= policy.maximum_lateness_millis->Some_0
            &&& policy.overlap is Parallel ==> policy.overlap->max_concurrent_epochs >= 2
            &&& policy.missed_occurrence is BoundedCatchUp
                ==> policy.missed_occurrence->max_occurrences >= 1
            &&& policy.epoch_deadline_millis is Some || bounds_any(policy.epoch_budget)
            &&& policy.goal_window is Some ==> {
                let window = policy.goal_window->Some_0;
                &&& window.window is Rolling ==> window.window->length_millis > 0
                &&& bounds_any(window.ceiling)
                &&& fits_one(*policy, AgentBudgetDimension::ModelCalls)
                &&& fits_one(*policy, AgentBudgetDimension::Tokens)
            }
            &&& policy.failure_backoff.initial_millis > 0
            &&& policy.failure_backoff.multiplier_percent >= 100
            &&& policy.failure_backoff.initial_millis <= policy.failure_backoff.max_millis
            &&& policy.failure_backoff.escalate_after_failures is Some
                ==> policy.failure_backoff.escalate_after_failures->Some_0 > 0
            &&& policy.lifecycle.renewal is RequiredBefore
                ==> policy.lifecycle.renewal->window_millis > 0 && policy.lifecycle.expires_at is Some
            &&& policy.lifecycle.retirement is AfterOccurrences
                ==> policy.lifecycle.retirement->occurrences > 0
        },
{
    reveal_with_fuel(ceiling_verdict_from, 4);
    let kinds = policy.triggers@;
    if kinds != Set::<crate::wake::AgentWakeTriggerKind>::empty() {
        if forall|kind: crate::wake::AgentWakeTriggerKind| !#[trigger] kinds.contains(kind) {
            assert(kinds =~= Set::empty());
        }
    }
    if policy.goal_window is Some {
        let ceiling = policy.goal_window->Some_0.ceiling;
        assert(ceiling.bounds_nothing() <==> !bounds_any(ceiling)) by {
            lemma_bounds(ceiling);
        }
    }
    lemma_bounds(policy.epoch_budget);
}

proof fn lemma_bounds(budget: crate::budget::AgentBudgetAllocation)
    ensures
        budget.bounds_nothing() <==> !bounds_any(budget),
{
    if !bounds_any(budget) {
        assert forall|dimension: AgentBudgetDimension| #[trigger]
            budget.limit(dimension) is None by {
            match dimension {
                AgentBudgetDimension::ModelCalls => {},
                AgentBudgetDimension::Tokens => {},
            }
        }
    }
}

/// A refused policy is told what is wrong with it.
pub proof fn a_refused_policy_is_told_why(
    policy: &AgentWakePolicy,
    result: Result<(), AgentWakeError>,
)
    requires
        call_ensures(AgentWakePolicy::validate, (policy,), result),
        result is Err,
    ensures
        match result->Err_0 {
            AgentWakeError::EmptyTriggers => policy.triggers@ == Set::<
                crate::wake::AgentWakeTriggerKind,
            >::empty(),
            AgentWakeError::LatenessBelowAdmissionWindow {
                admission_window_millis,
                maximum_lateness_millis,
            } => policy.admission_window_millis == Some(admission_window_millis)
                && policy.maximum_lateness_millis == Some(maximum_lateness_millis)
                && maximum_lateness_millis < admission_window_millis,
            AgentWakeError::ParallelEpochsNotParallel { max_concurrent_epochs } =>
            policy.overlap is Parallel && policy.overlap->max_concurrent_epochs
                == max_concurrent_epochs && max_concurrent_epochs < 2,
            AgentWakeError::ZeroCatchUp => policy.missed_occurrence is BoundedCatchUp
                && policy.missed_occurrence->max_occurrences == 0,
            AgentWakeError::EpochUnbounded => policy.epoch_deadline_millis is None && !bounds_any(
                policy.epoch_budget,
            ),
            AgentWakeError::WindowCeilingUnbounded => policy.goal_window is Some && !bounds_any(
                policy.goal_window->Some_0.ceiling,
            ),
            AgentWakeError::WindowEpochUnbounded { dimension } => policy.goal_window is Some
                && policy.goal_window->Some_0.ceiling.limit(dimension) is Some
                && policy.epoch_budget.limit(dimension) is None,
            AgentWakeError::WindowEpochExceedsCeiling { dimension, epoch_budget, ceiling } =>
            policy.goal_window is Some && policy.goal_window->Some_0.ceiling.limit(dimension)
                == Some(ceiling) && policy.epoch_budget.limit(dimension) == Some(epoch_budget)
                && epoch_budget > ceiling,
            AgentWakeError::BackoffInitialZero => policy.failure_backoff.initial_millis == 0,
            AgentWakeError::BackoffMultiplierBelowUnit { multiplier_percent } =>
            policy.failure_backoff.multiplier_percent == multiplier_percent && multiplier_percent
                < 100,
            AgentWakeError::BackoffMaximumBelowInitial { initial_millis, max_millis } =>
            policy.failure_backoff.initial_millis == initial_millis
                && policy.failure_backoff.max_millis == max_millis && max_millis < initial_millis,
            AgentWakeError::ZeroEscalationThreshold =>
            policy.failure_backoff.escalate_after_failures == Some(0u32),
            AgentWakeError::RenewalWithoutExpiry => policy.lifecycle.renewal is RequiredBefore
                && policy.lifecycle.expires_at is None,
            AgentWakeError::ZeroRetirementOccurrences =>
            policy.lifecycle.retirement is AfterOccurrences
                && policy.lifecycle.retirement->occurrences == 0,
            AgentWakeError::ZeroDuration { .. } => {
                ||| policy.admission_window_millis == Some(0u64)
                ||| policy.maximum_lateness_millis == Some(0u64)
                ||| policy.epoch_deadline_millis == Some(0u64)
                ||| (policy.goal_window is Some && policy.goal_window->Some_0.window is Rolling
                    && policy.goal_window->Some_0.window->length_millis == 0)
                ||| (policy.lifecycle.renewal is RequiredBefore
                    && policy.lifecycle.renewal->window_millis == 0)
            },
            _ => false,
        },
{
    reveal_with_fuel(ceiling_verdict_from, 4);
    lemma_bounds(policy.epoch_budget);
    if policy.goal_window is Some {
        lemma_bounds(policy.goal_window->Some_0.ceiling);
    }
}

/// A policy made without further options runs one epoch at a time, lets one
/// coalesced occurrence stand for a downtime, parks while suspended, is never
/// renewed, expired or retired by itself, and has the triggers and the bounds it
/// was given; whatever a policy is then given is there, and the rest stays.
pub proof fn a_new_policy_has_the_continuous_defaults(
    triggers: &[crate::wake::AgentWakeTriggerKind],
    budget: crate::budget::AgentBudgetAllocation,
    deadline: Option<u64>,
    result: Result<AgentWakePolicy, AgentWakeError>,
)
    requires
        call_ensures(AgentWakePolicy::new, (triggers, budget, deadline), result),
        result is Ok,
    ensures
        ({
            let policy = result->Ok_0;
            &&& forall|kind: crate::wake::AgentWakeTriggerKind| #[trigger]
                policy.triggers@.contains(kind) <==> triggers@.contains(kind)
            &&& policy.admission_window_millis is None
            &&& policy.maximum_lateness_millis is None
            &&& policy.overlap == AgentWakeOverlapPolicy::ForbidAndCoalesce
            &&& policy.missed_occurrence == AgentMissedOccurrencePolicy::AdmitOneCoalesced
            &&& policy.epoch_budget == budget
            &&& policy.epoch_deadline_millis == deadline
            &&& policy.goal_window is None
            &&& policy.lifecycle.while_suspended == AgentWakeSuspensionPolicy::CoalesceLatest
            &&& policy.lifecycle.renewal == AgentWakeRenewalPolicy::NotRequired
            &&& policy.lifecycle.expires_at is None
            &&& policy.lifecycle.retirement == AgentWakeRetirementPolicy::Manual
        }),
{
}

/// A policy revision is made of a sound policy alone; the first has number one,
/// and each update the next, under whoever accepted it.
pub proof fn a_policy_revision_counts_on(
    policy: AgentWakePolicy,
    provenance: AgentRevisionProvenance,
    first: Result<AgentWakePolicyRevision, AgentWakeError>,
    revision: &AgentWakePolicyRevision,
    next: Result<AgentWakePolicyRevision, AgentWakeError>,
    verdict: Result<(), AgentWakeError>,
)
    requires
        call_ensures(AgentWakePolicyRevision::initial, (policy, provenance), first),
        call_ensures(AgentWakePolicyRevision::updated, (revision, policy, provenance), next),
        call_ensures(AgentWakePolicy::validate, (&policy,), verdict),
    ensures
        first is Ok <==> verdict is Ok,
        next is Ok <==> verdict is Ok,
        first is Ok ==> first->Ok_0.spec_revision().number == 1 && *first->Ok_0.spec_policy()
            == policy && *first->Ok_0.spec_provenance() == provenance
            && first->Ok_0.spec_schema_version() == 1,
        next is Ok ==> follows(next->Ok_0.spec_revision(), revision.spec_revision())
            && *next->Ok_0.spec_policy() == policy && *next->Ok_0.spec_provenance() == provenance
            && next->Ok_0.spec_schema_version() == 1,
{
}

} // verus!
