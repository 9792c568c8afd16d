//! The wake controller's admission state machine.
//!
//! [`AgentWakeControllerState`] dispositions every delivery deterministically.
//! Each transition is stated over [`WakeModel`], what the state holds.

use vstd::prelude::*;
use vstd::string::*;

use crate::budget::{
    charge, charged, find_refused, first_refused, nothing_spent, AgentBudgetAllocation,
    AgentBudgetConsumption, AgentBudgetDimension,
};
use crate::calendar::{
    advance_window_start, advanced_start, boundary_fits, first_start, initial_window_start,
    next_window_boundary, turn_of_window, window_covers,
};
use crate::identity::{
    copy_optional, AgentRevisionNumber, AgentRevisionProvenance, AgentTimestampMillis, AgentWakeId,
};
use crate::text::{bounded_text, decimal, decimal_string, join3, truncate_text};
use crate::wake::{
    AgentWakeBinding, AgentWakeOccurrence, AgentWakeRewakeCause, AgentWakeTriggerKind,
    ScheduleRevision,
};
use crate::wake_error::AgentWakeError;
use crate::wake_policy::{
    AgentGoalLifecycleStatus, AgentGoalWindowCeiling, AgentMissedOccurrencePolicy,
    AgentWakeBackoffPolicy, AgentWakeOverlapPolicy, AgentWakePolicy, AgentWakeRenewalPolicy,
    AgentWakeRetirementPolicy, AgentWakeSuspensionPolicy,
};
use crate::wake_state::{
    merge_rewake_slot, merged_slot, optional_string, AgentActiveWake, AgentEpochOutcomeClass,
    AgentEpochRef, AgentGoalLifecycleState, AgentWakeCounters, AgentWakeDisposition,
    AgentWakeParked, AgentWakeRelease, AgentWakeRewake, AgentWakeRewakes, AgentWakeStatusView,
    AgentWakeWindowLedger, LifecycleModel,
};

verus! {

/// Most occurrences the controller durably parks, whatever bound the policy
/// declares.
pub const AGENT_WAKE_PENDING_CAPACITY: usize = 8;

/// Most concurrently active occurrences, whatever concurrency a policy
/// declares.
pub const AGENT_WAKE_ACTIVE_CAPACITY: usize = 8;

/// How many recently dispositioned wake identities the controller remembers.
pub const AGENT_WAKE_RECENT_CAPACITY: usize = 16;

/// Longest suspension reason the controller stores, in bytes.
pub const AGENT_WAKE_REASON_MAX_LENGTH: usize = 256;

/// What a controller state holds.
pub struct WakeModel {
    /// The occurrences currently owning execution.
    pub active: Seq<AgentActiveWake>,
    /// The occurrences durably parked behind them, oldest first.
    pub pending: Seq<AgentWakeBinding>,
    /// The most recently dispositioned wakes, oldest first.
    pub recent: Seq<AgentWakeId>,
    /// The latest due time of a consumed scheduled occurrence.
    pub scheduled_watermark: Option<AgentTimestampMillis>,
    /// The most recently admitted wake.
    pub last_admitted: Option<AgentWakeId>,
    /// When the most recent admission happened.
    pub last_admitted_at: Option<AgentTimestampMillis>,
    /// The monotone wake counters.
    pub counters: AgentWakeCounters,
    /// The goal-window ledger, once a windowed admission opened one.
    pub window: Option<AgentWakeWindowLedger>,
    /// The goal's lifecycle.
    pub lifecycle: LifecycleModel,
}

/// A list of recent wakes with one more remembered: the oldest is forgotten
/// once the ring is full.
pub open spec fn remembered(recent: Seq<AgentWakeId>, wake: AgentWakeId) -> Seq<AgentWakeId> {
    let longer = recent.push(wake);
    if longer.len() > AGENT_WAKE_RECENT_CAPACITY {
        longer.drop_first()
    } else {
        longer
    }
}

/// A watermark after a binding is consumed: only a scheduled occurrence moves
/// it, and only forward.
pub open spec fn raised_watermark(
    watermark: Option<AgentTimestampMillis>,
    binding: AgentWakeBinding,
) -> Option<AgentTimestampMillis> {
    match *binding.spec_occurrence() {
        AgentWakeOccurrence::Scheduled { due_at } => if watermark is None || due_at.millis
            > watermark->Some_0.millis {
            Some(due_at)
        } else {
            watermark
        },
        _ => watermark,
    }
}

/// How many occurrences a policy lets run at once.
pub open spec fn active_limit(policy: AgentWakePolicy) -> nat {
    match policy.overlap {
        AgentWakeOverlapPolicy::ForbidAndCoalesce => 1,
        AgentWakeOverlapPolicy::Parallel { max_concurrent_epochs, .. } => if max_concurrent_epochs
            < AGENT_WAKE_ACTIVE_CAPACITY {
            max_concurrent_epochs as nat
        } else {
            AGENT_WAKE_ACTIVE_CAPACITY as nat
        },
    }
}

/// How many occurrences a policy lets wait.
pub open spec fn pending_limit(policy: AgentWakePolicy) -> nat {
    match policy.missed_occurrence {
        AgentMissedOccurrencePolicy::BoundedCatchUp { max_occurrences } => if max_occurrences
            < AGENT_WAKE_PENDING_CAPACITY {
            max_occurrences as nat
        } else {
            AGENT_WAKE_PENDING_CAPACITY as nat
        },
        _ => 1,
    }
}

/// How late a binding is delivered, for occurrences with a due time.
pub open spec fn lateness(binding: AgentWakeBinding, now: AgentTimestampMillis) -> Option<int> {
    match binding.spec_occurrence().due() {
        Some(due) => Some(crate::calendar::elapsed_millis(due, now)),
        None => None,
    }
}

/// Whether a binding is later than a bound allows.
pub open spec fn later_than(
    binding: AgentWakeBinding,
    bound: Option<u64>,
    now: AgentTimestampMillis,
) -> bool {
    bound is Some && lateness(binding, now) is Some && lateness(binding, now)->Some_0
        > bound->Some_0
}

/// Whether a wake is among the active ones.
pub open spec fn active_holds(active: Seq<AgentActiveWake>, wake: Seq<char>) -> bool {
    exists|i: int| 0 <= i < active.len() && (#[trigger] active[i]).binding.spec_wake_id()@ == wake
}

/// Whether a wake is among the parked ones.
pub open spec fn pending_holds(pending: Seq<AgentWakeBinding>, wake: Seq<char>) -> bool {
    exists|i: int| 0 <= i < pending.len() && (#[trigger] pending[i]).spec_wake_id()@ == wake
}

/// Whether a wake is among the recent ones.
pub open spec fn recent_holds(recent: Seq<AgentWakeId>, wake: Seq<char>) -> bool {
    exists|i: int| 0 <= i < recent.len() && (#[trigger] recent[i])@ == wake
}

/// The position of the first active occurrence of a wake from `from` on, or the
/// number of active ones when there is none.
pub open spec fn active_position(
    active: Seq<AgentActiveWake>,
    wake: Seq<char>,
    from: nat,
) -> nat
    decreases active.len() - from,
{
    if from >= active.len() {
        active.len()
    } else if active[from as int].binding.spec_wake_id()@ == wake {
        from
    } else {
        active_position(active, wake, from + 1)
    }
}

/// The delay after one more failure, before the ceiling applies.
pub open spec fn grown_delay(policy: AgentWakeBackoffPolicy, delay: nat) -> nat {
    let product = delay * policy.multiplier_percent as nat;
    (if product > u64::MAX {
        u64::MAX as nat
    } else {
        product
    }) / 100
}

/// The delay reached after a streak of failures: it starts at the initial delay
/// and grows until it meets the ceiling, where it stays.
pub open spec fn streak_delay(policy: AgentWakeBackoffPolicy, failures: nat) -> nat
    decreases failures,
{
    if failures <= 1 {
        policy.initial_millis as nat
    } else {
        let previous = streak_delay(policy, (failures - 1) as nat);
        if failures > 2 && previous >= policy.max_millis {
            policy.max_millis as nat
        } else if grown_delay(policy, previous) >= policy.max_millis {
            policy.max_millis as nat
        } else {
            grown_delay(policy, previous)
        }
    }
}

/// The backoff delay after a streak of failures, never above the ceiling.
pub open spec fn backoff_delay(policy: AgentWakeBackoffPolicy, failures: nat) -> nat {
    if streak_delay(policy, failures) < policy.max_millis {
        streak_delay(policy, failures)
    } else {
        policy.max_millis as nat
    }
}

impl WakeModel {
    /// A controller nothing has happened to yet.
    pub open spec fn fresh() -> WakeModel {
        WakeModel {
            active: Seq::empty(),
            pending: Seq::empty(),
            recent: Seq::empty(),
            scheduled_watermark: None,
            last_admitted: None,
            last_admitted_at: None,
            counters: AgentWakeCounters::zero(),
            window: None,
            lifecycle: LifecycleModel::fresh(),
        }
    }

    /// Whether the state is within its bounded capacities.
    pub open spec fn within_bounds(self) -> bool {
        &&& self.active.len() <= AGENT_WAKE_ACTIVE_CAPACITY
        &&& self.pending.len() <= AGENT_WAKE_PENDING_CAPACITY
        &&& self.recent.len() <= AGENT_WAKE_RECENT_CAPACITY
    }

    /// Whether the controller holds or recently dispositioned a wake.
    pub open spec fn knows(self, wake: Seq<char>) -> bool {
        active_holds(self.active, wake) || pending_holds(self.pending, wake) || recent_holds(
            self.recent,
            wake,
        ) || (self.last_admitted is Some && self.last_admitted->Some_0@ == wake)
    }

    /// After a wake was answered without its due time counting.
    pub open spec fn seeing(self, binding: AgentWakeBinding) -> WakeModel {
        WakeModel { recent: remembered(self.recent, *binding.spec_wake_id()), ..self }
    }

    /// After a wake was consumed.
    pub open spec fn consuming(self, binding: AgentWakeBinding) -> WakeModel {
        WakeModel {
            scheduled_watermark: raised_watermark(self.scheduled_watermark, binding),
            ..self.seeing(binding)
        }
    }

    /// After a binding was parked, and where it landed. With one slot the
    /// latest occurrence wins; a full catch-up queue keeps what it has.
    pub open spec fn parking(
        self,
        policy: AgentWakePolicy,
        binding: AgentWakeBinding,
    ) -> (WakeModel, AgentWakeParked) {
        let consumed = self.consuming(binding);
        let limit = pending_limit(policy);
        if self.pending.len() < limit {
            (
                WakeModel { pending: self.pending.push(binding), ..consumed },
                AgentWakeParked::Stored { replaced: None },
            )
        } else if limit == 1 {
            (
                WakeModel { pending: self.pending.update(0, binding), ..consumed },
                AgentWakeParked::Stored { replaced: Some(*self.pending[0].spec_wake_id()) },
            )
        } else {
            (consumed, AgentWakeParked::Overflow)
        }
    }

    /// After a binding was admitted into an active slot.
    pub open spec fn admitting(
        self,
        binding: AgentWakeBinding,
        now: AgentTimestampMillis,
        representative: bool,
    ) -> WakeModel {
        WakeModel {
            active: self.active.push(
                AgentActiveWake { binding, admitted_at: now, representative, epoch: None },
            ),
            last_admitted: Some(*binding.spec_wake_id()),
            last_admitted_at: Some(now),
            counters: AgentWakeCounters {
                admitted: (self.counters.admitted + 1) as u64,
                ..self.counters
            },
            ..self.consuming(binding)
        }
    }

    /// Where the goal window that holds `now` starts.
    pub open spec fn current_start(
        self,
        ceiling: AgentGoalWindowCeiling,
        now: AgentTimestampMillis,
    ) -> AgentTimestampMillis {
        match self.window {
            Some(ledger) => advanced_start(ceiling.window, ledger.window_start, now),
            None => first_start(ceiling.window, now),
        }
    }

    /// What the goal window that holds `now` has spent: nothing once it turned.
    pub open spec fn current_spending(
        self,
        ceiling: AgentGoalWindowCeiling,
        now: AgentTimestampMillis,
    ) -> AgentBudgetConsumption {
        match self.window {
            Some(ledger) => if ledger.window_start == self.current_start(ceiling, now) {
                ledger.consumed
            } else {
                nothing_spent()
            },
            None => nothing_spent(),
        }
    }

    /// The dimension on which the goal window refuses an epoch now.
    pub open spec fn window_refusal(
        self,
        ceiling: AgentGoalWindowCeiling,
        epoch_budget: AgentBudgetAllocation,
        now: AgentTimestampMillis,
    ) -> Option<AgentBudgetDimension> {
        first_refused(ceiling.ceiling, epoch_budget, self.current_spending(ceiling, now))
    }

    /// After one epoch was charged to the goal window, or refused by it. The
    /// window that holds `now` is in force either way.
    pub open spec fn charging(
        self,
        ceiling: AgentGoalWindowCeiling,
        epoch_budget: AgentBudgetAllocation,
        now: AgentTimestampMillis,
    ) -> WakeModel {
        let spent = self.current_spending(ceiling, now);
        WakeModel {
            window: Some(
                AgentWakeWindowLedger {
                    window_start: self.current_start(ceiling, now),
                    consumed: if self.window_refusal(ceiling, epoch_budget, now) is None {
                        charged(ceiling.ceiling, epoch_budget, spent)
                    } else {
                        spent
                    },
                },
            ),
            ..self
        }
    }

    /// The dimension on which the policy's goal window, if any, refuses an
    /// epoch now.
    pub open spec fn refusal(
        self,
        policy: AgentWakePolicy,
        now: AgentTimestampMillis,
    ) -> Option<AgentBudgetDimension> {
        match policy.goal_window {
            Some(ceiling) => self.window_refusal(ceiling, policy.epoch_budget, now),
            None => None,
        }
    }

    /// After the policy's goal window, if any, was charged for one epoch.
    pub open spec fn paying(self, policy: AgentWakePolicy, now: AgentTimestampMillis) -> WakeModel {
        match policy.goal_window {
            Some(ceiling) => self.charging(ceiling, policy.epoch_budget, now),
            None => self,
        }
    }
}

/// How a delivery is answered when it is admitted.
pub open spec fn admission_answer(
    binding: AgentWakeBinding,
    coalesced: bool,
) -> AgentWakeDisposition {
    if coalesced {
        AgentWakeDisposition::AdmittedCoalesced { wake: *binding.spec_wake_id() }
    } else {
        AgentWakeDisposition::Admitted { wake: *binding.spec_wake_id() }
    }
}

/// Counters after one parked delivery: its primary counter moved, and the
/// superseded one when it replaced another.
pub open spec fn count_superseded(
    counters: AgentWakeCounters,
    replaced: Option<AgentWakeId>,
) -> AgentWakeCounters {
    if replaced is Some {
        AgentWakeCounters { superseded: (counters.superseded + 1) as u64, ..counters }
    } else {
        counters
    }
}

/// Counters after one more missed occurrence.
pub open spec fn count_missed(counters: AgentWakeCounters) -> AgentWakeCounters {
    AgentWakeCounters { missed: (counters.missed + 1) as u64, ..counters }
}

/// Durable controller state of one continuous goal's wakes.
///
/// Deduplication is layered: the active and parked slots, a bounded ring of
/// recently dispositioned wakes, and a monotone due-time watermark for
/// scheduled occurrences, which arrive in due order.
#[derive(Debug)]
pub struct AgentWakeControllerState {
    active: Vec<AgentActiveWake>,
    pending: Vec<AgentWakeBinding>,
    recent: Vec<AgentWakeId>,
    scheduled_watermark: Option<AgentTimestampMillis>,
    last_admitted: Option<AgentWakeId>,
    last_admitted_at: Option<AgentTimestampMillis>,
    counters: AgentWakeCounters,
    window: Option<AgentWakeWindowLedger>,
    lifecycle: AgentGoalLifecycleState,
}

/// A controller state as it is stored. Only a record within the capacities is
/// accepted back.
#[derive(Debug)]
pub struct AgentWakeControllerRecord {
    /// The occurrences currently owning execution.
    pub active: Vec<AgentActiveWake>,
    /// The occurrences durably parked behind them, oldest first.
    pub pending: Vec<AgentWakeBinding>,
    /// The most recently dispositioned wakes, oldest first.
    pub recent: Vec<AgentWakeId>,
    /// The latest due time of a consumed scheduled occurrence.
    pub scheduled_watermark: Option<AgentTimestampMillis>,
    /// The most recently admitted wake.
    pub last_admitted: Option<AgentWakeId>,
    /// When the most recent admission happened.
    pub last_admitted_at: Option<AgentTimestampMillis>,
    /// The monotone wake counters.
    pub counters: AgentWakeCounters,
    /// The goal-window ledger, once a windowed admission opened one.
    pub window: Option<AgentWakeWindowLedger>,
    /// The goal's lifecycle.
    pub lifecycle: AgentGoalLifecycleState,
}

impl View for AgentWakeControllerRecord {
    type V = WakeModel;

    open spec fn view(&self) -> WakeModel {
        WakeModel {
            active: self.active@,
            pending: self.pending@,
            recent: self.recent@,
            scheduled_watermark: self.scheduled_watermark,
            last_admitted: self.last_admitted,
            last_admitted_at: self.last_admitted_at,
            counters: self.counters,
            window: self.window,
            lifecycle: self.lifecycle@,
        }
    }
}

/// The wakes of active occurrences.
pub open spec fn active_wakes(active: Seq<AgentActiveWake>) -> Seq<AgentWakeId> {
    active.map_values(|occurrence: AgentActiveWake| *occurrence.binding.spec_wake_id())
}

/// The wakes of parked occurrences.
pub open spec fn pending_wakes(pending: Seq<AgentWakeBinding>) -> Seq<AgentWakeId> {
    pending.map_values(|binding: AgentWakeBinding| *binding.spec_wake_id())
}

/// The epochs attached to active occurrences.
pub open spec fn attached_epochs(active: Seq<AgentActiveWake>) -> Seq<AgentEpochRef>
    decreases active.len(),
{
    if active.len() == 0 {
        Seq::empty()
    } else {
        match active.last().epoch {
            Some(epoch) => attached_epochs(active.drop_last()).push(epoch),
            None => attached_epochs(active.drop_last()),
        }
    }
}

impl View for AgentWakeControllerState {
    type V = WakeModel;

    closed spec fn view(&self) -> WakeModel {
        WakeModel {
            active: self.active@,
            pending: self.pending@,
            recent: self.recent@,
            scheduled_watermark: self.scheduled_watermark,
            last_admitted: self.last_admitted,
            last_admitted_at: self.last_admitted_at,
            counters: self.counters,
            window: self.window,
            lifecycle: self.lifecycle@,
        }
    }
}

impl AgentWakeControllerState {
    /// Creates an empty controller state.
    pub fn new() -> (state: Self)
        ensures
            state@ == WakeModel::fresh(),
    {
        let state = AgentWakeControllerState {
            active: Vec::new(),
            pending: Vec::new(),
            recent: Vec::new(),
            scheduled_watermark: None,
            last_admitted: None,
            last_admitted_at: None,
            counters: AgentWakeCounters::default(),
            window: None,
            lifecycle: AgentGoalLifecycleState::default(),
        };
        assert(state@.active =~= Seq::empty());
        assert(state@.pending =~= Seq::empty());
        assert(state@.recent =~= Seq::empty());
        state
    }

    /// Accepts a stored state, refusing one beyond its bounded capacities.
    pub fn restore(record: AgentWakeControllerRecord) -> (result: Result<Self, AgentWakeError>)
        ensures
            match bounds_verdict(record@) {
                Ok(_) => result is Ok && result->Ok_0@ == record@,
                Err(error) => result == Err::<Self, _>(error),
            },
    {
        let state = AgentWakeControllerState {
            active: record.active,
            pending: record.pending,
            recent: record.recent,
            scheduled_watermark: record.scheduled_watermark,
            last_admitted: record.last_admitted,
            last_admitted_at: record.last_admitted_at,
            counters: record.counters,
            window: record.window,
            lifecycle: record.lifecycle,
        };
        match state.validate() {
            Ok(_) => Ok(state),
            Err(error) => Err(error),
        }
    }

    /// The state as a record to store.
    pub fn into_record(self) -> (record: AgentWakeControllerRecord)
        ensures
            record@ == self@,
    {
        AgentWakeControllerRecord {
            active: self.active,
            pending: self.pending,
            recent: self.recent,
            scheduled_watermark: self.scheduled_watermark,
            last_admitted: self.last_admitted,
            last_admitted_at: self.last_admitted_at,
            counters: self.counters,
            window: self.window,
            lifecycle: self.lifecycle,
        }
    }

    /// Rejects a state beyond its bounded capacities.
    pub fn validate(&self) -> (result: Result<(), AgentWakeError>)
        ensures
            result == bounds_verdict(self@),
            result is Ok <==> self@.within_bounds(),
    {
        if self.active.len() > AGENT_WAKE_ACTIVE_CAPACITY {
            return Err(AgentWakeError::StateOutOfBounds { detail: "active occurrences" });
        }
        if self.pending.len() > AGENT_WAKE_PENDING_CAPACITY {
            return Err(AgentWakeError::StateOutOfBounds { detail: "parked occurrences" });
        }
        if self.recent.len() > AGENT_WAKE_RECENT_CAPACITY {
            return Err(AgentWakeError::StateOutOfBounds { detail: "recent wake identities" });
        }
        Ok(())
    }

    /// The occurrences currently owning execution.
    pub fn active(&self) -> (active: &[AgentActiveWake])
        ensures
            active@ == self@.active,
    {
        self.active.as_slice()
    }

    /// The occurrences durably parked behind the active ones, oldest first.
    pub fn pending(&self) -> (pending: &[AgentWakeBinding])
        ensures
            pending@ == self@.pending,
    {
        self.pending.as_slice()
    }

    /// The bounded view of the state under the revisions in force.
    pub fn status_view(
        &self,
        schedule_revision: ScheduleRevision,
        policy_revision: AgentRevisionNumber,
    ) -> (view: AgentWakeStatusView)
        ensures
            view.schedule_revision == schedule_revision,
            view.policy_revision == policy_revision,
            view.active@ == active_wakes(self@.active),
            view.pending@ == pending_wakes(self@.pending),
            view.last_admitted == self@.last_admitted,
            view.last_admitted_at == self@.last_admitted_at,
            view.counters == self@.counters,
            view.window == self@.window,
            view.lifecycle is Some && view.lifecycle->Some_0@ == self@.lifecycle,
            view.epochs@ == attached_epochs(self@.active),
    {
        let mut active: Vec<AgentWakeId> = Vec::new();
        let mut epochs: Vec<AgentEpochRef> = Vec::new();
        let mut i: usize = 0;
        assert(active@ =~= active_wakes(self@.active.subrange(0, 0)));
        while i < self.active.len()
            invariant
                i <= self.active@.len(),
                active@ == active_wakes(self@.active.subrange(0, i as int)),
                epochs@ == attached_epochs(self@.active.subrange(0, i as int)),
            decreases self.active.len() - i,
        {
            let occurrence = &self.active[i];
            proof {
                let longer = self@.active.subrange(0, i + 1);
                assert(longer.drop_last() =~= self@.active.subrange(0, i as int));
                assert(longer.last() == *occurrence);
                assert(active_wakes(longer) =~= active_wakes(longer.drop_last()).push(
                    *occurrence.binding.spec_wake_id(),
                ));
            }
            active.push(occurrence.binding.wake_id().clone());
            if let Some(epoch) = &occurrence.epoch {
                epochs.push(epoch.clone());
            }
            i = i + 1;
        }
        let mut pending: Vec<AgentWakeId> = Vec::new();
        let mut k: usize = 0;
        assert(pending@ =~= pending_wakes(self@.pending.subrange(0, 0)));
        while k < self.pending.len()
            invariant
                k <= self.pending@.len(),
                pending@ == pending_wakes(self@.pending.subrange(0, k as int)),
            decreases self.pending.len() - k,
        {
            pending.push(self.pending[k].wake_id().clone());
            k = k + 1;
            assert(pending@ =~= pending_wakes(self@.pending.subrange(0, k as int)));
        }
        proof {
            assert(self@.active.subrange(0, i as int) =~= self@.active);
            assert(self@.pending.subrange(0, k as int) =~= self@.pending);
        }
        AgentWakeStatusView {
            schedule_revision,
            policy_revision,
            active,
            pending,
            last_admitted: copy_optional(&self.last_admitted),
            last_admitted_at: self.last_admitted_at,
            counters: self.counters,
            window: self.window,
            lifecycle: Some(self.lifecycle.clone()),
            epochs,
        }
    }

    /// The most recently admitted wake, if any occurrence was ever admitted.
    pub fn last_admitted(&self) -> (wake: Option<&AgentWakeId>)
        ensures
            match wake {
                Some(wake) => self@.last_admitted == Some(*wake),
                None => self@.last_admitted is None,
            },
    {
        self.last_admitted.as_ref()
    }

    /// When the most recent admission happened.
    pub fn last_admitted_at(&self) -> (time: Option<AgentTimestampMillis>)
        ensures
            time == self@.last_admitted_at,
    {
        self.last_admitted_at
    }

    /// The monotone wake counters.
    pub fn counters(&self) -> (counters: &AgentWakeCounters)
        ensures
            *counters == self@.counters,
    {
        &self.counters
    }

    /// The goal-window ledger, once a windowed admission opened one.
    pub fn window(&self) -> (window: Option<AgentWakeWindowLedger>)
        ensures
            window == self@.window,
    {
        self.window
    }

    /// The goal's durable lifecycle state.
    pub fn lifecycle(&self) -> (lifecycle: &AgentGoalLifecycleState)
        ensures
            lifecycle@ == self@.lifecycle,
    {
        &self.lifecycle
    }

    /// The deterministic backoff delay after `failures` consecutive failures.
    pub fn backoff_delay_millis(policy: &AgentWakeBackoffPolicy, failures: u32) -> (delay: u64)
        ensures
            delay == backoff_delay(*policy, failures as nat),
    {
        let mut delay: u64 = policy.initial_millis;
        let mut step: u32 = 1;
        while step < failures
            invariant
                1 <= step,
                failures > 1 ==> step <= failures,
                failures <= 1 ==> step == 1,
                delay == streak_delay(*policy, step as nat),
                step > 1 ==> delay < policy.max_millis,
            decreases failures - step,
        {
            let product: u64 = match delay.checked_mul(policy.multiplier_percent as u64) {
                Some(product) => product,
                None => u64::MAX,
            };
            delay = product / 100;
            if delay >= policy.max_millis {
                proof {
                    lemma_streak_reaches_ceiling_once(*policy, (step + 1) as nat, failures as nat);
                }
                return policy.max_millis;
            }
            step = step + 1;
        }
        if delay < policy.max_millis {
            delay
        } else {
            policy.max_millis
        }
    }
}

/// Once a streak's delay meets the ceiling it stays there.
proof fn lemma_streak_reaches_ceiling_once(
    policy: AgentWakeBackoffPolicy,
    reached: nat,
    failures: nat,
)
    requires
        reached <= failures,
    ensures
        reached >= 2 && streak_delay(policy, reached) == policy.max_millis ==> streak_delay(
            policy,
            failures,
        ) == policy.max_millis,
    decreases failures - reached,
{
    if reached >= 2 && streak_delay(policy, reached) == policy.max_millis && reached < failures {
        assert(streak_delay(policy, reached + 1) == policy.max_millis);
        lemma_streak_reaches_ceiling_once(policy, reached + 1, failures);
    }
}

/// The first bound a state exceeds.
pub open spec fn bounds_verdict(model: WakeModel) -> Result<(), AgentWakeError> {
    if model.active.len() > AGENT_WAKE_ACTIVE_CAPACITY {
        Err(AgentWakeError::StateOutOfBounds { detail: "active occurrences" })
    } else if model.pending.len() > AGENT_WAKE_PENDING_CAPACITY {
        Err(AgentWakeError::StateOutOfBounds { detail: "parked occurrences" })
    } else if model.recent.len() > AGENT_WAKE_RECENT_CAPACITY {
        Err(AgentWakeError::StateOutOfBounds { detail: "recent wake identities" })
    } else {
        Ok(())
    }
}

/// Whether a policy's goal window, if any, can be placed at a time.
pub open spec fn policy_covers(policy: AgentWakePolicy, now: AgentTimestampMillis) -> bool {
    policy.goal_window is Some ==> window_covers(policy.goal_window->Some_0.window, now)
}

impl WakeModel {
    /// Whether parking a binding would take a parked occurrence's place.
    pub open spec fn replaces(self, policy: AgentWakePolicy, binding: AgentWakeBinding) -> bool {
        match self.parking(policy, binding).1 {
            AgentWakeParked::Stored { replaced } => replaced is Some,
            AgentWakeParked::Overflow => false,
        }
    }

    /// Whether the counters that a delivery answered so moves, and no others, can
    /// move once more.
    pub open spec fn has_room_for(
        self,
        policy: AgentWakePolicy,
        binding: AgentWakeBinding,
        answer: AgentWakeDisposition,
    ) -> bool {
        let counters = self.counters;
        let superseding = self.replaces(policy, binding) ==> counters.superseded < u64::MAX;
        match answer {
            AgentWakeDisposition::Admitted { .. } => counters.admitted < u64::MAX,
            AgentWakeDisposition::AdmittedCoalesced { .. } => counters.admitted < u64::MAX,
            AgentWakeDisposition::Coalesced { .. } => counters.coalesced < u64::MAX && superseding,
            AgentWakeDisposition::Skipped { .. } => counters.missed < u64::MAX,
            AgentWakeDisposition::Deferred { .. } => counters.deferred < u64::MAX && superseding,
            AgentWakeDisposition::BackedOff { .. } => counters.backed_off < u64::MAX && superseding,
            AgentWakeDisposition::SuspendedParked { .. } => counters.suspended < u64::MAX
                && superseding,
            AgentWakeDisposition::Dropped { .. } => counters.dropped < u64::MAX,
            AgentWakeDisposition::Barred { .. } => counters.barred < u64::MAX,
            AgentWakeDisposition::Retried { .. } => counters.retried < u64::MAX,
            AgentWakeDisposition::Fenced { .. } => counters.fenced < u64::MAX,
            AgentWakeDisposition::Duplicate { .. } => true,
        }
    }

    /// After a binding was admitted if the goal window can pay for its epoch,
    /// and parked otherwise; with the answer to the delivery.
    pub open spec fn admitting_or_deferring(
        self,
        policy: AgentWakePolicy,
        binding: AgentWakeBinding,
        now: AgentTimestampMillis,
        coalesced: bool,
        representative: bool,
    ) -> (WakeModel, AgentWakeDisposition) {
        let paid = self.paying(policy, now);
        match self.refusal(policy, now) {
            None => (
                paid.admitting(binding, now, representative),
                admission_answer(binding, coalesced),
            ),
            Some(dimension) => {
                let (parked, landed) = paid.parking(policy, binding);
                match landed {
                    AgentWakeParked::Stored { replaced } => (
                        WakeModel {
                            counters: count_superseded(
                                AgentWakeCounters {
                                    deferred: (self.counters.deferred + 1) as u64,
                                    ..self.counters
                                },
                                replaced,
                            ),
                            ..parked
                        },
                        AgentWakeDisposition::Deferred { wake: *binding.spec_wake_id(), dimension },
                    ),
                    AgentWakeParked::Overflow => (
                        WakeModel { counters: count_missed(self.counters), ..parked },
                        AgentWakeDisposition::Skipped { wake: *binding.spec_wake_id() },
                    ),
                }
            },
        }
    }

    /// After a binding was parked behind the active occurrences.
    pub open spec fn coalescing(
        self,
        policy: AgentWakePolicy,
        binding: AgentWakeBinding,
    ) -> (WakeModel, AgentWakeDisposition) {
        let (parked, landed) = self.parking(policy, binding);
        match landed {
            AgentWakeParked::Stored { replaced } => (
                WakeModel {
                    counters: count_superseded(
                        AgentWakeCounters {
                            coalesced: (self.counters.coalesced + 1) as u64,
                            ..self.counters
                        },
                        replaced,
                    ),
                    ..parked
                },
                AgentWakeDisposition::Coalesced { wake: *binding.spec_wake_id(), replaced },
            ),
            AgentWakeParked::Overflow => (
                WakeModel { counters: count_missed(self.counters), ..parked },
                AgentWakeDisposition::Skipped { wake: *binding.spec_wake_id() },
            ),
        }
    }

    /// After a missed occurrence was skipped.
    pub open spec fn skipping(self, binding: AgentWakeBinding) -> (
        WakeModel,
        AgentWakeDisposition,
    ) {
        (
            WakeModel { counters: count_missed(self.counters), ..self.consuming(binding) },
            AgentWakeDisposition::Skipped { wake: *binding.spec_wake_id() },
        )
    }

    /// Whether an active slot is free.
    pub open spec fn has_free_slot(self, policy: AgentWakePolicy) -> bool {
        self.active.len() < active_limit(policy)
    }

    /// Whether a downtime backlog's representative is running.
    pub open spec fn runs_representative(self) -> bool {
        exists|i: int| 0 <= i < self.active.len() && (#[trigger] self.active[i]).representative
    }

    /// After an occurrence past the maximum lateness was placed by the
    /// missed-occurrence policy.
    pub open spec fn placing_missed(
        self,
        policy: AgentWakePolicy,
        binding: AgentWakeBinding,
        now: AgentTimestampMillis,
    ) -> (WakeModel, AgentWakeDisposition) {
        match policy.missed_occurrence {
            AgentMissedOccurrencePolicy::AdmitOneCoalesced => if self.has_free_slot(policy) {
                self.admitting_or_deferring(policy, binding, now, true, true)
            } else if self.runs_representative() {
                self.skipping(binding)
            } else {
                self.coalescing(policy, binding)
            },
            AgentMissedOccurrencePolicy::Skip => self.skipping(binding),
            AgentMissedOccurrencePolicy::BoundedCatchUp { .. } => if self.has_free_slot(policy) {
                self.admitting_or_deferring(policy, binding, now, true, false)
            } else {
                self.coalescing(policy, binding)
            },
        }
    }

    /// Whether placing an admittable occurrence asks the goal window to pay: a
    /// slot is free, and the occurrence is not skipped for its lateness.
    pub open spec fn spends(
        self,
        policy: AgentWakePolicy,
        binding: AgentWakeBinding,
        now: AgentTimestampMillis,
    ) -> bool {
        &&& self.has_free_slot(policy)
        &&& later_than(binding, policy.maximum_lateness_millis, now) ==> policy.missed_occurrence
            != AgentMissedOccurrencePolicy::Skip
    }

    /// After an admittable occurrence was placed by its time band.
    pub open spec fn placing(
        self,
        policy: AgentWakePolicy,
        binding: AgentWakeBinding,
        now: AgentTimestampMillis,
    ) -> (WakeModel, AgentWakeDisposition) {
        if later_than(binding, policy.maximum_lateness_millis, now) {
            self.placing_missed(policy, binding, now)
        } else if self.has_free_slot(policy) {
            self.admitting_or_deferring(
                policy,
                binding,
                now,
                later_than(binding, policy.admission_window_millis, now),
                false,
            )
        } else {
            self.coalescing(policy, binding)
        }
    }
}

impl AgentWakeControllerState {
    /// Remembers a dispositioned wake in the bounded recent ring.
    fn note_seen(&mut self, binding: &AgentWakeBinding)
        ensures
            final(self)@ == old(self)@.seeing(*binding),
    {
        self.recent.push(binding.wake_id().clone());
        if self.recent.len() > AGENT_WAKE_RECENT_CAPACITY {
            self.recent.remove(0);
        }
        assert(self@.recent =~= old(self)@.seeing(*binding).recent);
    }

    /// Remembers a consumed wake, advancing the scheduled watermark.
    fn note_consumed(&mut self, binding: &AgentWakeBinding)
        ensures
            final(self)@ == old(self)@.consuming(*binding),
    {
        self.note_seen(binding);
        if let AgentWakeOccurrence::Scheduled { due_at } = binding.occurrence() {
            let advanced = match self.scheduled_watermark {
                Some(watermark) => due_at.millis > watermark.millis,
                None => true,
            };
            if advanced {
                self.scheduled_watermark = Some(*due_at);
            }
        }
    }

    /// How many occurrences the policy lets run at once.
    fn active_capacity(policy: &AgentWakePolicy) -> (limit: usize)
        ensures
            limit == active_limit(*policy),
            limit <= AGENT_WAKE_ACTIVE_CAPACITY,
    {
        match &policy.overlap {
            AgentWakeOverlapPolicy::ForbidAndCoalesce => 1,
            AgentWakeOverlapPolicy::Parallel { max_concurrent_epochs, .. } => {
                let declared: usize = *max_concurrent_epochs as usize;
                if declared < AGENT_WAKE_ACTIVE_CAPACITY {
                    declared
                } else {
                    AGENT_WAKE_ACTIVE_CAPACITY
                }
            },
        }
    }

    /// How many occurrences the policy lets wait.
    fn pending_capacity(policy: &AgentWakePolicy) -> (limit: usize)
        ensures
            limit == pending_limit(*policy),
            limit <= AGENT_WAKE_PENDING_CAPACITY,
    {
        match policy.missed_occurrence {
            AgentMissedOccurrencePolicy::BoundedCatchUp { max_occurrences } => {
                let declared: usize = max_occurrences as usize;
                if declared < AGENT_WAKE_PENDING_CAPACITY {
                    declared
                } else {
                    AGENT_WAKE_PENDING_CAPACITY
                }
            },
            _ => 1,
        }
    }

    /// Parks one consumed binding without touching any counter.
    fn park_binding(&mut self, policy: &AgentWakePolicy, binding: AgentWakeBinding) -> (landed:
        AgentWakeParked)
        ensures
            (final(self)@, landed) == old(self)@.parking(*policy, binding),
    {
        self.note_consumed(&binding);
        let capacity: usize = Self::pending_capacity(policy);
        if self.pending.len() < capacity {
            self.pending.push(binding);
            AgentWakeParked::Stored { replaced: None }
        } else if capacity == 1 {
            let replaced = self.pending[0].wake_id().clone();
            self.pending.set(0, binding);
            AgentWakeParked::Stored { replaced: Some(replaced) }
        } else {
            AgentWakeParked::Overflow
        }
    }

    /// Admits a binding into an active slot.
    fn admit_binding(
        &mut self,
        binding: AgentWakeBinding,
        now: AgentTimestampMillis,
        coalesced: bool,
        representative: bool,
    ) -> (answer: AgentWakeDisposition)
        requires
            old(self)@.counters.admitted < u64::MAX,
        ensures
            final(self)@ == old(self)@.admitting(binding, now, representative),
            answer == admission_answer(binding, coalesced),
    {
        let wake = binding.wake_id().clone();
        self.note_consumed(&binding);
        self.active.push(
            AgentActiveWake { binding, admitted_at: now, representative, epoch: None },
        );
        self.last_admitted = Some(wake.clone());
        self.last_admitted_at = Some(now);
        self.counters.admitted = self.counters.admitted + 1;
        if coalesced {
            AgentWakeDisposition::AdmittedCoalesced { wake }
        } else {
            AgentWakeDisposition::Admitted { wake }
        }
    }

    /// Where the goal window that holds `now` starts.
    fn window_start_now(&self, ceiling: &AgentGoalWindowCeiling, now: AgentTimestampMillis) -> (start:
        AgentTimestampMillis)
        requires
            window_covers(ceiling.window, now),
        ensures
            start == self@.current_start(*ceiling, now),
    {
        match self.window {
            Some(ledger) => advance_window_start(&ceiling.window, ledger.window_start, now),
            None => initial_window_start(&ceiling.window, now),
        }
    }

    /// What the goal window that holds `now` has spent.
    fn spending_now(&self, ceiling: &AgentGoalWindowCeiling, now: AgentTimestampMillis) -> (spent:
        AgentBudgetConsumption)
        requires
            window_covers(ceiling.window, now),
        ensures
            spent == self@.current_spending(*ceiling, now),
    {
        let start = self.window_start_now(ceiling, now);
        match self.window {
            Some(ledger) => if ledger.window_start == start {
                ledger.consumed
            } else {
                AgentBudgetConsumption::zero()
            },
            None => AgentBudgetConsumption::zero(),
        }
    }

    /// Whether the goal window could pay for one epoch right now.
    pub fn window_can_pay(
        &self,
        ceiling: &AgentGoalWindowCeiling,
        epoch_budget: &AgentBudgetAllocation,
        now: AgentTimestampMillis,
    ) -> (result: bool)
        requires
            window_covers(ceiling.window, now),
        ensures
            result == (self@.window_refusal(*ceiling, *epoch_budget, now) is None),
    {
        let consumed = self.spending_now(ceiling, now);
        find_refused(&ceiling.ceiling, epoch_budget, &consumed).is_none()
    }

    /// Charges one epoch's allocation against the goal-window ceiling,
    /// refilling the window first when logical time crossed its boundary. The
    /// refill persists even when the charge is refused.
    pub fn charge_goal_window(
        &mut self,
        ceiling: &AgentGoalWindowCeiling,
        epoch_budget: &AgentBudgetAllocation,
        now: AgentTimestampMillis,
    ) -> (result: Result<(), AgentBudgetDimension>)
        requires
            window_covers(ceiling.window, now),
        ensures
            final(self)@ == old(self)@.charging(*ceiling, *epoch_budget, now),
            result == match old(self)@.window_refusal(*ceiling, *epoch_budget, now) {
                None => Ok::<(), AgentBudgetDimension>(()),
                Some(dimension) => Err(dimension),
            },
    {
        let window_start = self.window_start_now(ceiling, now);
        let consumed = self.spending_now(ceiling, now);
        match find_refused(&ceiling.ceiling, epoch_budget, &consumed) {
            Some(dimension) => {
                self.window = Some(AgentWakeWindowLedger { window_start, consumed });
                Err(dimension)
            },
            None => {
                let consumed = charge(&ceiling.ceiling, epoch_budget, consumed);
                self.window = Some(AgentWakeWindowLedger { window_start, consumed });
                Ok(())
            },
        }
    }

    /// Charges the policy's goal window, if any, for one epoch.
    fn pay_for_epoch(&mut self, policy: &AgentWakePolicy, now: AgentTimestampMillis) -> (refused: Option<
        AgentBudgetDimension,
    >)
        requires
            policy_covers(*policy, now),
        ensures
            final(self)@ == old(self)@.paying(*policy, now),
            refused == old(self)@.refusal(*policy, now),
    {
        match &policy.goal_window {
            Some(ceiling) => match self.charge_goal_window(ceiling, &policy.epoch_budget, now) {
                Ok(_) => None,
                Err(dimension) => Some(dimension),
            },
            None => None,
        }
    }

    /// Admits the binding when the goal window can pay for its epoch, and parks
    /// it as deferred otherwise.
    fn admit_or_defer(
        &mut self,
        policy: &AgentWakePolicy,
        binding: AgentWakeBinding,
        now: AgentTimestampMillis,
        coalesced: bool,
        representative: bool,
    ) -> (answer: AgentWakeDisposition)
        requires
            policy_covers(*policy, now),
            old(self)@.has_room_for(
                *policy,
                binding,
                old(self)@.admitting_or_deferring(
                    *policy,
                    binding,
                    now,
                    coalesced,
                    representative,
                ).1,
            ),
        ensures
            (final(self)@, answer) == old(self)@.admitting_or_deferring(
                *policy,
                binding,
                now,
                coalesced,
                representative,
            ),
    {
        match self.pay_for_epoch(policy, now) {
            None => self.admit_binding(binding, now, coalesced, representative),
            Some(dimension) => {
                let wake = binding.wake_id().clone();
                match self.park_binding(policy, binding) {
                    AgentWakeParked::Stored { replaced } => {
                        self.counters.deferred = self.counters.deferred + 1;
                        self.count_replaced(&replaced);
                        AgentWakeDisposition::Deferred { wake, dimension }
                    },
                    AgentWakeParked::Overflow => {
                        self.counters.missed = self.counters.missed + 1;
                        AgentWakeDisposition::Skipped { wake }
                    },
                }
            },
        }
    }

    /// Counts a parked occurrence that a later one replaced.
    fn count_replaced(&mut self, replaced: &Option<AgentWakeId>)
        requires
            *replaced is Some ==> old(self)@.counters.superseded < u64::MAX,
        ensures
            final(self)@ == (WakeModel {
                counters: count_superseded(old(self)@.counters, *replaced),
                ..old(self)@
            }),
    {
        if replaced.is_some() {
            self.counters.superseded = self.counters.superseded + 1;
        }
    }

    /// Parks a binding behind the active occurrences.
    fn coalesce(&mut self, policy: &AgentWakePolicy, binding: AgentWakeBinding) -> (answer:
        AgentWakeDisposition)
        requires
            old(self)@.has_room_for(
                *policy,
                binding,
                old(self)@.coalescing(*policy, binding).1,
            ),
        ensures
            (final(self)@, answer) == old(self)@.coalescing(*policy, binding),
    {
        let wake = binding.wake_id().clone();
        match self.park_binding(policy, binding) {
            AgentWakeParked::Stored { replaced } => {
                self.counters.coalesced = self.counters.coalesced + 1;
                self.count_replaced(&replaced);
                AgentWakeDisposition::Coalesced { wake, replaced }
            },
            AgentWakeParked::Overflow => {
                self.counters.missed = self.counters.missed + 1;
                AgentWakeDisposition::Skipped { wake }
            },
        }
    }

    /// Skips a missed occurrence.
    fn skip(&mut self, binding: &AgentWakeBinding) -> (answer: AgentWakeDisposition)
        requires
            old(self)@.counters.missed < u64::MAX,
        ensures
            (final(self)@, answer) == old(self)@.skipping(*binding),
    {
        self.note_consumed(binding);
        self.counters.missed = self.counters.missed + 1;
        AgentWakeDisposition::Skipped { wake: binding.wake_id().clone() }
    }

    /// Whether a downtime backlog's representative is running.
    fn has_representative(&self) -> (result: bool)
        ensures
            result == self@.runs_representative(),
    {
        let mut i: usize = 0;
        while i < self.active.len()
            invariant
                i <= self.active.len(),
                forall|k: int| 0 <= k < i ==> !(#[trigger] self@.active[k]).representative,
            decreases self.active.len() - i,
        {
            if self.active[i].representative {
                assert(self@.active[i as int].representative);
                return true;
            }
            i = i + 1;
        }
        false
    }

    /// Places an occurrence past the maximum lateness by the missed-occurrence
    /// policy.
    fn dispose_missed(
        &mut self,
        policy: &AgentWakePolicy,
        binding: AgentWakeBinding,
        now: AgentTimestampMillis,
    ) -> (answer: AgentWakeDisposition)
        requires
            old(self)@.has_free_slot(*policy) && policy.missed_occurrence
                != AgentMissedOccurrencePolicy::Skip ==> policy_covers(*policy, now),
            old(self)@.has_room_for(
                *policy,
                binding,
                old(self)@.placing_missed(*policy, binding, now).1,
            ),
        ensures
            (final(self)@, answer) == old(self)@.placing_missed(*policy, binding, now),
    {
        match policy.missed_occurrence {
            AgentMissedOccurrencePolicy::AdmitOneCoalesced => {
                if self.active.len() < Self::active_capacity(policy) {
                    self.admit_or_defer(policy, binding, now, true, true)
                } else if self.has_representative() {
                    self.skip(&binding)
                } else {
                    self.coalesce(policy, binding)
                }
            },
            AgentMissedOccurrencePolicy::Skip => self.skip(&binding),
            AgentMissedOccurrencePolicy::BoundedCatchUp { .. } => {
                if self.active.len() < Self::active_capacity(policy) {
                    self.admit_or_defer(policy, binding, now, true, false)
                } else {
                    self.coalesce(policy, binding)
                }
            },
        }
    }

    /// Whether a binding is later than a bound allows.
    fn is_later_than(binding: &AgentWakeBinding, bound: Option<u64>, now: AgentTimestampMillis) -> (result:
        bool)
        ensures
            result == later_than(*binding, bound, now),
    {
        match (binding.due_at(), bound) {
            (Some(due), Some(bound)) => now.millis.saturating_sub(due.millis) > bound,
            _ => false,
        }
    }

    /// Whether the occurrence is past the policy's maximum lateness.
    pub fn past_maximum_lateness(
        policy: &AgentWakePolicy,
        binding: &AgentWakeBinding,
        now: AgentTimestampMillis,
    ) -> (result: bool)
        ensures
            result == later_than(*binding, policy.maximum_lateness_millis, now),
    {
        Self::is_later_than(binding, policy.maximum_lateness_millis, now)
    }

    /// Places an admittable occurrence by its time band: within the admission
    /// window it is fresh, up to the maximum lateness it coalesces, and past it
    /// the missed-occurrence policy decides.
    fn place(
        &mut self,
        policy: &AgentWakePolicy,
        binding: AgentWakeBinding,
        now: AgentTimestampMillis,
    ) -> (answer: AgentWakeDisposition)
        requires
            old(self)@.spends(*policy, binding, now) ==> policy_covers(*policy, now),
            old(self)@.has_room_for(
                *policy,
                binding,
                old(self)@.placing(*policy, binding, now).1,
            ),
        ensures
            (final(self)@, answer) == old(self)@.placing(*policy, binding, now),
    {
        if Self::past_maximum_lateness(policy, &binding, now) {
            return self.dispose_missed(policy, binding, now);
        }
        let past_window = Self::is_later_than(&binding, policy.admission_window_millis, now);
        if self.active.len() < Self::active_capacity(policy) {
            self.admit_or_defer(policy, binding, now, past_window, false)
        } else {
            self.coalesce(policy, binding)
        }
    }

    /// Whether the failure backoff is in force at this logical time.
    fn backoff_in_force(&self, now: AgentTimestampMillis) -> (result: bool)
        ensures
            result == self@.lifecycle.backing_off(now),
    {
        match self.lifecycle.backoff_until {
            Some(until) => now.millis < until.millis,
            None => false,
        }
    }

    /// Whether the controller already holds or recently dispositioned a wake.
    pub fn contains(&self, wake: &AgentWakeId) -> (result: bool)
        ensures
            result == self@.knows(wake@),
    {
        let mut i: usize = 0;
        while i < self.active.len()
            invariant
                i <= self.active.len(),
                forall|k: int|
                    0 <= k < i ==> (#[trigger] self@.active[k]).binding.spec_wake_id()@ != wake@,
            decreases self.active.len() - i,
        {
            if self.active[i].binding.wake_id().same(wake) {
                assert(self@.active[i as int].binding.spec_wake_id()@ == wake@);
                return true;
            }
            i = i + 1;
        }
        let mut j: usize = 0;
        while j < self.pending.len()
            invariant
                j <= self.pending.len(),
                forall|k: int| 0 <= k < j ==> (#[trigger] self@.pending[k]).spec_wake_id()@ != wake@,
            decreases self.pending.len() - j,
        {
            if self.pending[j].wake_id().same(wake) {
                assert(self@.pending[j as int].spec_wake_id()@ == wake@);
                return true;
            }
            j = j + 1;
        }
        let mut n: usize = 0;
        while n < self.recent.len()
            invariant
                n <= self.recent.len(),
                forall|k: int| 0 <= k < n ==> (#[trigger] self@.recent[k])@ != wake@,
            decreases self.recent.len() - n,
        {
            if self.recent[n].same(wake) {
                assert(self@.recent[n as int]@ == wake@);
                return true;
            }
            n = n + 1;
        }
        match &self.last_admitted {
            Some(last) => last.same(wake),
            None => false,
        }
    }
}

/// One re-wake slot after the retry of one of its generations was consumed: a
/// retry of the generation in the slot re-arms it under the next one.
pub open spec fn rearmed_slot(
    slot: Option<AgentWakeRewake>,
    due_at: AgentTimestampMillis,
    attempt: u64,
) -> Option<AgentWakeRewake> {
    match slot {
        Some(rewake) => if rewake.due_at == due_at && rewake.attempt == attempt {
            Some(
                AgentWakeRewake {
                    due_at,
                    parked: false,
                    attempt: crate::budget::saturating_sum(attempt, 1),
                },
            )
        } else {
            slot
        },
        None => None,
    }
}

/// One re-wake slot after a timer entry of one of its generations was parked.
pub open spec fn parked_slot(
    slot: Option<AgentWakeRewake>,
    due_at: AgentTimestampMillis,
    attempt: u64,
) -> Option<AgentWakeRewake> {
    match slot {
        Some(rewake) => if rewake.due_at == due_at && rewake.attempt == attempt {
            Some(AgentWakeRewake { parked: true, ..rewake })
        } else {
            slot
        },
        None => None,
    }
}

fn rearm_slot(
    slot: Option<AgentWakeRewake>,
    due_at: AgentTimestampMillis,
    attempt: u64,
) -> (rearmed: Option<AgentWakeRewake>)
    ensures
        rearmed == rearmed_slot(slot, due_at, attempt),
{
    match slot {
        Some(rewake) => if rewake.due_at == due_at && rewake.attempt == attempt {
            Some(
                AgentWakeRewake { due_at, parked: false, attempt: rewake.attempt.saturating_add(1) },
            )
        } else {
            Some(rewake)
        },
        None => None,
    }
}

fn park_slot(
    slot: Option<AgentWakeRewake>,
    due_at: AgentTimestampMillis,
    attempt: u64,
) -> (parked: Option<AgentWakeRewake>)
    ensures
        parked == parked_slot(slot, due_at, attempt),
{
    match slot {
        Some(rewake) => if rewake.due_at == due_at && rewake.attempt == attempt {
            Some(AgentWakeRewake { due_at, parked: true, attempt })
        } else {
            Some(rewake)
        },
        None => None,
    }
}

impl LifecycleModel {
    /// The lifecycle with other re-wake slots.
    pub open spec fn with_rewakes(self, rewakes: AgentWakeRewakes) -> LifecycleModel {
        LifecycleModel { rewakes, ..self }
    }
}

impl WakeModel {
    /// After a controller-originated retry was consumed.
    pub open spec fn consuming_retry(
        self,
        binding: AgentWakeBinding,
        due_at: AgentTimestampMillis,
        cause: AgentWakeRewakeCause,
        attempt: u64,
    ) -> WakeModel {
        let rewakes = self.lifecycle.rewakes;
        WakeModel {
            counters: AgentWakeCounters {
                retried: (self.counters.retried + 1) as u64,
                ..self.counters
            },
            lifecycle: self.lifecycle.with_rewakes(
                match cause {
                    AgentWakeRewakeCause::Backoff => AgentWakeRewakes {
                        backoff: rearmed_slot(rewakes.backoff, due_at, attempt),
                        ..rewakes
                    },
                    AgentWakeRewakeCause::WindowTurn => AgentWakeRewakes {
                        window_turn: rearmed_slot(rewakes.window_turn, due_at, attempt),
                        ..rewakes
                    },
                },
            ),
            ..self.seeing(binding)
        }
    }

    /// After an occurrence was parked for a stated cause: its counter moved by
    /// `counted`, unless the catch-up queue was full.
    pub open spec fn parking_for(
        self,
        policy: AgentWakePolicy,
        binding: AgentWakeBinding,
        counted: AgentWakeCounters,
        answer: AgentWakeDisposition,
    ) -> (WakeModel, AgentWakeDisposition) {
        let (parked, landed) = self.parking(policy, binding);
        match landed {
            AgentWakeParked::Stored { replaced } => (
                WakeModel { counters: count_superseded(counted, replaced), ..parked },
                answer,
            ),
            AgentWakeParked::Overflow => (
                WakeModel { counters: count_missed(self.counters), ..parked },
                AgentWakeDisposition::Skipped { wake: *binding.spec_wake_id() },
            ),
        }
    }

    /// Whether a scheduled occurrence is at or below the watermark.
    pub open spec fn is_behind_watermark(self, binding: AgentWakeBinding) -> bool {
        match *binding.spec_occurrence() {
            AgentWakeOccurrence::Scheduled { due_at } => self.scheduled_watermark is Some
                && due_at.millis <= self.scheduled_watermark->Some_0.millis,
            _ => false,
        }
    }

    /// After a delivery was dispositioned, with its answer, or with the error
    /// that refused it and left the state alone.
    ///
    /// In this order: a revision ahead of the schedule, a retry that is not the
    /// controller's, and a trigger the policy does not allow are refused; a wake
    /// the controller knows is a duplicate; an obsolete revision is fenced; a
    /// retry is consumed; a scheduled occurrence behind the watermark is a
    /// duplicate; an absorbing lifecycle bars, a suspended one parks or drops, a
    /// backoff parks; and what is left is placed by its time band.
    pub open spec fn dispositioning(
        self,
        policy: AgentWakePolicy,
        current: ScheduleRevision,
        binding: AgentWakeBinding,
        now: AgentTimestampMillis,
    ) -> (WakeModel, Result<AgentWakeDisposition, AgentWakeError>) {
        let wake = *binding.spec_wake_id();
        let offered = binding.spec_schedule_revision();
        let trigger = binding.spec_trigger();
        let retry = *binding.spec_occurrence() is Retry;
        if offered.number() > current.number() {
            (self, Err(AgentWakeError::RevisionAhead { offered, current }))
        } else if retry != (trigger == AgentWakeTriggerKind::Controller) {
            (self, Err(AgentWakeError::RetryTriggerMismatch { trigger }))
        } else if !retry && !policy.triggers@.contains(trigger) {
            (self, Err(AgentWakeError::TriggerNotAllowed { trigger }))
        } else {
            let (next, answer) = self.answering(policy, current, binding, now);
            (next, Ok(answer))
        }
    }

    /// Whether a delivery asks the goal window to pay for an epoch: it is
    /// accepted, new, current and no retry, the goal is active and not backing
    /// off, and its placing spends.
    pub open spec fn consults_window(
        self,
        policy: AgentWakePolicy,
        current: ScheduleRevision,
        binding: AgentWakeBinding,
        now: AgentTimestampMillis,
    ) -> bool {
        &&& policy.triggers@.contains(binding.spec_trigger())
        &&& binding.spec_trigger() != AgentWakeTriggerKind::Controller
        &&& !(*binding.spec_occurrence() is Retry)
        &&& binding.spec_schedule_revision().number() == current.number()
        &&& !self.knows(binding.spec_wake_id()@)
        &&& !self.is_behind_watermark(binding)
        &&& self.lifecycle.status == AgentGoalLifecycleStatus::Active
        &&& !self.lifecycle.backing_off(now)
        &&& self.spends(policy, binding, now)
    }

    /// Whether the counters that a delivery moves can move once more.
    pub open spec fn can_count(
        self,
        policy: AgentWakePolicy,
        current: ScheduleRevision,
        binding: AgentWakeBinding,
        now: AgentTimestampMillis,
    ) -> bool {
        match self.dispositioning(policy, current, binding, now).1 {
            Ok(answer) => self.has_room_for(policy, binding, answer),
            Err(_) => true,
        }
    }

    /// After an acceptable delivery was dispositioned, with its answer.
    pub open spec fn answering(
        self,
        policy: AgentWakePolicy,
        current: ScheduleRevision,
        binding: AgentWakeBinding,
        now: AgentTimestampMillis,
    ) -> (WakeModel, AgentWakeDisposition) {
        let wake = *binding.spec_wake_id();
        let offered = binding.spec_schedule_revision();
        if self.knows(wake@) {
            (self, AgentWakeDisposition::Duplicate { wake })
        } else if offered.number() < current.number() {
            (
                WakeModel {
                    counters: AgentWakeCounters {
                        fenced: (self.counters.fenced + 1) as u64,
                        ..self.counters
                    },
                    ..self.seeing(binding)
                },
                AgentWakeDisposition::Fenced { wake, offered, current },
            )
        } else {
            match *binding.spec_occurrence() {
                AgentWakeOccurrence::Retry { due_at, cause, attempt } => (
                    self.consuming_retry(binding, due_at, cause, attempt),
                    AgentWakeDisposition::Retried { wake },
                ),
                _ => if self.is_behind_watermark(binding) {
                    (self, AgentWakeDisposition::Duplicate { wake })
                } else {
                    self.gating(policy, binding, now)
                },
            }
        }
    }

    /// After a fresh occurrence passed or met the lifecycle and backoff gates.
    pub open spec fn gating(
        self,
        policy: AgentWakePolicy,
        binding: AgentWakeBinding,
        now: AgentTimestampMillis,
    ) -> (WakeModel, AgentWakeDisposition) {
        let wake = *binding.spec_wake_id();
        match self.lifecycle.status {
            AgentGoalLifecycleStatus::Suspended => match policy.lifecycle.while_suspended {
                AgentWakeSuspensionPolicy::CoalesceLatest => self.parking_for(
                    policy,
                    binding,
                    AgentWakeCounters {
                        suspended: (self.counters.suspended + 1) as u64,
                        ..self.counters
                    },
                    AgentWakeDisposition::SuspendedParked { wake },
                ),
                AgentWakeSuspensionPolicy::Drop => (
                    WakeModel {
                        counters: AgentWakeCounters {
                            dropped: (self.counters.dropped + 1) as u64,
                            ..self.counters
                        },
                        ..self.consuming(binding)
                    },
                    AgentWakeDisposition::Dropped { wake },
                ),
            },
            AgentGoalLifecycleStatus::Active => if self.lifecycle.backing_off(now) {
                self.parking_for(
                    policy,
                    binding,
                    AgentWakeCounters {
                        backed_off: (self.counters.backed_off + 1) as u64,
                        ..self.counters
                    },
                    AgentWakeDisposition::BackedOff {
                        wake,
                        until: self.lifecycle.backoff_until->Some_0,
                    },
                )
            } else {
                self.placing(policy, binding, now)
            },
            status => (
                WakeModel {
                    counters: AgentWakeCounters {
                        barred: (self.counters.barred + 1) as u64,
                        ..self.counters
                    },
                    ..self.seeing(binding)
                },
                AgentWakeDisposition::Barred { wake, status },
            ),
        }
    }

    /// Whether the oldest parked occurrence may be promoted now: the lifecycle
    /// admits, no backoff is in force, one waits and a slot is free.
    pub open spec fn may_promote(self, policy: AgentWakePolicy, now: AgentTimestampMillis) -> bool {
        &&& self.lifecycle.status == AgentGoalLifecycleStatus::Active
        &&& !self.lifecycle.backing_off(now)
        &&& self.pending.len() > 0
        &&& self.has_free_slot(policy)
    }

    /// After the oldest parked occurrence was promoted into a free slot, if it
    /// may be and the goal window can pay for it; with the promoted wake.
    pub open spec fn promoting(
        self,
        policy: AgentWakePolicy,
        now: AgentTimestampMillis,
    ) -> (WakeModel, Option<AgentWakeId>) {
        if !self.may_promote(policy, now) {
            (self, None)
        } else if self.refusal(policy, now) is Some {
            (self.paying(policy, now), None)
        } else {
            let oldest = self.pending[0];
            let waiting = WakeModel {
                pending: self.pending.drop_first(),
                ..self.paying(policy, now)
            };
            (
                waiting.admitting(
                    oldest,
                    now,
                    policy.missed_occurrence == AgentMissedOccurrencePolicy::AdmitOneCoalesced
                        && later_than(oldest, policy.maximum_lateness_millis, now),
                ),
                Some(*oldest.spec_wake_id()),
            )
        }
    }

    /// After an active occurrence was taken out of its slot.
    pub open spec fn freeing(self, position: int) -> WakeModel {
        WakeModel {
            active: self.active.remove(position),
            counters: AgentWakeCounters {
                released: (self.counters.released + 1) as u64,
                ..self.counters
            },
            ..self
        }
    }

    /// After a schedule update: every parked occurrence of an older revision is
    /// gone, and the watermark starts over.
    pub open spec fn rescheduling(self, current: ScheduleRevision) -> WakeModel {
        let kept = self.pending.filter(
            |binding: AgentWakeBinding|
                binding.spec_schedule_revision().number() >= current.number(),
        );
        WakeModel {
            pending: kept,
            scheduled_watermark: None,
            counters: AgentWakeCounters {
                fenced: (self.counters.fenced + (self.pending.len() - kept.len())) as u64,
                ..self.counters
            },
            ..self
        }
    }
}

impl AgentWakeControllerState {
    /// Dispositions one wake delivery under the policy and schedule revision in
    /// force.
    pub fn admit_wake(
        &mut self,
        policy: &AgentWakePolicy,
        current_revision: ScheduleRevision,
        binding: AgentWakeBinding,
        now: AgentTimestampMillis,
    ) -> (result: Result<AgentWakeDisposition, AgentWakeError>)
        requires
            old(self)@.consults_window(*policy, current_revision, binding, now) ==> policy_covers(
                *policy,
                now,
            ),
            old(self)@.can_count(*policy, current_revision, binding, now),
        ensures
            (final(self)@, result) == old(self)@.dispositioning(
                *policy,
                current_revision,
                binding,
                now,
            ),
    {
        let offered = binding.schedule_revision();
        if offered.get() > current_revision.get() {
            return Err(AgentWakeError::RevisionAhead { offered, current: current_revision });
        }
        let retry = matches!(binding.occurrence(), AgentWakeOccurrence::Retry { .. });
        let controller_trigger = binding.trigger() == AgentWakeTriggerKind::Controller;
        if retry != controller_trigger {
            return Err(AgentWakeError::RetryTriggerMismatch { trigger: binding.trigger() });
        }
        if !controller_trigger && !policy.allows_trigger(binding.trigger()) {
            return Err(AgentWakeError::TriggerNotAllowed { trigger: binding.trigger() });
        }
        let wake = binding.wake_id().clone();
        if self.contains(&wake) {
            return Ok(AgentWakeDisposition::Duplicate { wake });
        }
        if offered.get() < current_revision.get() {
            self.note_seen(&binding);
            self.counters.fenced = self.counters.fenced + 1;
            return Ok(AgentWakeDisposition::Fenced { wake, offered, current: current_revision });
        }
        if let AgentWakeOccurrence::Retry { due_at, cause, attempt } = binding.occurrence() {
            self.note_seen(&binding);
            self.counters.retried = self.counters.retried + 1;
            let rewakes = self.lifecycle.rewakes;
            match cause {
                AgentWakeRewakeCause::Backoff => {
                    self.lifecycle.rewakes =
                    AgentWakeRewakes {
                        backoff: rearm_slot(rewakes.backoff, *due_at, *attempt),
                        window_turn: rewakes.window_turn,
                    };
                },
                AgentWakeRewakeCause::WindowTurn => {
                    self.lifecycle.rewakes =
                    AgentWakeRewakes {
                        backoff: rewakes.backoff,
                        window_turn: rearm_slot(rewakes.window_turn, *due_at, *attempt),
                    };
                },
            }
            return Ok(AgentWakeDisposition::Retried { wake });
        }
        if let AgentWakeOccurrence::Scheduled { due_at } = binding.occurrence() {
            if let Some(watermark) = self.scheduled_watermark {
                if due_at.millis <= watermark.millis {
                    return Ok(AgentWakeDisposition::Duplicate { wake });
                }
            }
        }
        match self.lifecycle.status {
            AgentGoalLifecycleStatus::Active => {},
            AgentGoalLifecycleStatus::Suspended => {
                return Ok(
                    match policy.lifecycle.while_suspended {
                        AgentWakeSuspensionPolicy::CoalesceLatest => {
                            match self.park_binding(policy, binding) {
                                AgentWakeParked::Stored { replaced } => {
                                    self.counters.suspended = self.counters.suspended + 1;
                                    self.count_replaced(&replaced);
                                    AgentWakeDisposition::SuspendedParked { wake }
                                },
                                AgentWakeParked::Overflow => {
                                    self.counters.missed = self.counters.missed + 1;
                                    AgentWakeDisposition::Skipped { wake }
                                },
                            }
                        },
                        AgentWakeSuspensionPolicy::Drop => {
                            self.note_consumed(&binding);
                            self.counters.dropped = self.counters.dropped + 1;
                            AgentWakeDisposition::Dropped { wake }
                        },
                    },
                );
            },
            status => {
                self.note_seen(&binding);
                self.counters.barred = self.counters.barred + 1;
                return Ok(AgentWakeDisposition::Barred { wake, status });
            },
        }
        if let Some(until) = self.lifecycle.backoff_until {
            if now.millis < until.millis {
                return Ok(
                    match self.park_binding(policy, binding) {
                        AgentWakeParked::Stored { replaced } => {
                            self.counters.backed_off = self.counters.backed_off + 1;
                            self.count_replaced(&replaced);
                            AgentWakeDisposition::BackedOff { wake, until }
                        },
                        AgentWakeParked::Overflow => {
                            self.counters.missed = self.counters.missed + 1;
                            AgentWakeDisposition::Skipped { wake }
                        },
                    },
                );
            }
        }
        Ok(self.place(policy, binding, now))
    }

    /// Promotes the oldest parked occurrence into a free active slot when the
    /// goal window can pay for its epoch, returning the promoted wake.
    pub fn promote_admittable(&mut self, policy: &AgentWakePolicy, now: AgentTimestampMillis) -> (promoted: Option<
        AgentWakeId,
    >)
        requires
            old(self)@.may_promote(*policy, now) ==> policy_covers(*policy, now) && old(
                self,
            )@.counters.admitted < u64::MAX,
        ensures
            (final(self)@, promoted) == old(self)@.promoting(*policy, now),
    {
        if !self.lifecycle.status.permits_admission() || self.backoff_in_force(now) {
            return None;
        }
        if self.pending.len() == 0 || self.active.len() >= Self::active_capacity(policy) {
            return None;
        }
        if self.pay_for_epoch(policy, now).is_some() {
            return None;
        }
        let binding = self.pending.remove(0);
        let wake = binding.wake_id().clone();
        let one_coalesced = matches!(
            policy.missed_occurrence,
            AgentMissedOccurrencePolicy::AdmitOneCoalesced
        );
        let representative = one_coalesced && Self::past_maximum_lateness(policy, &binding, now);
        proof {
            assert(self@.pending =~= old(self)@.pending.drop_first());
        }
        self.admit_binding(binding, now, true, representative);
        Some(wake)
    }

    /// The position of the first active occurrence of a wake.
    fn find_active(&self, wake: &AgentWakeId) -> (position: usize)
        ensures
            position == active_position(self@.active, wake@, 0),
            position < self.active@.len() <==> active_holds(self@.active, wake@),
            position <= self.active@.len(),
    {
        let mut i: usize = 0;
        while i < self.active.len()
            invariant
                i <= self.active.len(),
                active_position(self@.active, wake@, 0) == active_position(
                    self@.active,
                    wake@,
                    i as nat,
                ),
                forall|k: int|
                    0 <= k < i ==> (#[trigger] self@.active[k]).binding.spec_wake_id()@ != wake@,
            decreases self.active.len() - i,
        {
            if self.active[i].binding.wake_id().same(wake) {
                assert(self@.active[i as int].binding.spec_wake_id()@ == wake@);
                return i;
            }
            i = i + 1;
        }
        i
    }

    /// Releases an active occurrence, promoting the oldest parked occurrence
    /// into the freed slot when the goal window can pay for its epoch.
    pub fn release(
        &mut self,
        policy: &AgentWakePolicy,
        wake: &AgentWakeId,
        now: AgentTimestampMillis,
    ) -> (result: Result<AgentWakeRelease, AgentWakeError>)
        requires
            active_holds(old(self)@.active, wake@) ==> {
                let freed = old(self)@.freeing(
                    active_position(old(self)@.active, wake@, 0) as int,
                );
                &&& old(self)@.counters.released < u64::MAX
                &&& freed.may_promote(*policy, now) ==> policy_covers(*policy, now)
                    && freed.counters.admitted < u64::MAX
            },
        ensures
            !active_holds(old(self)@.active, wake@) ==> final(self)@ == old(self)@ && result
                == Err::<AgentWakeRelease, _>(AgentWakeError::NotActive { wake: *wake }),
            active_holds(old(self)@.active, wake@) ==> ({
                let position = active_position(old(self)@.active, wake@, 0) as int;
                let (next, promoted) = old(self)@.freeing(position).promoting(*policy, now);
                &&& final(self)@ == next
                &&& result == Ok::<_, AgentWakeError>(
                    AgentWakeRelease {
                        released: *wake,
                        admitted_next: promoted,
                        epoch: old(self)@.active[position].epoch,
                    },
                )
            }),
    {
        let index: usize = self.find_active(wake);
        if index >= self.active.len() {
            return Err(AgentWakeError::NotActive { wake: wake.clone() });
        }
        let released = self.active.remove(index);
        self.counters.released = self.counters.released + 1;
        let admitted_next = self.promote_admittable(policy, now);
        Ok(AgentWakeRelease { released: wake.clone(), admitted_next, epoch: released.epoch })
    }

    /// Attaches the finite child epoch an admitting transition created to its
    /// active occurrence.
    pub fn attach_epoch(&mut self, wake: &AgentWakeId, epoch: AgentEpochRef) -> (result: Result<
        (),
        AgentWakeError,
    >)
        ensures
            !active_holds(old(self)@.active, wake@) ==> final(self)@ == old(self)@ && result
                == Err::<(), _>(AgentWakeError::NotActive { wake: *wake }),
            active_holds(old(self)@.active, wake@) ==> ({
                let position = active_position(old(self)@.active, wake@, 0) as int;
                &&& result == Ok::<(), AgentWakeError>(())
                &&& final(self)@ == (WakeModel {
                    active: old(self)@.active.update(
                        position,
                        AgentActiveWake { epoch: Some(epoch), ..old(self)@.active[position] },
                    ),
                    ..old(self)@
                })
            }),
    {
        let index: usize = self.find_active(wake);
        if index >= self.active.len() {
            return Err(AgentWakeError::NotActive { wake: wake.clone() });
        }
        self.active[index].epoch = Some(epoch);
        Ok(())
    }

    /// Takes a schedule update into the controller: fences every parked
    /// occurrence of an older revision and resets the watermark, returning how
    /// many were fenced. Active occurrences are untouched.
    pub fn apply_schedule_update(&mut self, current_revision: ScheduleRevision) -> (fenced: u64)
        requires
            old(self)@.counters.fenced + old(self)@.pending.len() <= u64::MAX,
        ensures
            final(self)@ == old(self)@.rescheduling(current_revision),
            fenced == old(self)@.pending.len() - final(self)@.pending.len(),
    {
        let ghost issued = |binding: AgentWakeBinding|
            binding.spec_schedule_revision().number() >= current_revision.number();
        let ghost before = self.pending@;
        let ghost start = self@;
        let mut fenced: u64 = 0;
        let mut i: usize = 0;
        let ghost mut seen: int = 0;
        proof {
            assert(before.subrange(0, 0).filter(issued) =~= Seq::<AgentWakeBinding>::empty()) by {
                reveal(Seq::filter);
            }
            assert(before.subrange(0, before.len() as int) =~= before);
            assert(self.pending@.subrange(0, 0) =~= Seq::<AgentWakeBinding>::empty());
        }
        while i < self.pending.len()
            invariant
                0 <= seen <= before.len(),
                before.len() <= u64::MAX,
                i <= self.pending@.len(),
                self.pending@.len() - i == before.len() - seen,
                fenced == seen - i,
                issued == (|binding: AgentWakeBinding|
                    binding.spec_schedule_revision().number() >= current_revision.number()),
                self.pending@.subrange(0, i as int) == before.subrange(0, seen).filter(issued),
                self.pending@.subrange(i as int, self.pending@.len() as int) == before.subrange(
                    seen,
                    before.len() as int,
                ),
                self@ == (WakeModel { pending: self.pending@, ..start }),
                before == start.pending,
            decreases self.pending@.len() - i,
        {
            let ghost held = self.pending@;
            let ghost tail = held.subrange(i as int, held.len() as int);
            proof {
                assert(tail.drop_first() =~= before.subrange(seen + 1, before.len() as int)) by {
                    assert(tail == before.subrange(seen, before.len() as int));
                }
                assert(held[i as int] == held.subrange(i as int, held.len() as int)[0]);
                assert(held[i as int] == before[seen]);
                assert(before.subrange(0, seen + 1) =~= before.subrange(0, seen).push(
                    before[seen],
                ));
                lemma_filter_push(before.subrange(0, seen), before[seen], issued);
            }
            if self.pending[i].schedule_revision().get() >= current_revision.get() {
                i = i + 1;
            } else {
                self.pending.remove(i);
                fenced = fenced + 1;
            }
            proof {
                assert(self.pending@.subrange(0, i as int) =~= before.subrange(
                    0,
                    seen + 1,
                ).filter(issued));
                assert(self.pending@.subrange(i as int, self.pending@.len() as int)
                    =~= tail.drop_first());
                seen = seen + 1;
            }
        }
        proof {
            assert(seen == before.len());
            assert(before.subrange(0, before.len() as int) =~= before);
            assert(self.pending@.subrange(0, i as int) =~= self.pending@);
        }
        self.counters.fenced = self.counters.fenced + fenced;
        self.scheduled_watermark = None;
        fenced
    }
}

/// Filtering one more element keeps it or not.
proof fn lemma_filter_push<A>(elements: Seq<A>, last: A, keep: spec_fn(A) -> bool)
    ensures
        elements.push(last).filter(keep) == if keep(last) {
            elements.filter(keep).push(last)
        } else {
            elements.filter(keep)
        },
{
    reveal(Seq::filter);
    assert(elements.push(last).drop_last() =~= elements);
}

impl WakeModel {
    /// The absorbing status logical time has made true, if any: retirement by
    /// count or by time, and then expiry.
    pub open spec fn crossed_status(
        self,
        policy: AgentWakePolicy,
        now: AgentTimestampMillis,
    ) -> Option<AgentGoalLifecycleStatus> {
        let retired = match policy.lifecycle.retirement {
            AgentWakeRetirementPolicy::Manual => false,
            AgentWakeRetirementPolicy::AfterOccurrences { occurrences } => self.counters.admitted
                >= occurrences,
            AgentWakeRetirementPolicy::At { at } => now.millis >= at.millis,
        };
        let expiry = self.lifecycle.effective_expiry(policy.lifecycle);
        if self.lifecycle.status.absorbs() {
            None
        } else if retired {
            Some(AgentGoalLifecycleStatus::Retired)
        } else if expiry is Some && now.millis >= expiry->Some_0.millis {
            Some(AgentGoalLifecycleStatus::Expired)
        } else {
            None
        }
    }

    /// After the lifecycle took a status under the next revision, owing no
    /// re-wakes.
    pub open spec fn taking_status(self, status: AgentGoalLifecycleStatus) -> WakeModel {
        WakeModel {
            lifecycle: LifecycleModel {
                status,
                lifecycle_revision: self.lifecycle.lifecycle_revision.successor(),
                rewakes: AgentWakeRewakes::none(),
                ..self.lifecycle
            },
            ..self
        }
    }

    /// Why a lifecycle command with an expected revision is refused: an
    /// absorbing status accepts none, and a moved revision fences it.
    pub open spec fn fence(self, expected: AgentRevisionNumber) -> Option<AgentWakeError> {
        if self.lifecycle.status.absorbs() {
            Some(AgentWakeError::LifecycleTerminal { status: self.lifecycle.status })
        } else if expected != self.lifecycle.lifecycle_revision {
            Some(
                AgentWakeError::StaleLifecycleRevision {
                    expected,
                    current: self.lifecycle.lifecycle_revision,
                },
            )
        } else {
            None
        }
    }

    /// After an accepted suspension.
    pub open spec fn suspending(
        self,
        reason: Option<Seq<char>>,
        provenance: AgentRevisionProvenance,
    ) -> WakeModel {
        let taken = self.taking_status(AgentGoalLifecycleStatus::Suspended);
        WakeModel {
            lifecycle: LifecycleModel {
                suspended_reason: match reason {
                    Some(reason) => Some(
                        bounded_text(reason, AGENT_WAKE_REASON_MAX_LENGTH as nat),
                    ),
                    None => None,
                },
                changed_by: Some(provenance),
                ..taken.lifecycle
            },
            ..taken
        }
    }

    /// After an accepted resume: the failure streak starts over.
    pub open spec fn resuming(self, provenance: AgentRevisionProvenance) -> WakeModel {
        WakeModel {
            lifecycle: LifecycleModel {
                status: AgentGoalLifecycleStatus::Active,
                suspended_reason: None,
                consecutive_failures: 0,
                backoff_until: None,
                changed_by: Some(provenance),
                lifecycle_revision: self.lifecycle.lifecycle_revision.successor(),
                ..self.lifecycle
            },
            ..self
        }
    }

    /// Why a renewal is refused, besides the fence: there is no expiry, it does
    /// not extend it, or it falls outside the window the policy requires.
    pub open spec fn renewal_refusal(
        self,
        policy: AgentWakePolicy,
        new_expires_at: AgentTimestampMillis,
        now: AgentTimestampMillis,
    ) -> Option<AgentWakeError> {
        match self.lifecycle.effective_expiry(policy.lifecycle) {
            None => Some(AgentWakeError::RenewalWithoutExpiry),
            Some(effective) => if new_expires_at.millis <= effective.millis {
                Some(AgentWakeError::RenewalNotExtending { offered: new_expires_at, effective })
            } else {
                match policy.lifecycle.renewal {
                    AgentWakeRenewalPolicy::NotRequired => None,
                    AgentWakeRenewalPolicy::RequiredBefore { window_millis } => {
                        let opens = if effective.millis >= window_millis {
                            (effective.millis - window_millis) as u64
                        } else {
                            0
                        };
                        if opens <= now.millis < effective.millis {
                            None
                        } else {
                            Some(
                                AgentWakeError::RenewalOutsideWindow {
                                    opens: AgentTimestampMillis { millis: opens },
                                    effective,
                                },
                            )
                        }
                    },
                }
            },
        }
    }

    /// After an accepted renewal.
    pub open spec fn renewing(
        self,
        new_expires_at: AgentTimestampMillis,
        provenance: AgentRevisionProvenance,
    ) -> WakeModel {
        WakeModel {
            lifecycle: LifecycleModel {
                expires_at_override: Some(new_expires_at),
                changed_by: Some(provenance),
                lifecycle_revision: self.lifecycle.lifecycle_revision.successor(),
                ..self.lifecycle
            },
            ..self
        }
    }

    /// After an accepted retirement.
    pub open spec fn retiring(self, provenance: AgentRevisionProvenance) -> WakeModel {
        let taken = self.taking_status(AgentGoalLifecycleStatus::Retired);
        WakeModel {
            lifecycle: LifecycleModel { changed_by: Some(provenance), ..taken.lifecycle },
            ..taken
        }
    }

    /// The failure streak after one more failure.
    pub open spec fn longer_streak(self) -> u32 {
        if self.lifecycle.consecutive_failures < u32::MAX {
            (self.lifecycle.consecutive_failures + 1) as u32
        } else {
            u32::MAX
        }
    }

    /// Whether one more failure escalates into a suspension.
    pub open spec fn escalates(self, policy: AgentWakePolicy) -> bool {
        &&& policy.failure_backoff.escalate_after_failures is Some
        &&& self.longer_streak() >= policy.failure_backoff.escalate_after_failures->Some_0
        &&& self.lifecycle.status == AgentGoalLifecycleStatus::Active
    }

    /// After one epoch's terminal outcome was accounted: a completion resets the
    /// streak, a failure grows it, engages backoff and may escalate, a
    /// cancellation does neither.
    pub open spec fn accounting(
        self,
        policy: AgentWakePolicy,
        outcome: AgentEpochOutcomeClass,
        now: AgentTimestampMillis,
    ) -> WakeModel {
        match outcome {
            AgentEpochOutcomeClass::Completed => WakeModel {
                lifecycle: LifecycleModel {
                    consecutive_failures: 0,
                    backoff_until: None,
                    ..self.lifecycle
                },
                ..self
            },
            AgentEpochOutcomeClass::Cancelled => self,
            AgentEpochOutcomeClass::Failed => {
                let streak = self.longer_streak();
                let delay = backoff_delay(policy.failure_backoff, streak as nat);
                let backed = WakeModel {
                    lifecycle: LifecycleModel {
                        consecutive_failures: streak,
                        backoff_until: Some(
                            AgentTimestampMillis {
                                millis: crate::budget::saturating_sum(now.millis, delay as u64),
                            },
                        ),
                        ..self.lifecycle
                    },
                    ..self
                };
                if self.escalates(policy) {
                    let taken = backed.taking_status(AgentGoalLifecycleStatus::Suspended);
                    WakeModel {
                        lifecycle: LifecycleModel {
                            suspended_reason: Some(escalation_reason(streak)),
                            ..taken.lifecycle
                        },
                        ..taken
                    }
                } else {
                    backed
                }
            },
        }
    }

    /// When the failure backoff should wake the goal again, if it should: a
    /// parked occurrence waits for it to elapse.
    pub open spec fn wanted_backoff(self, now: AgentTimestampMillis) -> Option<
        AgentTimestampMillis,
    > {
        if self.lifecycle.backing_off(now) && self.pending.len() > 0 {
            self.lifecycle.backoff_until
        } else {
            None
        }
    }

    /// Where the window a parked occurrence waits on started.
    pub open spec fn waiting_start(
        self,
        ceiling: AgentGoalWindowCeiling,
        now: AgentTimestampMillis,
    ) -> AgentTimestampMillis {
        match self.window {
            Some(ledger) => ledger.window_start,
            None => first_start(ceiling.window, now),
        }
    }

    /// When the turn of the goal window should wake the goal again, if it
    /// should: a parked occurrence waits for a window that can pay.
    pub open spec fn wanted_window_turn(
        self,
        policy: AgentWakePolicy,
        now: AgentTimestampMillis,
    ) -> Option<AgentTimestampMillis> {
        match policy.goal_window {
            Some(ceiling) => if self.pending.len() > 0 && self.window_refusal(
                ceiling,
                policy.epoch_budget,
                now,
            ) is Some {
                Some(turn_of_window(ceiling.window, self.waiting_start(ceiling, now), now))
            } else {
                None
            },
            None => None,
        }
    }

    /// Whether a parked occurrence of an active goal may be waiting for the
    /// goal window.
    pub open spec fn awaits_window(self, policy: AgentWakePolicy) -> bool {
        &&& self.lifecycle.status == AgentGoalLifecycleStatus::Active
        &&& self.pending.len() > 0
        &&& policy.goal_window is Some
    }

    /// After the owed re-wakes were recomputed.
    pub open spec fn owing(self, policy: AgentWakePolicy, now: AgentTimestampMillis) -> WakeModel {
        WakeModel {
            lifecycle: self.lifecycle.with_rewakes(
                if self.lifecycle.status == AgentGoalLifecycleStatus::Active {
                    AgentWakeRewakes {
                        backoff: merged_slot(
                            self.lifecycle.rewakes.backoff,
                            self.wanted_backoff(now),
                        ),
                        window_turn: merged_slot(
                            self.lifecycle.rewakes.window_turn,
                            self.wanted_window_turn(policy, now),
                        ),
                    }
                } else {
                    AgentWakeRewakes::none()
                },
            ),
            ..self
        }
    }

    /// After a re-wake's timer entry was durably parked.
    pub open spec fn marking_parked(
        self,
        cause: AgentWakeRewakeCause,
        due_at: AgentTimestampMillis,
        attempt: u64,
    ) -> WakeModel {
        let rewakes = self.lifecycle.rewakes;
        WakeModel {
            lifecycle: self.lifecycle.with_rewakes(
                match cause {
                    AgentWakeRewakeCause::Backoff => AgentWakeRewakes {
                        backoff: parked_slot(rewakes.backoff, due_at, attempt),
                        ..rewakes
                    },
                    AgentWakeRewakeCause::WindowTurn => AgentWakeRewakes {
                        window_turn: parked_slot(rewakes.window_turn, due_at, attempt),
                        ..rewakes
                    },
                },
            ),
            ..self
        }
    }
}

/// The reason an escalated suspension gives.
pub open spec fn escalation_reason(failures: u32) -> Seq<char> {
    bounded_text(
        "escalated after "@ + decimal(failures as nat) + " consecutive epoch failures"@,
        AGENT_WAKE_REASON_MAX_LENGTH as nat,
    )
}

/// Truncates a lifecycle reason to its bound on a character boundary.
pub fn bounded_reason(reason: String) -> (bounded: String)
    ensures
        bounded@ == bounded_text(reason@, AGENT_WAKE_REASON_MAX_LENGTH as nat),
{
    truncate_text(reason, AGENT_WAKE_REASON_MAX_LENGTH)
}

impl AgentWakeControllerState {
    /// Observes the lifecycle facts logical time has made true, returning the
    /// new status when one was crossed.
    pub fn observe_lifecycle(&mut self, policy: &AgentWakePolicy, now: AgentTimestampMillis) -> (crossed: Option<
        AgentGoalLifecycleStatus,
    >)
        ensures
            crossed == old(self)@.crossed_status(*policy, now),
            final(self)@ == match crossed {
                Some(status) => old(self)@.taking_status(status),
                None => old(self)@,
            },
    {
        if self.lifecycle.status.is_terminal() {
            return None;
        }
        let retired = match policy.lifecycle.retirement {
            AgentWakeRetirementPolicy::Manual => false,
            AgentWakeRetirementPolicy::AfterOccurrences { occurrences } => self.counters.admitted
                >= occurrences,
            AgentWakeRetirementPolicy::At { at } => now.millis >= at.millis,
        };
        if retired {
            self.take_status(AgentGoalLifecycleStatus::Retired);
            return Some(AgentGoalLifecycleStatus::Retired);
        }
        if let Some(expires_at) = self.lifecycle.effective_expires_at(&policy.lifecycle) {
            if now.millis >= expires_at.millis {
                self.take_status(AgentGoalLifecycleStatus::Expired);
                return Some(AgentGoalLifecycleStatus::Expired);
            }
        }
        None
    }

    /// Takes a lifecycle status under the next revision.
    fn take_status(&mut self, status: AgentGoalLifecycleStatus)
        ensures
            final(self)@ == old(self)@.taking_status(status),
    {
        self.lifecycle.status = status;
        self.lifecycle.lifecycle_revision = self.lifecycle.lifecycle_revision.next();
        self.lifecycle.rewakes = AgentWakeRewakes::default();
    }

    /// Refuses a lifecycle command on an absorbing goal or a moved revision.
    fn fence_lifecycle_revision(&self, expected: AgentRevisionNumber) -> (result: Result<
        (),
        AgentWakeError,
    >)
        ensures
            result == match self@.fence(expected) {
                Some(error) => Err::<(), AgentWakeError>(error),
                None => Ok(()),
            },
    {
        if self.lifecycle.status.is_terminal() {
            return Err(AgentWakeError::LifecycleTerminal { status: self.lifecycle.status });
        }
        if expected != self.lifecycle.lifecycle_revision {
            return Err(
                AgentWakeError::StaleLifecycleRevision {
                    expected,
                    current: self.lifecycle.lifecycle_revision,
                },
            );
        }
        Ok(())
    }

    /// Suspends the goal under an operator's authority.
    pub fn suspend(
        &mut self,
        expected: AgentRevisionNumber,
        reason: Option<String>,
        provenance: AgentRevisionProvenance,
    ) -> (result: Result<AgentRevisionNumber, AgentWakeError>)
        ensures
            match old(self)@.fence(expected) {
                Some(error) => final(self)@ == old(self)@ && result == Err::<
                    AgentRevisionNumber,
                    _,
                >(error),
                None => final(self)@ == old(self)@.suspending(optional_string(reason), provenance)
                    && result == Ok::<_, AgentWakeError>(expected.successor()),
            },
    {
        if let Err(error) = self.fence_lifecycle_revision(expected) {
            return Err(error);
        }
        self.take_status(AgentGoalLifecycleStatus::Suspended);
        self.lifecycle.suspended_reason =
        match reason {
            Some(reason) => Some(bounded_reason(reason)),
            None => None,
        };
        self.lifecycle.changed_by = Some(provenance);
        Ok(self.lifecycle.lifecycle_revision)
    }

    /// Resumes a suspended goal, clearing the failure backoff and its streak.
    pub fn resume(&mut self, expected: AgentRevisionNumber, provenance: AgentRevisionProvenance) -> (result:
        Result<AgentRevisionNumber, AgentWakeError>)
        ensures
            match old(self)@.fence(expected) {
                Some(error) => final(self)@ == old(self)@ && result == Err::<
                    AgentRevisionNumber,
                    _,
                >(error),
                None => if old(self)@.lifecycle.status == AgentGoalLifecycleStatus::Suspended {
                    final(self)@ == old(self)@.resuming(provenance) && result == Ok::<
                        _,
                        AgentWakeError,
                    >(expected.successor())
                } else {
                    final(self)@ == old(self)@ && result == Err::<AgentRevisionNumber, _>(
                        AgentWakeError::NotSuspended { status: old(self)@.lifecycle.status },
                    )
                },
            },
    {
        if let Err(error) = self.fence_lifecycle_revision(expected) {
            return Err(error);
        }
        if self.lifecycle.status != AgentGoalLifecycleStatus::Suspended {
            return Err(AgentWakeError::NotSuspended { status: self.lifecycle.status });
        }
        self.lifecycle.status = AgentGoalLifecycleStatus::Active;
        self.lifecycle.suspended_reason = None;
        self.lifecycle.consecutive_failures = 0;
        self.lifecycle.backoff_until = None;
        self.lifecycle.changed_by = Some(provenance);
        self.lifecycle.lifecycle_revision = self.lifecycle.lifecycle_revision.next();
        Ok(self.lifecycle.lifecycle_revision)
    }

    /// Extends the goal's effective expiry.
    pub fn renew(
        &mut self,
        expected: AgentRevisionNumber,
        policy: &AgentWakePolicy,
        new_expires_at: AgentTimestampMillis,
        provenance: AgentRevisionProvenance,
        now: AgentTimestampMillis,
    ) -> (result: Result<AgentRevisionNumber, AgentWakeError>)
        ensures
            match old(self)@.fence(expected) {
                Some(error) => final(self)@ == old(self)@ && result == Err::<
                    AgentRevisionNumber,
                    _,
                >(error),
                None => match old(self)@.renewal_refusal(*policy, new_expires_at, now) {
                    Some(error) => final(self)@ == old(self)@ && result == Err::<
                        AgentRevisionNumber,
                        _,
                    >(error),
                    None => final(self)@ == old(self)@.renewing(new_expires_at, provenance)
                        && result == Ok::<_, AgentWakeError>(expected.successor()),
                },
            },
    {
        if let Err(error) = self.fence_lifecycle_revision(expected) {
            return Err(error);
        }
        let effective = match self.lifecycle.effective_expires_at(&policy.lifecycle) {
            Some(effective) => effective,
            None => {
                return Err(AgentWakeError::RenewalWithoutExpiry);
            },
        };
        if new_expires_at.millis <= effective.millis {
            return Err(AgentWakeError::RenewalNotExtending { offered: new_expires_at, effective });
        }
        if let AgentWakeRenewalPolicy::RequiredBefore { window_millis } =
            policy.lifecycle.renewal {
            let opens: u64 = effective.millis.saturating_sub(window_millis);
            if now.millis < opens || now.millis >= effective.millis {
                return Err(
                    AgentWakeError::RenewalOutsideWindow {
                        opens: AgentTimestampMillis::new(opens),
                        effective,
                    },
                );
            }
        }
        self.lifecycle.expires_at_override = Some(new_expires_at);
        self.lifecycle.changed_by = Some(provenance);
        self.lifecycle.lifecycle_revision = self.lifecycle.lifecycle_revision.next();
        Ok(self.lifecycle.lifecycle_revision)
    }

    /// Retires the goal under an operator's authority. Absorbing.
    pub fn retire(&mut self, expected: AgentRevisionNumber, provenance: AgentRevisionProvenance) -> (result:
        Result<AgentRevisionNumber, AgentWakeError>)
        ensures
            match old(self)@.fence(expected) {
                Some(error) => final(self)@ == old(self)@ && result == Err::<
                    AgentRevisionNumber,
                    _,
                >(error),
                None => final(self)@ == old(self)@.retiring(provenance) && result == Ok::<
                    _,
                    AgentWakeError,
                >(expected.successor()),
            },
    {
        if let Err(error) = self.fence_lifecycle_revision(expected) {
            return Err(error);
        }
        self.take_status(AgentGoalLifecycleStatus::Retired);
        self.lifecycle.changed_by = Some(provenance);
        Ok(self.lifecycle.lifecycle_revision)
    }

    /// Accounts one epoch's terminal outcome, returning whether a failure
    /// escalated into a suspension the operator must resume.
    pub fn record_epoch_outcome(
        &mut self,
        policy: &AgentWakePolicy,
        outcome: AgentEpochOutcomeClass,
        now: AgentTimestampMillis,
    ) -> (escalated: bool)
        ensures
            final(self)@ == old(self)@.accounting(*policy, outcome, now),
            escalated == (outcome == AgentEpochOutcomeClass::Failed && old(self)@.escalates(
                *policy,
            )),
    {
        match outcome {
            AgentEpochOutcomeClass::Completed => {
                self.lifecycle.consecutive_failures = 0;
                self.lifecycle.backoff_until = None;
                false
            },
            AgentEpochOutcomeClass::Cancelled => false,
            AgentEpochOutcomeClass::Failed => {
                let streak: u32 = self.lifecycle.consecutive_failures.saturating_add(1);
                self.lifecycle.consecutive_failures = streak;
                let delay: u64 = Self::backoff_delay_millis(&policy.failure_backoff, streak);
                self.lifecycle.backoff_until =
                Some(AgentTimestampMillis::new(now.millis.saturating_add(delay)));
                let reached = match policy.failure_backoff.escalate_after_failures {
                    Some(threshold) => streak >= threshold,
                    None => false,
                };
                let escalated = reached && self.lifecycle.status
                    == AgentGoalLifecycleStatus::Active;
                if escalated {
                    let count = decimal_string(streak as u64);
                    let reason = join3(
                        "escalated after ",
                        count.as_str(),
                        " consecutive epoch failures",
                    );
                    self.take_status(AgentGoalLifecycleStatus::Suspended);
                    self.lifecycle.suspended_reason = Some(bounded_reason(reason));
                }
                escalated
            },
        }
    }

    /// Recomputes the controller's owed re-wakes from what is true now.
    ///
    /// A slot is owed exactly when a parked occurrence needs a retry no
    /// external delivery is promised to provide, and none while the goal cannot
    /// admit at all.
    pub fn ensure_rewakes(&mut self, policy: &AgentWakePolicy, now: AgentTimestampMillis)
        requires
            old(self)@.awaits_window(*policy) ==> {
                &&& policy_covers(*policy, now)
                &&& old(self)@.refusal(*policy, now) is Some ==> boundary_fits(
                    policy.goal_window->Some_0.window,
                    old(self)@.waiting_start(policy.goal_window->Some_0, now),
                    now,
                )
            },
        ensures
            final(self)@ == old(self)@.owing(*policy, now),
    {
        if !self.lifecycle.status.permits_admission() {
            self.lifecycle.rewakes = AgentWakeRewakes::default();
            return;
        }
        let waiting = self.pending.len() > 0;
        let desired_backoff = if waiting && self.backoff_in_force(now) {
            self.lifecycle.backoff_until
        } else {
            None
        };
        let desired_window_turn = match &policy.goal_window {
            Some(ceiling) => {
                if waiting && !self.window_can_pay(ceiling, &policy.epoch_budget, now) {
                    let start = match self.window {
                        Some(ledger) => ledger.window_start,
                        None => initial_window_start(&ceiling.window, now),
                    };
                    Some(next_window_boundary(&ceiling.window, start, now))
                } else {
                    None
                }
            },
            None => None,
        };
        let rewakes = self.lifecycle.rewakes;
        self.lifecycle.rewakes =
        AgentWakeRewakes {
            backoff: merge_rewake_slot(rewakes.backoff, desired_backoff),
            window_turn: merge_rewake_slot(rewakes.window_turn, desired_window_turn),
        };
    }

    /// Marks one re-wake slot parked, once its timer entry is durably parked. A
    /// mark for a stale generation changes nothing.
    pub fn mark_rewake_parked(
        &mut self,
        cause: AgentWakeRewakeCause,
        due_at: AgentTimestampMillis,
        attempt: u64,
    )
        ensures
            final(self)@ == old(self)@.marking_parked(cause, due_at, attempt),
    {
        let rewakes = self.lifecycle.rewakes;
        match cause {
            AgentWakeRewakeCause::Backoff => {
                self.lifecycle.rewakes =
                AgentWakeRewakes {
                    backoff: park_slot(rewakes.backoff, due_at, attempt),
                    window_turn: rewakes.window_turn,
                };
            },
            AgentWakeRewakeCause::WindowTurn => {
                self.lifecycle.rewakes =
                AgentWakeRewakes {
                    backoff: rewakes.backoff,
                    window_turn: park_slot(rewakes.window_turn, due_at, attempt),
                };
            },
        }
    }
}

impl Default for AgentWakeControllerState {
    fn default() -> (state: Self)
        ensures
            state@ == WakeModel::fresh(),
    {
        Self::new()
    }
}

} // verus!
