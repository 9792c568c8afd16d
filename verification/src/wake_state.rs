//! What the wake controller remembers: occurrences in flight, lifecycle, owed
//! re-wakes and counters.

use vstd::prelude::*;

use crate::budget::{AgentBudgetConsumption, AgentBudgetDimension};
use crate::identity::{
    AgentRevisionNumber, AgentRevisionProvenance, AgentRunId, AgentTaskId, AgentTimestampMillis,
    AgentWakeId,
};
use crate::wake::{AgentWakeBinding, ScheduleRevision};
use crate::wake_policy::{AgentGoalLifecycleStatus, AgentWakeLifecyclePolicy};

verus! {

/// The finite child epoch one admitted occurrence executes as.
#[derive(Debug)]
pub struct AgentEpochRef {
    /// The epoch's derived child task.
    pub task: AgentTaskId,
    /// The run serving the epoch's first assignment generation.
    pub run: AgentRunId,
}

impl Clone for AgentEpochRef {
    fn clone(&self) -> (copy: Self)
        ensures
            copy == *self,
    {
        AgentEpochRef { task: self.task.clone(), run: self.run.clone() }
    }
}

/// One admitted occurrence currently owning execution.
#[derive(Debug)]
pub struct AgentActiveWake {
    /// The admitted wake's binding.
    pub binding: AgentWakeBinding,
    /// When the controller admitted the occurrence.
    pub admitted_at: AgentTimestampMillis,
    /// Whether the occurrence was admitted as a downtime backlog's coalesced
    /// representative, which absorbs the rest of the backlog while it runs.
    pub representative: bool,
    /// The finite child epoch this occurrence created, once attached.
    pub epoch: Option<AgentEpochRef>,
}

impl AgentActiveWake {
    /// The admitted wake's binding.
    pub fn binding(&self) -> (binding: &AgentWakeBinding)
        ensures
            *binding == self.binding,
    {
        &self.binding
    }

    /// When the controller admitted the occurrence.
    pub fn admitted_at(&self) -> (time: AgentTimestampMillis)
        ensures
            time == self.admitted_at,
    {
        self.admitted_at
    }

    /// Whether the occurrence is a downtime backlog's representative.
    pub fn is_representative(&self) -> (result: bool)
        ensures
            result == self.representative,
    {
        self.representative
    }

    /// The finite child epoch this occurrence executes as, once attached.
    pub fn epoch(&self) -> (epoch: Option<&AgentEpochRef>)
        ensures
            match epoch {
                Some(epoch) => self.epoch == Some(*epoch),
                None => self.epoch is None,
            },
    {
        self.epoch.as_ref()
    }
}

/// The durable ledger of one goal-window ceiling: when the current window began
/// in logical time, and what admitted epochs have consumed of it.
#[derive(Debug, Clone, Copy, PartialEq, Eq, Structural)]
pub struct AgentWakeWindowLedger {
    /// When the current window began.
    pub window_start: AgentTimestampMillis,
    /// What admitted epochs have consumed within the current window.
    pub consumed: AgentBudgetConsumption,
}

impl AgentWakeWindowLedger {
    /// When the current window began, in logical time.
    pub fn window_start(&self) -> (start: AgentTimestampMillis)
        ensures
            start == self.window_start,
    {
        self.window_start
    }

    /// What admitted epochs have consumed within the current window.
    pub fn consumed(&self) -> (consumed: &AgentBudgetConsumption)
        ensures
            *consumed == self.consumed,
    {
        &self.consumed
    }
}

/// One owed or parked controller-originated re-wake.
#[derive(Debug, Clone, Copy, PartialEq, Eq, Structural)]
pub struct AgentWakeRewake {
    /// When the retry becomes due.
    pub due_at: AgentTimestampMillis,
    /// Whether a durable timer entry has been parked for it yet.
    pub parked: bool,
    /// The delivery generation, part of the parked retry's wake identity.
    pub attempt: u64,
}

/// The controller's two per-cause re-wake slots.
#[derive(Debug, Clone, Copy, PartialEq, Eq, Structural)]
#[non_exhaustive]
pub struct AgentWakeRewakes {
    /// The failure-backoff retry, when one is owed.
    pub backoff: Option<AgentWakeRewake>,
    /// The window-turn retry, when one is owed.
    pub window_turn: Option<AgentWakeRewake>,
}

impl AgentWakeRewakes {
    /// No slot owed.
    pub open spec fn none() -> AgentWakeRewakes {
        AgentWakeRewakes { backoff: None, window_turn: None }
    }

    /// Whether any slot is owed but not yet parked.
    pub fn owes_parking(&self) -> (result: bool)
        ensures
            result == ((self.backoff is Some && !self.backoff->Some_0.parked) || (
            self.window_turn is Some && !self.window_turn->Some_0.parked)),
    {
        let backoff = match self.backoff {
            Some(slot) => !slot.parked,
            None => false,
        };
        let window_turn = match self.window_turn {
            Some(slot) => !slot.parked,
            None => false,
        };
        backoff || window_turn
    }
}

impl Default for AgentWakeRewakes {
    fn default() -> (rewakes: Self)
        ensures
            rewakes == AgentWakeRewakes::none(),
    {
        AgentWakeRewakes { backoff: None, window_turn: None }
    }
}

/// One re-wake slot moved toward its desired due time: it keeps its parked mark
/// and generation only while the due time is unchanged.
pub open spec fn merged_slot(
    slot: Option<AgentWakeRewake>,
    desired: Option<AgentTimestampMillis>,
) -> Option<AgentWakeRewake> {
    match desired {
        None => None,
        Some(due_at) => if slot is Some && slot->Some_0.due_at == due_at {
            slot
        } else {
            Some(AgentWakeRewake { due_at, parked: false, attempt: 0 })
        },
    }
}

/// Merges one re-wake slot toward its desired due time.
pub fn merge_rewake_slot(
    slot: Option<AgentWakeRewake>,
    desired: Option<AgentTimestampMillis>,
) -> (merged: Option<AgentWakeRewake>)
    ensures
        merged == merged_slot(slot, desired),
{
    match desired {
        None => None,
        Some(due_at) => match slot {
            Some(existing) => if existing.due_at == due_at {
                Some(existing)
            } else {
                Some(AgentWakeRewake { due_at, parked: false, attempt: 0 })
            },
            None => Some(AgentWakeRewake { due_at, parked: false, attempt: 0 }),
        },
    }
}

/// The durable lifecycle state of one continuous goal's controller. Its
/// revision is monotonic and fences operator commands.
#[derive(Debug)]
pub struct AgentGoalLifecycleState {
    /// The goal's logical lifecycle status.
    pub status: AgentGoalLifecycleStatus,
    /// The revision operator commands fence on.
    pub lifecycle_revision: AgentRevisionNumber,
    /// Who accepted the most recent commanded transition.
    pub changed_by: Option<AgentRevisionProvenance>,
    /// The bounded suspension reason, while suspended.
    pub suspended_reason: Option<String>,
    /// A renewal's extension of the policy's expiry.
    pub expires_at_override: Option<AgentTimestampMillis>,
    /// Consecutive failed epochs since the last completed one.
    pub consecutive_failures: u32,
    /// When the failure backoff in force elapses.
    pub backoff_until: Option<AgentTimestampMillis>,
    /// The controller-originated re-wake slots.
    pub rewakes: AgentWakeRewakes,
}

/// What a lifecycle state holds.
pub struct LifecycleModel {
    /// The goal's logical lifecycle status.
    pub status: AgentGoalLifecycleStatus,
    /// The revision operator commands fence on.
    pub lifecycle_revision: AgentRevisionNumber,
    /// Who accepted the most recent commanded transition.
    pub changed_by: Option<AgentRevisionProvenance>,
    /// The suspension reason's text.
    pub suspended_reason: Option<Seq<char>>,
    /// A renewal's extension of the policy's expiry.
    pub expires_at_override: Option<AgentTimestampMillis>,
    /// Consecutive failed epochs since the last completed one.
    pub consecutive_failures: u32,
    /// When the failure backoff in force elapses.
    pub backoff_until: Option<AgentTimestampMillis>,
    /// The controller-originated re-wake slots.
    pub rewakes: AgentWakeRewakes,
}

/// The text of an optional string.
pub open spec fn optional_string(text: Option<String>) -> Option<Seq<char>> {
    match text {
        Some(text) => Some(text@),
        None => None,
    }
}

impl View for AgentGoalLifecycleState {
    type V = LifecycleModel;

    open spec fn view(&self) -> LifecycleModel {
        LifecycleModel {
            status: self.status,
            lifecycle_revision: self.lifecycle_revision,
            changed_by: self.changed_by,
            suspended_reason: optional_string(self.suspended_reason),
            expires_at_override: self.expires_at_override,
            consecutive_failures: self.consecutive_failures,
            backoff_until: self.backoff_until,
            rewakes: self.rewakes,
        }
    }
}

impl LifecycleModel {
    /// The lifecycle of a goal nothing has happened to yet.
    pub open spec fn fresh() -> LifecycleModel {
        LifecycleModel {
            status: AgentGoalLifecycleStatus::Active,
            lifecycle_revision: AgentRevisionNumber { number: 1 },
            changed_by: None,
            suspended_reason: None,
            expires_at_override: None,
            consecutive_failures: 0,
            backoff_until: None,
            rewakes: AgentWakeRewakes::none(),
        }
    }

    /// The effective expiry: a renewal's extension, or the policy's own.
    pub open spec fn effective_expiry(
        self,
        policy: AgentWakeLifecyclePolicy,
    ) -> Option<AgentTimestampMillis> {
        if self.expires_at_override is Some {
            self.expires_at_override
        } else {
            policy.expires_at
        }
    }

    /// Whether a failure backoff is in force at a time.
    pub open spec fn backing_off(self, now: AgentTimestampMillis) -> bool {
        self.backoff_until is Some && now.millis < self.backoff_until->Some_0.millis
    }
}

impl AgentGoalLifecycleState {
    /// The goal's logical lifecycle status.
    pub fn status(&self) -> (status: AgentGoalLifecycleStatus)
        ensures
            status == self@.status,
    {
        self.status
    }

    /// The monotonic lifecycle revision operator commands fence on.
    pub fn lifecycle_revision(&self) -> (revision: AgentRevisionNumber)
        ensures
            revision == self@.lifecycle_revision,
    {
        self.lifecycle_revision
    }

    /// Who accepted the most recent lifecycle transition, when one was
    /// commanded.
    pub fn changed_by(&self) -> (provenance: Option<&AgentRevisionProvenance>)
        ensures
            match provenance {
                Some(provenance) => self@.changed_by == Some(*provenance),
                None => self@.changed_by is None,
            },
    {
        self.changed_by.as_ref()
    }

    /// The bounded suspension reason, while suspended.
    pub fn suspended_reason(&self) -> (reason: Option<&str>)
        ensures
            match reason {
                Some(reason) => self@.suspended_reason == Some(reason@),
                None => self@.suspended_reason is None,
            },
    {
        match &self.suspended_reason {
            Some(reason) => Some(reason.as_str()),
            None => None,
        }
    }

    /// Consecutive failed epochs since the last completed one.
    pub fn consecutive_failures(&self) -> (failures: u32)
        ensures
            failures == self@.consecutive_failures,
    {
        self.consecutive_failures
    }

    /// When the failure backoff currently in force elapses.
    pub fn backoff_until(&self) -> (until: Option<AgentTimestampMillis>)
        ensures
            until == self@.backoff_until,
    {
        self.backoff_until
    }

    /// The effective expiry: a renewal's extension, or the policy's own.
    pub fn effective_expires_at(&self, policy: &AgentWakeLifecyclePolicy) -> (expiry: Option<
        AgentTimestampMillis,
    >)
        ensures
            expiry == self@.effective_expiry(*policy),
    {
        match self.expires_at_override {
            Some(expiry) => Some(expiry),
            None => policy.expires_at,
        }
    }

    /// The controller-originated re-wake slots.
    pub fn rewakes(&self) -> (rewakes: &AgentWakeRewakes)
        ensures
            *rewakes == self@.rewakes,
    {
        &self.rewakes
    }
}

impl Clone for AgentGoalLifecycleState {
    fn clone(&self) -> (copy: Self)
        ensures
            copy == *self,
    {
        AgentGoalLifecycleState {
            status: self.status,
            lifecycle_revision: self.lifecycle_revision,
            changed_by: match &self.changed_by {
                Some(provenance) => Some(provenance.clone()),
                None => None,
            },
            suspended_reason: match &self.suspended_reason {
                Some(reason) => Some(reason.clone()),
                None => None,
            },
            expires_at_override: self.expires_at_override,
            consecutive_failures: self.consecutive_failures,
            backoff_until: self.backoff_until,
            rewakes: self.rewakes,
        }
    }
}

impl Default for AgentGoalLifecycleState {
    fn default() -> (state: Self)
        ensures
            state@ == LifecycleModel::fresh(),
    {
        AgentGoalLifecycleState {
            status: AgentGoalLifecycleStatus::Active,
            lifecycle_revision: AgentRevisionNumber::initial(),
            changed_by: None,
            suspended_reason: None,
            expires_at_override: None,
            consecutive_failures: 0,
            backoff_until: None,
            rewakes: AgentWakeRewakes::default(),
        }
    }
}

/// The terminal class of one epoch's outcome, as the controller accounts it.
#[derive(Debug, Clone, Copy, PartialEq, Eq, Structural)]
#[non_exhaustive]
pub enum AgentEpochOutcomeClass {
    /// The epoch produced an accepted result: the failure streak resets.
    Completed,
    /// The epoch failed: the streak grows and backoff engages.
    Failed,
    /// The epoch was cancelled: neither reset nor growth.
    Cancelled,
}

impl AgentEpochOutcomeClass {
    /// Stable kebab-case label of the class.
    pub fn as_label(self) -> (label: &'static str)
        ensures
            label@ == self.label_text(),
    {
        match self {
            AgentEpochOutcomeClass::Completed => "completed",
            AgentEpochOutcomeClass::Failed => "failed",
            AgentEpochOutcomeClass::Cancelled => "cancelled",
        }
    }

    /// The label of each class.
    pub open spec fn label_text(self) -> Seq<char> {
        match self {
            AgentEpochOutcomeClass::Completed => "completed"@,
            AgentEpochOutcomeClass::Failed => "failed"@,
            AgentEpochOutcomeClass::Cancelled => "cancelled"@,
        }
    }
}

/// Monotone wake counters of one continuous goal's controller.
#[derive(Debug, Clone, Copy, PartialEq, Eq, Structural)]
#[non_exhaustive]
pub struct AgentWakeCounters {
    /// Occurrences admitted into an active slot.
    pub admitted: u64,
    /// Occurrences durably parked behind an active occurrence.
    pub coalesced: u64,
    /// Parked occurrences replaced by a later one under the single slot.
    pub superseded: u64,
    /// Occurrences skipped as missed.
    pub missed: u64,
    /// Occurrences fenced for carrying an obsolete schedule revision.
    pub fenced: u64,
    /// Active occurrences released by a completed execution.
    pub released: u64,
    /// Occurrences parked because the goal-window ceiling was exhausted.
    pub deferred: u64,
    /// Occurrences parked because a failure backoff was in force.
    pub backed_off: u64,
    /// Occurrences parked while the goal was suspended.
    pub suspended: u64,
    /// Occurrences dropped while the goal was suspended.
    pub dropped: u64,
    /// Occurrences refused because the goal was expired or retired.
    pub barred: u64,
    /// Controller-originated retries consumed.
    pub retried: u64,
}

impl AgentWakeCounters {
    /// Counters at zero.
    pub open spec fn zero() -> AgentWakeCounters {
        AgentWakeCounters {
            admitted: 0,
            coalesced: 0,
            superseded: 0,
            missed: 0,
            fenced: 0,
            released: 0,
            deferred: 0,
            backed_off: 0,
            suspended: 0,
            dropped: 0,
            barred: 0,
            retried: 0,
        }
    }
}

impl Default for AgentWakeCounters {
    fn default() -> (counters: Self)
        ensures
            counters == AgentWakeCounters::zero(),
    {
        AgentWakeCounters {
            admitted: 0,
            coalesced: 0,
            superseded: 0,
            missed: 0,
            fenced: 0,
            released: 0,
            deferred: 0,
            backed_off: 0,
            suspended: 0,
            dropped: 0,
            barred: 0,
            retried: 0,
        }
    }
}

/// How the controller dispositioned one wake delivery.
#[derive(Debug)]
#[non_exhaustive]
pub enum AgentWakeDisposition {
    /// Admitted into an active slot within its admission window.
    Admitted {
        /// The admitted wake.
        wake: AgentWakeId,
    },
    /// Admitted as the coalesced representative of a late band.
    AdmittedCoalesced {
        /// The admitted wake.
        wake: AgentWakeId,
    },
    /// Durably parked behind the active occurrence.
    Coalesced {
        /// The parked wake.
        wake: AgentWakeId,
        /// The previously parked wake this one replaced.
        replaced: Option<AgentWakeId>,
    },
    /// Skipped as missed under the policy in force.
    Skipped {
        /// The skipped wake.
        wake: AgentWakeId,
    },
    /// Parked because the goal-window ceiling is exhausted.
    Deferred {
        /// The parked wake.
        wake: AgentWakeId,
        /// The dimension whose window ceiling refused the epoch.
        dimension: AgentBudgetDimension,
    },
    /// Parked because a failure backoff is in force.
    BackedOff {
        /// The parked wake.
        wake: AgentWakeId,
        /// When the backoff elapses.
        until: AgentTimestampMillis,
    },
    /// Parked while the goal is suspended; resume may admit it.
    SuspendedParked {
        /// The parked wake.
        wake: AgentWakeId,
    },
    /// Dropped while the goal is suspended under the drop policy.
    Dropped {
        /// The dropped wake.
        wake: AgentWakeId,
    },
    /// Refused because the goal is expired or retired.
    Barred {
        /// The refused wake.
        wake: AgentWakeId,
        /// The absorbing lifecycle status that refused it.
        status: AgentGoalLifecycleStatus,
    },
    /// A controller-originated retry was consumed.
    Retried {
        /// The retry wake.
        wake: AgentWakeId,
    },
    /// The occurrence carried an obsolete schedule revision and was fenced.
    Fenced {
        /// The fenced wake.
        wake: AgentWakeId,
        /// The obsolete revision the binding carried.
        offered: ScheduleRevision,
        /// The revision currently in force.
        current: ScheduleRevision,
    },
    /// The occurrence was already dispositioned; nothing changed.
    Duplicate {
        /// The already-dispositioned wake.
        wake: AgentWakeId,
    },
}

impl AgentWakeDisposition {
    /// Stable kebab-case label of the disposition.
    pub fn as_label(&self) -> (label: &'static str)
        ensures
            label@ == self.label_text(),
    {
        match self {
            AgentWakeDisposition::Admitted { .. } => "admitted",
            AgentWakeDisposition::AdmittedCoalesced { .. } => "admitted-coalesced",
            AgentWakeDisposition::Coalesced { .. } => "coalesced",
            AgentWakeDisposition::Skipped { .. } => "skipped",
            AgentWakeDisposition::Deferred { .. } => "deferred",
            AgentWakeDisposition::BackedOff { .. } => "backed-off",
            AgentWakeDisposition::SuspendedParked { .. } => "suspended-parked",
            AgentWakeDisposition::Dropped { .. } => "dropped",
            AgentWakeDisposition::Barred { .. } => "barred",
            AgentWakeDisposition::Retried { .. } => "retried",
            AgentWakeDisposition::Fenced { .. } => "fenced",
            AgentWakeDisposition::Duplicate { .. } => "duplicate",
        }
    }

    /// The label of each disposition.
    pub open spec fn label_text(&self) -> Seq<char> {
        match self {
            AgentWakeDisposition::Admitted { .. } => "admitted"@,
            AgentWakeDisposition::AdmittedCoalesced { .. } => "admitted-coalesced"@,
            AgentWakeDisposition::Coalesced { .. } => "coalesced"@,
            AgentWakeDisposition::Skipped { .. } => "skipped"@,
            AgentWakeDisposition::Deferred { .. } => "deferred"@,
            AgentWakeDisposition::BackedOff { .. } => "backed-off"@,
            AgentWakeDisposition::SuspendedParked { .. } => "suspended-parked"@,
            AgentWakeDisposition::Dropped { .. } => "dropped"@,
            AgentWakeDisposition::Barred { .. } => "barred"@,
            AgentWakeDisposition::Retried { .. } => "retried"@,
            AgentWakeDisposition::Fenced { .. } => "fenced"@,
            AgentWakeDisposition::Duplicate { .. } => "duplicate"@,
        }
    }

    /// The wake the disposition is about.
    pub open spec fn subject(self) -> AgentWakeId {
        match self {
            AgentWakeDisposition::Admitted { wake } => wake,
            AgentWakeDisposition::AdmittedCoalesced { wake } => wake,
            AgentWakeDisposition::Coalesced { wake, .. } => wake,
            AgentWakeDisposition::Skipped { wake } => wake,
            AgentWakeDisposition::Deferred { wake, .. } => wake,
            AgentWakeDisposition::BackedOff { wake, .. } => wake,
            AgentWakeDisposition::SuspendedParked { wake } => wake,
            AgentWakeDisposition::Dropped { wake } => wake,
            AgentWakeDisposition::Barred { wake, .. } => wake,
            AgentWakeDisposition::Retried { wake } => wake,
            AgentWakeDisposition::Fenced { wake, .. } => wake,
            AgentWakeDisposition::Duplicate { wake } => wake,
        }
    }

    /// The wake the disposition is about.
    pub fn wake_id(&self) -> (wake: &AgentWakeId)
        ensures
            *wake == self.subject(),
    {
        match self {
            AgentWakeDisposition::Admitted { wake } => wake,
            AgentWakeDisposition::AdmittedCoalesced { wake } => wake,
            AgentWakeDisposition::Coalesced { wake, .. } => wake,
            AgentWakeDisposition::Skipped { wake } => wake,
            AgentWakeDisposition::Deferred { wake, .. } => wake,
            AgentWakeDisposition::BackedOff { wake, .. } => wake,
            AgentWakeDisposition::SuspendedParked { wake } => wake,
            AgentWakeDisposition::Dropped { wake } => wake,
            AgentWakeDisposition::Barred { wake, .. } => wake,
            AgentWakeDisposition::Retried { wake } => wake,
            AgentWakeDisposition::Fenced { wake, .. } => wake,
            AgentWakeDisposition::Duplicate { wake } => wake,
        }
    }

    /// Whether the disposition admitted the occurrence.
    pub open spec fn admits(self) -> bool {
        self is Admitted || self is AdmittedCoalesced
    }

    /// Whether the disposition admitted the occurrence into an active slot.
    pub fn is_admission(&self) -> (result: bool)
        ensures
            result == self.admits(),
    {
        matches!(
            self,
            AgentWakeDisposition::Admitted { .. } | AgentWakeDisposition::AdmittedCoalesced { .. }
        )
    }
}

/// What releasing an active occurrence changed.
#[derive(Debug)]
pub struct AgentWakeRelease {
    /// The released wake.
    pub released: AgentWakeId,
    /// The parked wake promoted into the freed slot, when one was waiting.
    pub admitted_next: Option<AgentWakeId>,
    /// The released occurrence's epoch, when one was attached.
    pub epoch: Option<AgentEpochRef>,
}

/// Where a parked binding landed.
#[derive(Debug)]
pub enum AgentWakeParked {
    /// Stored in the pending queue.
    Stored {
        /// The wake the new occupant replaced, when the single slot was full.
        replaced: Option<AgentWakeId>,
    },
    /// The bounded catch-up queue was full; the occurrence was not kept.
    Overflow,
}

/// A bounded, credential-free view of one continuous goal's wake state.
#[derive(Debug)]
pub struct AgentWakeStatusView {
    /// The schedule revision in force.
    pub schedule_revision: ScheduleRevision,
    /// The wake-policy revision in force.
    pub policy_revision: AgentRevisionNumber,
    /// The wakes currently owning execution.
    pub active: Vec<AgentWakeId>,
    /// The wakes durably parked behind them, oldest first.
    pub pending: Vec<AgentWakeId>,
    /// The most recently admitted wake.
    pub last_admitted: Option<AgentWakeId>,
    /// When the most recent admission happened.
    pub last_admitted_at: Option<AgentTimestampMillis>,
    /// The monotone wake counters.
    pub counters: AgentWakeCounters,
    /// The goal-window ledger in force, once a windowed admission opened one.
    pub window: Option<AgentWakeWindowLedger>,
    /// The goal's lifecycle state.
    pub lifecycle: Option<AgentGoalLifecycleState>,
    /// The finite child epochs the active occurrences execute as, once
    /// attached.
    pub epochs: Vec<AgentEpochRef>,
}

/// What one wake transition of the controller recorded.
#[derive(Debug)]
#[non_exhaustive]
pub enum AgentWakeOutcome {
    /// How an admission command's delivery was dispositioned.
    Disposition(AgentWakeDisposition),
    /// What releasing an active occurrence changed.
    Release(AgentWakeRelease),
    /// A schedule update took force.
    ScheduleUpdated {
        /// The schedule revision now in force.
        schedule_revision: ScheduleRevision,
        /// The wake-policy revision now in force.
        policy_revision: AgentRevisionNumber,
        /// How many parked occurrences the update fenced.
        fenced: u64,
    },
    /// A lifecycle transition took force.
    Lifecycle {
        /// The lifecycle status now in force.
        status: AgentGoalLifecycleStatus,
        /// The lifecycle revision now in force.
        lifecycle_revision: AgentRevisionNumber,
    },
}

} // verus!
