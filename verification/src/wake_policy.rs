//! The versioned wake policy of one continuous goal.

use vstd::prelude::*;

use crate::budget::{conserved_dimensions, AgentBudgetAllocation, AgentBudgetDimension};
use crate::calendar::AgentBudgetWindow;
use crate::identity::{
    AgentPolicyRef, AgentRevisionNumber, AgentRevisionProvenance, AgentTimestampMillis,
};
use crate::wake::AgentWakeTriggerKind;
use crate::wake_error::AgentWakeError;

verus! {

/// Logical lifecycle status of one continuous goal.
#[derive(Debug, Clone, Copy, PartialEq, Eq, Structural)]
#[non_exhaustive]
pub enum AgentGoalLifecycleStatus {
    /// Admitting epochs under its policy.
    Active,
    /// Not admitting until an authorized resume.
    Suspended,
    /// Past its effective expiry. Absorbing.
    Expired,
    /// Retired by command or by its retirement policy. Absorbing.
    Retired,
}

impl AgentGoalLifecycleStatus {
    /// Stable kebab-case label.
    pub fn as_label(self) -> (label: &'static str)
        ensures
            label@ == self.label_text(),
    {
        match self {
            AgentGoalLifecycleStatus::Active => "active",
            AgentGoalLifecycleStatus::Suspended => "suspended",
            AgentGoalLifecycleStatus::Expired => "expired",
            AgentGoalLifecycleStatus::Retired => "retired",
        }
    }

    /// The label of each status.
    pub open spec fn label_text(self) -> Seq<char> {
        match self {
            AgentGoalLifecycleStatus::Active => "active"@,
            AgentGoalLifecycleStatus::Suspended => "suspended"@,
            AgentGoalLifecycleStatus::Expired => "expired"@,
            AgentGoalLifecycleStatus::Retired => "retired"@,
        }
    }

    /// Whether the status admits new epochs.
    pub fn permits_admission(self) -> (result: bool)
        ensures
            result == self.admits(),
    {
        matches!(self, AgentGoalLifecycleStatus::Active)
    }

    /// Whether the status is absorbing.
    pub fn is_terminal(self) -> (result: bool)
        ensures
            result == self.absorbs(),
    {
        matches!(self, AgentGoalLifecycleStatus::Expired | AgentGoalLifecycleStatus::Retired)
    }

    /// Whether the status lets a goal admit new epochs.
    pub open spec fn admits(self) -> bool {
        self == AgentGoalLifecycleStatus::Active
    }

    /// Whether the status is absorbing.
    pub open spec fn absorbs(self) -> bool {
        self == AgentGoalLifecycleStatus::Expired || self == AgentGoalLifecycleStatus::Retired
    }
}

impl Default for AgentGoalLifecycleStatus {
    fn default() -> (status: Self)
        ensures
            status == AgentGoalLifecycleStatus::Active,
    {
        AgentGoalLifecycleStatus::Active
    }
}

/// A set of trigger classes.
#[derive(Debug, Clone, Copy, PartialEq, Eq, Structural)]
pub struct AgentWakeTriggerSet {
    durable_timer: bool,
    external_event: bool,
    a2a_command: bool,
    callback: bool,
    controller: bool,
}

impl View for AgentWakeTriggerSet {
    type V = Set<AgentWakeTriggerKind>;

    closed spec fn view(&self) -> Set<AgentWakeTriggerKind> {
        Set::new(|kind: AgentWakeTriggerKind| self.holds(kind))
    }
}

impl AgentWakeTriggerSet {
    spec fn holds(&self, kind: AgentWakeTriggerKind) -> bool {
        match kind {
            AgentWakeTriggerKind::DurableTimer => self.durable_timer,
            AgentWakeTriggerKind::ExternalEvent => self.external_event,
            AgentWakeTriggerKind::A2aCommand => self.a2a_command,
            AgentWakeTriggerKind::Callback => self.callback,
            AgentWakeTriggerKind::Controller => self.controller,
        }
    }

    /// The set with no class in it.
    pub fn none() -> (set: Self)
        ensures
            set@ == Set::<AgentWakeTriggerKind>::empty(),
    {
        let set = AgentWakeTriggerSet {
            durable_timer: false,
            external_event: false,
            a2a_command: false,
            callback: false,
            controller: false,
        };
        assert(set@ =~= Set::<AgentWakeTriggerKind>::empty());
        set
    }

    /// The set of the listed classes.
    pub fn of(kinds: &[AgentWakeTriggerKind]) -> (set: Self)
        ensures
            set@ == kinds@.to_set(),
    {
        let mut set = Self::none();
        let mut i: usize = 0;
        while i < kinds.len()
            invariant
                i <= kinds.len(),
                set@ == kinds@.subrange(0, i as int).to_set(),
            decreases kinds.len() - i,
        {
            let ghost before = set@;
            set.insert(kinds[i]);
            proof {
                let done = kinds@.subrange(0, i as int);
                let now = kinds@.subrange(0, i + 1);
                assert(now =~= done.push(kinds@[i as int]));
                assert(now.to_set() =~= done.to_set().insert(kinds@[i as int])) by {
                    assert(now.last() == kinds@[i as int]);
                    assert forall|kind| done.contains(kind) implies now.contains(kind) by {
                        let k = choose|k: int| 0 <= k < done.len() && done[k] == kind;
                        assert(now[k] == kind);
                    }
                }
            }
            i = i + 1;
        }
        proof {
            assert(kinds@.subrange(0, kinds@.len() as int) =~= kinds@);
        }
        set
    }

    /// Puts a class in the set.
    pub fn insert(&mut self, kind: AgentWakeTriggerKind)
        ensures
            final(self)@ == old(self)@.insert(kind),
    {
        match kind {
            AgentWakeTriggerKind::DurableTimer => {
                self.durable_timer = true;
            },
            AgentWakeTriggerKind::ExternalEvent => {
                self.external_event = true;
            },
            AgentWakeTriggerKind::A2aCommand => {
                self.a2a_command = true;
            },
            AgentWakeTriggerKind::Callback => {
                self.callback = true;
            },
            AgentWakeTriggerKind::Controller => {
                self.controller = true;
            },
        }
        assert(self@ =~= old(self)@.insert(kind));
    }

    /// Whether a class is in the set.
    pub fn contains(&self, kind: AgentWakeTriggerKind) -> (result: bool)
        ensures
            result == self@.contains(kind),
    {
        match kind {
            AgentWakeTriggerKind::DurableTimer => self.durable_timer,
            AgentWakeTriggerKind::ExternalEvent => self.external_event,
            AgentWakeTriggerKind::A2aCommand => self.a2a_command,
            AgentWakeTriggerKind::Callback => self.callback,
            AgentWakeTriggerKind::Controller => self.controller,
        }
    }

    /// Whether no class is in the set.
    pub fn is_empty(&self) -> (result: bool)
        ensures
            result == (self@ == Set::<AgentWakeTriggerKind>::empty()),
    {
        let result = !(self.durable_timer || self.external_event || self.a2a_command
            || self.callback || self.controller);
        proof {
            if result {
                assert(self@ =~= Set::<AgentWakeTriggerKind>::empty());
            } else {
                assert(self@.contains(AgentWakeTriggerKind::DurableTimer) || self@.contains(
                    AgentWakeTriggerKind::ExternalEvent,
                ) || self@.contains(AgentWakeTriggerKind::A2aCommand) || self@.contains(
                    AgentWakeTriggerKind::Callback,
                ) || self@.contains(AgentWakeTriggerKind::Controller));
            }
        }
        result
    }
}

/// What happens when a trigger arrives while an epoch is active.
#[derive(Debug)]
#[non_exhaustive]
pub enum AgentWakeOverlapPolicy {
    /// The default: one epoch at a time, triggers received meanwhile coalesced
    /// into at most one pending occurrence.
    ForbidAndCoalesce,
    /// Bounded parallel epochs, never a default.
    Parallel {
        /// Most epochs that may be active at once. At least two.
        max_concurrent_epochs: u32,
        /// Application-owned policy deciding how parallel results combine.
        result_policy: AgentPolicyRef,
    },
}

/// What happens to occurrences that no scanner could deliver in time.
#[derive(Debug, Clone, Copy, PartialEq, Eq, Structural)]
#[non_exhaustive]
pub enum AgentMissedOccurrencePolicy {
    /// The default after downtime: admit at most one coalesced occurrence.
    AdmitOneCoalesced,
    /// Skip missed occurrences entirely.
    Skip,
    /// Replay a bounded number of missed occurrences, never a default.
    BoundedCatchUp {
        /// Most missed occurrences one recovery may replay. At least one.
        max_occurrences: u32,
    },
}

/// A goal-level budget ceiling over a rolling or calendar window.
#[derive(Debug, Clone, Copy, PartialEq, Eq, Structural)]
pub struct AgentGoalWindowCeiling {
    /// The window the ceiling covers.
    pub window: AgentBudgetWindow,
    /// The ceiling in force for each window. At least one dimension must be
    /// bounded.
    pub ceiling: AgentBudgetAllocation,
}

/// Backoff applied to wake admission after consecutive epoch failures.
#[derive(Debug, Clone, Copy, PartialEq, Eq, Structural)]
pub struct AgentWakeBackoffPolicy {
    /// Delay before the first retry, in milliseconds. Positive.
    pub initial_millis: u64,
    /// Growth per consecutive failure, in percent. At least 100.
    pub multiplier_percent: u32,
    /// Ceiling the delay saturates at, in milliseconds.
    pub max_millis: u64,
    /// Consecutive failures after which the goal escalates. Positive when set.
    pub escalate_after_failures: Option<u32>,
}

impl AgentWakeBackoffPolicy {
    /// One second doubling to a one-hour ceiling, no escalation threshold.
    pub open spec fn defaults() -> AgentWakeBackoffPolicy {
        AgentWakeBackoffPolicy {
            initial_millis: 1_000,
            multiplier_percent: 200,
            max_millis: 3_600_000,
            escalate_after_failures: None,
        }
    }

    /// The first bounded invariant the policy violates.
    pub open spec fn verdict(self) -> Result<(), AgentWakeError> {
        if self.initial_millis == 0 {
            Err(AgentWakeError::BackoffInitialZero)
        } else if self.multiplier_percent < 100 {
            Err(
                AgentWakeError::BackoffMultiplierBelowUnit {
                    multiplier_percent: self.multiplier_percent,
                },
            )
        } else if self.max_millis < self.initial_millis {
            Err(
                AgentWakeError::BackoffMaximumBelowInitial {
                    initial_millis: self.initial_millis,
                    max_millis: self.max_millis,
                },
            )
        } else if self.escalate_after_failures == Some(0u32) {
            Err(AgentWakeError::ZeroEscalationThreshold)
        } else {
            Ok(())
        }
    }

    /// Rejects a backoff that violates its bounded invariants.
    pub fn validate(&self) -> (result: Result<(), AgentWakeError>)
        ensures
            result == self.verdict(),
    {
        if self.initial_millis == 0 {
            return Err(AgentWakeError::BackoffInitialZero);
        }
        if self.multiplier_percent < 100 {
            return Err(
                AgentWakeError::BackoffMultiplierBelowUnit {
                    multiplier_percent: self.multiplier_percent,
                },
            );
        }
        if self.max_millis < self.initial_millis {
            return Err(
                AgentWakeError::BackoffMaximumBelowInitial {
                    initial_millis: self.initial_millis,
                    max_millis: self.max_millis,
                },
            );
        }
        if let Some(threshold) = self.escalate_after_failures {
            if threshold == 0 {
                return Err(AgentWakeError::ZeroEscalationThreshold);
            }
        }
        Ok(())
    }
}

impl Default for AgentWakeBackoffPolicy {
    fn default() -> (policy: Self)
        ensures
            policy == AgentWakeBackoffPolicy::defaults(),
    {
        AgentWakeBackoffPolicy {
            initial_millis: 1_000,
            multiplier_percent: 200,
            max_millis: 3_600_000,
            escalate_after_failures: None,
        }
    }
}

/// What happens to triggers that arrive while the goal is suspended.
#[derive(Debug, Clone, Copy, PartialEq, Eq, Structural)]
#[non_exhaustive]
pub enum AgentWakeSuspensionPolicy {
    /// The default: coalesce to at most one pending occurrence, which resume
    /// may admit.
    CoalesceLatest,
    /// Drop triggers received while suspended.
    Drop,
}

/// Whether continued operation past the expiry horizon requires a renewal.
#[derive(Debug, Clone, Copy, PartialEq, Eq, Structural)]
#[non_exhaustive]
pub enum AgentWakeRenewalPolicy {
    /// The default: the goal runs to its expiry, if any.
    NotRequired,
    /// A renewal must arrive inside the window before expiry.
    RequiredBefore {
        /// Length of the renewal window before expiry, in milliseconds.
        /// Positive.
        window_millis: u64,
    },
}

/// When the goal retires.
#[derive(Debug, Clone, Copy, PartialEq, Eq, Structural)]
#[non_exhaustive]
pub enum AgentWakeRetirementPolicy {
    /// The default: only an authorized command retires the goal.
    Manual,
    /// Retire after a bounded number of admitted occurrences.
    AfterOccurrences {
        /// Occurrences after which the goal retires. Positive.
        occurrences: u64,
    },
    /// Retire at a fixed logical time.
    At {
        /// The retirement time.
        at: AgentTimestampMillis,
    },
}

/// Suspension, renewal, expiry, and retirement policy of one continuous goal.
#[derive(Debug, Clone, Copy, PartialEq, Eq, Structural)]
pub struct AgentWakeLifecyclePolicy {
    /// What happens to triggers received while suspended.
    pub while_suspended: AgentWakeSuspensionPolicy,
    /// Whether continued operation requires explicit renewal.
    pub renewal: AgentWakeRenewalPolicy,
    /// Logical time past which the goal expires, when it has one.
    pub expires_at: Option<AgentTimestampMillis>,
    /// When the goal retires.
    pub retirement: AgentWakeRetirementPolicy,
}

impl AgentWakeLifecyclePolicy {
    /// Coalesce while suspended, no renewal requirement, no expiry, manual
    /// retirement.
    pub open spec fn defaults() -> AgentWakeLifecyclePolicy {
        AgentWakeLifecyclePolicy {
            while_suspended: AgentWakeSuspensionPolicy::CoalesceLatest,
            renewal: AgentWakeRenewalPolicy::NotRequired,
            expires_at: None,
            retirement: AgentWakeRetirementPolicy::Manual,
        }
    }

    /// The first bounded invariant the policy violates.
    pub open spec fn verdict(self) -> Result<(), AgentWakeError> {
        if self.renewal == (AgentWakeRenewalPolicy::RequiredBefore { window_millis: 0 }) {
            Err(AgentWakeError::ZeroDuration { field: "renewal window" })
        } else if self.renewal is RequiredBefore && self.expires_at is None {
            Err(AgentWakeError::RenewalWithoutExpiry)
        } else if self.retirement == (AgentWakeRetirementPolicy::AfterOccurrences {
            occurrences: 0,
        }) {
            Err(AgentWakeError::ZeroRetirementOccurrences)
        } else {
            Ok(())
        }
    }

    /// Rejects a lifecycle policy that violates its bounded invariants.
    pub fn validate(&self) -> (result: Result<(), AgentWakeError>)
        ensures
            result == self.verdict(),
    {
        if let AgentWakeRenewalPolicy::RequiredBefore { window_millis } = self.renewal {
            if window_millis == 0 {
                return Err(AgentWakeError::ZeroDuration { field: "renewal window" });
            }
            if self.expires_at.is_none() {
                return Err(AgentWakeError::RenewalWithoutExpiry);
            }
        }
        if let AgentWakeRetirementPolicy::AfterOccurrences { occurrences } = self.retirement {
            if occurrences == 0 {
                return Err(AgentWakeError::ZeroRetirementOccurrences);
            }
        }
        Ok(())
    }
}

impl Default for AgentWakeLifecyclePolicy {
    fn default() -> (policy: Self)
        ensures
            policy == AgentWakeLifecyclePolicy::defaults(),
    {
        AgentWakeLifecyclePolicy {
            while_suspended: AgentWakeSuspensionPolicy::CoalesceLatest,
            renewal: AgentWakeRenewalPolicy::NotRequired,
            expires_at: None,
            retirement: AgentWakeRetirementPolicy::Manual,
        }
    }
}

/// The versioned wake policy of one continuous goal.
///
/// Fields are public so the policy composes as data; [`Self::validate`]
/// re-checks the bounded invariants wherever a policy crosses a durable
/// boundary.
#[derive(Debug)]
pub struct AgentWakePolicy {
    /// Trigger classes allowed to deliver occurrences. Non-empty.
    pub triggers: AgentWakeTriggerSet,
    /// How long after its due time an occurrence may still be admitted as-is,
    /// in milliseconds. Positive when set.
    pub admission_window_millis: Option<u64>,
    /// Lateness past which an occurrence is missed, in milliseconds. Positive
    /// when set, and at least the admission window when both are set.
    pub maximum_lateness_millis: Option<u64>,
    /// What happens when a trigger arrives while an epoch is active.
    pub overlap: AgentWakeOverlapPolicy,
    /// What happens to occurrences missed during downtime.
    pub missed_occurrence: AgentMissedOccurrencePolicy,
    /// Budget escrowed to each admitted epoch.
    pub epoch_budget: AgentBudgetAllocation,
    /// Deadline of each admitted epoch, in milliseconds. Positive when set.
    pub epoch_deadline_millis: Option<u64>,
    /// Goal-level ceiling over a rolling or calendar window, when one is set.
    pub goal_window: Option<AgentGoalWindowCeiling>,
    /// Backoff after consecutive epoch failures.
    pub failure_backoff: AgentWakeBackoffPolicy,
    /// Suspension, renewal, expiry, and retirement policy.
    pub lifecycle: AgentWakeLifecyclePolicy,
}

/// What a window ceiling makes of an epoch budget on one dimension: a bounded
/// dimension must be bounded by the epoch too, within the ceiling, or no window
/// could pay for one epoch.
pub open spec fn ceiling_verdict(
    ceiling: AgentBudgetAllocation,
    epoch_budget: AgentBudgetAllocation,
    dimension: AgentBudgetDimension,
) -> Result<(), AgentWakeError> {
    match (ceiling.limit(dimension), epoch_budget.limit(dimension)) {
        (None, _) => Ok(()),
        (Some(_), None) => Err(AgentWakeError::WindowEpochUnbounded { dimension }),
        (Some(limit), Some(budget)) => if budget > limit {
            Err(
                AgentWakeError::WindowEpochExceedsCeiling {
                    dimension,
                    epoch_budget: budget,
                    ceiling: limit,
                },
            )
        } else {
            Ok(())
        },
    }
}

/// The first verdict against an epoch budget from position `from` on.
pub open spec fn ceiling_verdict_from(
    ceiling: AgentBudgetAllocation,
    epoch_budget: AgentBudgetAllocation,
    from: nat,
) -> Result<(), AgentWakeError>
    decreases conserved_dimensions().len() - from,
{
    if from >= conserved_dimensions().len() {
        Ok(())
    } else {
        let verdict = ceiling_verdict(ceiling, epoch_budget, conserved_dimensions()[from as int]);
        if verdict is Err {
            verdict
        } else {
            ceiling_verdict_from(ceiling, epoch_budget, from + 1)
        }
    }
}

impl AgentGoalWindowCeiling {
    /// The first invariant the ceiling violates for an epoch budget.
    pub open spec fn verdict(self, epoch_budget: AgentBudgetAllocation) -> Result<
        (),
        AgentWakeError,
    > {
        if self.window == (AgentBudgetWindow::Rolling { length_millis: 0 }) {
            Err(AgentWakeError::ZeroDuration { field: "rolling window length" })
        } else if self.ceiling.bounds_nothing() {
            Err(AgentWakeError::WindowCeilingUnbounded)
        } else {
            ceiling_verdict_from(self.ceiling, epoch_budget, 0)
        }
    }

    /// Rejects a ceiling that no window could honor for an epoch budget.
    pub fn validate(&self, epoch_budget: &AgentBudgetAllocation) -> (result: Result<
        (),
        AgentWakeError,
    >)
        ensures
            result == self.verdict(*epoch_budget),
    {
        if let AgentBudgetWindow::Rolling { length_millis } = self.window {
            if length_millis == 0 {
                return Err(AgentWakeError::ZeroDuration { field: "rolling window length" });
            }
        }
        if self.ceiling.is_unbounded() {
            return Err(AgentWakeError::WindowCeilingUnbounded);
        }
        let dimensions = AgentBudgetDimension::conserved();
        let mut i: usize = 0;
        while i < 2
            invariant
                i <= 2,
                dimensions@ == conserved_dimensions(),
                ceiling_verdict_from(self.ceiling, *epoch_budget, 0) == ceiling_verdict_from(
                    self.ceiling,
                    *epoch_budget,
                    i as nat,
                ),
                self.verdict(*epoch_budget) == ceiling_verdict_from(
                    self.ceiling,
                    *epoch_budget,
                    0,
                ),
            decreases 2 - i,
        {
            let dimension = dimensions[i];
            if let Some(limit) = self.ceiling.get(dimension) {
                match epoch_budget.get(dimension) {
                    None => {
                        return Err(AgentWakeError::WindowEpochUnbounded { dimension });
                    },
                    Some(budget) => {
                        if budget > limit {
                            return Err(
                                AgentWakeError::WindowEpochExceedsCeiling {
                                    dimension,
                                    epoch_budget: budget,
                                    ceiling: limit,
                                },
                            );
                        }
                    },
                }
            }
            i = i + 1;
        }
        Ok(())
    }
}

impl AgentWakePolicy {
    /// The first bounded invariant the policy violates, in the order they are
    /// checked.
    pub open spec fn verdict(&self) -> Result<(), AgentWakeError> {
        if self.triggers@ == Set::<AgentWakeTriggerKind>::empty() {
            Err(AgentWakeError::EmptyTriggers)
        } else if self.admission_window_millis == Some(0u64) {
            Err(AgentWakeError::ZeroDuration { field: "admission window" })
        } else if self.maximum_lateness_millis == Some(0u64) {
            Err(AgentWakeError::ZeroDuration { field: "maximum lateness" })
        } else if self.epoch_deadline_millis == Some(0u64) {
            Err(AgentWakeError::ZeroDuration { field: "epoch deadline" })
        } else if self.admission_window_millis is Some && self.maximum_lateness_millis is Some
            && self.maximum_lateness_millis->Some_0 < self.admission_window_millis->Some_0 {
            Err(
                AgentWakeError::LatenessBelowAdmissionWindow {
                    admission_window_millis: self.admission_window_millis->Some_0,
                    maximum_lateness_millis: self.maximum_lateness_millis->Some_0,
                },
            )
        } else if self.overlap is Parallel && self.overlap->max_concurrent_epochs < 2 {
            Err(
                AgentWakeError::ParallelEpochsNotParallel {
                    max_concurrent_epochs: self.overlap->max_concurrent_epochs,
                },
            )
        } else if self.missed_occurrence == (AgentMissedOccurrencePolicy::BoundedCatchUp {
            max_occurrences: 0,
        }) {
            Err(AgentWakeError::ZeroCatchUp)
        } else if self.epoch_deadline_millis is None && self.epoch_budget.bounds_nothing() {
            Err(AgentWakeError::EpochUnbounded)
        } else if self.goal_window is Some && self.goal_window->Some_0.verdict(
            self.epoch_budget,
        ) is Err {
            self.goal_window->Some_0.verdict(self.epoch_budget)
        } else if self.failure_backoff.verdict() is Err {
            self.failure_backoff.verdict()
        } else {
            self.lifecycle.verdict()
        }
    }

    /// Whether the policy keeps all its bounded invariants.
    pub open spec fn is_valid(&self) -> bool {
        self.verdict() is Ok
    }

    /// The policy with the continuous defaults: one epoch at a time, triggers
    /// coalesced, one coalesced occurrence after downtime, no catch-up.
    pub open spec fn has_defaults(
        &self,
        triggers: Set<AgentWakeTriggerKind>,
        epoch_budget: AgentBudgetAllocation,
        epoch_deadline_millis: Option<u64>,
    ) -> bool {
        &&& self.triggers@ == triggers
        &&& self.admission_window_millis is None
        &&& self.maximum_lateness_millis is None
        &&& self.overlap == AgentWakeOverlapPolicy::ForbidAndCoalesce
        &&& self.missed_occurrence == AgentMissedOccurrencePolicy::AdmitOneCoalesced
        &&& self.epoch_budget == epoch_budget
        &&& self.epoch_deadline_millis == epoch_deadline_millis
        &&& self.goal_window is None
        &&& self.failure_backoff == AgentWakeBackoffPolicy::defaults()
        &&& self.lifecycle == AgentWakeLifecyclePolicy::defaults()
    }

    /// Creates a policy with the continuous defaults. An epoch must be bounded
    /// from the start, by its budget or by a deadline.
    pub fn new(
        triggers: &[AgentWakeTriggerKind],
        epoch_budget: AgentBudgetAllocation,
        epoch_deadline_millis: Option<u64>,
    ) -> (result: Result<Self, AgentWakeError>)
        ensures
            exists|policy: AgentWakePolicy| #[trigger]
                policy.has_defaults(triggers@.to_set(), epoch_budget, epoch_deadline_millis)
                    && checked(policy, result),
    {
        let policy = AgentWakePolicy {
            triggers: AgentWakeTriggerSet::of(triggers),
            admission_window_millis: None,
            maximum_lateness_millis: None,
            overlap: AgentWakeOverlapPolicy::ForbidAndCoalesce,
            missed_occurrence: AgentMissedOccurrencePolicy::AdmitOneCoalesced,
            epoch_budget,
            epoch_deadline_millis,
            goal_window: None,
            failure_backoff: AgentWakeBackoffPolicy::default(),
            lifecycle: AgentWakeLifecyclePolicy::default(),
        };
        assert(policy.has_defaults(triggers@.to_set(), epoch_budget, epoch_deadline_millis));
        policy.check()
    }

    /// Hands a policy on when it is valid.
    fn check(self) -> (result: Result<Self, AgentWakeError>)
        ensures
            checked(self, result),
    {
        match self.validate() {
            Ok(_) => Ok(self),
            Err(error) => Err(error),
        }
    }

    /// Declares bounded parallel epochs, with the concurrency bound and the
    /// result policy they need.
    pub fn with_parallel_epochs(
        self,
        max_concurrent_epochs: u32,
        result_policy: AgentPolicyRef,
    ) -> (result: Result<Self, AgentWakeError>)
        ensures
            checked(
                (AgentWakePolicy {
                    overlap: AgentWakeOverlapPolicy::Parallel {
                        max_concurrent_epochs,
                        result_policy,
                    },
                    ..self
                }),
                result,
            ),
    {
        let policy = AgentWakePolicy {
            overlap: AgentWakeOverlapPolicy::Parallel { max_concurrent_epochs, result_policy },
            ..self
        };
        policy.check()
    }

    /// Declares bounded catch-up of missed occurrences.
    pub fn with_bounded_catch_up(self, max_occurrences: u32) -> (result: Result<
        Self,
        AgentWakeError,
    >)
        ensures
            checked(
                (AgentWakePolicy {
                    missed_occurrence: AgentMissedOccurrencePolicy::BoundedCatchUp {
                        max_occurrences,
                    },
                    ..self
                }),
                result,
            ),
    {
        let policy = AgentWakePolicy {
            missed_occurrence: AgentMissedOccurrencePolicy::BoundedCatchUp { max_occurrences },
            ..self
        };
        policy.check()
    }

    /// Sets the admission window.
    pub fn with_admission_window(self, window_millis: u64) -> (result: Result<
        Self,
        AgentWakeError,
    >)
        ensures
            checked(
                (AgentWakePolicy { admission_window_millis: Some(window_millis), ..self }),
                result,
            ),
    {
        let policy = AgentWakePolicy { admission_window_millis: Some(window_millis), ..self };
        policy.check()
    }

    /// Sets the maximum lateness.
    pub fn with_maximum_lateness(self, lateness_millis: u64) -> (result: Result<
        Self,
        AgentWakeError,
    >)
        ensures
            checked(
                (AgentWakePolicy { maximum_lateness_millis: Some(lateness_millis), ..self }),
                result,
            ),
    {
        let policy = AgentWakePolicy { maximum_lateness_millis: Some(lateness_millis), ..self };
        policy.check()
    }

    /// Sets the goal-level window ceiling.
    pub fn with_goal_window(self, goal_window: AgentGoalWindowCeiling) -> (result: Result<
        Self,
        AgentWakeError,
    >)
        ensures
            checked((AgentWakePolicy { goal_window: Some(goal_window), ..self }), result),
    {
        let policy = AgentWakePolicy { goal_window: Some(goal_window), ..self };
        policy.check()
    }

    /// Sets the failure backoff.
    pub fn with_failure_backoff(self, backoff: AgentWakeBackoffPolicy) -> (result: Result<
        Self,
        AgentWakeError,
    >)
        ensures
            checked((AgentWakePolicy { failure_backoff: backoff, ..self }), result),
    {
        let policy = AgentWakePolicy { failure_backoff: backoff, ..self };
        policy.check()
    }

    /// Sets the suspension, renewal, expiry, and retirement policy.
    pub fn with_lifecycle(self, lifecycle: AgentWakeLifecyclePolicy) -> (result: Result<
        Self,
        AgentWakeError,
    >)
        ensures
            checked((AgentWakePolicy { lifecycle, ..self }), result),
    {
        let policy = AgentWakePolicy { lifecycle, ..self };
        policy.check()
    }

    /// Whether the policy allows a trigger class.
    pub fn allows_trigger(&self, kind: AgentWakeTriggerKind) -> (result: bool)
        ensures
            result == self.triggers@.contains(kind),
    {
        self.triggers.contains(kind)
    }

    /// Rejects a policy that violates its bounded invariants.
    pub fn validate(&self) -> (result: Result<(), AgentWakeError>)
        ensures
            result == self.verdict(),
    {
        if self.triggers.is_empty() {
            return Err(AgentWakeError::EmptyTriggers);
        }
        if is_zero(self.admission_window_millis) {
            return Err(AgentWakeError::ZeroDuration { field: "admission window" });
        }
        if is_zero(self.maximum_lateness_millis) {
            return Err(AgentWakeError::ZeroDuration { field: "maximum lateness" });
        }
        if is_zero(self.epoch_deadline_millis) {
            return Err(AgentWakeError::ZeroDuration { field: "epoch deadline" });
        }
        if let (Some(window), Some(lateness)) = (
            self.admission_window_millis,
            self.maximum_lateness_millis,
        ) {
            if lateness < window {
                return Err(
                    AgentWakeError::LatenessBelowAdmissionWindow {
                        admission_window_millis: window,
                        maximum_lateness_millis: lateness,
                    },
                );
            }
        }
        if let AgentWakeOverlapPolicy::Parallel { max_concurrent_epochs, .. } = &self.overlap {
            if *max_concurrent_epochs < 2 {
                return Err(
                    AgentWakeError::ParallelEpochsNotParallel {
                        max_concurrent_epochs: *max_concurrent_epochs,
                    },
                );
            }
        }
        if let AgentMissedOccurrencePolicy::BoundedCatchUp { max_occurrences } =
            self.missed_occurrence {
            if max_occurrences == 0 {
                return Err(AgentWakeError::ZeroCatchUp);
            }
        }
        if self.epoch_deadline_millis.is_none() && self.epoch_budget.is_unbounded() {
            return Err(AgentWakeError::EpochUnbounded);
        }
        if let Some(goal_window) = &self.goal_window {
            if let Err(error) = goal_window.validate(&self.epoch_budget) {
                return Err(error);
            }
        }
        if let Err(error) = self.failure_backoff.validate() {
            return Err(error);
        }
        self.lifecycle.validate()
    }
}

fn is_zero(value: Option<u64>) -> (result: bool)
    ensures
        result == (value == Some(0u64)),
{
    match value {
        Some(value) => value == 0,
        None => false,
    }
}

/// What checking a policy gives: the policy itself when it is valid, and its
/// first violation otherwise.
pub open spec fn checked(
    policy: AgentWakePolicy,
    result: Result<AgentWakePolicy, AgentWakeError>,
) -> bool {
    match policy.verdict() {
        Ok(_) => result == Ok::<AgentWakePolicy, AgentWakeError>(policy),
        Err(error) => result == Err::<AgentWakePolicy, AgentWakeError>(error),
    }
}

/// Schema version every wake-policy revision is written with.
pub const CURRENT_AGENT_WAKE_POLICY_SCHEMA_VERSION: u32 = 1;

/// One accepted revision of a continuous goal's wake policy.
#[derive(Debug)]
pub struct AgentWakePolicyRevision {
    schema_version: u32,
    revision: AgentRevisionNumber,
    policy: AgentWakePolicy,
    provenance: AgentRevisionProvenance,
}

impl AgentWakePolicyRevision {
    /// Whether the revision holds exactly these parts under the current schema.
    pub open spec fn holds(
        &self,
        revision: AgentRevisionNumber,
        policy: AgentWakePolicy,
        provenance: AgentRevisionProvenance,
    ) -> bool {
        &&& self.spec_schema_version() == CURRENT_AGENT_WAKE_POLICY_SCHEMA_VERSION
        &&& self.spec_revision() == revision
        &&& *self.spec_policy() == policy
        &&& *self.spec_provenance() == provenance
    }

    /// The value of [`Self::revision`].
    pub closed spec fn spec_revision(&self) -> AgentRevisionNumber {
        self.revision
    }

    /// The value of [`Self::policy`].
    pub closed spec fn spec_policy(&self) -> &AgentWakePolicy {
        &self.policy
    }

    /// The value of [`Self::provenance`].
    pub closed spec fn spec_provenance(&self) -> &AgentRevisionProvenance {
        &self.provenance
    }

    /// The value of [`Self::schema_version`].
    pub closed spec fn spec_schema_version(&self) -> u32 {
        self.schema_version
    }

    /// Creates the first wake-policy revision of a continuous goal.
    pub fn initial(policy: AgentWakePolicy, provenance: AgentRevisionProvenance) -> (result: Result<
        Self,
        AgentWakeError,
    >)
        ensures
            policy.verdict() is Err ==> result == Err::<Self, _>(policy.verdict()->Err_0),
            policy.verdict() is Ok ==> result is Ok && result->Ok_0.holds(
                AgentRevisionNumber { number: 1 },
                policy,
                provenance,
            ),
    {
        match policy.validate() {
            Err(error) => Err(error),
            Ok(_) => Ok(
                AgentWakePolicyRevision {
                    schema_version: CURRENT_AGENT_WAKE_POLICY_SCHEMA_VERSION,
                    revision: AgentRevisionNumber::initial(),
                    policy,
                    provenance,
                },
            ),
        }
    }

    /// Accepts an updated policy, producing the next revision.
    pub fn updated(
        &self,
        policy: AgentWakePolicy,
        provenance: AgentRevisionProvenance,
    ) -> (result: Result<Self, AgentWakeError>)
        ensures
            policy.verdict() is Err ==> result == Err::<Self, _>(policy.verdict()->Err_0),
            policy.verdict() is Ok ==> result is Ok && result->Ok_0.holds(
                self.spec_revision().successor(),
                policy,
                provenance,
            ),
    {
        match policy.validate() {
            Err(error) => Err(error),
            Ok(_) => Ok(
                AgentWakePolicyRevision {
                    schema_version: CURRENT_AGENT_WAKE_POLICY_SCHEMA_VERSION,
                    revision: self.revision.next(),
                    policy,
                    provenance,
                },
            ),
        }
    }

    /// Monotonic revision number.
    pub fn revision(&self) -> (revision: AgentRevisionNumber)
        ensures
            revision == self.spec_revision(),
    {
        self.revision
    }

    /// The policy in force at this revision.
    pub fn policy(&self) -> (policy: &AgentWakePolicy)
        ensures
            policy == self.spec_policy(),
    {
        &self.policy
    }

    /// Who accepted this revision, when, and under which audit reference.
    pub fn provenance(&self) -> (provenance: &AgentRevisionProvenance)
        ensures
            provenance == self.spec_provenance(),
    {
        &self.provenance
    }

    /// The schema version the revision was written with.
    pub fn schema_version(&self) -> (version: u32)
        ensures
            version == self.spec_schema_version(),
    {
        self.schema_version
    }
}

/// A valid policy's window can pay for an epoch: a freshly opened window
/// refuses no dimension.
pub proof fn a_valid_policy_fits_a_fresh_window(policy: AgentWakePolicy)
    requires
        policy.is_valid(),
        policy.goal_window is Some,
    ensures
        crate::budget::first_refused(
            policy.goal_window->Some_0.ceiling,
            policy.epoch_budget,
            crate::budget::nothing_spent(),
        ) is None,
{
    broadcast use crate::budget::lemma_nothing_spent;

    let ceiling = policy.goal_window->Some_0.ceiling;
    reveal_with_fuel(ceiling_verdict_from, 3);
    reveal_with_fuel(crate::budget::first_refused_from, 3);
    assert(ceiling_verdict_from(ceiling, policy.epoch_budget, 0) is Ok);
}

} // verus!
