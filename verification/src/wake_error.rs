//! The rejections of the wake rules.

use vstd::prelude::*;
use vstd::string::*;

use crate::budget::AgentBudgetDimension;
use crate::identity::{
    AgentIdentityError, AgentRevisionNumber, AgentTimestampMillis, AgentWakeId,
};
use crate::text::{decimal, decimal_string, join2, join3, join4, join5, join7};
use crate::wake::{AgentWakeTriggerKind, ScheduleRevision};
use crate::wake_policy::AgentGoalLifecycleStatus;

verus! {

/// The rejection of trigger-source metadata that exceeds its bounds.
#[derive(Debug)]
pub struct AgentTriggerSourceError {
    /// What exceeded its bound.
    pub message: String,
}

/// Rejection of a wake identity, binding, policy or transition.
#[allow(inconsistent_fields)]
#[derive(Debug)]
#[non_exhaustive]
pub enum AgentWakeError {
    /// An identifier could not key a durable scope.
    Identity(AgentIdentityError),
    /// Trigger-source metadata exceeded its bounds.
    TriggerSource(AgentTriggerSourceError),
    /// The policy allowed no trigger class at all.
    EmptyTriggers,
    /// A parallel overlap policy declared a bound that is not parallel.
    ParallelEpochsNotParallel {
        /// The declared concurrency bound.
        max_concurrent_epochs: u32,
    },
    /// A bounded catch-up policy allowed zero occurrences.
    ZeroCatchUp,
    /// A duration field was set to zero.
    ZeroDuration {
        /// The field that was zero.
        field: &'static str,
    },
    /// A maximum lateness that undercuts the admission window.
    LatenessBelowAdmissionWindow {
        /// The admission window, in milliseconds.
        admission_window_millis: u64,
        /// The declared maximum lateness, in milliseconds.
        maximum_lateness_millis: u64,
    },
    /// The backoff's initial delay was zero.
    BackoffInitialZero,
    /// The backoff multiplier would shrink the delay.
    BackoffMultiplierBelowUnit {
        /// The declared multiplier, in percent.
        multiplier_percent: u32,
    },
    /// The backoff ceiling was below its initial delay.
    BackoffMaximumBelowInitial {
        /// The initial delay, in milliseconds.
        initial_millis: u64,
        /// The declared ceiling, in milliseconds.
        max_millis: u64,
    },
    /// An escalation threshold of zero failures.
    ZeroEscalationThreshold,
    /// A retirement policy after zero occurrences.
    ZeroRetirementOccurrences,
    /// A renewal requirement without an expiry to renew against.
    RenewalWithoutExpiry,
    /// A goal window whose ceiling bounds nothing.
    WindowCeilingUnbounded,
    /// A goal window bounding a dimension the per-epoch budget leaves unbounded.
    WindowEpochUnbounded {
        /// The dimension the ceiling bounds but the epoch budget does not.
        dimension: AgentBudgetDimension,
    },
    /// A goal window whose ceiling is below the per-epoch budget on a dimension.
    WindowEpochExceedsCeiling {
        /// The dimension whose ceiling the epoch budget exceeds.
        dimension: AgentBudgetDimension,
        /// The per-epoch budget declared on that dimension.
        epoch_budget: u64,
        /// The window ceiling declared on that dimension.
        ceiling: u64,
    },
    /// An epoch with neither a bounded budget dimension nor a deadline.
    EpochUnbounded,
    /// A binding carrying a schedule revision ahead of the controller's.
    RevisionAhead {
        /// The revision the binding carried.
        offered: ScheduleRevision,
        /// The revision currently in force.
        current: ScheduleRevision,
    },
    /// A trigger class the policy does not allow.
    TriggerNotAllowed {
        /// The disallowed trigger class.
        trigger: AgentWakeTriggerKind,
    },
    /// A retry without the controller trigger, or the controller trigger on anything but a retry.
    RetryTriggerMismatch {
        /// The trigger the binding carried.
        trigger: AgentWakeTriggerKind,
    },
    /// A release of a wake that is not active.
    NotActive {
        /// The wake that was not active.
        wake: AgentWakeId,
    },
    /// A wake identity that was not derived by this crate's construction.
    ForeignWakeId {
        /// The underived wake identity.
        wake: AgentWakeId,
    },
    /// A lifecycle command carrying a revision the goal has moved past.
    StaleLifecycleRevision {
        /// The revision the command expected to advance.
        expected: AgentRevisionNumber,
        /// The revision currently in force.
        current: AgentRevisionNumber,
    },
    /// A resume of a goal that is not suspended.
    NotSuspended {
        /// The goal's current lifecycle status.
        status: AgentGoalLifecycleStatus,
    },
    /// A lifecycle command on an expired or retired goal.
    LifecycleTerminal {
        /// The absorbing status.
        status: AgentGoalLifecycleStatus,
    },
    /// A renewal outside the window its policy requires it inside.
    RenewalOutsideWindow {
        /// When the renewal window opens.
        opens: AgentTimestampMillis,
        /// The effective expiry the window closes at.
        effective: AgentTimestampMillis,
    },
    /// A renewal that does not strictly extend the effective expiry.
    RenewalNotExtending {
        /// The expiry the renewal offered.
        offered: AgentTimestampMillis,
        /// The effective expiry already in force.
        effective: AgentTimestampMillis,
    },
    /// A persisted controller state exceeding its bounded capacities.
    StateOutOfBounds {
        /// Which bound the record exceeded.
        detail: &'static str,
    },
}

impl AgentWakeError {
    /// Stable machine-readable error code.
    pub fn code(&self) -> (code: &'static str)
        ensures
            code@ == self.code_text(),
    {
        match self {
            AgentWakeError::Identity(_) => "wake-identity",
            AgentWakeError::TriggerSource(_) => "wake-trigger-source",
            AgentWakeError::EmptyTriggers => "wake-empty-triggers",
            AgentWakeError::ParallelEpochsNotParallel { .. } => "wake-parallel-not-parallel",
            AgentWakeError::ZeroCatchUp => "wake-zero-catch-up",
            AgentWakeError::ZeroDuration { .. } => "wake-zero-duration",
            AgentWakeError::LatenessBelowAdmissionWindow { .. } => "wake-lateness-below-admission-window",
            AgentWakeError::BackoffInitialZero => "wake-backoff-initial-zero",
            AgentWakeError::BackoffMultiplierBelowUnit { .. } => "wake-backoff-multiplier-below-unit",
            AgentWakeError::BackoffMaximumBelowInitial { .. } => "wake-backoff-maximum-below-initial",
            AgentWakeError::ZeroEscalationThreshold => "wake-zero-escalation-threshold",
            AgentWakeError::ZeroRetirementOccurrences => "wake-zero-retirement-occurrences",
            AgentWakeError::RenewalWithoutExpiry => "wake-renewal-without-expiry",
            AgentWakeError::WindowCeilingUnbounded => "wake-window-ceiling-unbounded",
            AgentWakeError::WindowEpochUnbounded { .. } => "wake-window-epoch-unbounded",
            AgentWakeError::WindowEpochExceedsCeiling { .. } => "wake-window-epoch-exceeds-ceiling",
            AgentWakeError::EpochUnbounded => "wake-epoch-unbounded",
            AgentWakeError::RevisionAhead { .. } => "wake-revision-ahead",
            AgentWakeError::TriggerNotAllowed { .. } => "wake-trigger-not-allowed",
            AgentWakeError::RetryTriggerMismatch { .. } => "wake-retry-trigger-mismatch",
            AgentWakeError::NotActive { .. } => "wake-not-active",
            AgentWakeError::ForeignWakeId { .. } => "wake-foreign-id",
            AgentWakeError::StaleLifecycleRevision { .. } => "wake-stale-lifecycle-revision",
            AgentWakeError::NotSuspended { .. } => "wake-not-suspended",
            AgentWakeError::LifecycleTerminal { .. } => "wake-lifecycle-terminal",
            AgentWakeError::RenewalOutsideWindow { .. } => "wake-renewal-outside-window",
            AgentWakeError::RenewalNotExtending { .. } => "wake-renewal-not-extending",
            AgentWakeError::StateOutOfBounds { .. } => "wake-state-out-of-bounds",
        }
    }

    /// The code of each rejection.
    pub open spec fn code_text(&self) -> Seq<char> {
        match self {
            AgentWakeError::Identity(_) => "wake-identity"@,
            AgentWakeError::TriggerSource(_) => "wake-trigger-source"@,
            AgentWakeError::EmptyTriggers => "wake-empty-triggers"@,
            AgentWakeError::ParallelEpochsNotParallel { .. } => "wake-parallel-not-parallel"@,
            AgentWakeError::ZeroCatchUp => "wake-zero-catch-up"@,
            AgentWakeError::ZeroDuration { .. } => "wake-zero-duration"@,
            AgentWakeError::LatenessBelowAdmissionWindow { .. } => "wake-lateness-below-admission-window"@,
            AgentWakeError::BackoffInitialZero => "wake-backoff-initial-zero"@,
            AgentWakeError::BackoffMultiplierBelowUnit { .. } => "wake-backoff-multiplier-below-unit"@,
            AgentWakeError::BackoffMaximumBelowInitial { .. } => "wake-backoff-maximum-below-initial"@,
            AgentWakeError::ZeroEscalationThreshold => "wake-zero-escalation-threshold"@,
            AgentWakeError::ZeroRetirementOccurrences => "wake-zero-retirement-occurrences"@,
            AgentWakeError::RenewalWithoutExpiry => "wake-renewal-without-expiry"@,
            AgentWakeError::WindowCeilingUnbounded => "wake-window-ceiling-unbounded"@,
            AgentWakeError::WindowEpochUnbounded { .. } => "wake-window-epoch-unbounded"@,
            AgentWakeError::WindowEpochExceedsCeiling { .. } => "wake-window-epoch-exceeds-ceiling"@,
            AgentWakeError::EpochUnbounded => "wake-epoch-unbounded"@,
            AgentWakeError::RevisionAhead { .. } => "wake-revision-ahead"@,
            AgentWakeError::TriggerNotAllowed { .. } => "wake-trigger-not-allowed"@,
            AgentWakeError::RetryTriggerMismatch { .. } => "wake-retry-trigger-mismatch"@,
            AgentWakeError::NotActive { .. } => "wake-not-active"@,
            AgentWakeError::ForeignWakeId { .. } => "wake-foreign-id"@,
            AgentWakeError::StaleLifecycleRevision { .. } => "wake-stale-lifecycle-revision"@,
            AgentWakeError::NotSuspended { .. } => "wake-not-suspended"@,
            AgentWakeError::LifecycleTerminal { .. } => "wake-lifecycle-terminal"@,
            AgentWakeError::RenewalOutsideWindow { .. } => "wake-renewal-outside-window"@,
            AgentWakeError::RenewalNotExtending { .. } => "wake-renewal-not-extending"@,
            AgentWakeError::StateOutOfBounds { .. } => "wake-state-out-of-bounds"@,
        }
    }

    /// The rejection in words.
    pub fn message(&self) -> (text: String)
        ensures
            text@ == self.message_text(),
    {
        match self {
            AgentWakeError::Identity(error) => {
                let text_error = error.message();
                join2(
                    "wake identity is invalid: ",
                    text_error.as_str(),
                )
            },
            AgentWakeError::TriggerSource(error) => {
                join2(
                    "wake trigger source is out of bounds: ",
                    error.message.as_str(),
                )
            },
            AgentWakeError::EmptyTriggers => "a wake policy must allow at least one trigger".to_owned(),
            AgentWakeError::ParallelEpochsNotParallel { max_concurrent_epochs } => {
                let text_max_concurrent_epochs = decimal_string(*max_concurrent_epochs as u64);
                join3(
                    "a parallel overlap policy needs at least two concurrent epochs, not ",
                    text_max_concurrent_epochs.as_str(),
                    "; a bound of one is forbid-and-coalesce",
                )
            },
            AgentWakeError::ZeroCatchUp => "a bounded catch-up policy must replay at least one occurrence".to_owned(),
            AgentWakeError::ZeroDuration { field } => {
                join3(
                    "the ",
                    field,
                    " must be positive",
                )
            },
            AgentWakeError::LatenessBelowAdmissionWindow { admission_window_millis, maximum_lateness_millis } => {
                let text_maximum_lateness_millis = decimal_string(*maximum_lateness_millis);
                let text_admission_window_millis = decimal_string(*admission_window_millis);
                join5(
                    "the maximum lateness of ",
                    text_maximum_lateness_millis.as_str(),
                    " ms is below the admission window of ",
                    text_admission_window_millis.as_str(),
                    " ms; an occurrence between them would be both admittable and missed",
                )
            },
            AgentWakeError::BackoffInitialZero => "the backoff initial delay must be positive".to_owned(),
            AgentWakeError::BackoffMultiplierBelowUnit { multiplier_percent } => {
                let text_multiplier_percent = decimal_string(*multiplier_percent as u64);
                join2(
                    "the backoff multiplier must be at least 100 percent, not ",
                    text_multiplier_percent.as_str(),
                )
            },
            AgentWakeError::BackoffMaximumBelowInitial { initial_millis, max_millis } => {
                let text_max_millis = decimal_string(*max_millis);
                let text_initial_millis = decimal_string(*initial_millis);
                join5(
                    "the backoff ceiling of ",
                    text_max_millis.as_str(),
                    " ms is below the initial delay of ",
                    text_initial_millis.as_str(),
                    " ms",
                )
            },
            AgentWakeError::ZeroEscalationThreshold => "the escalation threshold must be positive when set".to_owned(),
            AgentWakeError::ZeroRetirementOccurrences => "retirement after occurrences requires a positive count".to_owned(),
            AgentWakeError::RenewalWithoutExpiry => "a renewal requirement needs an expiry to renew against".to_owned(),
            AgentWakeError::WindowCeilingUnbounded => "a goal window ceiling must bound at least one dimension".to_owned(),
            AgentWakeError::WindowEpochUnbounded { dimension } => {
                join3(
                    "the goal window bounds ",
                    dimension.name(),
                    ", which the per-epoch budget leaves unbounded; the first admission would exhaust the window",
                )
            },
            AgentWakeError::WindowEpochExceedsCeiling { dimension, epoch_budget, ceiling } => {
                let text_epoch_budget = decimal_string(*epoch_budget);
                let text_ceiling = decimal_string(*ceiling);
                join7(
                    "the per-epoch budget of ",
                    text_epoch_budget.as_str(),
                    " on ",
                    dimension.name(),
                    " exceeds the goal window ceiling of ",
                    text_ceiling.as_str(),
                    "; no window could ever pay for one epoch",
                )
            },
            AgentWakeError::EpochUnbounded => "an epoch must be bounded: set a deadline or bound at least one budget dimension".to_owned(),
            AgentWakeError::RevisionAhead { offered, current } => {
                let text_offered = decimal_string(offered.get());
                let text_current = decimal_string(current.get());
                join5(
                    "the binding carries schedule revision ",
                    text_offered.as_str(),
                    ", ahead of the current revision ",
                    text_current.as_str(),
                    "; no accepted schedule issued it",
                )
            },
            AgentWakeError::TriggerNotAllowed { trigger } => {
                join3(
                    "the wake policy does not allow the ",
                    trigger.as_label(),
                    " trigger",
                )
            },
            AgentWakeError::RetryTriggerMismatch { trigger } => {
                join3(
                    "a controller retry and the ",
                    trigger.as_label(),
                    " trigger cannot name each other: only the controller delivers retries, and it delivers nothing else",
                )
            },
            AgentWakeError::NotActive { wake } => {
                join3(
                    "the wake ",
                    wake.as_str(),
                    " is not an active occurrence",
                )
            },
            AgentWakeError::ForeignWakeId { wake } => {
                join3(
                    "the wake ",
                    wake.as_str(),
                    " was not derived by this crate's construction; no epoch identity derives from it",
                )
            },
            AgentWakeError::StaleLifecycleRevision { expected, current } => {
                let text_expected = decimal_string(expected.number);
                let text_current = decimal_string(current.number);
                join5(
                    "the lifecycle command expected revision ",
                    text_expected.as_str(),
                    ", but the goal has moved to ",
                    text_current.as_str(),
                    "; re-read and decide again",
                )
            },
            AgentWakeError::NotSuspended { status } => {
                join3(
                    "the goal is ",
                    status.as_label(),
                    ", not suspended; there is nothing to resume",
                )
            },
            AgentWakeError::LifecycleTerminal { status } => {
                join3(
                    "the goal is ",
                    status.as_label(),
                    ", which accepts no lifecycle transition",
                )
            },
            AgentWakeError::RenewalOutsideWindow { opens, effective } => {
                let text_opens = decimal_string(opens.millis);
                let text_effective = decimal_string(effective.millis);
                join5(
                    "the renewal must arrive inside [",
                    text_opens.as_str(),
                    ", ",
                    text_effective.as_str(),
                    "); outside it the policy requires expiry",
                )
            },
            AgentWakeError::RenewalNotExtending { offered, effective } => {
                let text_offered = decimal_string(offered.millis);
                let text_effective = decimal_string(effective.millis);
                join4(
                    "a renewal must strictly extend the effective expiry: ",
                    text_offered.as_str(),
                    " does not extend ",
                    text_effective.as_str(),
                )
            },
            AgentWakeError::StateOutOfBounds { detail } => {
                join2(
                    "the persisted wake controller state exceeds its bound on ",
                    detail,
                )
            },
        }
    }

    /// The words of each rejection.
    pub open spec fn message_text(&self) -> Seq<char> {
        match self {
            AgentWakeError::Identity(error) => "wake identity is invalid: "@
                + error.message_text(),
            AgentWakeError::TriggerSource(error) => "wake trigger source is out of bounds: "@
                + error.message@,
            AgentWakeError::EmptyTriggers => "a wake policy must allow at least one trigger"@,
            AgentWakeError::ParallelEpochsNotParallel { max_concurrent_epochs } => "a parallel overlap policy needs at least two concurrent epochs, not "@
                + decimal(*max_concurrent_epochs as nat)
                + "; a bound of one is forbid-and-coalesce"@,
            AgentWakeError::ZeroCatchUp => "a bounded catch-up policy must replay at least one occurrence"@,
            AgentWakeError::ZeroDuration { field } => "the "@
                + field@
                + " must be positive"@,
            AgentWakeError::LatenessBelowAdmissionWindow { admission_window_millis, maximum_lateness_millis } => "the maximum lateness of "@
                + decimal(*maximum_lateness_millis as nat)
                + " ms is below the admission window of "@
                + decimal(*admission_window_millis as nat)
                + " ms; an occurrence between them would be both admittable and missed"@,
            AgentWakeError::BackoffInitialZero => "the backoff initial delay must be positive"@,
            AgentWakeError::BackoffMultiplierBelowUnit { multiplier_percent } => "the backoff multiplier must be at least 100 percent, not "@
                + decimal(*multiplier_percent as nat),
            AgentWakeError::BackoffMaximumBelowInitial { initial_millis, max_millis } => "the backoff ceiling of "@
                + decimal(*max_millis as nat)
                + " ms is below the initial delay of "@
                + decimal(*initial_millis as nat)
                + " ms"@,
            AgentWakeError::ZeroEscalationThreshold => "the escalation threshold must be positive when set"@,
            AgentWakeError::ZeroRetirementOccurrences => "retirement after occurrences requires a positive count"@,
            AgentWakeError::RenewalWithoutExpiry => "a renewal requirement needs an expiry to renew against"@,
            AgentWakeError::WindowCeilingUnbounded => "a goal window ceiling must bound at least one dimension"@,
            AgentWakeError::WindowEpochUnbounded { dimension } => "the goal window bounds "@
                + dimension.name_text()
                + ", which the per-epoch budget leaves unbounded; the first admission would exhaust the window"@,
            AgentWakeError::WindowEpochExceedsCeiling { dimension, epoch_budget, ceiling } => "the per-epoch budget of "@
                + decimal(*epoch_budget as nat)
                + " on "@
                + dimension.name_text()
                + " exceeds the goal window ceiling of "@
                + decimal(*ceiling as nat)
                + "; no window could ever pay for one epoch"@,
            AgentWakeError::EpochUnbounded => "an epoch must be bounded: set a deadline or bound at least one budget dimension"@,
            AgentWakeError::RevisionAhead { offered, current } => "the binding carries schedule revision "@
                + decimal(offered.number() as nat)
                + ", ahead of the current revision "@
                + decimal(current.number() as nat)
                + "; no accepted schedule issued it"@,
            AgentWakeError::TriggerNotAllowed { trigger } => "the wake policy does not allow the "@
                + trigger.label_text()
                + " trigger"@,
            AgentWakeError::RetryTriggerMismatch { trigger } => "a controller retry and the "@
                + trigger.label_text()
                + " trigger cannot name each other: only the controller delivers retries, and it delivers nothing else"@,
            AgentWakeError::NotActive { wake } => "the wake "@
                + wake@
                + " is not an active occurrence"@,
            AgentWakeError::ForeignWakeId { wake } => "the wake "@
                + wake@
                + " was not derived by this crate's construction; no epoch identity derives from it"@,
            AgentWakeError::StaleLifecycleRevision { expected, current } => "the lifecycle command expected revision "@
                + decimal(expected.number as nat)
                + ", but the goal has moved to "@
                + decimal(current.number as nat)
                + "; re-read and decide again"@,
            AgentWakeError::NotSuspended { status } => "the goal is "@
                + status.label_text()
                + ", not suspended; there is nothing to resume"@,
            AgentWakeError::LifecycleTerminal { status } => "the goal is "@
                + status.label_text()
                + ", which accepts no lifecycle transition"@,
            AgentWakeError::RenewalOutsideWindow { opens, effective } => "the renewal must arrive inside ["@
                + decimal(opens.millis as nat)
                + ", "@
                + decimal(effective.millis as nat)
                + "); outside it the policy requires expiry"@,
            AgentWakeError::RenewalNotExtending { offered, effective } => "a renewal must strictly extend the effective expiry: "@
                + decimal(offered.millis as nat)
                + " does not extend "@
                + decimal(effective.millis as nat),
            AgentWakeError::StateOutOfBounds { detail } => "the persisted wake controller state exceeds its bound on "@
                + detail@,
        }
    }
}

} // verus!
