//! Wake identity: one derived identity for each logical occurrence, however its
//! notification arrived, and the binding that ties a wake to its delivery.

use std::cmp::Ordering;

use vstd::prelude::*;
use vstd::std_specs::cmp::PartialOrdSpecImpl;
use vstd::string::*;
use vstd::utf8::encode_utf8;

use crate::digest::{sha256_hex, sha256_hex_of_text};
use crate::identity::{
    canonical_encoding_is_injective, canonical_segments, canonical_text, derive_operation_id,
    operation_text, texts, validate_tenant, AgentGoalId, AgentIdentityError, AgentOperationId,
    AgentOperationKind, AgentRevisionNumber, AgentTaskId, AgentTimestampMillis,
    AgentWakeCallbackId, AgentWakeEventId, AgentWakeId, Identifier, TenantId,
};
use crate::text::{
    decimal, decimal_string, is_digit, join2, join3, join5, lemma_decimal_digits,
    lemma_decimal_injective,
};
use crate::wake_error::{AgentTriggerSourceError, AgentWakeError};

verus! {

/// Prefix of every derived [`AgentWakeId`].
pub const AGENT_WAKE_ID_PREFIX: &'static str = "wake-";

/// Monotonic revision of one continuous goal's schedule, starting at one.
///
/// It is distinct from [`AgentRevisionNumber`], so that a definition or policy
/// revision can never stand in for one where wakes are fenced.
#[derive(Debug, Clone, Copy, PartialEq, Eq, Ord, Hash, Structural)]
pub struct ScheduleRevision {
    value: u64,
}

impl ScheduleRevision {
    /// The revision's number.
    pub closed spec fn number(self) -> u64 {
        self.value
    }

    /// A revision is its number: revisions are told apart by their numbers alone,
    /// so the revision of a revision's own number is that revision.
    pub broadcast proof fn lemma_number_identifies(self, other: ScheduleRevision)
        ensures
            #[trigger] self.number() == #[trigger] other.number() ==> self == other,
    {
    }

    /// The first revision of any schedule.
    pub fn initial() -> (revision: Self)
        ensures
            revision.number() == 1,
    {
        ScheduleRevision { value: 1 }
    }

    /// Names a revision. No schedule ever carried zero: it names the first one.
    pub fn new(value: u64) -> (revision: Self)
        ensures
            revision.number() == if value == 0 {
                1
            } else {
                value
            },
    {
        if value == 0 {
            ScheduleRevision { value: 1 }
        } else {
            ScheduleRevision { value }
        }
    }

    /// Accepts a stored revision, refusing zero, which was never issued.
    pub fn restore(value: u64) -> (result: Result<Self, AgentWakeRestoreError>)
        ensures
            value == 0 ==> result == Err::<Self, _>(AgentWakeRestoreError::ZeroRevision),
            value != 0 ==> result is Ok && result->Ok_0.number() == value,
    {
        if value == 0 {
            Err(AgentWakeRestoreError::ZeroRevision)
        } else {
            Ok(ScheduleRevision { value })
        }
    }

    #[verifier::type_invariant]
    spec fn was_issued(&self) -> bool {
        self.value >= 1
    }

    /// The revision's number, never zero.
    pub fn get(self) -> (number: u64)
        ensures
            number == self.number(),
            number >= 1,
    {
        proof {
            use_type_invariant(&self);
        }
        self.value
    }

    /// The revision that follows this one; the last one follows itself.
    pub fn next(self) -> (revision: Self)
        ensures
            revision.number() == if self.number() == u64::MAX {
                u64::MAX
            } else {
                (self.number() + 1) as u64
            },
    {
        ScheduleRevision { value: self.value.saturating_add(1) }
    }
}

impl PartialOrd for ScheduleRevision {
    fn partial_cmp(&self, other: &Self) -> (order: Option<Ordering>) {
        if self.value < other.value {
            Some(Ordering::Less)
        } else if self.value == other.value {
            Some(Ordering::Equal)
        } else {
            Some(Ordering::Greater)
        }
    }
}

impl PartialOrdSpecImpl for ScheduleRevision {
    open spec fn obeys_partial_cmp_spec() -> bool {
        true
    }

    /// Revisions are ordered as their numbers are.
    open spec fn partial_cmp_spec(&self, other: &Self) -> Option<Ordering> {
        if self.number() < other.number() {
            Some(Ordering::Less)
        } else if self.number() == other.number() {
            Some(Ordering::Equal)
        } else {
            Some(Ordering::Greater)
        }
    }
}

/// Cause of one controller-originated re-wake.
#[derive(Debug, Clone, Copy, PartialEq, Eq, Structural)]
#[non_exhaustive]
pub enum AgentWakeRewakeCause {
    /// A failure backoff elapsing.
    Backoff,
    /// A goal window turning while a deferred occurrence waits.
    WindowTurn,
}

impl AgentWakeRewakeCause {
    /// Stable kebab-case label.
    pub fn as_label(self) -> (label: &'static str)
        ensures
            label@ == self.label_text(),
    {
        match self {
            AgentWakeRewakeCause::Backoff => "backoff",
            AgentWakeRewakeCause::WindowTurn => "window-turn",
        }
    }

    /// The label of each cause.
    pub open spec fn label_text(self) -> Seq<char> {
        match self {
            AgentWakeRewakeCause::Backoff => "backoff"@,
            AgentWakeRewakeCause::WindowTurn => "window-turn"@,
        }
    }
}

/// The logical occurrence one wake stands for: what happened in logical time,
/// with no trace of how its notification was delivered.
#[derive(Debug)]
#[non_exhaustive]
pub enum AgentWakeOccurrence {
    /// One slot of the durable schedule, identified by its logical due time.
    Scheduled {
        /// When the schedule made this occurrence due.
        due_at: AgentTimestampMillis,
    },
    /// One external event.
    ExternalEvent {
        /// Identity of the event, stable across redelivery.
        event: AgentWakeEventId,
    },
    /// One authenticated wake command.
    Command {
        /// The command's stable operation id.
        operation: AgentOperationId,
    },
    /// One external callback.
    Callback {
        /// Stable identity of the callback.
        callback: AgentWakeCallbackId,
    },
    /// One retry the controller scheduled for itself. Its delivery promotes
    /// whatever is admittable; it never admits an epoch of its own.
    Retry {
        /// When the retry becomes due.
        due_at: AgentTimestampMillis,
        /// What the retry re-attempts.
        cause: AgentWakeRewakeCause,
        /// Which delivery generation of the re-wake this is.
        attempt: u64,
    },
}

impl AgentWakeOccurrence {
    /// The label of each occurrence kind.
    pub open spec fn kind_text(&self) -> Seq<char> {
        match self {
            AgentWakeOccurrence::Scheduled { .. } => "scheduled"@,
            AgentWakeOccurrence::ExternalEvent { .. } => "external-event"@,
            AgentWakeOccurrence::Command { .. } => "a2a-command"@,
            AgentWakeOccurrence::Callback { .. } => "callback"@,
            AgentWakeOccurrence::Retry { .. } => "controller-retry"@,
        }
    }

    /// What identifies the occurrence among those of its kind.
    pub open spec fn identity_text(&self) -> Seq<char> {
        match self {
            AgentWakeOccurrence::Scheduled { due_at } => decimal(due_at.millis as nat),
            AgentWakeOccurrence::ExternalEvent { event } => event@,
            AgentWakeOccurrence::Command { operation } => operation@,
            AgentWakeOccurrence::Callback { callback } => callback@,
            AgentWakeOccurrence::Retry { due_at, cause, attempt } => if *attempt == 0 {
                cause.label_text() + ":"@ + decimal(due_at.millis as nat)
            } else {
                cause.label_text() + ":"@ + decimal(due_at.millis as nat) + ":"@ + decimal(
                    *attempt as nat,
                )
            },
        }
    }

    /// When the occurrence is due, for the kinds that have a due time.
    pub open spec fn due(&self) -> Option<AgentTimestampMillis> {
        match self {
            AgentWakeOccurrence::Scheduled { due_at } => Some(*due_at),
            AgentWakeOccurrence::Retry { due_at, .. } => Some(*due_at),
            _ => None,
        }
    }

    /// Whether two values stand for the same occurrence.
    pub open spec fn is_same(&self, other: &Self) -> bool {
        match (self, other) {
            (
                AgentWakeOccurrence::Scheduled { due_at: a },
                AgentWakeOccurrence::Scheduled { due_at: b },
            ) => a == b,
            (
                AgentWakeOccurrence::ExternalEvent { event: a },
                AgentWakeOccurrence::ExternalEvent { event: b },
            ) => a@ == b@,
            (
                AgentWakeOccurrence::Command { operation: a },
                AgentWakeOccurrence::Command { operation: b },
            ) => a@ == b@,
            (
                AgentWakeOccurrence::Callback { callback: a },
                AgentWakeOccurrence::Callback { callback: b },
            ) => a@ == b@,
            (
                AgentWakeOccurrence::Retry { due_at: a, cause: c, attempt: n },
                AgentWakeOccurrence::Retry { due_at: b, cause: d, attempt: m },
            ) => a == b && c == d && n == m,
            _ => false,
        }
    }

    /// Stable kebab-case label of the occurrence kind.
    pub fn kind_label(&self) -> (label: &'static str)
        ensures
            label@ == self.kind_text(),
    {
        match self {
            AgentWakeOccurrence::Scheduled { .. } => "scheduled",
            AgentWakeOccurrence::ExternalEvent { .. } => "external-event",
            AgentWakeOccurrence::Command { .. } => "a2a-command",
            AgentWakeOccurrence::Callback { .. } => "callback",
            AgentWakeOccurrence::Retry { .. } => "controller-retry",
        }
    }

    /// The occurrence's identity value.
    pub fn identity_value(&self) -> (value: String)
        ensures
            value@ == self.identity_text(),
    {
        match self {
            AgentWakeOccurrence::Scheduled { due_at } => decimal_string(due_at.millis),
            AgentWakeOccurrence::ExternalEvent { event } => event.as_str().to_owned(),
            AgentWakeOccurrence::Command { operation } => operation.as_str().to_owned(),
            AgentWakeOccurrence::Callback { callback } => callback.as_str().to_owned(),
            AgentWakeOccurrence::Retry { due_at, cause, attempt } => {
                let due = decimal_string(due_at.millis);
                if *attempt == 0 {
                    join3(cause.as_label(), ":", due.as_str())
                } else {
                    let generation = decimal_string(*attempt);
                    join5(cause.as_label(), ":", due.as_str(), ":", generation.as_str())
                }
            },
        }
    }

    /// When the occurrence was due, for the kinds that have a due time.
    pub fn due_at(&self) -> (due: Option<AgentTimestampMillis>)
        ensures
            due == self.due(),
    {
        match self {
            AgentWakeOccurrence::Scheduled { due_at } => Some(*due_at),
            AgentWakeOccurrence::Retry { due_at, .. } => Some(*due_at),
            _ => None,
        }
    }

    /// Whether two values stand for the same occurrence.
    pub fn same(&self, other: &Self) -> (result: bool)
        ensures
            result == self.is_same(other),
    {
        match (self, other) {
            (
                AgentWakeOccurrence::Scheduled { due_at: a },
                AgentWakeOccurrence::Scheduled { due_at: b },
            ) => *a == *b,
            (
                AgentWakeOccurrence::ExternalEvent { event: a },
                AgentWakeOccurrence::ExternalEvent { event: b },
            ) => a.same(b),
            (
                AgentWakeOccurrence::Command { operation: a },
                AgentWakeOccurrence::Command { operation: b },
            ) => a.same(b),
            (
                AgentWakeOccurrence::Callback { callback: a },
                AgentWakeOccurrence::Callback { callback: b },
            ) => a.same(b),
            (
                AgentWakeOccurrence::Retry { due_at: a, cause: c, attempt: n },
                AgentWakeOccurrence::Retry { due_at: b, cause: d, attempt: m },
            ) => *a == *b && *c == *d && *n == *m,
            _ => false,
        }
    }

    /// The occurrence in words: its kind, a colon, its identity value.
    pub fn describe(&self) -> (text: String)
        ensures
            text@ == self.kind_text() + ":"@ + self.identity_text(),
    {
        let value = self.identity_value();
        join3(self.kind_label(), ":", value.as_str())
    }
}

impl Clone for AgentWakeOccurrence {
    fn clone(&self) -> (copy: Self)
        ensures
            copy == *self,
    {
        match self {
            AgentWakeOccurrence::Scheduled { due_at } => AgentWakeOccurrence::Scheduled {
                due_at: *due_at,
            },
            AgentWakeOccurrence::ExternalEvent { event } => AgentWakeOccurrence::ExternalEvent {
                event: event.clone(),
            },
            AgentWakeOccurrence::Command { operation } => AgentWakeOccurrence::Command {
                operation: operation.clone(),
            },
            AgentWakeOccurrence::Callback { callback } => AgentWakeOccurrence::Callback {
                callback: callback.clone(),
            },
            AgentWakeOccurrence::Retry { due_at, cause, attempt } => AgentWakeOccurrence::Retry {
                due_at: *due_at,
                cause: *cause,
                attempt: *attempt,
            },
        }
    }
}

/// The segments a wake's identity digests.
pub open spec fn wake_segments(
    tenant: Seq<char>,
    goal: Seq<char>,
    revision: ScheduleRevision,
    occurrence: AgentWakeOccurrence,
) -> Seq<Seq<char>> {
    seq![
        tenant,
        goal,
        decimal(revision.number() as nat),
        occurrence.kind_text(),
        occurrence.identity_text(),
    ]
}

/// The text of a wake's identity: a digest of the length-prefixed tenant, goal,
/// schedule revision, occurrence kind and occurrence identity.
pub open spec fn wake_text(
    tenant: Seq<char>,
    goal: Seq<char>,
    revision: ScheduleRevision,
    occurrence: AgentWakeOccurrence,
) -> Seq<char> {
    AGENT_WAKE_ID_PREFIX@ + sha256_hex(
        encode_utf8(canonical_segments(wake_segments(tenant, goal, revision, occurrence))),
    )
}

/// Derives the one wake identity of a logical occurrence.
///
/// The identity depends on the tenant, the goal, the schedule revision and the
/// occurrence, and on nothing else: neither the trigger nor any time of
/// delivery reaches it.
pub fn wake_id_for_occurrence(
    tenant: &TenantId,
    goal: &AgentGoalId,
    schedule_revision: ScheduleRevision,
    occurrence: &AgentWakeOccurrence,
) -> (result: Result<AgentWakeId, AgentWakeError>)
    ensures
        tenant@.len() == 0 ==> result == Err::<AgentWakeId, _>(
            AgentWakeError::Identity(AgentIdentityError::Empty),
        ),
        tenant@.len() > 0 ==> result is Ok && result->Ok_0@ == wake_text(
            tenant@,
            goal@,
            schedule_revision,
            *occurrence,
        ),
        result is Ok ==> result->Ok_0@.len() == 69,
{
    if let Err(error) = validate_tenant(tenant) {
        return Err(AgentWakeError::Identity(error));
    }
    let revision = decimal_string(schedule_revision.get());
    let identity = occurrence.identity_value();
    let segments: [&str; 5] = [
        tenant.as_str(),
        goal.as_str(),
        revision.as_str(),
        occurrence.kind_label(),
        identity.as_str(),
    ];
    proof {
        assert(texts(segments@) =~= wake_segments(tenant@, goal@, schedule_revision, *occurrence));
    }
    let canonical = canonical_text(&segments);
    let digest = sha256_hex_of_text(canonical.as_str());
    let text = join2(AGENT_WAKE_ID_PREFIX, digest.as_str());
    proof {
        reveal_strlit("wake-");
    }
    Ok(Identifier::from_text(text))
}

/// Derives the operation id one wake's admission deduplicates on.
pub fn wake_admission_operation_id(
    tenant: &TenantId,
    goal: &AgentGoalId,
    wake: &AgentWakeId,
) -> (result: Result<AgentOperationId, AgentWakeError>)
    ensures
        is_wake_operation(AgentOperationKind::WakeAdmission, tenant@, goal@, wake@, result),
{
    wake_operation_id(AgentOperationKind::WakeAdmission, tenant, goal, wake)
}

/// Derives the operation id one epoch's admission deduplicates on.
pub fn epoch_admission_operation_id(
    tenant: &TenantId,
    goal: &AgentGoalId,
    wake: &AgentWakeId,
) -> (result: Result<AgentOperationId, AgentWakeError>)
    ensures
        is_wake_operation(AgentOperationKind::EpochAdmission, tenant@, goal@, wake@, result),
{
    wake_operation_id(AgentOperationKind::EpochAdmission, tenant, goal, wake)
}

/// Derives the operation id one epoch's result deduplicates on.
pub fn epoch_result_operation_id(
    tenant: &TenantId,
    goal: &AgentGoalId,
    wake: &AgentWakeId,
) -> (result: Result<AgentOperationId, AgentWakeError>)
    ensures
        is_wake_operation(AgentOperationKind::EpochResult, tenant@, goal@, wake@, result),
{
    wake_operation_id(AgentOperationKind::EpochResult, tenant, goal, wake)
}

/// What deriving an operation of one kind for a wake gives: its canonical text,
/// or a refusal when one of the three names is empty.
pub open spec fn is_wake_operation(
    kind: AgentOperationKind,
    tenant: Seq<char>,
    goal: Seq<char>,
    wake: Seq<char>,
    result: Result<AgentOperationId, AgentWakeError>,
) -> bool {
    if tenant.len() > 0 && goal.len() > 0 && wake.len() > 0 {
        result is Ok && result->Ok_0@ == operation_text(kind, seq![tenant, goal, wake])
    } else {
        result == Err::<AgentOperationId, _>(AgentWakeError::Identity(AgentIdentityError::Empty))
    }
}

fn wake_operation_id(
    kind: AgentOperationKind,
    tenant: &TenantId,
    goal: &AgentGoalId,
    wake: &AgentWakeId,
) -> (result: Result<AgentOperationId, AgentWakeError>)
    ensures
        is_wake_operation(kind, tenant@, goal@, wake@, result),
{
    let segments: [&str; 3] = [tenant.as_str(), goal.as_str(), wake.as_str()];
    proof {
        assert(texts(segments@) =~= seq![tenant@, goal@, wake@]);
        assert(segments@[0]@ == tenant@ && segments@[1]@ == goal@ && segments@[2]@ == wake@);
    }
    match derive_operation_id(kind, &segments) {
        Ok(operation) => Ok(operation),
        Err(error) => Err(AgentWakeError::Identity(error)),
    }
}

/// Prefix of every derived epoch task.
pub const AGENT_EPOCH_TASK_PREFIX: &'static str = "epoch-";

/// Derives the finite child task one admitted wake's epoch runs as: the wake's
/// own digest under the epoch prefix. An identity without the wake prefix was
/// not derived from an occurrence and is refused.
pub fn epoch_task_id_for_wake(wake: &AgentWakeId) -> (result: Result<AgentTaskId, AgentWakeError>)
    ensures
        crate::text::starts_with(wake@, AGENT_WAKE_ID_PREFIX@) ==> result is Ok
            && result->Ok_0@ == epoch_text(wake@) && result->Ok_0@.len() == wake@.len() + 1,
        !crate::text::starts_with(wake@, AGENT_WAKE_ID_PREFIX@) ==> result == Err::<AgentTaskId, _>(
            AgentWakeError::ForeignWakeId { wake: *wake },
        ),
{
    match crate::text::strip_prefix(wake.as_str(), AGENT_WAKE_ID_PREFIX) {
        Some(digest) => {
            let text = join2(AGENT_EPOCH_TASK_PREFIX, digest);
            proof {
                reveal_strlit("epoch-");
                reveal_strlit("wake-");
            }
            Ok(Identifier::from_text(text))
        },
        None => Err(AgentWakeError::ForeignWakeId { wake: wake.clone() }),
    }
}

/// The text of the epoch task of a derived wake.
pub open spec fn epoch_text(wake: Seq<char>) -> Seq<char> {
    AGENT_EPOCH_TASK_PREFIX@ + wake.subrange(
        AGENT_WAKE_ID_PREFIX@.len() as int,
        wake.len() as int,
    )
}

/// Trigger class through which a wake may reach a continuous goal. It says how
/// an occurrence's notification arrives, never which occurrence it is.
#[derive(Debug, Clone, Copy, PartialEq, Eq, PartialOrd, Ord, Hash, Structural)]
#[non_exhaustive]
pub enum AgentWakeTriggerKind {
    /// A durable one-shot timer recovered by the shared scanner.
    DurableTimer,
    /// An external event accepted by application-owned routing.
    ExternalEvent,
    /// An authenticated command.
    A2aCommand,
    /// An external callback normalized by application-owned routing.
    Callback,
    /// The controller's own durable retry, never declared by a policy.
    Controller,
}

impl AgentWakeTriggerKind {
    /// Every trigger class, in stable order.
    pub fn all() -> (kinds: [AgentWakeTriggerKind; 5])
        ensures
            kinds@ == seq![
                AgentWakeTriggerKind::DurableTimer,
                AgentWakeTriggerKind::ExternalEvent,
                AgentWakeTriggerKind::A2aCommand,
                AgentWakeTriggerKind::Callback,
                AgentWakeTriggerKind::Controller,
            ],
    {
        let kinds = [
            AgentWakeTriggerKind::DurableTimer,
            AgentWakeTriggerKind::ExternalEvent,
            AgentWakeTriggerKind::A2aCommand,
            AgentWakeTriggerKind::Callback,
            AgentWakeTriggerKind::Controller,
        ];
        assert(kinds@ =~= seq![
            AgentWakeTriggerKind::DurableTimer,
            AgentWakeTriggerKind::ExternalEvent,
            AgentWakeTriggerKind::A2aCommand,
            AgentWakeTriggerKind::Callback,
            AgentWakeTriggerKind::Controller,
        ]);
        kinds
    }

    /// Stable kebab-case label.
    pub fn as_label(self) -> (label: &'static str)
        ensures
            label@ == self.label_text(),
    {
        match self {
            AgentWakeTriggerKind::DurableTimer => "durable-timer",
            AgentWakeTriggerKind::ExternalEvent => "external-event",
            AgentWakeTriggerKind::A2aCommand => "a2a-command",
            AgentWakeTriggerKind::Callback => "callback",
            AgentWakeTriggerKind::Controller => "controller",
        }
    }

    /// The label of each trigger class.
    pub open spec fn label_text(self) -> Seq<char> {
        match self {
            AgentWakeTriggerKind::DurableTimer => "durable-timer"@,
            AgentWakeTriggerKind::ExternalEvent => "external-event"@,
            AgentWakeTriggerKind::A2aCommand => "a2a-command"@,
            AgentWakeTriggerKind::Callback => "callback"@,
            AgentWakeTriggerKind::Controller => "controller"@,
        }
    }
}

/// Bounded metadata on where a trigger came from.
#[derive(Debug)]
pub struct AgentTriggerSource {
    /// The metadata, as its owner writes it.
    pub metadata: String,
}

impl Clone for AgentTriggerSource {
    fn clone(&self) -> (copy: Self)
        ensures
            copy == *self,
    {
        AgentTriggerSource { metadata: self.metadata.clone() }
    }
}

/// Everything one wake binds: the goal, the schedule revision and occurrence it
/// was constructed from, the trigger that delivered it, and its derived
/// identity.
#[derive(Debug)]
pub struct AgentWakeBinding {
    tenant: TenantId,
    goal: AgentGoalId,
    schedule_revision: ScheduleRevision,
    occurrence: AgentWakeOccurrence,
    trigger: AgentWakeTriggerKind,
    source: Option<AgentTriggerSource>,
    accepted_at: AgentTimestampMillis,
    policy_revision: AgentRevisionNumber,
    wake: AgentWakeId,
}

impl AgentWakeBinding {
    /// The value of [`Self::tenant`].
    pub closed spec fn spec_tenant(&self) -> &TenantId {
        &self.tenant
    }

    /// The value of [`Self::goal`].
    pub closed spec fn spec_goal(&self) -> &AgentGoalId {
        &self.goal
    }

    /// The value of [`Self::schedule_revision`].
    pub closed spec fn spec_schedule_revision(&self) -> ScheduleRevision {
        self.schedule_revision
    }

    /// The value of [`Self::occurrence`].
    pub closed spec fn spec_occurrence(&self) -> &AgentWakeOccurrence {
        &self.occurrence
    }

    /// The value of [`Self::trigger`].
    pub closed spec fn spec_trigger(&self) -> AgentWakeTriggerKind {
        self.trigger
    }

    /// The value of [`Self::source`].
    pub closed spec fn spec_source(&self) -> Option<AgentTriggerSource> {
        self.source
    }

    /// The value of [`Self::accepted_at`].
    pub closed spec fn spec_accepted_at(&self) -> AgentTimestampMillis {
        self.accepted_at
    }

    /// The value of [`Self::policy_revision`].
    pub closed spec fn spec_policy_revision(&self) -> AgentRevisionNumber {
        self.policy_revision
    }

    /// The value of [`Self::wake_id`].
    pub closed spec fn spec_wake_id(&self) -> &AgentWakeId {
        &self.wake
    }

    /// Whether the binding's identity is the one its components derive.
    pub open spec fn is_derived(&self) -> bool {
        &&& self.spec_tenant()@.len() > 0
        &&& self.spec_wake_id()@ == wake_text(
            self.spec_tenant()@,
            self.spec_goal()@,
            self.spec_schedule_revision(),
            *self.spec_occurrence(),
        )
    }

    /// Whether the binding holds exactly these components, and the identity
    /// they derive.
    pub open spec fn binds(
        &self,
        tenant: TenantId,
        goal: AgentGoalId,
        schedule_revision: ScheduleRevision,
        occurrence: AgentWakeOccurrence,
        trigger: AgentWakeTriggerKind,
        source: Option<AgentTriggerSource>,
        accepted_at: AgentTimestampMillis,
        policy_revision: AgentRevisionNumber,
    ) -> bool {
        &&& *self.spec_tenant() == tenant
        &&& *self.spec_goal() == goal
        &&& self.spec_schedule_revision() == schedule_revision
        &&& *self.spec_occurrence() == occurrence
        &&& self.spec_trigger() == trigger
        &&& self.spec_source() == source
        &&& self.spec_accepted_at() == accepted_at
        &&& self.spec_policy_revision() == policy_revision
        &&& self.is_derived()
    }

    /// Creates a wake binding, deriving its identity from the occurrence.
    pub fn new(
        tenant: TenantId,
        goal: AgentGoalId,
        schedule_revision: ScheduleRevision,
        occurrence: AgentWakeOccurrence,
        trigger: AgentWakeTriggerKind,
        accepted_at: AgentTimestampMillis,
        policy_revision: AgentRevisionNumber,
    ) -> (result: Result<Self, AgentWakeError>)
        ensures
            tenant@.len() == 0 ==> result == Err::<Self, _>(
                AgentWakeError::Identity(AgentIdentityError::Empty),
            ),
            tenant@.len() > 0 ==> result is Ok && result->Ok_0.binds(
                tenant,
                goal,
                schedule_revision,
                occurrence,
                trigger,
                None,
                accepted_at,
                policy_revision,
            ),
    {
        match wake_id_for_occurrence(&tenant, &goal, schedule_revision, &occurrence) {
            Err(error) => Err(error),
            Ok(wake) => Ok(
                AgentWakeBinding {
                    tenant,
                    goal,
                    schedule_revision,
                    occurrence,
                    trigger,
                    source: None,
                    accepted_at,
                    policy_revision,
                    wake,
                },
            ),
        }
    }

    /// Attaches trigger-source metadata under the verdict of its own
    /// validation. The source describes delivery and never identity.
    pub fn with_source(
        self,
        source: AgentTriggerSource,
        verdict: Result<(), AgentTriggerSourceError>,
    ) -> (result: Result<Self, AgentWakeError>)
        ensures
            verdict is Err ==> result == Err::<Self, _>(
                AgentWakeError::TriggerSource(verdict->Err_0),
            ),
            verdict is Ok ==> result is Ok && result->Ok_0.spec_source() == Some(source)
                && result->Ok_0.same_but_source(&self),
    {
        match verdict {
            Err(error) => Err(AgentWakeError::TriggerSource(error)),
            Ok(_) => {
                let mut bound = self;
                bound.source = Some(source);
                Ok(bound)
            },
        }
    }

    /// Whether two bindings agree on everything but the trigger source.
    pub open spec fn same_but_source(&self, other: &Self) -> bool {
        &&& self.spec_tenant() == other.spec_tenant()
        &&& self.spec_goal() == other.spec_goal()
        &&& self.spec_schedule_revision() == other.spec_schedule_revision()
        &&& self.spec_occurrence() == other.spec_occurrence()
        &&& self.spec_trigger() == other.spec_trigger()
        &&& self.spec_accepted_at() == other.spec_accepted_at()
        &&& self.spec_policy_revision() == other.spec_policy_revision()
        &&& self.spec_wake_id() == other.spec_wake_id()
    }

    /// Accepts a stored binding: its identity is derived again from its
    /// components, and a record that carries another one is refused. The source
    /// is attached under the verdict of its own validation.
    pub fn restore(
        tenant: TenantId,
        goal: AgentGoalId,
        schedule_revision: ScheduleRevision,
        occurrence: AgentWakeOccurrence,
        trigger: AgentWakeTriggerKind,
        source: Option<(AgentTriggerSource, Result<(), AgentTriggerSourceError>)>,
        accepted_at: AgentTimestampMillis,
        policy_revision: AgentRevisionNumber,
        wake: &AgentWakeId,
    ) -> (result: Result<Self, AgentWakeRestoreError>)
        ensures
            tenant@.len() == 0 ==> result == Err::<Self, _>(
                AgentWakeRestoreError::Rejected(
                    AgentWakeError::Identity(AgentIdentityError::Empty),
                ),
            ),
            tenant@.len() > 0 && source is Some && source->Some_0.1 is Err ==> result == Err::<
                Self,
                _,
            >(
                AgentWakeRestoreError::Rejected(
                    AgentWakeError::TriggerSource(source->Some_0.1->Err_0),
                ),
            ),
            tenant@.len() > 0 && (source is Some ==> source->Some_0.1 is Ok) ==> if wake@
                == wake_text(tenant@, goal@, schedule_revision, occurrence) {
                result is Ok && result->Ok_0.binds(
                    tenant,
                    goal,
                    schedule_revision,
                    occurrence,
                    trigger,
                    match source {
                        Some(source) => Some(source.0),
                        None => None,
                    },
                    accepted_at,
                    policy_revision,
                )
            } else {
                result == Err::<Self, _>(AgentWakeRestoreError::ForgedIdentity)
            },
    {
        let mut binding = match Self::new(
            tenant,
            goal,
            schedule_revision,
            occurrence,
            trigger,
            accepted_at,
            policy_revision,
        ) {
            Ok(binding) => binding,
            Err(error) => {
                return Err(AgentWakeRestoreError::Rejected(error));
            },
        };
        if let Some((source, verdict)) = source {
            binding =
            match binding.with_source(source, verdict) {
                Ok(binding) => binding,
                Err(error) => {
                    return Err(AgentWakeRestoreError::Rejected(error));
                },
            };
        }
        if binding.wake.same(wake) {
            Ok(binding)
        } else {
            Err(AgentWakeRestoreError::ForgedIdentity)
        }
    }

    /// Tenant boundary of the wake.
    pub fn tenant(&self) -> (tenant: &TenantId)
        ensures
            tenant == self.spec_tenant(),
    {
        &self.tenant
    }

    /// Goal the wake may admit an epoch for.
    pub fn goal(&self) -> (goal: &AgentGoalId)
        ensures
            goal == self.spec_goal(),
    {
        &self.goal
    }

    /// Schedule revision the wake was constructed under.
    pub fn schedule_revision(&self) -> (revision: ScheduleRevision)
        ensures
            revision == self.spec_schedule_revision(),
    {
        self.schedule_revision
    }

    /// The logical occurrence the wake stands for.
    pub fn occurrence(&self) -> (occurrence: &AgentWakeOccurrence)
        ensures
            occurrence == self.spec_occurrence(),
    {
        &self.occurrence
    }

    /// Trigger class that delivered this occurrence.
    pub fn trigger(&self) -> (trigger: AgentWakeTriggerKind)
        ensures
            trigger == self.spec_trigger(),
    {
        self.trigger
    }

    /// Trigger-source metadata, when the delivery carried any.
    pub fn source(&self) -> (source: Option<&AgentTriggerSource>)
        ensures
            match source {
                Some(source) => self.spec_source() == Some(*source),
                None => self.spec_source() is None,
            },
    {
        self.source.as_ref()
    }

    /// When the occurrence was due, for occurrence kinds with a due time.
    pub fn due_at(&self) -> (due: Option<AgentTimestampMillis>)
        ensures
            due == self.spec_occurrence().due(),
    {
        self.occurrence.due_at()
    }

    /// When the trigger was durably accepted.
    pub fn accepted_at(&self) -> (time: AgentTimestampMillis)
        ensures
            time == self.spec_accepted_at(),
    {
        self.accepted_at
    }

    /// Wake-policy revision in force when the binding was constructed.
    pub fn policy_revision(&self) -> (revision: AgentRevisionNumber)
        ensures
            revision == self.spec_policy_revision(),
    {
        self.policy_revision
    }

    /// The derived wake identity.
    pub fn wake_id(&self) -> (wake: &AgentWakeId)
        ensures
            wake == self.spec_wake_id(),
    {
        &self.wake
    }

    /// Whether two bindings agree on what a wake's identity is derived from.
    pub open spec fn has_same_identity(&self, other: &Self) -> bool {
        &&& self.spec_tenant()@ == other.spec_tenant()@
        &&& self.spec_goal()@ == other.spec_goal()@
        &&& self.spec_schedule_revision() == other.spec_schedule_revision()
        &&& self.spec_occurrence().is_same(other.spec_occurrence())
    }

    /// Whether `other` binds the same occurrence identity, whatever delivered
    /// either of them.
    pub fn same_identity(&self, other: &Self) -> (result: bool)
        ensures
            result == self.has_same_identity(other),
    {
        self.tenant.same(&other.tenant) && self.goal.same(&other.goal) && self.schedule_revision
            == other.schedule_revision && self.occurrence.same(&other.occurrence)
    }

    /// The stable operation id this wake's admission deduplicates on.
    pub fn admission_operation_id(&self) -> (result: Result<AgentOperationId, AgentWakeError>)
        ensures
            is_wake_operation(
                AgentOperationKind::WakeAdmission,
                self.spec_tenant()@,
                self.spec_goal()@,
                self.spec_wake_id()@,
                result,
            ),
    {
        wake_admission_operation_id(&self.tenant, &self.goal, &self.wake)
    }
}

impl Clone for AgentWakeBinding {
    fn clone(&self) -> (copy: Self)
        ensures
            copy == *self,
    {
        AgentWakeBinding {
            tenant: self.tenant.clone(),
            goal: self.goal.clone(),
            schedule_revision: self.schedule_revision,
            occurrence: self.occurrence.clone(),
            trigger: self.trigger,
            source: match &self.source {
                Some(source) => Some(source.clone()),
                None => None,
            },
            accepted_at: self.accepted_at,
            policy_revision: self.policy_revision,
            wake: self.wake.clone(),
        }
    }
}

/// The rejection of a stored wake record.
#[derive(Debug)]
#[non_exhaustive]
pub enum AgentWakeRestoreError {
    /// A component was refused.
    Rejected(AgentWakeError),
    /// The record carries an identity its components do not derive.
    ForgedIdentity,
    /// The record carries a schedule revision that was never issued.
    ZeroRevision,
}

impl AgentWakeRestoreError {
    /// The rejection in words.
    pub fn message(&self) -> (text: String)
        ensures
            text@ == self.message_text(),
    {
        match self {
            AgentWakeRestoreError::Rejected(error) => error.message(),
            AgentWakeRestoreError::ForgedIdentity =>
            "wake binding carries an identity its components do not derive".to_owned(),
            AgentWakeRestoreError::ZeroRevision =>
            "a schedule revision of zero was never issued".to_owned(),
        }
    }

    /// The rejection in words.
    pub open spec fn message_text(&self) -> Seq<char> {
        match self {
            AgentWakeRestoreError::Rejected(error) => error.message_text(),
            AgentWakeRestoreError::ForgedIdentity =>
            "wake binding carries an identity its components do not derive"@,
            AgentWakeRestoreError::ZeroRevision => "a schedule revision of zero was never issued"@,
        }
    }
}

/// A run of digits ends at the first character that is none: it is read in one
/// way only.
proof fn lemma_leading_number(a: nat, rest_a: Seq<char>, b: nat, rest_b: Seq<char>)
    requires
        decimal(a) + rest_a == decimal(b) + rest_b,
        rest_a.len() > 0 ==> !is_digit(rest_a[0]),
        rest_b.len() > 0 ==> !is_digit(rest_b[0]),
    ensures
        a == b,
        rest_a == rest_b,
{
    let da = decimal(a);
    let db = decimal(b);
    let whole = da + rest_a;
    assert(whole == db + rest_b);
    lemma_decimal_digits(a);
    lemma_decimal_digits(b);
    if da.len() < db.len() {
        assert(whole[da.len() as int] == rest_a[0]);
        assert(whole[da.len() as int] == db[da.len() as int]);
    }
    if db.len() < da.len() {
        assert(whole[db.len() as int] == rest_b[0]);
        assert(whole[db.len() as int] == da[db.len() as int]);
    }
    assert(whole.subrange(0, da.len() as int) =~= da);
    assert(whole.subrange(0, db.len() as int) =~= db);
    lemma_decimal_injective(a, b);
    assert(whole.subrange(da.len() as int, whole.len() as int) =~= rest_a);
    assert(whole.subrange(db.len() as int, whole.len() as int) =~= rest_b);
}

/// What follows the cause in a retry's identity value.
spec fn retry_tail(due: nat, attempt: nat) -> Seq<char> {
    decimal(due) + if attempt == 0 {
        Seq::empty()
    } else {
        seq![':'] + decimal(attempt)
    }
}

proof fn lemma_retry_identity(a: AgentWakeOccurrence, b: AgentWakeOccurrence)
    requires
        a is Retry,
        b is Retry,
        a.identity_text() == b.identity_text(),
    ensures
        a.is_same(&b),
{
    reveal_strlit(":");
    reveal_strlit("backoff");
    reveal_strlit("window-turn");
    assert(":"@ =~= seq![':']);
    let (da, ca, na) = (a->Retry_due_at.millis as nat, a->cause, a->attempt as nat);
    let (db, cb, nb) = (b->Retry_due_at.millis as nat, b->cause, b->attempt as nat);
    assert(a.identity_text() =~= ca.label_text() + seq![':'] + retry_tail(da, na));
    assert(b.identity_text() =~= cb.label_text() + seq![':'] + retry_tail(db, nb));
    assert(a.identity_text()[0] == ca.label_text()[0]);
    assert(b.identity_text()[0] == cb.label_text()[0]);
    assert(ca == cb);
    let start = ca.label_text().len() + 1;
    let whole = a.identity_text();
    assert(whole.subrange(start as int, whole.len() as int) =~= retry_tail(da, na));
    assert(whole.subrange(start as int, whole.len() as int) =~= retry_tail(db, nb));
    let rest_a: Seq<char> = if na == 0 {
        Seq::empty()
    } else {
        seq![':'] + decimal(na)
    };
    let rest_b: Seq<char> = if nb == 0 {
        Seq::empty()
    } else {
        seq![':'] + decimal(nb)
    };
    lemma_leading_number(da, rest_a, db, rest_b);
    if na == 0 {
        assert(nb == 0);
    } else {
        assert(nb != 0);
        assert(rest_a.subrange(1, rest_a.len() as int) =~= decimal(na));
        assert(rest_b.subrange(1, rest_b.len() as int) =~= decimal(nb));
        lemma_decimal_injective(na, nb);
    }
}

/// Occurrences are told apart by their kind and identity value: two that agree
/// on both are the same, so that kinds whose values coincide stay distinct.
pub proof fn an_occurrence_is_its_kind_and_identity(a: AgentWakeOccurrence, b: AgentWakeOccurrence)
    ensures
        a.is_same(&b) <==> a.kind_text() == b.kind_text() && a.identity_text()
            == b.identity_text(),
{
    reveal_strlit("scheduled");
    reveal_strlit("external-event");
    reveal_strlit("a2a-command");
    reveal_strlit("callback");
    reveal_strlit("controller-retry");
    if a.kind_text() == b.kind_text() && a.identity_text() == b.identity_text() {
        assert(a.kind_text().len() == b.kind_text().len());
        assert(a.kind_text()[0] == b.kind_text()[0]);
        match (a, b) {
            (
                AgentWakeOccurrence::Scheduled { due_at: x },
                AgentWakeOccurrence::Scheduled { due_at: y },
            ) => {
                lemma_decimal_injective(x.millis as nat, y.millis as nat);
            },
            (AgentWakeOccurrence::Retry { .. }, AgentWakeOccurrence::Retry { .. }) => {
                lemma_retry_identity(a, b);
            },
            _ => {},
        }
    }
}

/// One occurrence has one wake: two bindings of the same occurrence carry the
/// same identity, however differently they were triggered or accepted.
pub proof fn one_occurrence_has_one_wake(a: AgentWakeBinding, b: AgentWakeBinding)
    requires
        a.is_derived(),
        b.is_derived(),
        a.has_same_identity(&b),
    ensures
        a.spec_wake_id()@ == b.spec_wake_id()@,
{
    an_occurrence_is_its_kind_and_identity(*a.spec_occurrence(), *b.spec_occurrence());
}

/// The digest input is injective: equal inputs come from the same tenant, goal,
/// schedule revision and occurrence, whatever the identities hold.
pub proof fn wake_digest_input_is_injective(
    tenant_a: Seq<char>,
    goal_a: Seq<char>,
    revision_a: ScheduleRevision,
    occurrence_a: AgentWakeOccurrence,
    tenant_b: Seq<char>,
    goal_b: Seq<char>,
    revision_b: ScheduleRevision,
    occurrence_b: AgentWakeOccurrence,
)
    requires
        canonical_segments(wake_segments(tenant_a, goal_a, revision_a, occurrence_a))
            == canonical_segments(wake_segments(tenant_b, goal_b, revision_b, occurrence_b)),
    ensures
        tenant_a == tenant_b,
        goal_a == goal_b,
        revision_a == revision_b,
        occurrence_a.is_same(&occurrence_b),
{
    let a = wake_segments(tenant_a, goal_a, revision_a, occurrence_a);
    let b = wake_segments(tenant_b, goal_b, revision_b, occurrence_b);
    canonical_encoding_is_injective(a, b);
    assert(a[0] == b[0] && a[1] == b[1] && a[2] == b[2] && a[3] == b[3] && a[4] == b[4]);
    lemma_decimal_injective(revision_a.number() as nat, revision_b.number() as nat);
    an_occurrence_is_its_kind_and_identity(occurrence_a, occurrence_b);
}

/// Two bindings with one wake bind the same occurrence, unless SHA-256 collides
/// on their two digest inputs.
pub proof fn one_wake_has_one_occurrence(a: AgentWakeBinding, b: AgentWakeBinding)
    requires
        a.is_derived(),
        b.is_derived(),
        a.spec_wake_id()@ == b.spec_wake_id()@,
    ensures
        ({
            let input_a = encode_utf8(canonical_segments(a.digest_segments()));
            let input_b = encode_utf8(canonical_segments(b.digest_segments()));
            a.has_same_identity(&b) || (input_a != input_b && crate::digest::sha256_of(input_a)
                == crate::digest::sha256_of(input_b))
        }),
{
    let text_a = canonical_segments(a.digest_segments());
    let text_b = canonical_segments(b.digest_segments());
    let input_a = encode_utf8(text_a);
    let input_b = encode_utf8(text_b);
    let prefix = AGENT_WAKE_ID_PREFIX@;
    assert(a.spec_wake_id()@.subrange(prefix.len() as int, a.spec_wake_id()@.len() as int)
        =~= sha256_hex(input_a));
    assert(b.spec_wake_id()@.subrange(prefix.len() as int, b.spec_wake_id()@.len() as int)
        =~= sha256_hex(input_b));
    crate::digest::hex_is_injective(
        crate::digest::sha256_of(input_a),
        crate::digest::sha256_of(input_b),
    );
    if input_a == input_b {
        vstd::utf8::encode_utf8_decode_utf8(text_a);
        vstd::utf8::encode_utf8_decode_utf8(text_b);
        wake_digest_input_is_injective(
            a.spec_tenant()@,
            a.spec_goal()@,
            a.spec_schedule_revision(),
            *a.spec_occurrence(),
            b.spec_tenant()@,
            b.spec_goal()@,
            b.spec_schedule_revision(),
            *b.spec_occurrence(),
        );
    }
}

impl AgentWakeBinding {
    /// The segments the binding's identity digests.
    pub open spec fn digest_segments(&self) -> Seq<Seq<char>> {
        wake_segments(
            self.spec_tenant()@,
            self.spec_goal()@,
            self.spec_schedule_revision(),
            *self.spec_occurrence(),
        )
    }
}

/// Two wakes never share an epoch: derived epoch tasks are the same only when
/// the wakes are.
pub proof fn two_wakes_never_share_an_epoch(a: Seq<char>, b: Seq<char>)
    requires
        crate::text::starts_with(a, AGENT_WAKE_ID_PREFIX@),
        crate::text::starts_with(b, AGENT_WAKE_ID_PREFIX@),
        epoch_text(a) == epoch_text(b),
    ensures
        a == b,
{
    let prefix = AGENT_WAKE_ID_PREFIX@;
    let epoch = AGENT_EPOCH_TASK_PREFIX@;
    let rest_a = a.subrange(prefix.len() as int, a.len() as int);
    let rest_b = b.subrange(prefix.len() as int, b.len() as int);
    assert(epoch_text(a).subrange(epoch.len() as int, epoch_text(a).len() as int) =~= rest_a);
    assert(epoch_text(b).subrange(epoch.len() as int, epoch_text(b).len() as int) =~= rest_b);
    assert(a =~= prefix + rest_a);
    assert(b =~= prefix + rest_b);
}

} // verus!
