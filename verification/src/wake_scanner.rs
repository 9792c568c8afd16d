//! The shared wake scanner's decisions.
//!
//! A pass takes the due entries of a timer store in due order. It says which
//! admission command to deliver next, and what each reply concluded; the caller
//! delivers, and records the terminal status a disposition earned. After a
//! failed or refused delivery every later entry of the same task is held back,
//! so that a task's occurrences keep arriving in due order.

use vstd::prelude::*;
use vstd::string::*;

use crate::identity::{
    validate_tenant, AgentIdentityError, AgentOperationId, AgentOperationKind, AgentTaskId,
    AgentTimestampMillis, AgentWakeId, TenantId,
};
use crate::text::join5;
use crate::wake::{is_wake_operation, AgentWakeBinding};
use crate::wake_error::AgentWakeError;
use crate::wake_state::{AgentWakeDisposition, AgentWakeOutcome};

verus! {

/// Counter for wake delivery attempts, labelled by outcome and trigger class.
pub const METRIC_AGENT_WAKES: &'static str = "rakka.agent.wakes";

/// The durable scope of one task.
#[derive(Debug)]
pub struct AgentTaskScope {
    /// The tenant boundary.
    pub tenant: TenantId,
    /// The task.
    pub task: AgentTaskId,
}

impl AgentTaskScope {
    /// Scopes a task to a tenant, refusing a tenant that keys nothing.
    pub fn new(tenant: TenantId, task: AgentTaskId) -> (result: Result<Self, AgentIdentityError>)
        ensures
            result == (if tenant@.len() > 0 {
                Ok::<Self, AgentIdentityError>(AgentTaskScope { tenant, task })
            } else {
                Err(AgentIdentityError::Empty)
            }),
    {
        match validate_tenant(&tenant) {
            Ok(_) => Ok(AgentTaskScope { tenant, task }),
            Err(error) => Err(error),
        }
    }
}

/// The command a root control task admits a wake by.
#[derive(Debug)]
#[non_exhaustive]
pub enum AgentTaskEntityCommand {
    /// Admit one wake.
    AdmitWake {
        /// The operation the admission deduplicates on.
        operation_id: AgentOperationId,
        /// The wake.
        binding: AgentWakeBinding,
    },
}

/// What a root control task answers a command with.
#[derive(Debug)]
#[non_exhaustive]
pub enum AgentTaskEntityReply {
    /// The command was applied.
    Applied {
        /// What the wake controller recorded, when it recorded anything.
        wake: Option<AgentWakeOutcome>,
    },
    /// The command had been applied before.
    Duplicate {
        /// What the wake controller recorded then.
        wake: Option<AgentWakeOutcome>,
    },
    /// The command was refused.
    Rejected {
        /// The stable refusal code.
        code: String,
        /// The refusal in words.
        message: String,
    },
    /// A snapshot of the task.
    Snapshot,
    /// The progress of a settle pass.
    Progressed,
}

/// A delivery that failed on its way.
#[derive(Debug)]
pub struct AgentExchangeDeliveryError {
    /// The stable failure code.
    pub code: String,
    /// The failure in words.
    pub message: String,
}

/// Refuses a delivery to a task that another node owns: a wake follows its
/// task's shard, and the owner's own scanner delivers it.
pub fn check_local_owner(task: &str, owner: &str, is_local: bool) -> (result: Result<
    (),
    AgentExchangeDeliveryError,
>)
    ensures
        is_local ==> result is Ok,
        !is_local ==> result is Err && result->Err_0.code@ == "wake-remote-owner"@
            && result->Err_0.message@ == "task "@ + task@ + " is owned by "@ + owner@
            + "; its owner's scanner delivers it"@,
{
    if is_local {
        Ok(())
    } else {
        Err(
            AgentExchangeDeliveryError {
                code: "wake-remote-owner".to_owned(),
                message: join5(
                    "task ",
                    task,
                    " is owned by ",
                    owner,
                    "; its owner's scanner delivers it",
                ),
            },
        )
    }
}

/// One durable timer entry: a wake and the task it is for.
#[derive(Debug)]
pub struct AgentWakeTimerEntry {
    /// The root control task.
    pub task: AgentTaskId,
    /// The parked wake.
    pub binding: AgentWakeBinding,
}

impl AgentWakeTimerEntry {
    /// The parked wake's identity.
    pub fn wake_id(&self) -> (wake: &AgentWakeId)
        ensures
            wake == self.binding.spec_wake_id(),
    {
        self.binding.wake_id()
    }

    /// Whether two entries are for the same task.
    pub open spec fn shares_task(&self, other: &Self) -> bool {
        self.binding.spec_tenant()@ == other.binding.spec_tenant()@ && self.task@ == other.task@
    }

    /// Whether two entries are for the same task.
    pub fn same_task(&self, other: &Self) -> (result: bool)
        ensures
            result == self.shares_task(other),
    {
        self.binding.tenant().same(other.binding.tenant()) && self.task.same(&other.task)
    }
}

/// The terminal status of a timer entry.
#[derive(Debug, Clone, Copy, PartialEq, Eq, Structural)]
#[non_exhaustive]
pub enum AgentWakeTimerStatus {
    /// The occurrence was delivered and dispositioned.
    Fired,
    /// The occurrence belonged to an obsolete schedule revision.
    Fenced,
}

/// Builds the admission command a wake binding derives.
///
/// Every trigger path constructs the command here, so the operation id is
/// always the binding's own and duplicate delivery deduplicates.
pub fn wake_admission_command(binding: AgentWakeBinding) -> (result: Result<
    AgentTaskEntityCommand,
    AgentWakeError,
>)
    ensures
        match result {
            Ok(AgentTaskEntityCommand::AdmitWake { operation_id, binding: bound }) => bound
                == binding && is_wake_operation(
                AgentOperationKind::WakeAdmission,
                binding.spec_tenant()@,
                binding.spec_goal()@,
                binding.spec_wake_id()@,
                Ok(operation_id),
            ),
            Err(error) => is_wake_operation(
                AgentOperationKind::WakeAdmission,
                binding.spec_tenant()@,
                binding.spec_goal()@,
                binding.spec_wake_id()@,
                Err(error),
            ),
        },
{
    match binding.admission_operation_id() {
        Ok(operation_id) => Ok(AgentTaskEntityCommand::AdmitWake { operation_id, binding }),
        Err(error) => Err(error),
    }
}

/// Wake scanner settings.
#[derive(Debug, Clone, Copy, PartialEq, Eq, Structural)]
pub struct AgentWakeScannerSettings {
    max_batch_size: usize,
}

impl AgentWakeScannerSettings {
    /// The value of [`Self::max_batch_size`].
    pub closed spec fn spec_max_batch_size(self) -> usize {
        self.max_batch_size
    }

    #[verifier::type_invariant]
    spec fn delivers_something(&self) -> bool {
        self.max_batch_size >= 1
    }

    /// Creates scanner settings. A pass delivers at least one occurrence.
    pub fn new(max_batch_size: usize) -> (settings: Self)
        ensures
            settings.spec_max_batch_size() == if max_batch_size == 0 {
                1
            } else {
                max_batch_size
            },
    {
        AgentWakeScannerSettings {
            max_batch_size: if max_batch_size == 0 {
                1
            } else {
                max_batch_size
            },
        }
    }

    /// Most occurrences delivered in one pass, at least one.
    pub fn max_batch_size(self) -> (size: usize)
        ensures
            size == self.spec_max_batch_size(),
            size >= 1,
    {
        proof {
            use_type_invariant(&self);
        }
        self.max_batch_size
    }
}

impl Default for AgentWakeScannerSettings {
    fn default() -> (settings: Self)
        ensures
            settings.spec_max_batch_size() == 32,
    {
        Self::new(32)
    }
}

/// Scanner settings are their batch size, and nothing else: settings of the same
/// size are the same settings.
pub proof fn settings_are_their_batch_size(
    a: AgentWakeScannerSettings,
    b: AgentWakeScannerSettings,
)
    requires
        a.spec_max_batch_size() == b.spec_max_batch_size(),
    ensures
        a == b,
{
}

/// What one delivery of a scan pass concluded.
#[derive(Debug)]
#[non_exhaustive]
pub enum AgentWakeScanOutcome {
    /// The controller dispositioned the occurrence.
    Dispositioned {
        /// The delivered wake.
        wake: AgentWakeId,
        /// How the controller dispositioned it.
        disposition: AgentWakeDisposition,
        /// Whether the controller had already dispositioned it.
        redelivery: bool,
        /// The terminal status to record in the store.
        marked: AgentWakeTimerStatus,
    },
    /// The controller refused the command; the entry stays pending.
    Rejected {
        /// The refused wake.
        wake: AgentWakeId,
        /// The stable refusal code.
        code: String,
    },
    /// The delivery attempt itself failed; the entry stays pending.
    Failed {
        /// The undelivered wake.
        wake: AgentWakeId,
        /// The stable delivery-failure code.
        code: String,
    },
    /// The entry was held back with no delivery attempt; it stays pending.
    HeldBack {
        /// The held wake.
        wake: AgentWakeId,
        /// The earlier wake whose failure or refusal blocked the task.
        blocked_by: AgentWakeId,
    },
}

impl AgentWakeScanOutcome {
    /// Whether the outcome blocks later entries of the same task.
    pub open spec fn blocks(self) -> bool {
        self is Failed || self is Rejected
    }

    /// Whether the outcome blocks later entries of the same task.
    pub fn is_blocking(&self) -> (result: bool)
        ensures
            result == self.blocks(),
    {
        matches!(
            self,
            AgentWakeScanOutcome::Failed { .. } | AgentWakeScanOutcome::Rejected { .. }
        )
    }

    /// The outcome's metric label.
    pub fn metric_label(&self) -> (label: &'static str)
        ensures
            label@ == self.metric_text(),
    {
        match self {
            AgentWakeScanOutcome::Dispositioned { disposition, .. } => disposition.as_label(),
            AgentWakeScanOutcome::Rejected { .. } => "rejected",
            AgentWakeScanOutcome::Failed { .. } => "delivery-failed",
            AgentWakeScanOutcome::HeldBack { .. } => "held-back",
        }
    }

    /// The metric label of each outcome.
    pub open spec fn metric_text(self) -> Seq<char> {
        match self {
            AgentWakeScanOutcome::Dispositioned { disposition, .. } => disposition.label_text(),
            AgentWakeScanOutcome::Rejected { .. } => "rejected"@,
            AgentWakeScanOutcome::Failed { .. } => "delivery-failed"@,
            AgentWakeScanOutcome::HeldBack { .. } => "held-back"@,
        }
    }
}

/// The disposition an applied admission reports: the recorded one, or a
/// duplicate when the outcome records none.
pub open spec fn reported_disposition(
    wake: AgentWakeId,
    outcome: Option<AgentWakeOutcome>,
) -> AgentWakeDisposition {
    match outcome {
        Some(AgentWakeOutcome::Disposition(disposition)) => disposition,
        _ => AgentWakeDisposition::Duplicate { wake },
    }
}

/// The terminal status a disposition earns its timer entry.
pub open spec fn earned_status(disposition: AgentWakeDisposition) -> AgentWakeTimerStatus {
    if disposition is Fenced {
        AgentWakeTimerStatus::Fenced
    } else {
        AgentWakeTimerStatus::Fired
    }
}

/// Whether an outcome is what a delivery's reply concludes for a wake.
pub open spec fn concludes(
    wake: AgentWakeId,
    reply: Result<AgentTaskEntityReply, AgentExchangeDeliveryError>,
    outcome: AgentWakeScanOutcome,
) -> bool {
    match reply {
        Err(error) => outcome == (AgentWakeScanOutcome::Failed { wake, code: error.code }),
        Ok(AgentTaskEntityReply::Rejected { code, .. }) => outcome == (
        AgentWakeScanOutcome::Rejected { wake, code }),
        Ok(AgentTaskEntityReply::Applied { wake: recorded }) => {
            let disposition = reported_disposition(wake, recorded);
            outcome == (AgentWakeScanOutcome::Dispositioned {
                wake,
                disposition,
                redelivery: false,
                marked: earned_status(disposition),
            })
        },
        Ok(AgentTaskEntityReply::Duplicate { wake: recorded }) => {
            let disposition = reported_disposition(wake, recorded);
            outcome == (AgentWakeScanOutcome::Dispositioned {
                wake,
                disposition,
                redelivery: true,
                marked: earned_status(disposition),
            })
        },
        Ok(_) => outcome is Rejected && outcome->Rejected_wake == wake
            && outcome->Rejected_code@ == "wake-unexpected-reply"@,
    }
}

/// Concludes one delivery from its reply.
pub fn conclude_delivery(
    wake: &AgentWakeId,
    reply: Result<AgentTaskEntityReply, AgentExchangeDeliveryError>,
) -> (outcome: AgentWakeScanOutcome)
    ensures
        concludes(*wake, reply, outcome),
{
    let (recorded, redelivery) = match reply {
        Err(error) => {
            return AgentWakeScanOutcome::Failed { wake: wake.clone(), code: error.code };
        },
        Ok(AgentTaskEntityReply::Applied { wake: recorded }) => (recorded, false),
        Ok(AgentTaskEntityReply::Duplicate { wake: recorded }) => (recorded, true),
        Ok(AgentTaskEntityReply::Rejected { code, .. }) => {
            return AgentWakeScanOutcome::Rejected { wake: wake.clone(), code };
        },
        Ok(_) => {
            return AgentWakeScanOutcome::Rejected {
                wake: wake.clone(),
                code: "wake-unexpected-reply".to_owned(),
            };
        },
    };
    let disposition = match recorded {
        Some(AgentWakeOutcome::Disposition(disposition)) => disposition,
        _ => AgentWakeDisposition::Duplicate { wake: wake.clone() },
    };
    let marked = if matches!(disposition, AgentWakeDisposition::Fenced { .. }) {
        AgentWakeTimerStatus::Fenced
    } else {
        AgentWakeTimerStatus::Fired
    };
    AgentWakeScanOutcome::Dispositioned { wake: wake.clone(), disposition, redelivery, marked }
}

/// Result of one bounded wake scan.
#[derive(Debug)]
pub struct AgentWakeScan {
    /// When the pass ran, by the scanner's clock.
    pub scanned_at: AgentTimestampMillis,
    /// How many entries were pending and due when the pass started.
    pub due_count: usize,
    /// The configured batch bound.
    pub max_batch_size: usize,
    /// Whether more entries were due than the pass took.
    pub backpressure_limited: bool,
    /// What each delivery concluded, in due order.
    pub outcomes: Vec<AgentWakeScanOutcome>,
}

/// The position of the earlier entry that blocks the one at `at`, from `from`
/// on: the first of the same task whose delivery failed or was refused.
pub open spec fn blocker_from(
    entries: Seq<AgentWakeTimerEntry>,
    outcomes: Seq<AgentWakeScanOutcome>,
    at: int,
    from: nat,
) -> Option<int>
    decreases outcomes.len() - from,
{
    if from >= outcomes.len() || from >= at {
        None
    } else if outcomes[from as int].blocks() && entries[from as int].shares_task(&entries[at]) {
        Some(from as int)
    } else {
        blocker_from(entries, outcomes, at, from + 1)
    }
}

/// One bounded pass over due entries, in due order.
pub struct AgentWakeScanPass {
    entries: Vec<AgentWakeTimerEntry>,
    outcomes: Vec<AgentWakeScanOutcome>,
    scanned_at: AgentTimestampMillis,
    due_count: usize,
    settings: AgentWakeScannerSettings,
}

/// What a pass holds.
pub struct ScanModel {
    /// The entries the pass took, in due order.
    pub entries: Seq<AgentWakeTimerEntry>,
    /// What was concluded so far, one outcome for each entry from the first.
    pub outcomes: Seq<AgentWakeScanOutcome>,
    /// When the pass ran.
    pub scanned_at: AgentTimestampMillis,
    /// How many entries were due when the pass started.
    pub due_count: usize,
    /// The settings the pass runs under.
    pub settings: AgentWakeScannerSettings,
}

impl ScanModel {
    /// What blocks the entry at a position.
    pub open spec fn blocker(self, at: int) -> Option<int> {
        blocker_from(self.entries, self.outcomes, at, 0)
    }

    /// Whether every outcome is of its own entry, and an entry was held back
    /// exactly when an earlier one of its task failed or was refused.
    pub open spec fn is_ordered(self) -> bool {
        &&& self.outcomes.len() <= self.entries.len()
        &&& forall|i: int|
            0 <= i < self.outcomes.len() ==> self.held_rightly(
                i,
                #[trigger] self.outcomes[i],
            )
    }

    /// Whether an outcome holds an entry back exactly when it must be.
    pub open spec fn held_rightly(self, at: int, outcome: AgentWakeScanOutcome) -> bool {
        match self.blocker(at) {
            Some(by) => outcome == (AgentWakeScanOutcome::HeldBack {
                wake: *self.entries[at].binding.spec_wake_id(),
                blocked_by: *self.entries[by].binding.spec_wake_id(),
            }),
            None => !(outcome is HeldBack),
        }
    }

    /// The pass with one more outcome.
    pub open spec fn concluding(self, outcome: AgentWakeScanOutcome) -> ScanModel {
        ScanModel { outcomes: self.outcomes.push(outcome), ..self }
    }

    /// The pass after every entry that must be was held back, up to the next
    /// one to deliver.
    pub open spec fn holding_back(self) -> ScanModel
        decreases self.entries.len() - self.outcomes.len(),
    {
        let at = self.outcomes.len() as int;
        if at >= self.entries.len() {
            self
        } else {
            match self.blocker(at) {
                None => self,
                Some(by) => self.concluding(
                    AgentWakeScanOutcome::HeldBack {
                        wake: *self.entries[at].binding.spec_wake_id(),
                        blocked_by: *self.entries[by].binding.spec_wake_id(),
                    },
                ).holding_back(),
            }
        }
    }
}

impl View for AgentWakeScanPass {
    type V = ScanModel;

    closed spec fn view(&self) -> ScanModel {
        ScanModel {
            entries: self.entries@,
            outcomes: self.outcomes@,
            scanned_at: self.scanned_at,
            due_count: self.due_count,
            settings: self.settings,
        }
    }
}

proof fn lemma_blocker_stable(
    entries: Seq<AgentWakeTimerEntry>,
    outcomes: Seq<AgentWakeScanOutcome>,
    outcome: AgentWakeScanOutcome,
    at: int,
    from: nat,
)
    requires
        at <= outcomes.len(),
    ensures
        blocker_from(entries, outcomes.push(outcome), at, from) == blocker_from(
            entries,
            outcomes,
            at,
            from,
        ),
    decreases outcomes.len() - from,
{
    if from < outcomes.len() && from < at {
        lemma_blocker_stable(entries, outcomes, outcome, at, from + 1);
    }
}

/// Concluding an entry rightly keeps a pass in order.
proof fn lemma_concluding_ordered(model: ScanModel, outcome: AgentWakeScanOutcome)
    requires
        model.is_ordered(),
        model.outcomes.len() < model.entries.len(),
        model.held_rightly(model.outcomes.len() as int, outcome),
    ensures
        model.concluding(outcome).is_ordered(),
{
    let next = model.concluding(outcome);
    assert forall|i: int| 0 <= i < next.outcomes.len() implies next.held_rightly(
        i,
        #[trigger] next.outcomes[i],
    ) by {
        lemma_blocker_stable(model.entries, model.outcomes, outcome, i, 0);
        if i < model.outcomes.len() {
            assert(model.held_rightly(i, model.outcomes[i]));
        }
    }
}

/// A pass stays in order however far entries are held back.
pub proof fn lemma_holding_back_ordered(model: ScanModel)
    requires
        model.is_ordered(),
    ensures
        model.holding_back().is_ordered(),
        model.holding_back().entries == model.entries,
        model.holding_back().outcomes.len() < model.entries.len() ==> model.holding_back().blocker(
            model.holding_back().outcomes.len() as int,
        ) is None,
    decreases model.entries.len() - model.outcomes.len(),
{
    let at = model.outcomes.len() as int;
    if at < model.entries.len() {
        match model.blocker(at) {
            None => {},
            Some(by) => {
                let outcome = AgentWakeScanOutcome::HeldBack {
                    wake: *model.entries[at].binding.spec_wake_id(),
                    blocked_by: *model.entries[by].binding.spec_wake_id(),
                };
                lemma_concluding_ordered(model, outcome);
                lemma_holding_back_ordered(model.concluding(outcome));
            },
        }
    }
}

/// A pass never delivers around a failure: once a delivery failed or was
/// refused, every later entry of its task is held back.
pub proof fn a_failure_holds_its_task_back(model: ScanModel, failed: int, later: int)
    requires
        model.is_ordered(),
        0 <= failed < later < model.outcomes.len(),
        model.outcomes[failed].blocks(),
        model.entries[failed].shares_task(&model.entries[later]),
    ensures
        model.outcomes[later] is HeldBack,
{
    lemma_blocker_found(model.entries, model.outcomes, later, 0, failed);
    assert(model.held_rightly(later, model.outcomes[later]));
}

/// Scanning creates no occurrence: a pass over nothing hands out nothing, and a
/// pass never concludes more deliveries than the entries it took.
pub proof fn scanning_creates_nothing(
    model: ScanModel,
    result: Result<Option<(AgentTaskScope, AgentTaskEntityCommand)>, AgentWakeScanError>,
)
    requires
        model.is_ordered(),
        model.holding_back().is_delivery(result),
    ensures
        model.holding_back().outcomes.len() <= model.entries.len(),
        model.entries.len() == 0 ==> model.holding_back() == model && result is Ok
            && result->Ok_0 is None,
{
    lemma_holding_back_ordered(model);
}

proof fn lemma_blocker_found(
    entries: Seq<AgentWakeTimerEntry>,
    outcomes: Seq<AgentWakeScanOutcome>,
    at: int,
    from: nat,
    by: int,
)
    requires
        from <= by < at,
        by < outcomes.len(),
        outcomes[by].blocks(),
        entries[by].shares_task(&entries[at]),
    ensures
        blocker_from(entries, outcomes, at, from) is Some,
    decreases outcomes.len() - from,
{
    if from < by {
        lemma_blocker_found(entries, outcomes, at, from + 1, by);
    }
}

impl AgentWakeScanPass {
    /// Begins a pass over due entries, in due order.
    pub fn begin(
        scanned_at: AgentTimestampMillis,
        due_count: usize,
        entries: Vec<AgentWakeTimerEntry>,
        settings: AgentWakeScannerSettings,
    ) -> (pass: Self)
        ensures
            pass@ == (ScanModel {
                entries: entries@,
                outcomes: Seq::empty(),
                scanned_at,
                due_count,
                settings,
            }),
            pass@.is_ordered(),
    {
        let pass = AgentWakeScanPass {
            entries,
            outcomes: Vec::new(),
            scanned_at,
            due_count,
            settings,
        };
        assert(pass@.outcomes =~= Seq::empty());
        pass
    }

    /// The position of what blocks the next entry.
    fn find_blocker(&self) -> (found: Option<usize>)
        requires
            self@.outcomes.len() < self@.entries.len(),
        ensures
            match found {
                Some(by) => self@.blocker(self@.outcomes.len() as int) == Some(by as int) && by
                    < self@.outcomes.len(),
                None => self@.blocker(self@.outcomes.len() as int) is None,
            },
    {
        let at: usize = self.outcomes.len();
        let mut i: usize = 0;
        while i < at
            invariant
                i <= at,
                at == self.outcomes@.len(),
                at < self.entries@.len(),
                self@.blocker(at as int) == blocker_from(
                    self.entries@,
                    self.outcomes@,
                    at as int,
                    i as nat,
                ),
            decreases at - i,
        {
            if self.outcomes[i].is_blocking() && self.entries[i].same_task(&self.entries[at]) {
                return Some(i);
            }
            i = i + 1;
        }
        None
    }

    /// Advances to the next entry to deliver, holding back those that must be,
    /// and hands out its scope and admission command. `None` when the pass is
    /// over.
    pub fn next_delivery(&mut self) -> (result: Result<
        Option<(AgentTaskScope, AgentTaskEntityCommand)>,
        AgentWakeScanError,
    >)
        requires
            old(self)@.is_ordered(),
        ensures
            final(self)@ == old(self)@.holding_back(),
            final(self)@.is_ordered(),
            final(self)@.is_delivery(result),
    {
        proof {
            lemma_holding_back_ordered(self@);
        }
        while self.outcomes.len() < self.entries.len()
            invariant
                self@.is_ordered(),
                self@.holding_back() == old(self)@.holding_back(),
                old(self)@.holding_back().is_ordered(),
            decreases self@.entries.len() - self@.outcomes.len(),
        {
            let at: usize = self.outcomes.len();
            match self.find_blocker() {
                None => {
                    let entry = &self.entries[at];
                    let scope = match AgentTaskScope::new(
                        entry.binding.tenant().clone(),
                        entry.task.clone(),
                    ) {
                        Ok(scope) => scope,
                        Err(error) => {
                            return Err(AgentWakeScanError::Identity(error));
                        },
                    };
                    return match wake_admission_command(entry.binding.clone()) {
                        Ok(command) => Ok(Some((scope, command))),
                        Err(error) => Err(AgentWakeScanError::Wake(error)),
                    };
                },
                Some(by) => {
                    let outcome = AgentWakeScanOutcome::HeldBack {
                        wake: self.entries[at].wake_id().clone(),
                        blocked_by: self.entries[by].wake_id().clone(),
                    };
                    proof {
                        lemma_concluding_ordered(self@, outcome);
                    }
                    let ghost before = self@;
                    self.outcomes.push(outcome);
                    assert(self@ == before.concluding(outcome));
                },
            }
        }
        Ok(None)
    }

    /// Concludes the delivery of the next entry from its reply, returning the
    /// terminal status to record for its wake, if it earned one.
    pub fn conclude(
        &mut self,
        reply: Result<AgentTaskEntityReply, AgentExchangeDeliveryError>,
    ) -> (mark: Option<(AgentWakeId, AgentWakeTimerStatus)>)
        requires
            old(self)@.is_ordered(),
            old(self)@.outcomes.len() < old(self)@.entries.len(),
            old(self)@.blocker(old(self)@.outcomes.len() as int) is None,
        ensures
            final(self)@.is_ordered(),
            final(self)@ == old(self)@.concluding(final(self)@.outcomes.last()),
            concludes(
                *old(self)@.entries[old(self)@.outcomes.len() as int].binding.spec_wake_id(),
                reply,
                final(self)@.outcomes.last(),
            ),
            mark == match final(self)@.outcomes.last() {
                AgentWakeScanOutcome::Dispositioned { wake, marked, .. } => Some((wake, marked)),
                _ => None,
            },
    {
        let at: usize = self.outcomes.len();
        let outcome = conclude_delivery(self.entries[at].wake_id(), reply);
        let mark = match &outcome {
            AgentWakeScanOutcome::Dispositioned { wake, marked, .. } => Some(
                (wake.clone(), *marked),
            ),
            _ => None,
        };
        proof {
            lemma_concluding_ordered(self@, outcome);
        }
        let ghost before = self@;
        self.outcomes.push(outcome);
        proof {
            assert(self@ == before.concluding(outcome));
            assert(self@.outcomes.last() == outcome);
        }
        mark
    }

    /// Ends the pass. It was limited by backpressure when more entries were due
    /// than it took.
    pub fn finish(self) -> (scan: AgentWakeScan)
        ensures
            scan.scanned_at == self@.scanned_at,
            scan.due_count == self@.due_count,
            scan.max_batch_size == self@.settings.spec_max_batch_size(),
            scan.outcomes@ == self@.outcomes,
            scan.backpressure_limited == (self@.due_count > self@.outcomes.len()),
    {
        let delivered: usize = self.outcomes.len();
        AgentWakeScan {
            scanned_at: self.scanned_at,
            due_count: self.due_count,
            max_batch_size: self.settings.max_batch_size(),
            backpressure_limited: self.due_count > delivered,
            outcomes: self.outcomes,
        }
    }
}

impl ScanModel {
    /// Whether a result is the delivery of the next entry: its scope and the
    /// command its binding derives, or the error that keeps it from either.
    pub open spec fn is_delivery(
        self,
        result: Result<Option<(AgentTaskScope, AgentTaskEntityCommand)>, AgentWakeScanError>,
    ) -> bool {
        let at = self.outcomes.len() as int;
        if at >= self.entries.len() {
            result is Ok && result->Ok_0 is None
        } else {
            let entry = self.entries[at];
            let tenant = entry.binding.spec_tenant()@;
            match result {
                Err(AgentWakeScanError::Identity(error)) => tenant.len() == 0 && error
                    == AgentIdentityError::Empty,
                Err(AgentWakeScanError::Wake(error)) => tenant.len() > 0 && is_wake_operation(
                    AgentOperationKind::WakeAdmission,
                    tenant,
                    entry.binding.spec_goal()@,
                    entry.binding.spec_wake_id()@,
                    Err(error),
                ),
                Err(AgentWakeScanError::Timers(_)) => false,
                Ok(None) => false,
                Ok(Some((scope, AgentTaskEntityCommand::AdmitWake { operation_id, binding }))) => {
                    &&& tenant.len() > 0
                    &&& scope.tenant == *entry.binding.spec_tenant()
                    &&& scope.task == entry.task
                    &&& binding == entry.binding
                    &&& is_wake_operation(
                        AgentOperationKind::WakeAdmission,
                        tenant,
                        entry.binding.spec_goal()@,
                        entry.binding.spec_wake_id()@,
                        Ok(operation_id),
                    )
                },
            }
        }
    }
}

/// A refusal of the durable timer store.
#[derive(Debug)]
pub struct AgentWakeTimerError {
    /// The stable code.
    pub code: &'static str,
    /// The refusal in words.
    pub message: String,
}

/// Wake-scan failures.
#[derive(Debug)]
#[non_exhaustive]
pub enum AgentWakeScanError {
    /// The durable timer store refused the pass.
    Timers(AgentWakeTimerError),
    /// The wake contract refused a command construction.
    Wake(AgentWakeError),
    /// An entry's identities could not key a durable scope.
    Identity(AgentIdentityError),
}

impl AgentWakeScanError {
    /// Stable machine-readable error code.
    pub fn code(&self) -> (code: &'static str)
        ensures
            code@ == match self {
                AgentWakeScanError::Timers(error) => error.code@,
                AgentWakeScanError::Wake(error) => error.code_text(),
                AgentWakeScanError::Identity(error) => error.code_text(),
            },
    {
        match self {
            AgentWakeScanError::Timers(error) => error.code,
            AgentWakeScanError::Wake(error) => error.code(),
            AgentWakeScanError::Identity(error) => error.code(),
        }
    }

    /// The failure in words.
    pub fn message(&self) -> (text: String)
        ensures
            text@ == match self {
                AgentWakeScanError::Timers(error) => error.message@,
                AgentWakeScanError::Wake(error) => error.message_text(),
                AgentWakeScanError::Identity(error) => error.message_text(),
            },
    {
        match self {
            AgentWakeScanError::Timers(error) => error.message.clone(),
            AgentWakeScanError::Wake(error) => error.message(),
            AgentWakeScanError::Identity(error) => error.message(),
        }
    }
}

} // verus!
