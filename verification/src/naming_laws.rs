//! What the codes, labels and texts of the library promise.

use vstd::prelude::*;
use vstd::utf8::encode_utf8;

use crate::budget::AgentBudgetDimension;
use crate::calendar::AgentCalendarUnit;
use crate::definition::{AgentEffectSafetyClass, AgentEnvelopeDimension};
use crate::exchange::AgentExchangeKind;
use crate::team_board::{AgentTeamBoardEntryStatus, AgentTeamStatus};
use crate::team_history::AgentTeamHistoryKind;
use crate::tools::{AgentToolError, AgentToolKind, AgentToolResultBehavior};
use crate::wake::{AgentWakeRewakeCause, AgentWakeTriggerKind};
use crate::wake_error::AgentWakeError;
use crate::wake_policy::AgentGoalLifecycleStatus;
use crate::wake_state::{AgentEpochOutcomeClass, AgentWakeDisposition};

verus! {

/// Each refusal of a wake is told by its own code.
pub proof fn each_wake_error_has_its_code(error: &AgentWakeError, text: &'static str)
    requires
        call_ensures(AgentWakeError::code, (error,), text),
    ensures
        error is Identity ==> text@ == "wake-identity"@,
        error is TriggerSource ==> text@ == "wake-trigger-source"@,
        error is EmptyTriggers ==> text@ == "wake-empty-triggers"@,
        error is ParallelEpochsNotParallel ==> text@ == "wake-parallel-not-parallel"@,
        error is ZeroCatchUp ==> text@ == "wake-zero-catch-up"@,
        error is ZeroDuration ==> text@ == "wake-zero-duration"@,
        error is LatenessBelowAdmissionWindow ==> text@ == "wake-lateness-below-admission-window"@,
        error is BackoffInitialZero ==> text@ == "wake-backoff-initial-zero"@,
        error is BackoffMultiplierBelowUnit ==> text@ == "wake-backoff-multiplier-below-unit"@,
        error is BackoffMaximumBelowInitial ==> text@ == "wake-backoff-maximum-below-initial"@,
        error is ZeroEscalationThreshold ==> text@ == "wake-zero-escalation-threshold"@,
        error is ZeroRetirementOccurrences ==> text@ == "wake-zero-retirement-occurrences"@,
        error is RenewalWithoutExpiry ==> text@ == "wake-renewal-without-expiry"@,
        error is WindowCeilingUnbounded ==> text@ == "wake-window-ceiling-unbounded"@,
        error is WindowEpochUnbounded ==> text@ == "wake-window-epoch-unbounded"@,
        error is WindowEpochExceedsCeiling ==> text@ == "wake-window-epoch-exceeds-ceiling"@,
        error is EpochUnbounded ==> text@ == "wake-epoch-unbounded"@,
        error is RevisionAhead ==> text@ == "wake-revision-ahead"@,
        error is TriggerNotAllowed ==> text@ == "wake-trigger-not-allowed"@,
        error is RetryTriggerMismatch ==> text@ == "wake-retry-trigger-mismatch"@,
        error is NotActive ==> text@ == "wake-not-active"@,
        error is ForeignWakeId ==> text@ == "wake-foreign-id"@,
        error is StaleLifecycleRevision ==> text@ == "wake-stale-lifecycle-revision"@,
        error is NotSuspended ==> text@ == "wake-not-suspended"@,
        error is LifecycleTerminal ==> text@ == "wake-lifecycle-terminal"@,
        error is RenewalOutsideWindow ==> text@ == "wake-renewal-outside-window"@,
        error is RenewalNotExtending ==> text@ == "wake-renewal-not-extending"@,
        error is StateOutOfBounds ==> text@ == "wake-state-out-of-bounds"@,
{
}

/// Each refusal of a tool is told by its own code.
pub proof fn each_tool_error_has_its_code(error: &AgentToolError, text: &'static str)
    requires
        call_ensures(AgentToolError::code, (error,), text),
    ensures
        error is EmptyDescription ==> text@ == "tool-description-empty"@,
        error is DescriptionTooLong ==> text@ == "tool-description-too-long"@,
        error is ParametersTooLarge ==> text@ == "tool-parameters-too-large"@,
        error is RegistryFull ==> text@ == "tool-registry-full"@,
        error is DuplicateTool ==> text@ == "tool-already-registered"@,
        error is Policy ==> text@ == "tool-policy-invalid"@,
{
}

/// Each kind of exchange is told by its own label.
pub proof fn each_exchange_has_its_label(kind: AgentExchangeKind, text: &'static str)
    requires
        call_ensures(AgentExchangeKind::as_label, (kind,), text),
    ensures
        kind is Creation ==> text@ == "creation"@,
        kind is Assignment ==> text@ == "assignment"@,
        kind is ResultProposal ==> text@ == "result-proposal"@,
        kind is BudgetAllocation ==> text@ == "budget-allocation"@,
        kind is BudgetSettlement ==> text@ == "budget-settlement"@,
        kind is BudgetReturn ==> text@ == "budget-return"@,
        kind is EpochResult ==> text@ == "epoch-result"@,
        kind is GoalEvaluation ==> text@ == "goal-evaluation"@,
        kind is DelegationResult ==> text@ == "delegation-result"@,
        kind is RunCancel ==> text@ == "run-cancel"@,
        kind is DelegationCancel ==> text@ == "delegation-cancel"@,
        kind is TeamClaim ==> text@ == "team-claim"@,
        kind is TeamClaimResult ==> text@ == "team-claim-result"@,
        kind is TeamTerminalNotice ==> text@ == "team-terminal-notice"@,
{
}

/// Each status of a team is told by its own label.
pub proof fn each_team_status_has_its_label(status: AgentTeamStatus, text: &'static str)
    requires
        call_ensures(AgentTeamStatus::as_label, (status,), text),
    ensures
        status is Active ==> text@ == "active"@,
        status is Disbanded ==> text@ == "disbanded"@,
        status is Expired ==> text@ == "expired"@,
{
}

/// Each status of a board entry is told by its own label.
pub proof fn each_entry_status_has_its_label(status: AgentTeamBoardEntryStatus, text: &'static str)
    requires
        call_ensures(AgentTeamBoardEntryStatus::as_label, (status,), text),
    ensures
        status is Open ==> text@ == "open"@,
        status is Pending ==> text@ == "pending"@,
        status is Releasing ==> text@ == "releasing"@,
        status is Active ==> text@ == "active"@,
        status is Done ==> text@ == "done"@,
{
}

/// Each kind of history entry is told by its own label.
pub proof fn each_history_kind_has_its_label(kind: AgentTeamHistoryKind, text: &'static str)
    requires
        call_ensures(AgentTeamHistoryKind::as_label, (kind,), text),
    ensures
        kind is Created ==> text@ == "team-created"@,
        kind is MemberJoined ==> text@ == "team-member-joined"@,
        kind is MemberLeft ==> text@ == "team-member-left"@,
        kind is TaskPosted ==> text@ == "team-task-posted"@,
        kind is ClaimRecorded ==> text@ == "team-claim-recorded"@,
        kind is ClaimReleaseRequested ==> text@ == "team-claim-release-requested"@,
        kind is ClaimSettled ==> text@ == "team-claim-settled"@,
        kind is TaskClosed ==> text@ == "team-task-closed"@,
        kind is TransferRecorded ==> text@ == "team-transfer-recorded"@,
        kind is MessageAppended ==> text@ == "team-message-appended"@,
        kind is Disbanded ==> text@ == "team-disbanded"@,
        kind is Expired ==> text@ == "team-expired"@,
{
}

/// Each cause of a re-wake is told by its own label.
pub proof fn each_cause_has_its_label(cause: AgentWakeRewakeCause, text: &'static str)
    requires
        call_ensures(AgentWakeRewakeCause::as_label, (cause,), text),
    ensures
        cause is Backoff ==> text@ == "backoff"@,
        cause is WindowTurn ==> text@ == "window-turn"@,
{
}

/// Each kind of trigger is told by its own label.
pub proof fn each_trigger_has_its_label(kind: AgentWakeTriggerKind, text: &'static str)
    requires
        call_ensures(AgentWakeTriggerKind::as_label, (kind,), text),
    ensures
        kind is DurableTimer ==> text@ == "durable-timer"@,
        kind is ExternalEvent ==> text@ == "external-event"@,
        kind is A2aCommand ==> text@ == "a2a-command"@,
        kind is Callback ==> text@ == "callback"@,
        kind is Controller ==> text@ == "controller"@,
{
}

/// Each status of a goal is told by its own label.
pub proof fn each_goal_status_has_its_label(status: AgentGoalLifecycleStatus, text: &'static str)
    requires
        call_ensures(AgentGoalLifecycleStatus::as_label, (status,), text),
    ensures
        status is Active ==> text@ == "active"@,
        status is Suspended ==> text@ == "suspended"@,
        status is Expired ==> text@ == "expired"@,
        status is Retired ==> text@ == "retired"@,
{
}

/// Each answer to a wake is told by its own label.
pub proof fn each_disposition_has_its_label(disposition: &AgentWakeDisposition, text: &'static str)
    requires
        call_ensures(AgentWakeDisposition::as_label, (disposition,), text),
    ensures
        disposition is Admitted ==> text@ == "admitted"@,
        disposition is AdmittedCoalesced ==> text@ == "admitted-coalesced"@,
        disposition is Coalesced ==> text@ == "coalesced"@,
        disposition is Skipped ==> text@ == "skipped"@,
        disposition is Deferred ==> text@ == "deferred"@,
        disposition is BackedOff ==> text@ == "backed-off"@,
        disposition is SuspendedParked ==> text@ == "suspended-parked"@,
        disposition is Dropped ==> text@ == "dropped"@,
        disposition is Barred ==> text@ == "barred"@,
        disposition is Retried ==> text@ == "retried"@,
        disposition is Fenced ==> text@ == "fenced"@,
        disposition is Duplicate ==> text@ == "duplicate"@,
{
}

/// Each class of an epoch outcome is told by its own label.
pub proof fn each_outcome_class_has_its_label(class: AgentEpochOutcomeClass, text: &'static str)
    requires
        call_ensures(AgentEpochOutcomeClass::as_label, (class,), text),
    ensures
        class is Completed ==> text@ == "completed"@,
        class is Failed ==> text@ == "failed"@,
        class is Cancelled ==> text@ == "cancelled"@,
{
}

/// Each kind of tool is told by its own label.
pub proof fn each_tool_kind_has_its_label(kind: AgentToolKind, text: &'static str)
    requires
        call_ensures(AgentToolKind::as_label, (kind,), text),
    ensures
        kind is Function ==> text@ == "function"@,
        kind is Workflow ==> text@ == "workflow"@,
        kind is Process ==> text@ == "process"@,
        kind is RemoteMcp ==> text@ == "remote-mcp"@,
        kind is Retrieval ==> text@ == "retrieval"@,
        kind is Environment ==> text@ == "environment"@,
        kind is AgentCoordination ==> text@ == "agent-coordination"@,
{
}

/// Each result behaviour is told by its own label.
pub proof fn each_result_behavior_has_its_label(behavior: AgentToolResultBehavior, text: &'static str)
    requires
        call_ensures(AgentToolResultBehavior::as_label, (behavior,), text),
    ensures
        behavior is InlineBounded ==> text@ == "inline-bounded"@,
        behavior is ArtifactReference ==> text@ == "artifact-reference"@,
{
}

/// Each safety class is told by its own label.
pub proof fn each_safety_class_has_its_label(class: AgentEffectSafetyClass, text: &'static str)
    requires
        call_ensures(AgentEffectSafetyClass::as_label, (class,), text),
    ensures
        class is ReadOnly ==> text@ == "read-only"@,
        class is Idempotent ==> text@ == "idempotent"@,
        class is Reconcileable ==> text@ == "reconcileable"@,
        class is NonIdempotent ==> text@ == "non-idempotent"@,
{
}

/// Each dimension of an envelope is told by its own label.
pub proof fn each_envelope_dimension_has_its_label(dimension: AgentEnvelopeDimension, text: &'static str)
    requires
        call_ensures(AgentEnvelopeDimension::as_label, (dimension,), text),
    ensures
        dimension is Tool ==> text@ == "undeclared-tool"@,
        dimension is ToolCapability ==> text@ == "undeclared-tool-capability"@,
        dimension is ToolCredentialBinding ==> text@ == "undeclared-tool-credential-binding"@,
        dimension is ToolExecutionPolicy ==> text@ == "changed-tool-execution-policy"@,
        dimension is EffectSafety ==> text@ == "downgraded-effect-safety"@,
        dimension is ModelProfile ==> text@ == "unapproved-model-profile"@,
        dimension is CredentialBinding ==> text@ == "unauthorized-credential-binding"@,
{
}

/// Each calendar unit is told by its own label.
pub proof fn each_calendar_unit_has_its_label(unit: AgentCalendarUnit, text: &'static str)
    requires
        call_ensures(AgentCalendarUnit::as_label, (unit,), text),
    ensures
        unit is Day ==> text@ == "day"@,
        unit is Week ==> text@ == "week"@,
        unit is Month ==> text@ == "month"@,
{
}

/// Each dimension of a budget is told by its own name.
pub proof fn each_budget_dimension_has_its_name(dimension: AgentBudgetDimension, text: &'static str)
    requires
        call_ensures(AgentBudgetDimension::name, (dimension,), text),
    ensures
        dimension is ModelCalls ==> text@ == "ModelCalls"@,
        dimension is Tokens ==> text@ == "Tokens"@,
{
}

/// The number that a decimal text reads as.
pub open spec fn reads_as(text: Seq<char>) -> int
    decreases text.len(),
{
    if text.len() == 0 {
        0
    } else {
        10 * reads_as(text.drop_last()) + (text.last() as int - '0' as int)
    }
}

/// A number is written in decimal digits that read as the number, without a leading
/// zero.
pub proof fn a_decimal_reads_as_its_number(value: u64, text: String)
    requires
        call_ensures(crate::text::decimal_string, (value,), text),
    ensures
        reads_as(text@) == value,
        forall|i: int| 0 <= i < text@.len() ==> '0' <= #[trigger] text@[i] <= '9',
        text@.len() > 1 ==> text@[0] != '0',
        text@.len() > 0,
{
    lemma_reads_as(value as nat);
}

proof fn lemma_reads_as(value: nat)
    ensures
        ({
            let text = crate::text::decimal(value);
            &&& reads_as(text) == value
            &&& forall|i: int| 0 <= i < text.len() ==> '0' <= #[trigger] text[i] <= '9'
            &&& text.len() > 0
            &&& value > 0 ==> text[0] != '0'
            &&& text.len() > 1 ==> value > 0
        }),
    decreases value,
{
    let text = crate::text::decimal(value);
    if value < 10 {
        assert(text.drop_last() =~= Seq::empty());
        reveal_with_fuel(reads_as, 2);
    } else {
        lemma_reads_as(value / 10);
        assert(text.drop_last() =~= crate::text::decimal(value / 10));
        assert(value / 10 > 0);
    }
}

/// A signed number is written as its size, behind a minus where it is negative.
pub proof fn a_signed_decimal_reads_as_its_number(value: i64, text: String)
    requires
        call_ensures(crate::text::signed_decimal_string, (value,), text),
    ensures
        value >= 0 ==> reads_as(text@) == value,
        value < 0 ==> text@.len() > 1 && text@[0] == '-' && reads_as(
            text@.subrange(1, text@.len() as int),
        ) == -value,
{
    reveal_strlit("-");
    if value >= 0 {
        lemma_reads_as(value as nat);
    } else {
        lemma_reads_as((-value) as nat);
        assert(text@.subrange(1, text@.len() as int) =~= crate::text::decimal((-value) as nat));
    }
}

/// The number that a hexadecimal digit stands for.
pub open spec fn hex_value(digit: char) -> int {
    if '0' <= digit <= '9' {
        digit as int - '0' as int
    } else if 'a' <= digit <= 'f' {
        digit as int - 'a' as int + 10
    } else {
        -1
    }
}

/// Bytes are written as two hexadecimal digits each, the higher one first.
pub proof fn a_byte_is_written_in_two_digits(bytes: &Vec<u8>, text: String)
    requires
        call_ensures(crate::digest::to_hex, (bytes,), text),
    ensures
        text@.len() == 2 * bytes@.len(),
        forall|i: int|
            0 <= i < bytes@.len() ==> {
                let high = hex_value(text@[2 * i]);
                let low = hex_value(text@[2 * i + 1]);
                0 <= high < 16 && 0 <= low < 16 && #[trigger] bytes@[i] == 16 * high + low
            },
{
    assert forall|i: int| 0 <= i < bytes@.len() implies {
        let high = hex_value(text@[2 * i]);
        let low = hex_value(text@[2 * i + 1]);
        0 <= high < 16 && 0 <= low < 16 && #[trigger] bytes@[i] == 16 * high + low
    } by {
        let byte = bytes@[i];
        assert((2 * i) / 2 == i && (2 * i) % 2 == 0);
        assert((2 * i + 1) / 2 == i && (2 * i + 1) % 2 == 1);
        assert(text@[2 * i] == crate::digest::hex_char((byte / 16) as nat));
        assert(text@[2 * i + 1] == crate::digest::hex_char((byte % 16) as nat));
        lemma_hex_digit((byte / 16) as nat);
        lemma_hex_digit((byte % 16) as nat);
    }
}

proof fn lemma_hex_digit(digit: nat)
    requires
        digit < 16,
    ensures
        hex_value(crate::digest::hex_char(digit)) == digit,
{
}

/// One text comes before another when it is a proper start of it, or when the first
/// byte in which they differ is the smaller one.
pub proof fn a_text_comes_before_by_its_first_difference(a: &str, b: &str, result: bool, at: int)
    requires
        call_ensures(crate::collections::is_text_before, (a, b), result),
        ({
            let (x, y) = (encode_utf8(a@), encode_utf8(b@));
            &&& 0 <= at <= x.len() && at <= y.len()
            &&& forall|k: int| 0 <= k < at ==> #[trigger] x[k] == y[k]
            &&& at < x.len() && at < y.len() ==> x[at] != y[at]
        }),
    ensures
        ({
            let (x, y) = (encode_utf8(a@), encode_utf8(b@));
            &&& at < x.len() && at < y.len() ==> (result <==> x[at] < y[at])
            &&& at == x.len() || at == y.len() ==> (result <==> x.len() < y.len())
        }),
{
    lemma_first_difference(encode_utf8(a@), encode_utf8(b@), at);
}

proof fn lemma_first_difference(x: Seq<u8>, y: Seq<u8>, at: int)
    requires
        0 <= at <= x.len() && at <= y.len(),
        forall|k: int| 0 <= k < at ==> #[trigger] x[k] == y[k],
        at < x.len() && at < y.len() ==> x[at] != y[at],
    ensures
        at < x.len() && at < y.len() ==> (crate::collections::bytes_before(x, y) <==> x[at]
            < y[at]),
        at == x.len() || at == y.len() ==> (crate::collections::bytes_before(x, y) <==> x.len()
            < y.len()),
    decreases at,
{
    if at > 0 {
        assert(x[0] == y[0]);
        let (p, q) = (x.drop_first(), y.drop_first());
        assert forall|k: int| 0 <= k < at - 1 implies #[trigger] p[k] == q[k] by {
            assert(x[k + 1] == y[k + 1]);
        }
        lemma_first_difference(p, q, at - 1);
    }
}

/// An address names a task when it is of that task, tenant and name.
pub proof fn an_address_names_its_own_task(
    address: &crate::exchange::AgentEntityAddress,
    scope: &crate::wake_scanner::AgentTaskScope,
    result: bool,
)
    requires
        call_ensures(crate::exchange::AgentEntityAddress::names_task, (address, scope), result),
    ensures
        result <==> address is Task && address->Task_0.tenant@ == scope.tenant@
            && address->Task_0.task@ == scope.task@,
{
}

/// A journal answers an operation with the oldest answer it gave it.
pub proof fn a_journal_answers_for_what_it_answered(
    journal: &crate::team_journal::AgentTeamExchangeJournal,
    operation: &crate::identity::AgentOperationId,
    answer: Option<&crate::exchange::AgentExchangeResult>,
)
    requires
        call_ensures(
            crate::team_journal::AgentTeamExchangeJournal::answer,
            (journal, operation),
            answer,
        ),
    ensures
        answer is None <==> (forall|i: int|
            0 <= i < journal@.answered.len() ==> (#[trigger] journal@.answered[i]).operation_id
                != operation@),
        answer is Some ==> exists|i: int|
            {
                &&& 0 <= i < journal@.answered.len()
                &&& (#[trigger] journal@.answered[i]).operation_id == operation@
                &&& journal@.answered[i].answer == answer->Some_0@
            },
{
    lemma_given(journal@.answered, operation@, 0);
}

proof fn lemma_given(
    answered: Seq<crate::team_journal::AnsweredModel>,
    operation: Seq<char>,
    from: nat,
)
    ensures
        crate::team_journal::answer_given(answered, operation, from) is None <==> (forall|i: int|
            from <= i < answered.len() ==> (#[trigger] answered[i]).operation_id != operation),
        crate::team_journal::answer_given(answered, operation, from) is Some ==> exists|i: int|
            {
                &&& from <= i < answered.len()
                &&& (#[trigger] answered[i]).operation_id == operation
                &&& Some(answered[i].answer) == crate::team_journal::answer_given(
                    answered,
                    operation,
                    from,
                )
            },
    decreases answered.len() - from,
{
    if from < answered.len() {
        lemma_given(answered, operation, from + 1);
    }
}

} // verus!
