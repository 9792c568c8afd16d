//! What making and changing the values of the library promises: each step sets the
//! part it names and leaves the others.

use vstd::prelude::*;

use crate::collections::IdSet;
use crate::definition::{
    AgentAuthorityEnvelope, AgentEffectSafetyClass, AgentGuardrailStageId, AgentLifecycleStatus,
    AgentSetupRevision, AgentToolDeclaration, GuardrailStageTag, SettingsRevision,
};
use crate::dispatch_laws::answer_key;
use crate::effect::{
    AgentEffectGeneration, AgentEffectSpec, AgentRunEffect, AgentRunEffectRequest,
    AgentTaskContent,
};
use crate::exchange::{AgentEntityAddress, AgentEntityClass};
use crate::guardrails::AgentGuardrailChain;
use crate::identity::{
    AgentId, AgentOperationId, AgentRevisionNumber, AgentTaskId,
    AgentTeamClaimId, AgentTimestampMillis, AgentToolId,
};
use crate::team_history::{
    AgentTeamHistoryCursor, AgentTeamHistoryEntry, AgentTeamHistoryKind, AgentTeamHistorySequence,
    InMemoryAgentTeamHistoryStore,
};
use crate::testkit_delivery::{
    AgentDispatchWindow, AgentExchangeRouter, CrashSchedule, DeferredExchangeRouter,
    KillSwitchProbe,
};
use crate::testkit_dispatch::{
    AgentDispatchReport, AgentDispatchStep, AgentModelRetryPolicy, DeterministicModelAdapter,
    DispatcherModel, ScriptedDispatcher,
};
use crate::testkit_doubles::{
    AgentReconciliationFinding, DeterministicEmbedder, MemoryRetrievalOutcome,
    RecordingToolExecutor, ScriptedPrivateMemoryRetriever, ScriptedReconciler,
};
use crate::testkit_outcome::{
    model_outcome, AgentModelError, AgentModelRequest, AgentModelTurn, AgentRunEffectOutcome,
};
use crate::text::byte_len;
use crate::tool_authority::{
    AcceptedExecutionPolicies, AgentAuthorityContext, AgentExecutionPolicyRouter,
    AgentToolAuthority,
};
use crate::tools::{
    AgentSchemaRef, AgentToolBinding, AgentToolDescriptor, AgentToolError, AgentToolKind,
    AgentToolRegistry, AgentToolResultBehavior,
};

verus! {

/// A descriptor is made of its parts, at the first version, without parameters and
/// with a bounded result, exactly when the whole is valid.
pub proof fn a_descriptor_is_made_of_its_parts(
    tool: AgentToolId,
    kind: AgentToolKind,
    description: String,
    input: AgentSchemaRef,
    output: AgentSchemaRef,
    whole: &AgentToolDescriptor,
    verdict: Result<(), AgentToolError>,
    result: Result<AgentToolDescriptor, AgentToolError>,
)
    requires
        call_ensures(
            AgentToolDescriptor::new,
            (tool, kind, description, input, output),
            result,
        ),
        *whole == (AgentToolDescriptor {
            tool,
            version: AgentRevisionNumber { number: 1 },
            kind,
            description,
            input_schema: input,
            output_schema: output,
            parameters: None,
            result_behavior: AgentToolResultBehavior::InlineBounded,
        }),
        call_ensures(AgentToolDescriptor::validate, (whole,), verdict),
    ensures
        result is Ok <==> verdict is Ok,
        result is Ok ==> result->Ok_0 == *whole,
        result is Err ==> result->Err_0 == verdict->Err_0,
{
}

/// Parameters are added to a descriptor exactly when it stays valid; a version and a
/// result behaviour are set as they are given.
pub proof fn a_descriptor_takes_parameters_that_fit(
    descriptor: AgentToolDescriptor,
    parameters: serde_json::Value,
    version: AgentRevisionNumber,
    behavior: AgentToolResultBehavior,
    whole: &AgentToolDescriptor,
    verdict: Result<(), AgentToolError>,
    result: Result<AgentToolDescriptor, AgentToolError>,
    versioned: AgentToolDescriptor,
    behaving: AgentToolDescriptor,
)
    requires
        call_ensures(AgentToolDescriptor::with_parameters, (descriptor, parameters), result),
        *whole == (AgentToolDescriptor { parameters: Some(parameters), ..descriptor }),
        call_ensures(AgentToolDescriptor::validate, (whole,), verdict),
        call_ensures(AgentToolDescriptor::with_version, (descriptor, version), versioned),
        call_ensures(AgentToolDescriptor::with_result_behavior, (descriptor, behavior), behaving),
    ensures
        result is Ok <==> verdict is Ok,
        result is Ok ==> result->Ok_0 == *whole,
        result is Err ==> result->Err_0 == verdict->Err_0,
        versioned == (AgentToolDescriptor { version, ..descriptor }),
        behaving == (AgentToolDescriptor { result_behavior: behavior, ..descriptor }),
{
}

/// A new binding holds what it was made of and nothing more.
pub proof fn a_binding_starts_plain(
    descriptor: AgentToolDescriptor,
    declaration: AgentToolDeclaration,
    attempts: u32,
    binding: AgentToolBinding,
)
    requires
        call_ensures(AgentToolBinding::new, (descriptor, declaration, attempts), binding),
    ensures
        binding.descriptor == descriptor,
        binding.declaration == declaration,
        binding.max_attempts == attempts,
        binding.reconciliation_protocol is None,
        binding.timeout_ms is None,
        binding.guardrails@.len() == 0,
        !binding.checkpoint_required,
{
}

/// Each step of a binding sets its own part: a stage is added to those that guard
/// it, a time limit and a protocol are set, a checkpoint becomes required.
pub proof fn a_binding_is_changed_part_by_part(
    binding: AgentToolBinding,
    stage: AgentGuardrailStageId,
    timeout: u64,
    protocol: crate::effect::AgentReconciliationProtocolRef,
    guarded: AgentToolBinding,
    timed: AgentToolBinding,
    reconciled: AgentToolBinding,
    checked: AgentToolBinding,
)
    requires
        call_ensures(AgentToolBinding::with_guardrail, (binding, stage), guarded),
        call_ensures(AgentToolBinding::with_timeout_ms, (binding, timeout), timed),
        call_ensures(
            AgentToolBinding::with_reconciliation_protocol,
            (binding, protocol),
            reconciled,
        ),
        call_ensures(AgentToolBinding::with_checkpoint_required, (binding,), checked),
    ensures
        forall|other: Seq<char>| #[trigger]
            guarded.guardrails@.contains(other) <==> other == stage@ || binding.guardrails@.contains(
                other,
            ),
        guarded == (AgentToolBinding { guardrails: guarded.guardrails, ..binding }),
        timed == (AgentToolBinding { timeout_ms: Some(timeout), ..binding }),
        reconciled == (AgentToolBinding { reconciliation_protocol: Some(protocol), ..binding }),
        checked == (AgentToolBinding { checkpoint_required: true, ..binding }),
{
}

/// A new registry holds no tool.
pub proof fn a_new_registry_is_empty(registry: AgentToolRegistry)
    requires
        call_ensures(AgentToolRegistry::new, (), registry),
    ensures
        forall|tool: Seq<char>| !#[trigger] registry@.dom().contains(tool),
{
}

/// A tool declares its safety and, at first, needs nothing; an empty envelope
/// declares nothing.
pub proof fn a_declaration_starts_with_its_safety(
    safety: AgentEffectSafetyClass,
    declaration: AgentToolDeclaration,
    envelope: AgentAuthorityEnvelope,
)
    requires
        call_ensures(AgentToolDeclaration::new, (safety,), declaration),
        call_ensures(AgentAuthorityEnvelope::empty, (), envelope),
    ensures
        declaration@.safety == safety,
        declaration@.credential_binding is None,
        declaration@.execution_policy is None,
        forall|capability: Seq<char>| !#[trigger] declaration@.capabilities.contains(capability),
        forall|tool: Seq<char>| !#[trigger] envelope.tools@.dom().contains(tool),
        forall|name: Seq<char>| !#[trigger] envelope.credential_bindings@.contains(name),
        forall|name: Seq<char>| !#[trigger] envelope.model_profiles@.contains(name),
        forall|name: Seq<char>| !#[trigger] envelope.mandatory_guardrails@.contains(name),
{
}

/// The safety classes are ordered by how little may be done again: a later one is
/// stricter than each before it.
pub proof fn a_safety_class_is_stricter_the_less_it_repeats(
    read_only: u8,
    idempotent: u8,
    reconcileable: u8,
    non_idempotent: u8,
)
    requires
        call_ensures(
            AgentEffectSafetyClass::strictness,
            (AgentEffectSafetyClass::ReadOnly,),
            read_only,
        ),
        call_ensures(
            AgentEffectSafetyClass::strictness,
            (AgentEffectSafetyClass::Idempotent,),
            idempotent,
        ),
        call_ensures(
            AgentEffectSafetyClass::strictness,
            (AgentEffectSafetyClass::Reconcileable,),
            reconcileable,
        ),
        call_ensures(
            AgentEffectSafetyClass::strictness,
            (AgentEffectSafetyClass::NonIdempotent,),
            non_idempotent,
        ),
    ensures
        read_only < idempotent < reconcileable < non_idempotent,
{
}

/// Only an active agent dispatches, and only a terminated one is over.
pub proof fn an_agent_dispatches_while_active(
    status: AgentLifecycleStatus,
    permits: bool,
    over: bool,
)
    requires
        call_ensures(AgentLifecycleStatus::permits_dispatch, (status,), permits),
        call_ensures(AgentLifecycleStatus::is_terminal, (status,), over),
    ensures
        permits <==> status is Active,
        over <==> status is Terminated,
{
}

/// Revoking a tool makes a new revision in which that tool, and what was revoked
/// before, is revoked.
pub proof fn a_revocation_makes_a_new_revision(
    settings: SettingsRevision,
    tool: AgentToolId,
    next: SettingsRevision,
)
    requires
        call_ensures(SettingsRevision::revoking_tool, (settings, tool), next),
    ensures
        settings.revision.number < u64::MAX ==> next.revision.number == settings.revision.number
            + 1,
        forall|other: Seq<char>| #[trigger]
            next.settings.revoked_tools@.contains(other) <==> other == tool@
                || settings.settings.revoked_tools@.contains(other),
        next.settings.revoked_credential_bindings
            == settings.settings.revoked_credential_bindings,
        next.settings.model_profile == settings.settings.model_profile,
        next.settings.sampling == settings.settings.sampling,
{
}

/// A single attempt is one attempt under its class, and needs nothing.
pub proof fn a_single_attempt_is_one(read_only: AgentEffectSpec, non_idempotent: AgentEffectSpec)
    requires
        call_ensures(AgentEffectSpec::read_only, (), read_only),
        call_ensures(AgentEffectSpec::non_idempotent, (), non_idempotent),
    ensures
        read_only.safety_class is ReadOnly,
        non_idempotent.safety_class is NonIdempotent,
        read_only.max_attempts == 1 && non_idempotent.max_attempts == 1,
        read_only.reconciliation_protocol is None && read_only.credential_binding is None,
        read_only.timeout_ms is None && read_only.execution_policy is None,
        non_idempotent.reconciliation_protocol is None && non_idempotent.credential_binding is None,
        non_idempotent.timeout_ms is None && non_idempotent.execution_policy is None,
{
}

/// Each generation of an effect is followed by a greater one, until there is none.
pub proof fn a_next_generation_is_greater(
    generation: AgentEffectGeneration,
    next: AgentEffectGeneration,
)
    requires
        call_ensures(AgentEffectGeneration::next, (generation,), next),
    ensures
        generation.number < u32::MAX ==> next.number == generation.number + 1,
        generation.number == u32::MAX ==> next.number == generation.number,
{
}

/// A chain covers stages exactly when it runs each of them.
pub proof fn a_chain_covers_the_stages_it_runs(
    chain: &AgentGuardrailChain,
    required: &IdSet<GuardrailStageTag>,
    covered: bool,
)
    requires
        call_ensures(AgentGuardrailChain::covers, (chain, required), covered),
    ensures
        covered <==> forall|stage: Seq<char>| #[trigger]
            required@.contains(stage) ==> chain.stages@.contains(stage),
{
}

/// The stages required of a call are the definition's and the setup's.
pub proof fn both_envelopes_require_their_stages<'a, S: AgentExecutionPolicyRouter>(
    context: &AgentAuthorityContext<'a>,
    required: IdSet<GuardrailStageTag>,
    stage: Seq<char>,
)
    requires
        call_ensures(AgentToolAuthority::<S>::required_stages, (context,), required),
    ensures
        required@.contains(stage) <==> {
            ||| context.definition.envelope.mandatory_guardrails@.contains(stage)
            ||| context.setup is Some
                && context.setup->Some_0.envelope.mandatory_guardrails@.contains(stage)
        },
{
}

/// A cursor starts before the first entry, or after a given one, and takes sixteen.
pub proof fn a_cursor_starts_where_it_is_told(
    sequence: AgentTeamHistorySequence,
    start: AgentTeamHistoryCursor,
    after: AgentTeamHistoryCursor,
)
    requires
        call_ensures(AgentTeamHistoryCursor::start, (), start),
        call_ensures(AgentTeamHistoryCursor::after, (sequence,), after),
    ensures
        start.spec_position() is None,
        start.spec_limit() == 16,
        after.spec_position() == Some(sequence),
        after.spec_limit() == 16,
{
}

/// A history entry is written bare, and each step sets its own part.
pub proof fn an_entry_is_written_part_by_part(
    sequence: AgentTeamHistorySequence,
    kind: AgentTeamHistoryKind,
    operation: AgentOperationId,
    at: AgentTimestampMillis,
    bare: AgentTeamHistoryEntry,
    entry: AgentTeamHistoryEntry,
    task: AgentTaskId,
    member: AgentId,
    claim: AgentTeamClaimId,
    with_task: AgentTeamHistoryEntry,
    with_member: AgentTeamHistoryEntry,
    with_claim: AgentTeamHistoryEntry,
)
    requires
        call_ensures(AgentTeamHistoryEntry::new, (sequence, kind, operation, at), bare),
        call_ensures(AgentTeamHistoryEntry::with_task, (entry, task), with_task),
        call_ensures(AgentTeamHistoryEntry::with_member, (entry, member), with_member),
        call_ensures(AgentTeamHistoryEntry::with_claim, (entry, claim), with_claim),
    ensures
        bare@.schema_version == 1,
        bare@.sequence == sequence.number(),
        bare@.kind == kind,
        bare@.operation_id == operation@,
        bare@.at == at,
        bare@.member is None && bare@.task is None && bare@.claim is None,
        bare@.detail.len() == 0,
        with_task@.task == Some(task@),
        with_task@.member == entry@.member && with_task@.claim == entry@.claim,
        with_task@.sequence == entry@.sequence && with_task@.kind == entry@.kind,
        with_task@.detail == entry@.detail && with_task@.operation_id == entry@.operation_id,
        with_member@.member == Some(member@),
        with_member@.task == entry@.task && with_member@.claim == entry@.claim,
        with_member@.sequence == entry@.sequence && with_member@.kind == entry@.kind,
        with_member@.detail == entry@.detail && with_member@.operation_id == entry@.operation_id,
        with_claim@.claim == Some(claim@),
        with_claim@.task == entry@.task && with_claim@.member == entry@.member,
        with_claim@.sequence == entry@.sequence && with_claim@.kind == entry@.kind,
        with_claim@.detail == entry@.detail && with_claim@.operation_id == entry@.operation_id,
{
}

/// A store retains one entry at least, and otherwise what it is told; what it holds
/// stays.
pub proof fn a_store_retains_one_entry_at_least(
    store: InMemoryAgentTeamHistoryStore,
    entries: usize,
    retaining: InMemoryAgentTeamHistoryStore,
)
    requires
        call_ensures(
            InMemoryAgentTeamHistoryStore::with_retention,
            (store, entries),
            retaining,
        ),
    ensures
        entries > 0 ==> retaining.spec_retention() == Some(entries),
        entries == 0 ==> retaining.spec_retention() == Some(1usize),
        forall|scope: &crate::exchange::AgentTeamScope| #[trigger]
            retaining.log_of(scope) == store.log_of(scope),
{
}

/// A router takes an exchange to the transport of the addressed entity's class.
pub proof fn a_router_goes_by_the_class<T>(
    router: AgentExchangeRouter<T>,
    class: AgentEntityClass,
    transport: T,
    routed: AgentExchangeRouter<T>,
    target: &AgentEntityAddress,
    taken: Option<&T>,
)
    requires
        call_ensures(AgentExchangeRouter::<T>::with_route, (router, class, transport), routed),
        call_ensures(AgentExchangeRouter::<T>::route, (&routed, target), taken),
    ensures
        ({
            let addressed = match target {
                AgentEntityAddress::Agent { .. } => AgentEntityClass::Agent,
                AgentEntityAddress::Task(_) => AgentEntityClass::Task,
                AgentEntityAddress::Run(_) => AgentEntityClass::Run,
                AgentEntityAddress::Team(_) => AgentEntityClass::Team,
            };
            &&& addressed == class ==> taken is Some && *taken->Some_0 == transport
            &&& addressed != class ==> (taken is Some <==> router.routes(addressed) is Some)
            &&& addressed != class && taken is Some ==> *taken->Some_0
                == router.routes(addressed)->Some_0
        }),
{
}

/// A deferred router serves agents, tasks and runs, and no team.
pub proof fn a_deferred_router_serves_three_classes<R>(
    deferred: &DeferredExchangeRouter<R>,
    router: AgentExchangeRouter<&DeferredExchangeRouter<R>>,
)
    requires
        call_ensures(DeferredExchangeRouter::<R>::as_router, (deferred,), router),
    ensures
        router.routes(AgentEntityClass::Agent) == Some(deferred),
        router.routes(AgentEntityClass::Task) == Some(deferred),
        router.routes(AgentEntityClass::Run) == Some(deferred),
        router.routes(AgentEntityClass::Team) is None,
{
}

/// A schedule that survives is disarmed, and a new one never kills.
pub proof fn a_schedule_is_disarmed(schedule: &mut CrashSchedule, fresh: CrashSchedule)
    requires
        call_ensures(CrashSchedule::survive, (schedule,), ()),
        call_ensures(CrashSchedule::new, (), fresh),
    ensures
        final(schedule).armed_at == 0,
        final(schedule).writes == old(schedule).writes,
        fresh.armed_at == 0,
        fresh.writes == 0,
{
}

/// An armed probe waits in the window it is armed for.
pub proof fn a_probe_is_armed_for_its_window(
    probe: &mut KillSwitchProbe,
    window: AgentDispatchWindow,
)
    requires
        call_ensures(KillSwitchProbe::arm, (probe, window), ()),
    ensures
        final(probe).armed == Some(window),
        final(probe).killed == old(probe).killed,
{
}

/// A turn is scripted last, or for its number; one attempt at least is a policy.
pub proof fn an_adapter_is_scripted_in_order(
    adapter: DeterministicModelAdapter,
    turn: AgentModelTurn,
    number: u64,
    policy: AgentModelRetryPolicy,
    appended: DeterministicModelAdapter,
    numbered: DeterministicModelAdapter,
    retrying: Result<DeterministicModelAdapter, AgentModelError>,
)
    requires
        call_ensures(DeterministicModelAdapter::with_turn, (adapter, turn), appended),
        call_ensures(DeterministicModelAdapter::with_turn_for, (adapter, number, turn), numbered),
        call_ensures(DeterministicModelAdapter::with_retry_policy, (adapter, policy), retrying),
    ensures
        appended@.turns.len() == adapter@.turns.len() + 1,
        appended@.turns.last() == turn,
        appended@.turns.drop_last() == adapter@.turns,
        appended@.by_turn == adapter@.by_turn && appended@.calls == adapter@.calls,
        numbered@.by_turn.dom().contains(number) && numbered@.by_turn[number] == turn,
        forall|other: u64|
            other != number ==> {
                &&& #[trigger] numbered@.by_turn.dom().contains(other)
                    <==> adapter@.by_turn.dom().contains(other)
                &&& adapter@.by_turn.dom().contains(other) ==> numbered@.by_turn[other]
                    == adapter@.by_turn[other]
            },
        numbered@.turns == adapter@.turns && numbered@.calls == adapter@.calls,
        retrying is Ok <==> policy.max_attempts > 0,
        retrying is Ok ==> retrying->Ok_0@.retry_policy == policy && retrying->Ok_0@.turns
            == adapter@.turns && retrying->Ok_0@.by_turn == adapter@.by_turn,
        retrying is Err ==> retrying->Err_0 is RetryPolicyWithoutAttempts,
{
    assert(appended@.turns.drop_last() =~= adapter@.turns);
}

/// Everything of a dispatcher but its scripts and its wiring.
pub open spec fn same_record(a: DispatcherModel, b: DispatcherModel) -> bool {
    a.answered == b.answered && a.model_calls == b.model_calls && a.tool_calls == b.tool_calls
}

/// Whether a script changed by one answer alone.
pub open spec fn one_scripted(
    before: Map<Seq<char>, AgentTaskContent>,
    after: Map<Seq<char>, AgentTaskContent>,
    name: Seq<char>,
    content: AgentTaskContent,
) -> bool {
    &&& after.dom().contains(name) && after[name] == content
    &&& forall|other: Seq<char>|
        other != name ==> (#[trigger] after.dom().contains(other) <==> before.dom().contains(
            other,
        )) && (before.dom().contains(other) ==> after[other] == before[other])
}

/// A new dispatcher has answered nothing, has no script and no executor, and has
/// called nothing; it keeps the adapter it is given.
pub proof fn a_new_dispatcher_is_empty<A>(
    adapter: A,
    dispatcher: ScriptedDispatcher<A>,
    name: Seq<char>,
)
    requires
        call_ensures(ScriptedDispatcher::<A>::with_adapter, (adapter,), dispatcher),
    ensures
        !dispatcher@.answered.dom().contains(name),
        !dispatcher@.tools.dom().contains(name),
        !dispatcher@.failures.dom().contains(name),
        !dispatcher@.compensations.dom().contains(name),
        !dispatcher@.wired.memory_promotion && !dispatcher@.wired.goal_evaluation,
        !dispatcher@.wired.a2a_send && !dispatcher@.wired.workflow_start,
        !dispatcher@.wired.workflow_cancel && !dispatcher@.wired.claim_append,
        dispatcher@.model_calls == 0 && dispatcher@.tool_calls == 0,
        dispatcher.spec_adapter() == adapter,
{
}

/// A dispatcher that answers asks its own adapter for the turn, and gives what that
/// turn comes to; what needs no turn is answered as it is begun.
pub proof fn an_answer_comes_from_the_adapter<'a>(
    dispatcher: &mut ScriptedDispatcher<DeterministicModelAdapter>,
    beginning: &mut ScriptedDispatcher<DeterministicModelAdapter>,
    adapter: &mut DeterministicModelAdapter,
    effect: &'a AgentRunEffect,
    begun: AgentDispatchStep<'a>,
    request: &AgentModelRequest,
    turn: AgentModelTurn,
    outcome: AgentRunEffectOutcome,
    step: AgentDispatchStep<'a>,
)
    requires
        call_ensures(
            ScriptedDispatcher::<DeterministicModelAdapter>::begin,
            (beginning, effect),
            begun,
        ),
        call_ensures(
            ScriptedDispatcher::<DeterministicModelAdapter>::answer,
            (dispatcher, effect),
            step,
        ),
        begun@ is CallModel ==> *request == begun@->CallModel_0,
        call_ensures(DeterministicModelAdapter::produce, (adapter, request), turn),
        call_ensures(model_outcome, (Ok(turn),), outcome),
        old(beginning)@ == old(dispatcher)@,
        old(adapter)@ == old(dispatcher).spec_adapter()@,
    ensures
        !(begun@ is CallModel) ==> {
            &&& step@ == begun@
            &&& final(dispatcher)@ == final(beginning)@
            &&& final(dispatcher).spec_adapter()@ == old(dispatcher).spec_adapter()@
        },
        begun@ is CallModel ==> {
            &&& step@ is Answered
            &&& step@->Answered_0 == outcome@
            &&& final(dispatcher).spec_adapter()@ == final(adapter)@
            &&& final(dispatcher)@.answered == final(beginning)@.answered.insert(
                answer_key(*effect),
                outcome@,
            )
        },
{
    assert(crate::testkit_dispatch::effect_key(*effect) =~= answer_key(*effect));
}

/// A dispatcher is scripted tool by tool: a result, a failure and a compensation
/// each stand in their own script.
pub proof fn a_dispatcher_is_scripted_by_tool<A>(
    dispatcher: ScriptedDispatcher<A>,
    name: &str,
    content: AgentTaskContent,
    code: &str,
    message: &str,
    scripted: ScriptedDispatcher<A>,
    failing: ScriptedDispatcher<A>,
    compensating: ScriptedDispatcher<A>,
)
    requires
        call_ensures(ScriptedDispatcher::<A>::with_tool_result, (dispatcher, name, content), scripted),
        call_ensures(
            ScriptedDispatcher::<A>::with_tool_failure,
            (dispatcher, name, code, message),
            failing,
        ),
        call_ensures(
            ScriptedDispatcher::<A>::with_compensation_result,
            (dispatcher, name, content),
            compensating,
        ),
    ensures
        one_scripted(dispatcher@.tools, scripted@.tools, name@, content),
        scripted@.failures == dispatcher@.failures,
        scripted@.compensations == dispatcher@.compensations,
        scripted@.wired == dispatcher@.wired && same_record(scripted@, dispatcher@),
        failing@.failures.dom().contains(name@),
        failing@.failures[name@].code@ == code@,
        failing@.failures[name@].message@ == message@,
        failing@.tools == dispatcher@.tools,
        failing@.compensations == dispatcher@.compensations,
        failing@.wired == dispatcher@.wired && same_record(failing@, dispatcher@),
        one_scripted(dispatcher@.compensations, compensating@.compensations, name@, content),
        compensating@.failures == dispatcher@.failures,
        compensating@.tools == dispatcher@.tools,
        compensating@.wired == dispatcher@.wired && same_record(compensating@, dispatcher@),
{
}

/// Each executor is wired on its own.
pub proof fn an_executor_is_wired_on_its_own<A>(
    dispatcher: ScriptedDispatcher<A>,
    promoting: ScriptedDispatcher<A>,
    evaluating: ScriptedDispatcher<A>,
    sending: ScriptedDispatcher<A>,
    starting: ScriptedDispatcher<A>,
    cancelling: ScriptedDispatcher<A>,
    appending: ScriptedDispatcher<A>,
)
    requires
        call_ensures(
            ScriptedDispatcher::<A>::with_memory_promotion_executor,
            (dispatcher,),
            promoting,
        ),
        call_ensures(
            ScriptedDispatcher::<A>::with_goal_evaluation_executor,
            (dispatcher,),
            evaluating,
        ),
        call_ensures(ScriptedDispatcher::<A>::with_a2a_send_executor, (dispatcher,), sending),
        call_ensures(ScriptedDispatcher::<A>::with_workflow_start_executor, (dispatcher,), starting),
        call_ensures(
            ScriptedDispatcher::<A>::with_workflow_cancel_executor,
            (dispatcher,),
            cancelling,
        ),
        call_ensures(ScriptedDispatcher::<A>::with_claim_append_executor, (dispatcher,), appending),
    ensures
        promoting@.wired.memory_promotion,
        promoting@.wired.goal_evaluation == dispatcher@.wired.goal_evaluation,
        promoting@.wired.a2a_send == dispatcher@.wired.a2a_send,
        promoting@.wired.workflow_start == dispatcher@.wired.workflow_start,
        promoting@.wired.workflow_cancel == dispatcher@.wired.workflow_cancel,
        promoting@.wired.claim_append == dispatcher@.wired.claim_append,
        evaluating@.wired.goal_evaluation,
        evaluating@.wired.memory_promotion == dispatcher@.wired.memory_promotion,
        evaluating@.wired.a2a_send == dispatcher@.wired.a2a_send,
        evaluating@.wired.workflow_start == dispatcher@.wired.workflow_start,
        evaluating@.wired.workflow_cancel == dispatcher@.wired.workflow_cancel,
        evaluating@.wired.claim_append == dispatcher@.wired.claim_append,
        sending@.wired.a2a_send,
        sending@.wired.memory_promotion == dispatcher@.wired.memory_promotion,
        sending@.wired.goal_evaluation == dispatcher@.wired.goal_evaluation,
        sending@.wired.workflow_start == dispatcher@.wired.workflow_start,
        sending@.wired.workflow_cancel == dispatcher@.wired.workflow_cancel,
        sending@.wired.claim_append == dispatcher@.wired.claim_append,
        starting@.wired.workflow_start,
        starting@.wired.memory_promotion == dispatcher@.wired.memory_promotion,
        starting@.wired.goal_evaluation == dispatcher@.wired.goal_evaluation,
        starting@.wired.a2a_send == dispatcher@.wired.a2a_send,
        starting@.wired.workflow_cancel == dispatcher@.wired.workflow_cancel,
        starting@.wired.claim_append == dispatcher@.wired.claim_append,
        cancelling@.wired.workflow_cancel,
        cancelling@.wired.memory_promotion == dispatcher@.wired.memory_promotion,
        cancelling@.wired.goal_evaluation == dispatcher@.wired.goal_evaluation,
        cancelling@.wired.a2a_send == dispatcher@.wired.a2a_send,
        cancelling@.wired.workflow_start == dispatcher@.wired.workflow_start,
        cancelling@.wired.claim_append == dispatcher@.wired.claim_append,
        appending@.wired.claim_append,
        appending@.wired.memory_promotion == dispatcher@.wired.memory_promotion,
        appending@.wired.goal_evaluation == dispatcher@.wired.goal_evaluation,
        appending@.wired.a2a_send == dispatcher@.wired.a2a_send,
        appending@.wired.workflow_start == dispatcher@.wired.workflow_start,
        appending@.wired.workflow_cancel == dispatcher@.wired.workflow_cancel,
{
}

/// A report fits the request that it is the report of.
pub proof fn a_report_fits_its_own_request(
    report: &AgentDispatchReport,
    request: &AgentRunEffectRequest,
    fits: bool,
)
    requires
        call_ensures(AgentDispatchReport::fits, (report, request), fits),
    ensures
        fits <==> {
            ||| report is Model && request is Model
            ||| report is A2aSend && request is A2aSend
            ||| report is WorkflowStart && request is WorkflowStart
            ||| report is WorkflowCancel && request is WorkflowCancel
            ||| report is ClaimAppend && request is ClaimAppend
            ||| report is MemoryPromotion && request is MemoryPromotion
            ||| report is Evaluation && request is Evaluation
        },
{
}

/// A finding, a retrieved memory and an error are scripted last, in order.
pub proof fn a_double_is_scripted_in_order<M, E>(
    reconciler: ScriptedReconciler,
    finding: AgentReconciliationFinding,
    finding_more: ScriptedReconciler,
    retriever: ScriptedPrivateMemoryRetriever<M, E>,
    outcome: MemoryRetrievalOutcome<M>,
    error: E,
    retrieving: ScriptedPrivateMemoryRetriever<M, E>,
    failing: ScriptedPrivateMemoryRetriever<M, E>,
)
    requires
        call_ensures(ScriptedReconciler::with_finding, (reconciler, finding), finding_more),
        call_ensures(
            ScriptedPrivateMemoryRetriever::<M, E>::with_outcome,
            (retriever, outcome),
            retrieving,
        ),
        call_ensures(
            ScriptedPrivateMemoryRetriever::<M, E>::with_error,
            (retriever, error),
            failing,
        ),
    ensures
        finding_more@.findings.len() == reconciler@.findings.len() + 1,
        finding_more@.findings.last() == finding,
        finding_more@.findings.drop_last() == reconciler@.findings,
        retrieving@.outcomes.last() == Ok::<MemoryRetrievalOutcome<M>, E>(outcome),
        retrieving@.outcomes.drop_last() == retriever@.outcomes,
        failing@.outcomes.last() == Err::<MemoryRetrievalOutcome<M>, E>(error),
        failing@.outcomes.drop_last() == retriever@.outcomes,
{
    assert(finding_more@.findings.drop_last() =~= reconciler@.findings);
    assert(retrieving@.outcomes.drop_last() =~= retriever@.outcomes);
    assert(failing@.outcomes.drop_last() =~= retriever@.outcomes);
}

/// A recording executor's scripts are set tool by tool, and its records stay.
pub proof fn an_executor_is_scripted_by_tool(
    executor: RecordingToolExecutor,
    tool: &str,
    content: AgentTaskContent,
    code: &str,
    message: &str,
    scripted: RecordingToolExecutor,
    failing: RecordingToolExecutor,
)
    requires
        call_ensures(RecordingToolExecutor::with_result, (executor, tool, content), scripted),
        call_ensures(
            RecordingToolExecutor::with_failure,
            (executor, tool, code, message),
            failing,
        ),
    ensures
        one_scripted(executor@.results, scripted@.results, tool@, content),
        scripted@.failures == executor@.failures,
        scripted@.invocations == executor@.invocations,
        failing@.failures.dom().contains(tool@),
        failing@.failures[tool@].code@ == code@,
        failing@.failures[tool@].message@ == message@,
        failing@.results == executor@.results,
        failing@.invocations == executor@.invocations,
{
}

/// An embedder has one dimension at least, eight at first.
pub proof fn an_embedder_has_one_dimension_at_least(
    fresh: DeterministicEmbedder,
    embedder: DeterministicEmbedder,
    dimensions: u32,
    sized: DeterministicEmbedder,
)
    requires
        call_ensures(DeterministicEmbedder::new, (), fresh),
        call_ensures(DeterministicEmbedder::with_dimensions, (embedder, dimensions), sized),
    ensures
        fresh.dimensions() == 8,
        fresh.version().number == 1,
        dimensions > 0 ==> sized.dimensions() == dimensions,
        dimensions == 0 ==> sized.dimensions() == 1,
        sized.version() == embedder.version(),
{
}

/// An authority is made over its registry, without a chain or a router, and grants
/// for one minute; each step sets its own part.
pub proof fn an_authority_is_made_part_by_part<R, S>(
    registry: AgentToolRegistry,
    fresh: AgentToolAuthority<AcceptedExecutionPolicies>,
    authority: AgentToolAuthority<R>,
    chain: AgentGuardrailChain,
    ttl: u64,
    router: S,
    guarded: AgentToolAuthority<R>,
    limited: AgentToolAuthority<R>,
    routed: AgentToolAuthority<S>,
) where R: AgentExecutionPolicyRouter, S: AgentExecutionPolicyRouter
    requires
        call_ensures(AgentToolAuthority::new, (registry,), fresh),
        call_ensures(AgentToolAuthority::<R>::with_guardrails, (authority, chain), guarded),
        call_ensures(AgentToolAuthority::<R>::with_grant_ttl_ms, (authority, ttl), limited),
        call_ensures(
            AgentToolAuthority::<R>::with_execution_router::<S>,
            (authority, router),
            routed,
        ),
    ensures
        fresh.registry == registry,
        fresh.guardrails is None && fresh.execution_router is None,
        fresh.grant_ttl_ms == 60_000,
        guarded.guardrails == Some(chain),
        guarded.registry == authority.registry && guarded.execution_router
            == authority.execution_router && guarded.grant_ttl_ms == authority.grant_ttl_ms,
        limited.grant_ttl_ms == ttl,
        limited.registry == authority.registry && limited.execution_router
            == authority.execution_router && limited.guardrails == authority.guardrails,
        routed.execution_router == Some(router),
        routed.registry == authority.registry && routed.guardrails == authority.guardrails
            && routed.grant_ttl_ms == authority.grant_ttl_ms,
{
}

/// A turn is valid exactly when its text, if any, takes no more than 64 KiB; a valid
/// turn is the outcome, and any other and every error fails under its code.
pub proof fn a_turn_is_the_outcome_when_its_text_fits(
    turn: AgentModelTurn,
    error: AgentModelError,
    checked: Result<(), AgentModelError>,
    given: AgentRunEffectOutcome,
    failed: AgentRunEffectOutcome,
)
    requires
        call_ensures(AgentModelTurn::validate, (&turn,), checked),
        call_ensures(model_outcome, (Ok(turn),), given),
        call_ensures(model_outcome, (Err(error),), failed),
    ensures
        checked is Ok <==> (turn.text is Some ==> byte_len(turn.text->Some_0@) <= 65_536),
        checked is Err ==> checked->Err_0 is TextTooLong,
        checked is Ok <==> given is Model,
        given is Model ==> given->turn == turn,
        checked is Err ==> given is Failed && given->Failed_code@ == "model-text-too-long"@,
        failed is Failed,
        error is Provider ==> failed->Failed_code@ == error->Provider_code@
            && failed->Failed_message@ == error->Provider_message@,
        error is RetryPolicyWithoutAttempts ==> failed->Failed_code@
            == "model-retry-policy-invalid"@,
{
    assert(given@ is Model <==> given is Model);
    assert(given@ is Failed <==> given is Failed);
    assert(failed@ is Failed <==> failed is Failed);
}

/// A setup holds the envelope it was made of, at the first schema version.
pub proof fn a_setup_holds_its_envelope(
    revision: AgentRevisionNumber,
    envelope: AgentAuthorityEnvelope,
    setup: AgentSetupRevision,
)
    requires
        call_ensures(AgentSetupRevision::new, (revision, envelope), setup),
    ensures
        setup.revision == revision,
        setup.envelope == envelope,
        setup.schema_version == 1,
{
}

} // verus!
