//! What an authorized dispatch promises: every layer of authority between a
//! suggestion and an external call was asked, and none was widened.

use vstd::prelude::*;
use vstd::utf8::encode_utf8;

use crate::definition::{AgentEffectSafetyClass, AgentLifecycleStatus, AgentToolDeclaration};
use crate::digest::sha256_hex;
use crate::effect::{AgentRunEffect, AgentRunEffectRequest, AgentRunScope, AgentToolCallRequest};
use crate::guardrails::{AgentGuardrailBoundary, AgentGuardrailDecision, AgentGuardrailRequest};
use crate::identity::{optional_text, AgentGoalId, AgentTaskId, AgentTimestampMillis};
use crate::json::{json_number, json_object, json_optional, json_string, json_text};
use crate::text::byte_len;
use crate::tool_authority::{
    AgentAuthorityContext, AgentAuthorityRefusal, AgentDispatchGrant, AgentExecutionPolicyRouter,
    AgentGrantedDispatch, AgentToolAuthority,
};
use crate::tools::AgentToolBinding;

verus! {

/// How strict a safety class is.
pub open spec fn strictness_of(class: AgentEffectSafetyClass) -> int {
    if class == AgentEffectSafetyClass::NonIdempotent {
        4
    } else if class == AgentEffectSafetyClass::Reconcileable {
        3
    } else if class == AgentEffectSafetyClass::Idempotent {
        2
    } else {
        1
    }
}

/// Whether a tool is within an agent's reach: declared by its definition, selected
/// by its setup if there is one, and not revoked.
pub open spec fn within_reach(context: AgentAuthorityContext, tool: Seq<char>) -> bool {
    &&& context.definition.envelope.tools@.dom().contains(tool)
    &&& context.setup is Some ==> context.setup->Some_0.envelope.tools@.dom().contains(tool)
    &&& !context.settings.settings.revoked_tools@.contains(tool)
}

/// Whether a deployment's binding is no laxer than the definition's declaration.
pub open spec fn no_laxer(bound: AgentToolDeclaration, declared: AgentToolDeclaration) -> bool {
    &&& strictness_of(bound.safety) >= strictness_of(declared.safety)
    &&& forall|capability: Seq<char>| #[trigger]
        bound.capabilities@.contains(capability) ==> declared.capabilities@.contains(capability)
    &&& bound.credential_binding is Some ==> declared.credential_binding is Some
        && bound.credential_binding->Some_0@ == declared.credential_binding->Some_0@
    &&& optional_text(bound.execution_policy) == optional_text(declared.execution_policy)
}

/// Whether an intent asks for no more than its tool's binding permits.
pub open spec fn asks_no_more(intent: AgentRunEffect, binding: AgentToolBinding) -> bool {
    &&& strictness_of(intent.safety) >= strictness_of(binding.declaration.safety)
    &&& intent.max_attempts <= binding.max_attempts
    &&& optional_text(intent.credential_binding) == optional_text(
        binding.declaration.credential_binding,
    )
    &&& optional_text(intent.execution_policy) == optional_text(
        binding.declaration.execution_policy,
    )
}

/// Whether an intent's credential, if it names one, is authorized by the
/// definition and the setup, and not revoked.
pub open spec fn credential_holds(context: AgentAuthorityContext, intent: AgentRunEffect) -> bool {
    match intent.credential_binding {
        None => true,
        Some(credential) => {
            &&& context.definition.envelope.credential_bindings@.contains(credential@)
            &&& context.setup is Some
                ==> context.setup->Some_0.envelope.credential_bindings@.contains(credential@)
            &&& !context.settings.settings.revoked_credential_bindings@.contains(credential@)
        },
    }
}

/// Whether an intent's execution policy, if it names one, has an executor.
pub open spec fn is_routable<R: AgentExecutionPolicyRouter>(
    authority: AgentToolAuthority<R>,
    intent: AgentRunEffect,
) -> bool {
    match intent.execution_policy {
        None => true,
        Some(policy) => authority.execution_router is Some
            && authority.execution_router->Some_0.accepted(policy@),
    }
}

/// Whether the configured chain runs a stage.
pub open spec fn runs_stage<R: AgentExecutionPolicyRouter>(
    authority: AgentToolAuthority<R>,
    stage: Seq<char>,
) -> bool {
    authority.guardrails is Some && authority.guardrails->Some_0.stages@.contains(stage)
}

/// Whether the definition or the setup requires a stage of every call.
pub open spec fn requires_stage(context: AgentAuthorityContext, stage: Seq<char>) -> bool {
    ||| context.definition.envelope.mandatory_guardrails@.contains(stage)
    ||| (context.setup is Some
        && context.setup->Some_0.envelope.mandatory_guardrails@.contains(stage))
}

/// Whether the configured chain runs every stage that the definition, the setup or
/// a binding requires.
pub open spec fn is_covered<R: AgentExecutionPolicyRouter>(
    authority: AgentToolAuthority<R>,
    context: AgentAuthorityContext,
    bound: Set<Seq<char>>,
) -> bool {
    forall|stage: Seq<char>|
        (#[trigger] requires_stage(context, stage)) || bound.contains(stage) ==> runs_stage(
            authority,
            stage,
        )
}

/// Whether an intent's recorded fingerprint is that of its own arguments.
pub open spec fn fingerprint_holds(intent: AgentRunEffect) -> bool {
    match intent.request.argument_text() {
        Some(text) => intent.argument_digest@ == sha256_hex(encode_utf8(text)),
        None => false,
    }
}

/// Whether what a chain decided lets a tool call go on: it allows it, and what it
/// made of the arguments can be sent.
pub open spec fn lets_through(decision: AgentGuardrailDecision) -> bool {
    &&& decision.disposition is Allowed
    &&& decision.transformed is Some ==> {
        let text = json_text(decision.transformed->Some_0);
        text is Some && byte_len(text->Some_0) <= 16 * 1024
    }
}

/// Whether everything before the guardrails' own decision is in order for a tool
/// call.
pub open spec fn tool_is_cleared<R: AgentExecutionPolicyRouter>(
    authority: AgentToolAuthority<R>,
    context: AgentAuthorityContext,
    intent: AgentRunEffect,
    call: AgentToolCallRequest,
) -> bool {
    let tool = call.tool@;
    let binding = authority.registry@[tool];
    &&& context.status == AgentLifecycleStatus::Active
    &&& fingerprint_holds(intent)
    &&& authority.registry@.dom().contains(tool)
    &&& within_reach(context, tool)
    &&& no_laxer(binding.declaration, context.definition.envelope.tools@[tool])
    &&& asks_no_more(intent, binding)
    &&& credential_holds(context, intent)
    &&& is_routable(authority, intent)
    &&& !binding.checkpoint_required
    &&& is_covered(authority, context, binding.guardrails@)
}

/// Whether everything before the guardrails' own decision is in order for a model
/// call under a profile.
pub open spec fn model_is_cleared<R: AgentExecutionPolicyRouter>(
    authority: AgentToolAuthority<R>,
    context: AgentAuthorityContext,
    intent: AgentRunEffect,
    profile: Option<Seq<char>>,
) -> bool {
    &&& context.status == AgentLifecycleStatus::Active
    &&& fingerprint_holds(intent)
    &&& profile is Some ==> {
        &&& context.definition.envelope.model_profiles@.contains(profile->Some_0)
        &&& context.setup is Some ==> context.setup->Some_0.envelope.model_profiles@.contains(
            profile->Some_0,
        )
    }
    &&& credential_holds(context, intent)
    &&& is_routable(authority, intent)
    &&& is_covered(authority, context, Set::empty())
}

/// The profile a model call runs under: the operator's choice, or the intent's.
pub open spec fn chosen_profile(context: AgentAuthorityContext, intent: AgentRunEffect) -> Option<
    Seq<char>,
> {
    match context.settings.settings.model_profile {
        Some(profile) => Some(profile@),
        None => match intent.request {
            AgentRunEffectRequest::Model { profile, .. } => optional_text(profile),
            _ => None,
        },
    }
}

proof fn lemma_tool_coverage<R: AgentExecutionPolicyRouter>(
    authority: AgentToolAuthority<R>,
    context: AgentAuthorityContext,
    binding: AgentToolBinding,
)
    ensures
        authority.coverage_refusal(
            crate::tool_authority::mandatory_stages(context).union(binding.guardrails@),
        ) is None <==> is_covered(authority, context, binding.guardrails@),
{
    let required = crate::tool_authority::mandatory_stages(context).union(binding.guardrails@);
    assert forall|stage: Seq<char>| required.contains(stage) <==> (#[trigger] requires_stage(
        context,
        stage,
    )) || binding.guardrails@.contains(stage) by {}
    lemma_coverage(authority, required);
    if authority.coverage_refusal(required) is None {
        assert forall|stage: Seq<char>|
            (#[trigger] requires_stage(context, stage)) || binding.guardrails@.contains(
                stage,
            ) implies runs_stage(authority, stage) by {
            assert(required.contains(stage));
        }
    } else {
        let stage = choose|stage: Seq<char>| #[trigger]
            required.contains(stage) && !runs_stage(authority, stage);
        assert(requires_stage(context, stage) || binding.guardrails@.contains(stage));
        assert(!is_covered(authority, context, binding.guardrails@));
    }
}

proof fn lemma_model_coverage<R: AgentExecutionPolicyRouter>(
    authority: AgentToolAuthority<R>,
    context: AgentAuthorityContext,
)
    ensures
        authority.coverage_refusal(crate::tool_authority::mandatory_stages(context)) is None
            <==> is_covered(authority, context, Set::empty()),
{
    let required = crate::tool_authority::mandatory_stages(context);
    assert forall|stage: Seq<char>| required.contains(stage) <==> #[trigger] requires_stage(
        context,
        stage,
    ) by {}
    lemma_coverage(authority, required);
    if authority.coverage_refusal(required) is None {
        assert forall|stage: Seq<char>| #[trigger] requires_stage(context, stage) implies runs_stage(
            authority,
            stage,
        ) by {
            assert(required.contains(stage));
        }
    } else {
        let stage = choose|stage: Seq<char>| #[trigger]
            required.contains(stage) && !runs_stage(authority, stage);
        assert(requires_stage(context, stage));
        assert(!is_covered(authority, context, Set::empty()));
    }
}

/// Required stages can all run exactly when the configured chain runs each.
proof fn lemma_coverage<R: AgentExecutionPolicyRouter>(
    authority: AgentToolAuthority<R>,
    required: Set<Seq<char>>,
)
    ensures
        authority.coverage_refusal(required) is None <==> forall|stage: Seq<char>| #[trigger]
            required.contains(stage) ==> runs_stage(authority, stage),
{
    if required != Set::<Seq<char>>::empty() {
        if forall|stage: Seq<char>| !#[trigger] required.contains(stage) {
            assert(required =~= Set::empty());
        }
        let stage = choose|stage: Seq<char>| #[trigger] required.contains(stage);
        if authority.guardrails is Some {
            let stages = authority.guardrails->Some_0.stages@;
            if !required.subset_of(stages) {
                let missing = choose|a: Seq<char>| #[trigger]
                    required.contains(a) && !stages.contains(a);
                assert(required.contains(missing));
            }
        } else {
            assert(required.contains(stage) && !runs_stage(authority, stage));
        }
    }
}

proof fn lemma_no_laxer(tool: Seq<char>, binding: AgentToolBinding, declared: AgentToolDeclaration)
    ensures
        crate::tool_authority::binding_refusal(tool, binding, declared) is None <==> no_laxer(
            binding.declaration,
            declared,
        ),
{
    let bound = binding.declaration;
    if !bound.capabilities@.subset_of(declared.capabilities@) {
        let missing = choose|a: Seq<char>| #[trigger]
            bound.capabilities@.contains(a) && !declared.capabilities@.contains(a);
        assert(bound.capabilities@.contains(missing));
    }
}

/// A tool call is granted exactly when the agent is active, the intent is its own,
/// the tool is registered, in reach and bound no laxer than declared, the intent
/// asks no more than the binding, its credential and execution policy hold, no
/// checkpoint is needed, every guardrail stage that the definition, the setup or
/// the binding requires is run by the configured chain, and that chain lets it
/// through.
pub proof fn a_tool_call_is_granted_when_every_layer_agrees<R: AgentExecutionPolicyRouter>(
    authority: &AgentToolAuthority<R>,
    context: &AgentAuthorityContext,
    scope: &AgentRunScope,
    task: Option<AgentTaskId>,
    goal: Option<AgentGoalId>,
    intent: &AgentRunEffect,
    decision: AgentGuardrailDecision,
    now: AgentTimestampMillis,
    result: Result<AgentGrantedDispatch, AgentAuthorityRefusal>,
)
    requires
        call_ensures(
            AgentToolAuthority::<R>::authorize,
            (authority, context, scope, task, goal, intent, decision, now),
            result,
        ),
        intent.request is Tool,
    ensures
        result is Ok <==> tool_is_cleared(*authority, *context, *intent, intent.request->call) && (
        authority.guardrails is Some ==> lets_through(decision)),
{
    let call = intent.request->call;
    let binding = authority.registry@[call.tool@];
    lemma_tool_coverage(*authority, *context, binding);
    lemma_no_laxer(call.tool@, binding, context.definition.envelope.tools@[call.tool@]);
}

/// A model call is granted exactly when the agent is active, the intent is its own,
/// the profile it runs under is approved, its credential and execution policy
/// hold, every required guardrail stage is run by the configured chain, and that
/// chain allows it.
pub proof fn a_model_call_is_granted_when_every_layer_agrees<R: AgentExecutionPolicyRouter>(
    authority: &AgentToolAuthority<R>,
    context: &AgentAuthorityContext,
    scope: &AgentRunScope,
    task: Option<AgentTaskId>,
    goal: Option<AgentGoalId>,
    intent: &AgentRunEffect,
    decision: AgentGuardrailDecision,
    now: AgentTimestampMillis,
    result: Result<AgentGrantedDispatch, AgentAuthorityRefusal>,
)
    requires
        call_ensures(
            AgentToolAuthority::<R>::authorize,
            (authority, context, scope, task, goal, intent, decision, now),
            result,
        ),
        intent.request is Model,
    ensures
        result is Ok <==> model_is_cleared(
            *authority,
            *context,
            *intent,
            chosen_profile(*context, *intent),
        ) && (authority.guardrails is Some ==> decision.disposition is Allowed),
        result is Ok ==> optional_text(result->Ok_0.model_profile) == chosen_profile(
            *context,
            *intent,
        ),
        result is Ok ==> result->Ok_0.sampling == Some(context.settings.settings.sampling),
        result is Ok ==> result->Ok_0.tool_call is None && result->Ok_0.grant.descriptor is None,
        result is Ok ==> result->Ok_0.grant.capabilities@ == Set::<Seq<char>>::empty(),
{
    lemma_model_coverage(*authority, *context);
}

/// A grant binds its intent and nothing wider: the run, the effect and its
/// generation, the arguments, the safety class, the credential and the execution
/// policy are the intent's own, the revisions are those it was checked against,
/// it holds for as long as the authority lets a grant live and for as many
/// attempts as the intent has, and a tool's descriptor and capabilities are its
/// binding's.
pub proof fn a_grant_binds_its_intent<R: AgentExecutionPolicyRouter>(
    authority: &AgentToolAuthority<R>,
    context: &AgentAuthorityContext,
    scope: &AgentRunScope,
    task: Option<AgentTaskId>,
    goal: Option<AgentGoalId>,
    intent: &AgentRunEffect,
    decision: AgentGuardrailDecision,
    now: AgentTimestampMillis,
    result: Result<AgentGrantedDispatch, AgentAuthorityRefusal>,
)
    requires
        call_ensures(
            AgentToolAuthority::<R>::authorize,
            (authority, context, scope, task, goal, intent, decision, now),
            result,
        ),
        intent.request is Tool || intent.request is Model,
        result is Ok,
    ensures
        ({
            let grant = result->Ok_0.grant;
            &&& grant.scope == *scope
            &&& grant.task == task
            &&& grant.goal == goal
            &&& grant.effect_id == intent.effect_id
            &&& grant.generation == intent.generation
            &&& grant.argument_digest == intent.argument_digest
            &&& grant.safety_class == intent.safety
            &&& grant.credential_binding == intent.credential_binding
            &&& grant.execution_policy == intent.execution_policy
            &&& grant.definition_revision == context.definition.revision
            &&& grant.settings_revision == context.settings.revision
            &&& grant.setup_revision is Some <==> context.setup is Some
            &&& context.setup is Some ==> grant.setup_revision == Some(
                context.setup->Some_0.revision,
            )
            &&& grant.guardrail_revision is Some <==> authority.guardrails is Some
            &&& authority.guardrails is Some ==> grant.guardrail_revision == Some(
                authority.guardrails->Some_0.revision,
            )
            &&& grant.issued_at == now
            &&& grant.expires_at.millis == if now.millis + authority.grant_ttl_ms <= u64::MAX {
                now.millis + authority.grant_ttl_ms
            } else {
                u64::MAX as int
            }
            &&& grant.allowed_use_count == intent.max_attempts
            &&& authority.guardrails is None ==> result->Ok_0.reports@.len() == 0
            &&& authority.guardrails is Some ==> result->Ok_0.reports@ == decision.reports@
        }),
        intent.request is Tool ==> ({
            let grant = result->Ok_0.grant;
            let call = intent.request->call;
            let binding = authority.registry@[call.tool@];
            let transformed = authority.guardrails is Some && decision.transformed is Some;
            let sent = result->Ok_0.tool_call;
            &&& grant.descriptor is Some
            &&& grant.descriptor->Some_0.tool == binding.descriptor.tool
            &&& grant.descriptor->Some_0.version == binding.descriptor.version
            &&& grant.capabilities@ == binding.declaration.capabilities@
            &&& grant.target@ == "tool:"@ + call.tool@
            &&& result->Ok_0.model_profile is None
            &&& result->Ok_0.sampling is None
            &&& sent is Some <==> transformed
            &&& transformed ==> sent->Some_0.arguments == decision.transformed->Some_0
                && sent->Some_0.call_id == call.call_id && sent->Some_0.tool == call.tool
        }),
{
}

/// A refusal names the first layer that failed: lifecycle, fingerprint,
/// registration, declaration, setup, revocation, deployment, intent, credential,
/// execution policy, checkpoint, coverage and then the chain's own word. Only a
/// suspension is worth waiting for.
pub proof fn a_refused_tool_call_names_the_layer_that_failed<R: AgentExecutionPolicyRouter>(
    authority: &AgentToolAuthority<R>,
    context: &AgentAuthorityContext,
    scope: &AgentRunScope,
    task: Option<AgentTaskId>,
    goal: Option<AgentGoalId>,
    intent: &AgentRunEffect,
    decision: AgentGuardrailDecision,
    now: AgentTimestampMillis,
    result: Result<AgentGrantedDispatch, AgentAuthorityRefusal>,
)
    requires
        call_ensures(
            AgentToolAuthority::<R>::authorize,
            (authority, context, scope, task, goal, intent, decision, now),
            result,
        ),
        intent.request is Tool,
    ensures
        ({
            let code = result->Err_0@.code;
            let tool = intent.request->call.tool@;
            let binding = authority.registry@[tool];
            let bound = binding.declaration;
            let declared = context.definition.envelope.tools@[tool];
            let entered = context.status == AgentLifecycleStatus::Active && fingerprint_holds(
                *intent,
            );
            let reached = entered && authority.registry@.dom().contains(tool) && within_reach(
                *context,
                tool,
            );
            let deployed = reached && no_laxer(bound, declared);
            let asked = deployed && asks_no_more(*intent, binding);
            let credited = asked && credential_holds(*context, *intent);
            let routed = credited && is_routable(*authority, *intent);
            let covered = routed && !binding.checkpoint_required && is_covered(
                *authority,
                *context,
                binding.guardrails@,
            );
            &&& result is Err ==> (result->Err_0.retryable <==> context.status
                == AgentLifecycleStatus::Suspended)
            &&& context.status == AgentLifecycleStatus::Terminated ==> code == "agent-terminated"@
            &&& context.status == AgentLifecycleStatus::Suspended ==> code
                == "agent-dispatch-suspended"@
            &&& context.status == AgentLifecycleStatus::Active && !fingerprint_holds(*intent)
                ==> code == "argument-digest-mismatch"@
            &&& entered && !authority.registry@.dom().contains(tool) ==> code
                == "tool-binding-missing"@
            &&& entered && authority.registry@.dom().contains(tool)
                && !context.definition.envelope.tools@.dom().contains(tool) ==> code
                == "undeclared-tool"@
            &&& entered && authority.registry@.dom().contains(tool)
                && context.definition.envelope.tools@.dom().contains(tool) && context.setup is Some
                && !context.setup->Some_0.envelope.tools@.dom().contains(tool) ==> code
                == "setup-excludes-tool"@
            &&& entered && authority.registry@.dom().contains(tool)
                && context.definition.envelope.tools@.dom().contains(tool) && (context.setup is Some
                ==> context.setup->Some_0.envelope.tools@.dom().contains(tool))
                && context.settings.settings.revoked_tools@.contains(tool) ==> code
                == "tool-revoked"@
            &&& reached && strictness_of(bound.safety) < strictness_of(declared.safety) ==> code
                == "tool-declaration-conflict"@
            &&& deployed && strictness_of(intent.safety) < strictness_of(bound.safety) ==> code
                == "downgraded-effect-safety"@
            &&& deployed && strictness_of(intent.safety) >= strictness_of(bound.safety)
                && intent.max_attempts > binding.max_attempts ==> code == "tool-policy-conflict"@
            &&& asked && !credential_holds(*context, *intent) ==> code
                == "unauthorized-credential-binding"@ || code == "credential-revoked"@
            &&& credited && !is_routable(*authority, *intent) ==> code
                == "execution-policy-unroutable"@
            &&& routed && binding.checkpoint_required ==> code == "checkpoint-required"@
            &&& routed && !binding.checkpoint_required && !covered ==> code
                == "guardrail-stage-missing"@
            &&& covered && authority.guardrails is Some && decision.disposition is Blocked
                ==> code == "guardrail-blocked"@
            &&& covered && authority.guardrails is Some
                && decision.disposition is CheckpointRequired ==> code == "checkpoint-required"@
            &&& covered && authority.guardrails is Some && decision.disposition is Allowed
                && !lets_through(decision) ==> code == "guardrail-transform-oversized"@
        }),
{
    let call = intent.request->call;
    let binding = authority.registry@[call.tool@];
    lemma_tool_coverage(*authority, *context, binding);
    lemma_no_laxer(call.tool@, binding, context.definition.envelope.tools@[call.tool@]);
}

/// A refused model call names the layer that failed.
pub proof fn a_refused_model_call_names_the_layer_that_failed<R: AgentExecutionPolicyRouter>(
    authority: &AgentToolAuthority<R>,
    context: &AgentAuthorityContext,
    scope: &AgentRunScope,
    task: Option<AgentTaskId>,
    goal: Option<AgentGoalId>,
    intent: &AgentRunEffect,
    decision: AgentGuardrailDecision,
    now: AgentTimestampMillis,
    result: Result<AgentGrantedDispatch, AgentAuthorityRefusal>,
)
    requires
        call_ensures(
            AgentToolAuthority::<R>::authorize,
            (authority, context, scope, task, goal, intent, decision, now),
            result,
        ),
        intent.request is Model,
        context.status == AgentLifecycleStatus::Active,
        fingerprint_holds(*intent),
    ensures
        ({
            let code = result->Err_0@.code;
            let profile = chosen_profile(*context, *intent);
            let approved = profile is Some ==> {
                &&& context.definition.envelope.model_profiles@.contains(profile->Some_0)
                &&& context.setup is Some ==> context.setup->Some_0.envelope.model_profiles@.contains(
                    profile->Some_0,
                )
            };
            let credited = approved && credential_holds(*context, *intent);
            let routed = credited && is_routable(*authority, *intent);
            let covered = routed && is_covered(*authority, *context, Set::empty());
            &&& !approved ==> code == "unapproved-model-profile"@
            &&& approved && !credential_holds(*context, *intent) ==> code
                == "unauthorized-credential-binding"@ || code == "credential-revoked"@
            &&& credited && !is_routable(*authority, *intent) ==> code
                == "execution-policy-unroutable"@
            &&& routed && !covered ==> code == "guardrail-stage-missing"@
            &&& covered && authority.guardrails is Some && decision.disposition is Blocked
                ==> code == "guardrail-blocked"@
            &&& covered && authority.guardrails is Some
                && decision.disposition is CheckpointRequired ==> code == "checkpoint-required"@
            &&& result is Err ==> !result->Err_0.retryable
        }),
{
    lemma_model_coverage(*authority, *context);
}

/// A chain is asked about exactly the intents that pass everything before it, and
/// is shown a tool call's own arguments, or a model call's profile and turn.
pub proof fn a_chain_is_shown_what_is_dispatched<R: AgentExecutionPolicyRouter>(
    authority: &AgentToolAuthority<R>,
    context: &AgentAuthorityContext,
    intent: &AgentRunEffect,
    request: Option<AgentGuardrailRequest>,
)
    requires
        call_ensures(
            AgentToolAuthority::<R>::guardrail_request,
            (authority, context, intent),
            request,
        ),
        intent.request is Tool || intent.request is Model,
    ensures
        intent.request is Tool ==> (request is Some <==> authority.guardrails is Some
            && tool_is_cleared(*authority, *context, *intent, intent.request->call)),
        intent.request is Model ==> (request is Some <==> authority.guardrails is Some
            && model_is_cleared(
            *authority,
            *context,
            *intent,
            chosen_profile(*context, *intent),
        )),
        request is Some && intent.request is Tool ==> request->Some_0 is ToolRequest
            && request->Some_0->content == intent.request->call.arguments,
        request is Some && intent.request is Model ==> request->Some_0 is ModelRequest
            && optional_text(request->Some_0->profile) == chosen_profile(*context, *intent)
            && request->Some_0->turn == intent.turn,
{
    if intent.request is Tool {
        let call = intent.request->call;
        let binding = authority.registry@[call.tool@];
        lemma_tool_coverage(*authority, *context, binding);
        lemma_no_laxer(call.tool@, binding, context.definition.envelope.tools@[call.tool@]);
    } else {
        lemma_model_coverage(*authority, *context);
    }
}

/// What a chain's stages read is the request itself: a tool call's arguments as
/// they are, and of a model call that it is one, its profile or null, and its
/// turn.
pub proof fn a_stage_reads_the_request(
    request: &AgentGuardrailRequest,
    boundary: AgentGuardrailBoundary,
    content: serde_json::Value,
)
    requires
        call_ensures(AgentGuardrailRequest::boundary, (request,), boundary),
        call_ensures(AgentGuardrailRequest::content, (request,), content),
    ensures
        boundary == AgentGuardrailBoundary::ToolRequest <==> *request is ToolRequest,
        *request is ToolRequest ==> content == request->content,
        *request is ModelRequest ==> content == json_object(
            seq![
                ("kind"@, json_string("model-call"@)),
                (
                    "profile"@,
                    json_optional(
                        match request->profile {
                            Some(profile) => Some(json_string(profile@)),
                            None => None,
                        },
                    ),
                ),
                ("turn"@, json_number(request->turn)),
            ],
        ),
{
    if *request is ModelRequest {
        assert(crate::guardrails::model_call_fields(request->profile, request->turn) =~= seq![
            ("kind"@, json_string("model-call"@)),
            (
                "profile"@,
                json_optional(
                    match request->profile {
                        Some(profile) => Some(json_string(profile@)),
                        None => None,
                    },
                ),
            ),
            ("turn"@, json_number(request->turn)),
        ]);
    }
}

/// A grant covers an attempt exactly when it is of the very intent it was issued
/// for, with the same arguments, before it expires, and within its uses.
pub proof fn a_grant_covers_only_its_own_attempts(
    grant: &AgentDispatchGrant,
    scope: &AgentRunScope,
    intent: &AgentRunEffect,
    attempt: u32,
    now: AgentTimestampMillis,
    result: Result<(), AgentAuthorityRefusal>,
)
    requires
        call_ensures(AgentDispatchGrant::validate_for, (grant, scope, intent, attempt, now), result),
    ensures
        ({
            let own = grant.scope.tenant@ == scope.tenant@ && grant.scope.agent@ == scope.agent@
                && grant.scope.run@ == scope.run@ && grant.effect_id@ == intent.effect_id@
                && grant.generation == intent.generation && grant.safety_class == intent.safety;
            let same = grant.argument_digest@ == intent.argument_digest@;
            let live = now.millis < grant.expires_at.millis;
            let left = attempt <= grant.allowed_use_count;
            &&& result is Ok <==> own && same && live && left
            &&& !own ==> result->Err_0@.code == "grant-intent-mismatch"@
            &&& own && !same ==> result->Err_0@.code == "argument-digest-mismatch"@
            &&& own && same && !live ==> result->Err_0@.code == "grant-expired"@
            &&& own && same && live && !left ==> result->Err_0@.code == "grant-uses-exhausted"@
            &&& result is Err ==> !result->Err_0.retryable
        }),
{
}

} // verus!
