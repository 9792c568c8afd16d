//! The authority layers between a model suggestion and an external call.
//!
//! A descriptor lets a model ask, a binding says what the deployment permits,
//! an intent says exactly what is asked, and a grant authorizes that intent.
//! Each layer may only narrow the one above it.

use vstd::prelude::*;
use vstd::string::*;
use vstd::utf8::encode_utf8;

use crate::budget::saturating_sum;
use crate::collections::IdSet;
use crate::definition::{
    AgentCredentialBindingRef, AgentDefinitionRevision, AgentEffectSafetyClass, AgentEntityState,
    AgentEnvelopeDimension, AgentExecutionPolicyRef, AgentLifecycleStatus, AgentModelProfileId,
    AgentSamplingSettings, AgentSetupRevision, AgentToolDeclaration, ExecutionPolicyTag,
    GuardrailStageTag, SettingsRevision,
};
use crate::digest::sha256_hex;
use crate::effect::{
    json_digest, AgentContentDigest, AgentEffectError, AgentEffectGeneration, AgentRunEffect,
    AgentRunEffectRequest, AgentRunScope, AgentToolCallRequest, AGENT_TOOL_ARGUMENTS_MAX_BYTES,
};
use crate::guardrails::{
    AgentGuardrailChain, AgentGuardrailDecision, AgentGuardrailDisposition, AgentGuardrailReport,
    AgentGuardrailRequest,
};
use crate::identity::{
    copy_optional, optional_text, same_optional, AgentEffectId, AgentGoalId,
    AgentRevisionNumber, AgentTaskId, AgentTimestampMillis, AgentToolId, CapabilityTag,
};
use crate::json::copy_json;
use crate::text::{decimal, decimal_string, join2, join3, join4, join5};
use crate::tools::{AgentToolBinding, AgentToolRegistry};

verus! {

/// How long an issued dispatch grant stays valid, unless configured otherwise.
pub const AGENT_DISPATCH_GRANT_DEFAULT_TTL_MS: u64 = 60_000;

/// A dispatch the authority refused, with a stable reason code.
#[derive(Debug)]
pub struct AgentAuthorityRefusal {
    /// Stable machine-readable reason code.
    pub code: String,
    /// Human-readable detail.
    pub message: String,
    /// Whether the refusing condition may clear by itself.
    pub retryable: bool,
}

/// What a refusal says.
pub struct RefusalModel {
    /// The reason code.
    pub code: Seq<char>,
    /// The detail.
    pub message: Seq<char>,
    /// Whether the condition may clear.
    pub retryable: bool,
}

impl View for AgentAuthorityRefusal {
    type V = RefusalModel;

    open spec fn view(&self) -> RefusalModel {
        RefusalModel { code: self.code@, message: self.message@, retryable: self.retryable }
    }
}

impl RefusalModel {
    /// A definitive refusal.
    pub open spec fn of(code: Seq<char>, message: Seq<char>) -> RefusalModel {
        RefusalModel { code, message, retryable: false }
    }
}

impl AgentAuthorityRefusal {
    /// A definitive refusal.
    pub fn of(code: &str, message: String) -> (refusal: Self)
        ensures
            refusal@ == RefusalModel::of(code@, message@),
    {
        AgentAuthorityRefusal { code: code.to_owned(), message, retryable: false }
    }

    /// A refusal whose condition may clear.
    pub fn transient(code: &str, message: String) -> (refusal: Self)
        ensures
            refusal@ == (RefusalModel { code: code@, message: message@, retryable: true }),
    {
        AgentAuthorityRefusal { code: code.to_owned(), message, retryable: true }
    }

    /// The refusal in words.
    pub fn message(&self) -> (text: String)
        ensures
            text@ == "dispatch refused ("@ + self.code@ + "): "@ + self.message@,
    {
        join4("dispatch refused (", self.code.as_str(), "): ", self.message.as_str())
    }
}

/// The first of two refusals that is one.
pub open spec fn first_refusal(
    first: Option<RefusalModel>,
    then_this: Option<RefusalModel>,
) -> Option<RefusalModel> {
    if first is Some {
        first
    } else {
        then_this
    }
}

/// Whether a check's result is what a refusal, or none, calls for.
pub open spec fn answers(
    result: Result<(), AgentAuthorityRefusal>,
    refusal: Option<RefusalModel>,
) -> bool {
    match refusal {
        None => result is Ok,
        Some(refusal) => result is Err && result->Err_0@ == refusal,
    }
}

/// The agent's durable authority state, as one dispatch decision reads it.
#[derive(Debug, Clone, Copy)]
pub struct AgentAuthorityContext<'a> {
    /// The agent's administrative lifecycle status.
    pub status: AgentLifecycleStatus,
    /// The published definition revision.
    pub definition: &'a AgentDefinitionRevision,
    /// The current settings revision.
    pub settings: &'a SettingsRevision,
    /// The run's setup revision, when the run was created under one.
    pub setup: Option<&'a AgentSetupRevision>,
}

impl<'a> AgentAuthorityContext<'a> {
    /// The context one agent entity's durable state provides.
    pub fn for_entity(state: &'a AgentEntityState) -> (context: Self)
        ensures
            context.status == state.status,
            *context.definition == state.definition,
            *context.settings == state.settings,
            context.setup is None,
    {
        AgentAuthorityContext {
            status: state.status,
            definition: &state.definition,
            settings: &state.settings,
            setup: None,
        }
    }

    /// Attaches the run's setup revision.
    pub fn with_setup(self, setup: &'a AgentSetupRevision) -> (context: Self)
        ensures
            context == (AgentAuthorityContext { setup: Some(setup), ..self }),
    {
        AgentAuthorityContext { setup: Some(setup), ..self }
    }
}

/// The descriptor identity one grant binds.
#[derive(Debug)]
pub struct AgentGrantDescriptor {
    /// The tool the descriptor names.
    pub tool: AgentToolId,
    /// The descriptor version the grant validated.
    pub version: AgentRevisionNumber,
    /// Fingerprint of the model-visible shape the grant validated.
    pub schema_digest: AgentContentDigest,
}

/// The current authorization to execute one exact effect intent.
#[derive(Debug)]
pub struct AgentDispatchGrant {
    /// The run the grant covers.
    pub scope: AgentRunScope,
    /// The task the run serves.
    pub task: Option<AgentTaskId>,
    /// The goal the run contributes to.
    pub goal: Option<AgentGoalId>,
    /// The effect the grant covers.
    pub effect_id: AgentEffectId,
    /// The effect generation the grant covers.
    pub generation: AgentEffectGeneration,
    /// The descriptor identity, for a tool call.
    pub descriptor: Option<AgentGrantDescriptor>,
    /// The dispatch target, as the intent names it.
    pub target: String,
    /// Fingerprint of the exact arguments the grant authorizes.
    pub argument_digest: AgentContentDigest,
    /// The safety class the grant authorizes.
    pub safety_class: AgentEffectSafetyClass,
    /// The definition revision the grant validated against.
    pub definition_revision: AgentRevisionNumber,
    /// The settings revision the grant validated against.
    pub settings_revision: AgentRevisionNumber,
    /// The setup revision the grant validated against, when the run has one.
    pub setup_revision: Option<AgentRevisionNumber>,
    /// The guardrail chain revision the grant evaluated under.
    pub guardrail_revision: Option<AgentRevisionNumber>,
    /// The scoped capabilities the grant authorizes.
    pub capabilities: IdSet<CapabilityTag>,
    /// The logical credential binding the dispatch may resolve.
    pub credential_binding: Option<AgentCredentialBindingRef>,
    /// The execution policy the dispatch is routed through.
    pub execution_policy: Option<AgentExecutionPolicyRef>,
    /// When the grant was issued.
    pub issued_at: AgentTimestampMillis,
    /// When the grant expires.
    pub expires_at: AgentTimestampMillis,
    /// The most attempts the grant covers.
    pub allowed_use_count: u32,
}

impl AgentDispatchGrant {
    /// Whether the grant binds an intent of a run, arguments aside.
    pub open spec fn binds_intent(&self, scope: &AgentRunScope, intent: &AgentRunEffect) -> bool {
        &&& self.scope.is_same(scope)
        &&& self.effect_id@ == intent.effect_id@
        &&& self.generation == intent.generation
        &&& self.safety_class == intent.safety
    }

    /// Why the grant does not cover an attempt of an intent.
    pub open spec fn objection(
        &self,
        scope: &AgentRunScope,
        intent: &AgentRunEffect,
        attempt: u32,
        now: AgentTimestampMillis,
    ) -> Option<RefusalModel> {
        if !self.binds_intent(scope, intent) {
            Some(
                RefusalModel::of(
                    "grant-intent-mismatch"@,
                    "the grant does not bind the intent being dispatched"@,
                ),
            )
        } else if self.argument_digest@ != intent.argument_digest@ {
            Some(
                RefusalModel::of(
                    "argument-digest-mismatch"@,
                    "the grant binds different arguments than the intent carries"@,
                ),
            )
        } else if now.millis >= self.expires_at.millis {
            Some(
                RefusalModel::of("grant-expired"@, "the grant expired before the attempt"@),
            )
        } else if attempt > self.allowed_use_count {
            Some(
                RefusalModel::of(
                    "grant-uses-exhausted"@,
                    "the grant's allowed use count is spent"@,
                ),
            )
        } else {
            None
        }
    }

    /// Accepts that this grant covers the given attempt of the given intent, or
    /// fails closed.
    pub fn validate_for(
        &self,
        scope: &AgentRunScope,
        intent: &AgentRunEffect,
        attempt: u32,
        now: AgentTimestampMillis,
    ) -> (result: Result<(), AgentAuthorityRefusal>)
        ensures
            answers(result, self.objection(scope, intent, attempt, now)),
    {
        if !self.scope.same(scope) || !self.effect_id.same(&intent.effect_id) || self.generation
            != intent.generation || self.safety_class != intent.safety {
            return Err(
                AgentAuthorityRefusal::of(
                    "grant-intent-mismatch",
                    "the grant does not bind the intent being dispatched".to_owned(),
                ),
            );
        }
        if !self.argument_digest.same(&intent.argument_digest) {
            return Err(
                AgentAuthorityRefusal::of(
                    "argument-digest-mismatch",
                    "the grant binds different arguments than the intent carries".to_owned(),
                ),
            );
        }
        if now.millis >= self.expires_at.millis {
            return Err(
                AgentAuthorityRefusal::of(
                    "grant-expired",
                    "the grant expired before the attempt".to_owned(),
                ),
            );
        }
        if attempt > self.allowed_use_count {
            return Err(
                AgentAuthorityRefusal::of(
                    "grant-uses-exhausted",
                    "the grant's allowed use count is spent".to_owned(),
                ),
            );
        }
        Ok(())
    }
}

/// One authorized dispatch: the grant, plus what the authority resolved for the
/// bounded attempt.
#[derive(Debug)]
pub struct AgentGrantedDispatch {
    /// The grant binding the exact intent.
    pub grant: AgentDispatchGrant,
    /// The tool call to execute, when a guardrail stage transformed the
    /// intent's arguments.
    pub tool_call: Option<AgentToolCallRequest>,
    /// The model profile the current settings resolve for the turn.
    pub model_profile: Option<AgentModelProfileId>,
    /// The sampling parameters the current settings resolve for the turn.
    pub sampling: Option<AgentSamplingSettings>,
    /// Report-only guardrail findings.
    pub reports: Vec<AgentGuardrailReport>,
}

/// Routes an effect's execution-policy reference onto an executor the
/// application trusts for it.
pub trait AgentExecutionPolicyRouter {
    /// The policy classes the current executor may run.
    spec fn accepted(&self, policy: Seq<char>) -> bool;

    /// Whether the current executor may run effects of the given policy class.
    fn accepts(&self, policy: &AgentExecutionPolicyRef) -> (result: bool)
        ensures
            result == self.accepted(policy@),
    ;
}

/// A router that accepts a fixed set of policy classes.
#[derive(Debug)]
pub struct AcceptedExecutionPolicies {
    /// The accepted classes.
    pub policies: IdSet<ExecutionPolicyTag>,
}

impl AgentExecutionPolicyRouter for AcceptedExecutionPolicies {
    open spec fn accepted(&self, policy: Seq<char>) -> bool {
        self.policies@.contains(policy)
    }

    fn accepts(&self, policy: &AgentExecutionPolicyRef) -> (result: bool) {
        self.policies.contains(policy)
    }
}

/// The authority that turns a durable effect intent into a dispatch grant, or
/// refuses it with a stable reason. Evaluation is pure: everything it reads
/// arrives as arguments, and the checks are ordered so that a refusal names the
/// first authority layer that failed.
pub struct AgentToolAuthority<R> {
    /// The registry the authority answers from.
    pub registry: AgentToolRegistry,
    /// The deployment's guardrail chain.
    pub guardrails: Option<AgentGuardrailChain>,
    /// The execution-policy router.
    pub execution_router: Option<R>,
    /// How long an issued grant stays valid, in milliseconds.
    pub grant_ttl_ms: u64,
}

/// The text of an optional set-up's or definition's stage requirements.
pub open spec fn mandatory_stages(context: AgentAuthorityContext) -> Set<Seq<char>> {
    let required = context.definition.envelope.mandatory_guardrails@;
    match context.setup {
        Some(setup) => required.union(setup.envelope.mandatory_guardrails@),
        None => required,
    }
}

/// Why a credential binding may not be resolved: the definition and any setup
/// must authorize it, and the settings must not revoke it.
pub open spec fn credential_refusal(
    context: AgentAuthorityContext,
    credential: Seq<char>,
) -> Option<RefusalModel> {
    if !context.definition.envelope.credential_bindings@.contains(credential) {
        Some(
            RefusalModel::of(
                AgentEnvelopeDimension::CredentialBinding.label_text(),
                "the credential binding "@ + credential + " is not authorized by the definition"@,
            ),
        )
    } else if context.setup is Some
        && !context.setup->Some_0.envelope.credential_bindings@.contains(credential) {
        Some(
            RefusalModel::of(
                AgentEnvelopeDimension::CredentialBinding.label_text(),
                "the run's setup does not select the credential binding "@ + credential,
            ),
        )
    } else if context.settings.settings.revoked_credential_bindings@.contains(credential) {
        Some(
            RefusalModel::of(
                "credential-revoked"@,
                "the credential binding "@ + credential + " is revoked by the current settings"@,
            ),
        )
    } else {
        None
    }
}

/// Why an agent's lifecycle keeps it from dispatching anything.
pub open spec fn lifecycle_refusal(status: AgentLifecycleStatus) -> Option<RefusalModel> {
    match status {
        AgentLifecycleStatus::Terminated => Some(
            RefusalModel::of(
                "agent-terminated"@,
                "the agent is terminated and dispatches nothing"@,
            ),
        ),
        AgentLifecycleStatus::Suspended => Some(
            RefusalModel {
                code: "agent-dispatch-suspended"@,
                message:
                    "the agent is suspended; no further effect may be dispatched until it resumes"@,
                retryable: true,
            },
        ),
        AgentLifecycleStatus::Active => None,
    }
}

/// Why an intent is not consistent with itself: its recorded fingerprint must
/// be that of its arguments.
pub open spec fn digest_refusal(intent: AgentRunEffect) -> Option<RefusalModel> {
    match intent.request.argument_text() {
        None => Some(
            RefusalModel::of(
                "argument-digest-mismatch"@,
                AgentEffectError::Unencodable.message_text(),
            ),
        ),
        Some(text) => if sha256_hex(encode_utf8(text)) != intent.argument_digest@ {
            Some(
                RefusalModel::of(
                    "argument-digest-mismatch"@,
                    "the intent's recorded argument digest does not match its arguments"@,
                ),
            )
        } else {
            None
        },
    }
}

/// Why an intent is refused before anything is decided about it: the agent does
/// not dispatch, or the intent is not consistent.
pub open spec fn entry_refusal(
    context: AgentAuthorityContext,
    intent: AgentRunEffect,
) -> Option<RefusalModel> {
    first_refusal(lifecycle_refusal(context.status), digest_refusal(intent))
}

/// Why a tool is out of an agent's reach: the definition must declare it, any
/// setup select it, and the settings not revoke it.
pub open spec fn reach_refusal(context: AgentAuthorityContext, tool: Seq<char>) -> Option<
    RefusalModel,
> {
    if !context.definition.envelope.tools@.dom().contains(tool) {
        Some(
            RefusalModel::of(
                AgentEnvelopeDimension::Tool.label_text(),
                "the tool "@ + tool + " is not declared by the definition"@,
            ),
        )
    } else if context.setup is Some && !context.setup->Some_0.envelope.tools@.dom().contains(
        tool,
    ) {
        Some(
            RefusalModel::of(
                "setup-excludes-tool"@,
                "the run's setup does not select the tool "@ + tool,
            ),
        )
    } else if context.settings.settings.revoked_tools@.contains(tool) {
        Some(
            RefusalModel::of(
                "tool-revoked"@,
                "the tool "@ + tool + " is revoked by the current settings"@,
            ),
        )
    } else {
        None
    }
}

/// Why a binding does not fit inside the definition's declaration: the
/// deployment may be stricter than the definition promised, never laxer.
pub open spec fn binding_refusal(
    tool: Seq<char>,
    binding: AgentToolBinding,
    declared: AgentToolDeclaration,
) -> Option<RefusalModel> {
    let bound = binding.declaration;
    if bound.safety.rank() < declared.safety.rank() {
        Some(
            RefusalModel::of(
                "tool-declaration-conflict"@,
                "the deployment binds "@ + tool + " as "@ + bound.safety.label_text()
                    + " but the definition declares "@ + declared.safety.label_text(),
            ),
        )
    } else if !bound.capabilities@.subset_of(declared.capabilities@) {
        Some(
            RefusalModel::of(
                AgentEnvelopeDimension::ToolCapability.label_text(),
                "the deployment grants "@ + tool + " a capability the definition never declared"@,
            ),
        )
    } else if bound.credential_binding is Some && optional_text(declared.credential_binding)
        != optional_text(bound.credential_binding) {
        Some(
            RefusalModel::of(
                AgentEnvelopeDimension::ToolCredentialBinding.label_text(),
                "the deployment binds "@ + tool
                    + " to a credential the definition never authorized"@,
            ),
        )
    } else if optional_text(bound.execution_policy) != optional_text(declared.execution_policy) {
        Some(
            RefusalModel::of(
                AgentEnvelopeDimension::ToolExecutionPolicy.label_text(),
                "the deployment routes "@ + tool
                    + " through a policy other than the one the definition declared"@,
            ),
        )
    } else {
        None
    }
}

/// Why an intent asks for more than its tool's binding permits.
pub open spec fn intent_refusal(
    tool: Seq<char>,
    binding: AgentToolBinding,
    intent: AgentRunEffect,
) -> Option<RefusalModel> {
    let bound = binding.declaration;
    if intent.safety.rank() < bound.safety.rank() {
        Some(
            RefusalModel::of(
                AgentEnvelopeDimension::EffectSafety.label_text(),
                "the intent claims "@ + intent.safety.label_text() + " but the binding declares "@
                    + bound.safety.label_text(),
            ),
        )
    } else if intent.max_attempts > binding.max_attempts {
        Some(
            RefusalModel::of(
                "tool-policy-conflict"@,
                "the intent permits "@ + decimal(intent.max_attempts as nat)
                    + " attempts but the binding permits "@ + decimal(binding.max_attempts as nat),
            ),
        )
    } else if optional_text(intent.credential_binding) != optional_text(bound.credential_binding) {
        Some(
            RefusalModel::of(
                if intent.credential_binding is Some {
                    AgentEnvelopeDimension::ToolCredentialBinding.label_text()
                } else {
                    "tool-policy-conflict"@
                },
                "the intent's credential binding does not match the binding of "@ + tool,
            ),
        )
    } else if optional_text(intent.execution_policy) != optional_text(bound.execution_policy) {
        Some(
            RefusalModel::of(
                AgentEnvelopeDimension::ToolExecutionPolicy.label_text(),
                "the intent's execution policy does not match the binding of "@ + tool,
            ),
        )
    } else {
        None
    }
}

/// Why an intent's credential, if it names one, may not be resolved.
pub open spec fn intent_credential_refusal(
    context: AgentAuthorityContext,
    intent: AgentRunEffect,
) -> Option<RefusalModel> {
    match intent.credential_binding {
        Some(credential) => credential_refusal(context, credential@),
        None => None,
    }
}

/// Why a guardrail decision stops a request; `subject` names it.
pub open spec fn guardrail_refusal(
    disposition: AgentGuardrailDisposition,
    subject: Seq<char>,
) -> Option<RefusalModel> {
    match disposition {
        AgentGuardrailDisposition::Allowed => None,
        AgentGuardrailDisposition::Blocked { stage, reason_code } => Some(
            RefusalModel::of(
                "guardrail-blocked"@,
                "guardrail stage "@ + stage@ + " blocked the "@ + subject + ": "@ + reason_code@,
            ),
        ),
        AgentGuardrailDisposition::CheckpointRequired { stage, reason_code } => Some(
            RefusalModel::of(
                "checkpoint-required"@,
                "guardrail stage "@ + stage@ + " requires a checkpoint grant, and none exists: "@
                    + reason_code@,
            ),
        ),
    }
}

/// Why the arguments a guardrail stage transformed are refused.
pub open spec fn transform_refusal(decision: AgentGuardrailDecision) -> Option<RefusalModel> {
    match decision.transformed {
        None => None,
        Some(content) => if AgentToolCallRequest::arguments_refusal(content) is Some {
            Some(
                RefusalModel::of(
                    "guardrail-transform-oversized"@,
                    "the transformed arguments exceed the "@ + decimal(
                        AGENT_TOOL_ARGUMENTS_MAX_BYTES as nat,
                    ) + " byte bound"@,
                ),
            )
        } else {
            None
        },
    }
}

/// The model profile a turn resolves: the settings' own, or the one the intent
/// asked for.
pub open spec fn resolved_profile(
    context: AgentAuthorityContext,
    intent: AgentRunEffect,
) -> Option<AgentModelProfileId> {
    if context.settings.settings.model_profile is Some {
        context.settings.settings.model_profile
    } else {
        match intent.request {
            AgentRunEffectRequest::Model { profile, .. } => profile,
            _ => None,
        }
    }
}

/// Why a resolved model profile may not be used.
pub open spec fn profile_refusal(
    context: AgentAuthorityContext,
    profile: Option<AgentModelProfileId>,
) -> Option<RefusalModel> {
    match profile {
        None => None,
        Some(profile) => if !context.definition.envelope.model_profiles@.contains(profile@) {
            Some(
                RefusalModel::of(
                    AgentEnvelopeDimension::ModelProfile.label_text(),
                    "the model profile "@ + profile@ + " is not approved by the definition"@,
                ),
            )
        } else if context.setup is Some
            && !context.setup->Some_0.envelope.model_profiles@.contains(profile@) {
            Some(
                RefusalModel::of(
                    AgentEnvelopeDimension::ModelProfile.label_text(),
                    "the run's setup does not select the model profile "@ + profile@,
                ),
            )
        } else {
            None
        },
    }
}

impl<R: AgentExecutionPolicyRouter> AgentToolAuthority<R> {
    /// Why an execution policy, if one is named, is not routable here.
    pub open spec fn routing_refusal(&self, policy: Option<AgentExecutionPolicyRef>) -> Option<
        RefusalModel,
    > {
        match policy {
            None => None,
            Some(policy) => if self.execution_router is Some
                && self.execution_router->Some_0.accepted(policy@) {
                None
            } else {
                Some(
                    RefusalModel::of(
                        "execution-policy-unroutable"@,
                        "no configured executor accepts the execution policy "@ + policy@
                            + "; the effect stays undispatchable rather than running with ambient authority"@,
                    ),
                )
            },
        }
    }

    /// Why the required guardrail stages cannot all run.
    pub open spec fn coverage_refusal(&self, required: Set<Seq<char>>) -> Option<RefusalModel> {
        if required == Set::<Seq<char>>::empty() {
            None
        } else {
            match self.guardrails {
                None => Some(
                    RefusalModel::of(
                        "guardrail-stage-missing"@,
                        "the envelope requires guardrail stages and no chain is configured"@,
                    ),
                ),
                Some(chain) => if required.subset_of(chain.stages@) {
                    None
                } else {
                    Some(
                        RefusalModel::of(
                            "guardrail-stage-missing"@,
                            "the configured chain does not run every required stage"@,
                        ),
                    )
                },
            }
        }
    }

    /// Why a tool call may not even be shown to the guardrails: the first of
    /// binding, reach, declaration, intent, credential, execution policy,
    /// checkpoint and guardrail coverage that refuses it.
    pub open spec fn tool_check_refusal(
        &self,
        context: AgentAuthorityContext,
        intent: AgentRunEffect,
        call: AgentToolCallRequest,
    ) -> Option<RefusalModel> {
        let tool = call.tool@;
        if !self.registry@.dom().contains(tool) {
            Some(
                RefusalModel::of(
                    "tool-binding-missing"@,
                    "the tool "@ + tool + " is not registered for this deployment"@,
                ),
            )
        } else {
            let binding = self.registry@[tool];
            let declared = context.definition.envelope.tools@[tool];
            first_refusal(
                reach_refusal(context, tool),
                first_refusal(
                    binding_refusal(tool, binding, declared),
                    first_refusal(
                        intent_refusal(tool, binding, intent),
                        first_refusal(
                            intent_credential_refusal(context, intent),
                            first_refusal(
                                self.routing_refusal(intent.execution_policy),
                                self.hold_refusal(context, binding, tool),
                            ),
                        ),
                    ),
                ),
            )
        }
    }

    /// Why a tool call is held before the guardrails: the checkpoint its binding
    /// needs, and the guardrail stages that must run.
    pub open spec fn hold_refusal(
        &self,
        context: AgentAuthorityContext,
        binding: AgentToolBinding,
        tool: Seq<char>,
    ) -> Option<RefusalModel> {
        if binding.checkpoint_required {
            Some(
                RefusalModel::of(
                    "checkpoint-required"@,
                    "the tool "@ + tool
                        + " requires an effect-bound checkpoint grant, and none exists"@,
                ),
            )
        } else {
            self.coverage_refusal(mandatory_stages(context).union(binding.guardrails@))
        }
    }

    /// Why a tool call may not be dispatched: the checks before the guardrails,
    /// then what a configured chain decided.
    pub open spec fn tool_refusal(
        &self,
        context: AgentAuthorityContext,
        intent: AgentRunEffect,
        call: AgentToolCallRequest,
        decision: AgentGuardrailDecision,
    ) -> Option<RefusalModel> {
        first_refusal(
            self.tool_check_refusal(context, intent, call),
            if self.guardrails is Some {
                first_refusal(
                    guardrail_refusal(decision.disposition, "call"@),
                    transform_refusal(decision),
                )
            } else {
                None
            },
        )
    }

    /// Why a model call may not even be shown to the guardrails.
    pub open spec fn model_check_refusal(
        &self,
        context: AgentAuthorityContext,
        intent: AgentRunEffect,
    ) -> Option<RefusalModel> {
        first_refusal(
            profile_refusal(context, resolved_profile(context, intent)),
            first_refusal(
                intent_credential_refusal(context, intent),
                first_refusal(
                    self.routing_refusal(intent.execution_policy),
                    self.coverage_refusal(mandatory_stages(context)),
                ),
            ),
        )
    }

    /// Why a model call may not be dispatched: the checks before the guardrails,
    /// then what a configured chain decided.
    pub open spec fn model_refusal(
        &self,
        context: AgentAuthorityContext,
        intent: AgentRunEffect,
        decision: AgentGuardrailDecision,
    ) -> Option<RefusalModel> {
        first_refusal(
            self.model_check_refusal(context, intent),
            if self.guardrails is Some {
                guardrail_refusal(decision.disposition, "model call"@)
            } else {
                None
            },
        )
    }

    /// Why an intent may not even be shown to the guardrails.
    pub open spec fn check_refusal(
        &self,
        context: AgentAuthorityContext,
        intent: AgentRunEffect,
    ) -> Option<RefusalModel> {
        first_refusal(
            entry_refusal(context, intent),
            match intent.request {
                AgentRunEffectRequest::Tool { call } => self.tool_check_refusal(
                    context,
                    intent,
                    call,
                ),
                _ => self.model_check_refusal(context, intent),
            },
        )
    }

    /// What the guardrails are asked of an intent: nothing when no chain is
    /// configured or a check before it refuses; else a tool call's own arguments,
    /// or the profile and the turn of a model call.
    pub open spec fn guardrail_question(
        &self,
        context: AgentAuthorityContext,
        intent: AgentRunEffect,
    ) -> Option<AgentGuardrailRequest> {
        if self.guardrails is None || self.check_refusal(context, intent) is Some {
            None
        } else {
            match intent.request {
                AgentRunEffectRequest::Tool { call } => Some(
                    AgentGuardrailRequest::ToolRequest { content: call.arguments },
                ),
                _ => Some(
                    AgentGuardrailRequest::ModelRequest {
                        profile: resolved_profile(context, intent),
                        turn: intent.turn,
                    },
                ),
            }
        }
    }

    /// Why an intent may not be dispatched.
    pub open spec fn refusal(
        &self,
        context: AgentAuthorityContext,
        intent: AgentRunEffect,
        decision: AgentGuardrailDecision,
    ) -> Option<RefusalModel> {
        first_refusal(
            entry_refusal(context, intent),
            match intent.request {
                AgentRunEffectRequest::Tool { call } => self.tool_refusal(
                    context,
                    intent,
                    call,
                    decision,
                ),
                _ => self.model_refusal(context, intent, decision),
            },
        )
    }

    /// Whether a grant is the one an intent earns, descriptor and capabilities
    /// aside.
    pub open spec fn grants(
        &self,
        context: AgentAuthorityContext,
        scope: AgentRunScope,
        task: Option<AgentTaskId>,
        goal: Option<AgentGoalId>,
        intent: AgentRunEffect,
        now: AgentTimestampMillis,
        grant: AgentDispatchGrant,
    ) -> bool {
        &&& grant.scope == scope
        &&& grant.task == task
        &&& grant.goal == goal
        &&& grant.effect_id == intent.effect_id
        &&& grant.generation == intent.generation
        &&& grant.target@ == intent.request.target_text()
        &&& grant.argument_digest == intent.argument_digest
        &&& grant.safety_class == intent.safety
        &&& grant.definition_revision == context.definition.revision
        &&& grant.settings_revision == context.settings.revision
        &&& grant.setup_revision == match context.setup {
            Some(setup) => Some(setup.revision),
            None => None,
        }
        &&& grant.guardrail_revision == match self.guardrails {
            Some(chain) => Some(chain.revision),
            None => None,
        }
        &&& grant.credential_binding == intent.credential_binding
        &&& grant.execution_policy == intent.execution_policy
        &&& grant.issued_at == now
        &&& grant.expires_at.millis == saturating_sum(now.millis, self.grant_ttl_ms)
        &&& grant.allowed_use_count == intent.max_attempts
    }

    /// Whether a granted dispatch is the one a tool call earns.
    pub open spec fn grants_tool(
        &self,
        call: AgentToolCallRequest,
        decision: AgentGuardrailDecision,
        granted: AgentGrantedDispatch,
    ) -> bool {
        let binding = self.registry@[call.tool@];
        &&& granted.grant.descriptor is Some
        &&& granted.grant.descriptor->Some_0.tool == binding.descriptor.tool
        &&& granted.grant.descriptor->Some_0.version == binding.descriptor.version
        &&& granted.grant.descriptor->Some_0.schema_digest@ == json_digest(
            binding.descriptor.shape(),
        )
        &&& granted.grant.capabilities@ == binding.declaration.capabilities@
        &&& granted.tool_call == if self.guardrails is Some && decision.transformed is Some {
            Some(
                AgentToolCallRequest {
                    call_id: call.call_id,
                    tool: call.tool,
                    arguments: decision.transformed->Some_0,
                },
            )
        } else {
            None
        }
        &&& granted.model_profile is None
        &&& granted.sampling is None
        &&& granted.reports@ == self.reported(decision)
    }

    /// The findings a granted dispatch carries.
    pub open spec fn reported(&self, decision: AgentGuardrailDecision) -> Seq<
        AgentGuardrailReport,
    > {
        if self.guardrails is Some {
            decision.reports@
        } else {
            Seq::empty()
        }
    }

    /// Whether a granted dispatch is the one a model call earns.
    pub open spec fn grants_model(
        &self,
        context: AgentAuthorityContext,
        intent: AgentRunEffect,
        decision: AgentGuardrailDecision,
        granted: AgentGrantedDispatch,
    ) -> bool {
        &&& granted.grant.descriptor is None
        &&& granted.grant.capabilities@ == Set::<Seq<char>>::empty()
        &&& granted.tool_call is None
        &&& granted.model_profile == resolved_profile(context, intent)
        &&& granted.sampling == Some(context.settings.settings.sampling)
        &&& granted.reports@ == self.reported(decision)
    }

    /// Uses the deployment's guardrail chain.
    pub fn with_guardrails(self, chain: AgentGuardrailChain) -> (authority: Self)
        ensures
            authority == (AgentToolAuthority { guardrails: Some(chain), ..self }),
    {
        AgentToolAuthority { guardrails: Some(chain), ..self }
    }

    /// Routes execution-policy references through the given router.
    pub fn with_execution_router<S: AgentExecutionPolicyRouter>(self, router: S) -> (authority:
        AgentToolAuthority<S>)
        ensures
            authority.execution_router == Some(router),
            authority.registry == self.registry,
            authority.guardrails == self.guardrails,
            authority.grant_ttl_ms == self.grant_ttl_ms,
    {
        AgentToolAuthority {
            registry: self.registry,
            guardrails: self.guardrails,
            execution_router: Some(router),
            grant_ttl_ms: self.grant_ttl_ms,
        }
    }

    /// Sets how long an issued grant stays valid.
    pub fn with_grant_ttl_ms(self, ttl_ms: u64) -> (authority: Self)
        ensures
            authority == (AgentToolAuthority { grant_ttl_ms: ttl_ms, ..self }),
    {
        AgentToolAuthority { grant_ttl_ms: ttl_ms, ..self }
    }

    /// The registry this authority answers from.
    pub fn registry(&self) -> (registry: &AgentToolRegistry)
        ensures
            *registry == self.registry,
    {
        &self.registry
    }

    /// Authorizes one dispatch attempt of one effect intent, or refuses it.
    ///
    /// `decision` is what the configured guardrail chain made of
    /// [`Self::guardrail_request`]; where there is no such request it is not
    /// consulted.
    pub fn authorize(
        &self,
        context: &AgentAuthorityContext<'_>,
        scope: &AgentRunScope,
        task: Option<AgentTaskId>,
        goal: Option<AgentGoalId>,
        intent: &AgentRunEffect,
        decision: AgentGuardrailDecision,
        now: AgentTimestampMillis,
    ) -> (result: Result<AgentGrantedDispatch, AgentAuthorityRefusal>)
        requires
            intent.request is Tool || intent.request is Model,
        ensures
            match self.refusal(*context, *intent, decision) {
                Some(refusal) => result is Err && result->Err_0@ == refusal,
                None => result is Ok && self.grants(
                    *context,
                    *scope,
                    task,
                    goal,
                    *intent,
                    now,
                    result->Ok_0.grant,
                ) && match intent.request {
                    AgentRunEffectRequest::Tool { call } => self.grants_tool(
                        call,
                        decision,
                        result->Ok_0,
                    ),
                    _ => self.grants_model(*context, *intent, decision, result->Ok_0),
                },
            },
    {
        if let Err(refusal) = Self::check_entry(context, intent) {
            return Err(refusal);
        }
        match &intent.request {
            AgentRunEffectRequest::Tool { call } => self.authorize_tool(
                context,
                scope,
                task,
                goal,
                intent,
                call,
                decision,
                now,
            ),
            _ => self.authorize_model(context, scope, task, goal, intent, decision, now),
        }
    }

    /// The tool half of [`Self::authorize`].
    pub fn authorize_tool(
        &self,
        context: &AgentAuthorityContext<'_>,
        scope: &AgentRunScope,
        task: Option<AgentTaskId>,
        goal: Option<AgentGoalId>,
        intent: &AgentRunEffect,
        call: &AgentToolCallRequest,
        decision: AgentGuardrailDecision,
        now: AgentTimestampMillis,
    ) -> (result: Result<AgentGrantedDispatch, AgentAuthorityRefusal>)
        ensures
            match self.tool_refusal(*context, *intent, *call, decision) {
                Some(refusal) => result is Err && result->Err_0@ == refusal,
                None => result is Ok && self.grants(
                    *context,
                    *scope,
                    task,
                    goal,
                    *intent,
                    now,
                    result->Ok_0.grant,
                ) && self.grants_tool(*call, decision, result->Ok_0),
            },
    {
        let binding = match self.check_tool(context, intent, call) {
            Ok(binding) => binding,
            Err(refusal) => {
                return Err(refusal);
            },
        };
        let mut tool_call: Option<AgentToolCallRequest> = None;
        let mut reports: Vec<AgentGuardrailReport> = Vec::new();
        if self.guardrails.is_some() {
            if let Err(refusal) = Self::check_decision(&decision.disposition, "call") {
                return Err(refusal);
            }
            reports = decision.reports;
            if let Some(content) = decision.transformed {
                match AgentToolCallRequest::new(call.call_id.clone(), call.tool.clone(), content) {
                    Ok(transformed) => {
                        tool_call = Some(transformed);
                    },
                    Err(_) => {
                        let bound = decimal_string(AGENT_TOOL_ARGUMENTS_MAX_BYTES as u64);
                        return Err(
                            AgentAuthorityRefusal::of(
                                "guardrail-transform-oversized",
                                join3(
                                    "the transformed arguments exceed the ",
                                    bound.as_str(),
                                    " byte bound",
                                ),
                            ),
                        );
                    },
                }
            }
        }
        assert(self.guardrails is None ==> reports@ =~= Seq::empty());
        let descriptor = AgentGrantDescriptor {
            tool: binding.descriptor.tool.clone(),
            version: binding.descriptor.version,
            schema_digest: binding.descriptor.schema_digest(),
        };
        Ok(
            AgentGrantedDispatch {
                grant: self.grant(
                    context,
                    scope,
                    task,
                    goal,
                    intent,
                    Some(descriptor),
                    binding.declaration.capabilities.clone(),
                    now,
                ),
                tool_call,
                model_profile: None,
                sampling: None,
                reports,
            },
        )
    }

    /// The model half of [`Self::authorize`]: the turn-bound settings are
    /// resolved here, against the definition and setup envelopes.
    pub fn authorize_model(
        &self,
        context: &AgentAuthorityContext<'_>,
        scope: &AgentRunScope,
        task: Option<AgentTaskId>,
        goal: Option<AgentGoalId>,
        intent: &AgentRunEffect,
        decision: AgentGuardrailDecision,
        now: AgentTimestampMillis,
    ) -> (result: Result<AgentGrantedDispatch, AgentAuthorityRefusal>)
        ensures
            match self.model_refusal(*context, *intent, decision) {
                Some(refusal) => result is Err && result->Err_0@ == refusal,
                None => result is Ok && self.grants(
                    *context,
                    *scope,
                    task,
                    goal,
                    *intent,
                    now,
                    result->Ok_0.grant,
                ) && self.grants_model(*context, *intent, decision, result->Ok_0),
            },
    {
        let settings = &context.settings.settings;
        let profile = Self::resolve_profile(context, intent);
        if let Err(refusal) = self.check_model(context, intent, &profile) {
            return Err(refusal);
        }
        let mut reports: Vec<AgentGuardrailReport> = Vec::new();
        if self.guardrails.is_some() {
            if let Err(refusal) = Self::check_decision(&decision.disposition, "model call") {
                return Err(refusal);
            }
            reports = decision.reports;
        }
        assert(self.guardrails is None ==> reports@ =~= Seq::empty());
        Ok(
            AgentGrantedDispatch {
                grant: self.grant(
                    context,
                    scope,
                    task,
                    goal,
                    intent,
                    None,
                    IdSet::new(),
                    now,
                ),
                tool_call: None,
                model_profile: profile,
                sampling: Some(settings.sampling),
                reports,
            },
        )
    }

    /// What to ask the guardrail chain of an intent before it is authorized.
    ///
    /// `None` when no chain is configured or an earlier check refuses: what a
    /// chain would say then decides nothing.
    pub fn guardrail_request(&self, context: &AgentAuthorityContext<'_>, intent: &AgentRunEffect) -> (request:
        Option<AgentGuardrailRequest>)
        ensures
            request == self.guardrail_question(*context, *intent),
    {
        if self.guardrails.is_none() || Self::check_entry(context, intent).is_err() {
            return None;
        }
        match &intent.request {
            AgentRunEffectRequest::Tool { call } => match self.check_tool(context, intent, call) {
                Ok(_) => Some(
                    AgentGuardrailRequest::ToolRequest { content: copy_json(&call.arguments) },
                ),
                Err(_) => None,
            },
            _ => {
                let profile = Self::resolve_profile(context, intent);
                match self.check_model(context, intent, &profile) {
                    Ok(_) => Some(
                        AgentGuardrailRequest::ModelRequest { profile, turn: intent.turn },
                    ),
                    Err(_) => None,
                }
            },
        }
    }

    /// Checks that the agent dispatches, and that the intent is consistent.
    fn check_entry(context: &AgentAuthorityContext<'_>, intent: &AgentRunEffect) -> (result: Result<
        (),
        AgentAuthorityRefusal,
    >)
        ensures
            answers(result, entry_refusal(*context, *intent)),
    {
        if context.status.is_terminal() {
            return Err(
                AgentAuthorityRefusal::of(
                    "agent-terminated",
                    "the agent is terminated and dispatches nothing".to_owned(),
                ),
            );
        }
        if !context.status.permits_dispatch() {
            return Err(
                AgentAuthorityRefusal::transient(
                    "agent-dispatch-suspended",
                    "the agent is suspended; no further effect may be dispatched until it resumes".to_owned(),
                ),
            );
        }
        match intent.request.argument_digest() {
            Err(error) => {
                return Err(
                    AgentAuthorityRefusal::of("argument-digest-mismatch", error.message()),
                );
            },
            Ok(recomputed) => {
                if !recomputed.same(&intent.argument_digest) {
                    return Err(
                        AgentAuthorityRefusal::of(
                            "argument-digest-mismatch",
                            "the intent's recorded argument digest does not match its arguments".to_owned(),
                        ),
                    );
                }
            },
        }
        Ok(())
    }

    /// Checks everything of a tool call that comes before the guardrails,
    /// handing out the tool's binding.
    fn check_tool(
        &self,
        context: &AgentAuthorityContext<'_>,
        intent: &AgentRunEffect,
        call: &AgentToolCallRequest,
    ) -> (result: Result<&AgentToolBinding, AgentAuthorityRefusal>)
        ensures
            match self.tool_check_refusal(*context, *intent, *call) {
                Some(refusal) => result is Err && result->Err_0@ == refusal,
                None => result is Ok && self.registry@.dom().contains(call.tool@)
                    && *result->Ok_0 == self.registry@[call.tool@],
            },
    {
        let binding = match self.registry.binding(&call.tool) {
            Some(binding) => binding,
            None => {
                return Err(
                    AgentAuthorityRefusal::of(
                        "tool-binding-missing",
                        join3(
                            "the tool ",
                            call.tool.as_str(),
                            " is not registered for this deployment",
                        ),
                    ),
                );
            },
        };
        let declared = match Self::check_reach(context, &call.tool) {
            Ok(declared) => declared,
            Err(refusal) => {
                return Err(refusal);
            },
        };
        if let Err(refusal) = Self::check_binding(&call.tool, binding, declared) {
            return Err(refusal);
        }
        if let Err(refusal) = Self::check_intent(&call.tool, binding, intent) {
            return Err(refusal);
        }
        if let Some(credential) = &intent.credential_binding {
            if let Err(refusal) = Self::check_credential(context, credential) {
                return Err(refusal);
            }
        }
        if let Err(refusal) = self.check_execution_policy(&intent.execution_policy) {
            return Err(refusal);
        }
        if binding.checkpoint_required {
            return Err(
                AgentAuthorityRefusal::of(
                    "checkpoint-required",
                    join3(
                        "the tool ",
                        call.tool.as_str(),
                        " requires an effect-bound checkpoint grant, and none exists",
                    ),
                ),
            );
        }
        let mut required = Self::required_stages(context);
        required.extend(&binding.guardrails);
        if let Err(refusal) = self.check_guardrail_coverage(&required) {
            return Err(refusal);
        }
        Ok(binding)
    }

    /// The model profile an intent resolves to under the current settings.
    fn resolve_profile(context: &AgentAuthorityContext<'_>, intent: &AgentRunEffect) -> (profile: Option<
        AgentModelProfileId,
    >)
        ensures
            profile == resolved_profile(*context, *intent),
    {
        match &context.settings.settings.model_profile {
            Some(profile) => Some(profile.clone()),
            None => match &intent.request {
                AgentRunEffectRequest::Model { profile, .. } => copy_optional(profile),
                _ => None,
            },
        }
    }

    /// Checks everything of a model call that comes before the guardrails.
    fn check_model(
        &self,
        context: &AgentAuthorityContext<'_>,
        intent: &AgentRunEffect,
        profile: &Option<AgentModelProfileId>,
    ) -> (result: Result<(), AgentAuthorityRefusal>)
        requires
            *profile == resolved_profile(*context, *intent),
        ensures
            answers(result, self.model_check_refusal(*context, *intent)),
    {
        if let Some(profile) = profile {
            if !context.definition.envelope.model_profiles.contains(profile) {
                return Err(
                    AgentAuthorityRefusal::of(
                        AgentEnvelopeDimension::ModelProfile.as_label(),
                        join3(
                            "the model profile ",
                            profile.as_str(),
                            " is not approved by the definition",
                        ),
                    ),
                );
            }
            if let Some(setup) = context.setup {
                if !setup.envelope.model_profiles.contains(profile) {
                    return Err(
                        AgentAuthorityRefusal::of(
                            AgentEnvelopeDimension::ModelProfile.as_label(),
                            join2(
                                "the run's setup does not select the model profile ",
                                profile.as_str(),
                            ),
                        ),
                    );
                }
            }
        }
        if let Some(credential) = &intent.credential_binding {
            if let Err(refusal) = Self::check_credential(context, credential) {
                return Err(refusal);
            }
        }
        if let Err(refusal) = self.check_execution_policy(&intent.execution_policy) {
            return Err(refusal);
        }
        let required = Self::required_stages(context);
        if let Err(refusal) = self.check_guardrail_coverage(&required) {
            return Err(refusal);
        }
        Ok(())
    }

    /// Checks that a tool is within the agent's reach, handing out what the
    /// definition declares of it.
    fn check_reach<'a>(context: &AgentAuthorityContext<'a>, tool: &AgentToolId) -> (result: Result<
        &'a AgentToolDeclaration,
        AgentAuthorityRefusal,
    >)
        ensures
            match reach_refusal(*context, tool@) {
                Some(refusal) => result is Err && result->Err_0@ == refusal,
                None => result is Ok && *result->Ok_0
                    == context.definition.envelope.tools@[tool@],
            },
    {
        let declared = match context.definition.envelope.tools.get(tool) {
            Some(declared) => declared,
            None => {
                return Err(
                    AgentAuthorityRefusal::of(
                        AgentEnvelopeDimension::Tool.as_label(),
                        join3("the tool ", tool.as_str(), " is not declared by the definition"),
                    ),
                );
            },
        };
        if let Some(setup) = context.setup {
            if !setup.envelope.tools.contains_key(tool) {
                return Err(
                    AgentAuthorityRefusal::of(
                        "setup-excludes-tool",
                        join2("the run's setup does not select the tool ", tool.as_str()),
                    ),
                );
            }
        }
        if context.settings.settings.revoked_tools.contains(tool) {
            return Err(
                AgentAuthorityRefusal::of(
                    "tool-revoked",
                    join3("the tool ", tool.as_str(), " is revoked by the current settings"),
                ),
            );
        }
        Ok(declared)
    }

    /// Checks that a binding fits inside the definition's declaration.
    fn check_binding(
        tool: &AgentToolId,
        binding: &AgentToolBinding,
        declared: &AgentToolDeclaration,
    ) -> (result: Result<(), AgentAuthorityRefusal>)
        ensures
            answers(result, binding_refusal(tool@, *binding, *declared)),
    {
        let bound = &binding.declaration;
        if bound.safety.strictness() < declared.safety.strictness() {
            let head = join4(
                "the deployment binds ",
                tool.as_str(),
                " as ",
                bound.safety.as_label(),
            );
            return Err(
                AgentAuthorityRefusal::of(
                    "tool-declaration-conflict",
                    join3(
                        head.as_str(),
                        " but the definition declares ",
                        declared.safety.as_label(),
                    ),
                ),
            );
        }
        if !bound.capabilities.is_subset(&declared.capabilities) {
            return Err(
                AgentAuthorityRefusal::of(
                    AgentEnvelopeDimension::ToolCapability.as_label(),
                    join3(
                        "the deployment grants ",
                        tool.as_str(),
                        " a capability the definition never declared",
                    ),
                ),
            );
        }
        if bound.credential_binding.is_some() && !same_optional(
            &declared.credential_binding,
            &bound.credential_binding,
        ) {
            return Err(
                AgentAuthorityRefusal::of(
                    AgentEnvelopeDimension::ToolCredentialBinding.as_label(),
                    join3(
                        "the deployment binds ",
                        tool.as_str(),
                        " to a credential the definition never authorized",
                    ),
                ),
            );
        }
        if !same_optional(&bound.execution_policy, &declared.execution_policy) {
            return Err(
                AgentAuthorityRefusal::of(
                    AgentEnvelopeDimension::ToolExecutionPolicy.as_label(),
                    join3(
                        "the deployment routes ",
                        tool.as_str(),
                        " through a policy other than the one the definition declared",
                    ),
                ),
            );
        }
        Ok(())
    }

    /// Checks that an intent asks for no more than its tool's binding permits.
    fn check_intent(tool: &AgentToolId, binding: &AgentToolBinding, intent: &AgentRunEffect) -> (result:
        Result<(), AgentAuthorityRefusal>)
        ensures
            answers(result, intent_refusal(tool@, *binding, *intent)),
    {
        let bound = &binding.declaration;
        if intent.safety.strictness() < bound.safety.strictness() {
            return Err(
                AgentAuthorityRefusal::of(
                    AgentEnvelopeDimension::EffectSafety.as_label(),
                    join4(
                        "the intent claims ",
                        intent.safety.as_label(),
                        " but the binding declares ",
                        bound.safety.as_label(),
                    ),
                ),
            );
        }
        if intent.max_attempts > binding.max_attempts {
            let asked = decimal_string(intent.max_attempts as u64);
            let permitted = decimal_string(binding.max_attempts as u64);
            return Err(
                AgentAuthorityRefusal::of(
                    "tool-policy-conflict",
                    join4(
                        "the intent permits ",
                        asked.as_str(),
                        " attempts but the binding permits ",
                        permitted.as_str(),
                    ),
                ),
            );
        }
        if !same_optional(&intent.credential_binding, &bound.credential_binding) {
            let code = if intent.credential_binding.is_some() {
                AgentEnvelopeDimension::ToolCredentialBinding.as_label()
            } else {
                "tool-policy-conflict"
            };
            return Err(
                AgentAuthorityRefusal::of(
                    code,
                    join2(
                        "the intent's credential binding does not match the binding of ",
                        tool.as_str(),
                    ),
                ),
            );
        }
        if !same_optional(&intent.execution_policy, &bound.execution_policy) {
            return Err(
                AgentAuthorityRefusal::of(
                    AgentEnvelopeDimension::ToolExecutionPolicy.as_label(),
                    join2(
                        "the intent's execution policy does not match the binding of ",
                        tool.as_str(),
                    ),
                ),
            );
        }
        Ok(())
    }

    /// Checks that a credential binding is authorized and not revoked.
    pub fn check_credential(
        context: &AgentAuthorityContext<'_>,
        credential: &AgentCredentialBindingRef,
    ) -> (result: Result<(), AgentAuthorityRefusal>)
        ensures
            answers(result, credential_refusal(*context, credential@)),
    {
        if !context.definition.envelope.credential_bindings.contains(credential) {
            return Err(
                AgentAuthorityRefusal::of(
                    AgentEnvelopeDimension::CredentialBinding.as_label(),
                    join3(
                        "the credential binding ",
                        credential.as_str(),
                        " is not authorized by the definition",
                    ),
                ),
            );
        }
        if let Some(setup) = context.setup {
            if !setup.envelope.credential_bindings.contains(credential) {
                return Err(
                    AgentAuthorityRefusal::of(
                        AgentEnvelopeDimension::CredentialBinding.as_label(),
                        join2(
                            "the run's setup does not select the credential binding ",
                            credential.as_str(),
                        ),
                    ),
                );
            }
        }
        if context.settings.settings.revoked_credential_bindings.contains(credential) {
            return Err(
                AgentAuthorityRefusal::of(
                    "credential-revoked",
                    join3(
                        "the credential binding ",
                        credential.as_str(),
                        " is revoked by the current settings",
                    ),
                ),
            );
        }
        Ok(())
    }

    /// Checks that an execution-policy reference is routable here.
    pub fn check_execution_policy(&self, policy: &Option<AgentExecutionPolicyRef>) -> (result: Result<
        (),
        AgentAuthorityRefusal,
    >)
        ensures
            answers(result, self.routing_refusal(*policy)),
    {
        let policy = match policy {
            Some(policy) => policy,
            None => {
                return Ok(());
            },
        };
        let routable = match &self.execution_router {
            Some(router) => router.accepts(policy),
            None => false,
        };
        if !routable {
            return Err(
                AgentAuthorityRefusal::of(
                    "execution-policy-unroutable",
                    join3(
                        "no configured executor accepts the execution policy ",
                        policy.as_str(),
                        "; the effect stays undispatchable rather than running with ambient authority",
                    ),
                ),
            );
        }
        Ok(())
    }

    /// The guardrail stages the definition and setup envelopes require.
    pub fn required_stages(context: &AgentAuthorityContext<'_>) -> (required: IdSet<
        GuardrailStageTag,
    >)
        ensures
            required@ == mandatory_stages(*context),
    {
        let mut required = context.definition.envelope.mandatory_guardrails.clone();
        if let Some(setup) = context.setup {
            required.extend(&setup.envelope.mandatory_guardrails);
        }
        required
    }

    /// Checks that every required stage is runnable by the configured chain.
    pub fn check_guardrail_coverage(&self, required: &IdSet<GuardrailStageTag>) -> (result: Result<
        (),
        AgentAuthorityRefusal,
    >)
        ensures
            answers(result, self.coverage_refusal(required@)),
    {
        if required.is_empty() {
            return Ok(());
        }
        match &self.guardrails {
            None => Err(
                AgentAuthorityRefusal::of(
                    "guardrail-stage-missing",
                    "the envelope requires guardrail stages and no chain is configured".to_owned(),
                ),
            ),
            Some(chain) => {
                if chain.covers(required) {
                    Ok(())
                } else {
                    Err(
                        AgentAuthorityRefusal::of(
                            "guardrail-stage-missing",
                            "the configured chain does not run every required stage".to_owned(),
                        ),
                    )
                }
            },
        }
    }

    /// Checks that the guardrail chain let a request go on.
    fn check_decision(disposition: &AgentGuardrailDisposition, subject: &str) -> (result: Result<
        (),
        AgentAuthorityRefusal,
    >)
        ensures
            answers(result, guardrail_refusal(*disposition, subject@)),
    {
        match disposition {
            AgentGuardrailDisposition::Allowed => Ok(()),
            AgentGuardrailDisposition::Blocked { stage, reason_code } => {
                let head = join5(
                    "guardrail stage ",
                    stage.as_str(),
                    " blocked the ",
                    subject,
                    ": ",
                );
                Err(
                    AgentAuthorityRefusal::of(
                        "guardrail-blocked",
                        join2(head.as_str(), reason_code.as_str()),
                    ),
                )
            },
            AgentGuardrailDisposition::CheckpointRequired { stage, reason_code } => Err(
                AgentAuthorityRefusal::of(
                    "checkpoint-required",
                    join4(
                        "guardrail stage ",
                        stage.as_str(),
                        " requires a checkpoint grant, and none exists: ",
                        reason_code.as_str(),
                    ),
                ),
            ),
        }
    }

    /// Assembles the grant record for one validated intent.
    fn grant(
        &self,
        context: &AgentAuthorityContext<'_>,
        scope: &AgentRunScope,
        task: Option<AgentTaskId>,
        goal: Option<AgentGoalId>,
        intent: &AgentRunEffect,
        descriptor: Option<AgentGrantDescriptor>,
        capabilities: IdSet<CapabilityTag>,
        now: AgentTimestampMillis,
    ) -> (grant: AgentDispatchGrant)
        ensures
            self.grants(*context, *scope, task, goal, *intent, now, grant),
            grant.descriptor == descriptor,
            grant.capabilities == capabilities,
    {
        AgentDispatchGrant {
            scope: scope.clone(),
            task,
            goal,
            effect_id: intent.effect_id.clone(),
            generation: intent.generation,
            descriptor,
            target: intent.request.target(),
            argument_digest: intent.argument_digest.clone(),
            safety_class: intent.safety,
            definition_revision: context.definition.revision,
            settings_revision: context.settings.revision,
            setup_revision: match context.setup {
                Some(setup) => Some(setup.revision),
                None => None,
            },
            guardrail_revision: match &self.guardrails {
                Some(chain) => Some(chain.revision),
                None => None,
            },
            capabilities,
            credential_binding: copy_optional(&intent.credential_binding),
            execution_policy: copy_optional(&intent.execution_policy),
            issued_at: now,
            expires_at: AgentTimestampMillis::new(now.millis.saturating_add(self.grant_ttl_ms)),
            allowed_use_count: intent.max_attempts,
        }
    }
}

impl AgentToolAuthority<AcceptedExecutionPolicies> {
    /// An authority over the given registry, with no guardrail chain and no
    /// execution-policy router.
    pub fn new(registry: AgentToolRegistry) -> (authority: Self)
        ensures
            authority.registry == registry,
            authority.guardrails is None,
            authority.execution_router is None,
            authority.grant_ttl_ms == AGENT_DISPATCH_GRANT_DEFAULT_TTL_MS,
    {
        AgentToolAuthority {
            registry,
            guardrails: None,
            execution_router: None,
            grant_ttl_ms: AGENT_DISPATCH_GRANT_DEFAULT_TTL_MS,
        }
    }
}

/// The guardrails have the last word and only that: a refusal before them
/// stands whatever they decide; with no chain nothing else refuses; and a chain
/// that was asked lets an intent through exactly when it allows it and leaves it
/// fit to send.
pub proof fn the_guardrails_decide_last<R: AgentExecutionPolicyRouter>(
    authority: AgentToolAuthority<R>,
    context: AgentAuthorityContext,
    intent: AgentRunEffect,
    decision: AgentGuardrailDecision,
)
    ensures
        authority.guardrail_question(context, intent) is None ==> authority.refusal(
            context,
            intent,
            decision,
        ) == authority.check_refusal(context, intent),
        authority.guardrail_question(context, intent) is Some ==> (authority.refusal(
            context,
            intent,
            decision,
        ) is None <==> decision.disposition is Allowed && (intent.request is Tool
            ==> transform_refusal(decision) is None)),
{
}

/// Each layer only narrows the one above it: a tool call that is granted is
/// registered, declared by the definition, selected by any setup and not
/// revoked; its binding keeps within the declaration; the intent keeps within
/// the binding; and its credential, if any, is authorized and not revoked.
pub proof fn a_granted_call_only_narrows<R: AgentExecutionPolicyRouter>(
    authority: AgentToolAuthority<R>,
    context: AgentAuthorityContext,
    intent: AgentRunEffect,
    call: AgentToolCallRequest,
    decision: AgentGuardrailDecision,
)
    requires
        authority.tool_refusal(context, intent, call, decision) is None,
    ensures
        ({
            let tool = call.tool@;
            let binding = authority.registry@[tool];
            let declared = context.definition.envelope.tools@[tool];
            &&& authority.registry@.dom().contains(tool)
            &&& context.definition.envelope.tools@.dom().contains(tool)
            &&& context.setup is Some ==> context.setup->Some_0.envelope.tools@.dom().contains(tool)
            &&& !context.settings.settings.revoked_tools@.contains(tool)
            &&& declared.safety.rank() <= binding.declaration.safety.rank()
            &&& binding.declaration.safety.rank() <= intent.safety.rank()
            &&& binding.declaration.capabilities@.subset_of(declared.capabilities@)
            &&& intent.max_attempts <= binding.max_attempts
            &&& optional_text(intent.execution_policy) == optional_text(declared.execution_policy)
            &&& intent.credential_binding is Some ==> optional_text(intent.credential_binding)
                == optional_text(declared.credential_binding)
            &&& intent.credential_binding is Some
                ==> context.definition.envelope.credential_bindings@.contains(
                intent.credential_binding->Some_0@,
            )
            &&& intent.credential_binding is Some
                ==> !context.settings.settings.revoked_credential_bindings@.contains(
                intent.credential_binding->Some_0@,
            )
            &&& !binding.checkpoint_required
        }),
{
}

/// A fresh grant covers the attempts of its own intent until it expires, and no
/// attempt beyond its count or after it.
pub proof fn a_fresh_grant_covers_its_intent<R: AgentExecutionPolicyRouter>(
    authority: AgentToolAuthority<R>,
    context: AgentAuthorityContext,
    scope: AgentRunScope,
    task: Option<AgentTaskId>,
    goal: Option<AgentGoalId>,
    intent: AgentRunEffect,
    issued: AgentTimestampMillis,
    grant: AgentDispatchGrant,
    attempt: u32,
    now: AgentTimestampMillis,
)
    requires
        authority.grants(context, scope, task, goal, intent, issued, grant),
    ensures
        grant.objection(&scope, &intent, attempt, now) is None <==> now.millis < saturating_sum(
            issued.millis,
            authority.grant_ttl_ms,
        ) && attempt <= intent.max_attempts,
{
}

/// Nothing is dispatched for an agent that is not active, whatever is asked; a
/// suspension may clear, a termination not.
pub proof fn only_an_active_agent_dispatches<R: AgentExecutionPolicyRouter>(
    authority: AgentToolAuthority<R>,
    context: AgentAuthorityContext,
    intent: AgentRunEffect,
    decision: AgentGuardrailDecision,
)
    requires
        context.status != AgentLifecycleStatus::Active,
    ensures
        authority.refusal(context, intent, decision) is Some,
        authority.refusal(context, intent, decision)->Some_0.retryable <==> context.status
            == AgentLifecycleStatus::Suspended,
{
}

/// A revocation reaches the next dispatch: a revoked tool is refused whatever
/// the intent, the binding and the guardrails say.
pub proof fn a_revoked_tool_is_never_granted<R: AgentExecutionPolicyRouter>(
    authority: AgentToolAuthority<R>,
    context: AgentAuthorityContext,
    intent: AgentRunEffect,
    call: AgentToolCallRequest,
    decision: AgentGuardrailDecision,
)
    requires
        context.settings.settings.revoked_tools@.contains(call.tool@),
    ensures
        authority.tool_refusal(context, intent, call, decision) is Some,
{
}

} // verus!
