//! Effects a run commits: what is asked for, under which failure policy.

use vstd::prelude::*;
use vstd::string::*;
use vstd::utf8::encode_utf8;

use crate::definition::{
    AgentCredentialBindingRef, AgentEffectSafetyClass, AgentExecutionPolicyRef,
    AgentModelProfileId,
};
use crate::digest::{sha256_hex, sha256_hex_of_text};
use crate::identity::{
    canonical_segments, canonical_text, copy_optional, texts, validate_tenant, AgentEffectId,
    AgentGoalId, AgentId, AgentIdentityError, AgentRevisionNumber, AgentRunId, AgentTimestampMillis,
    AgentToolCallId, AgentToolId, Identifier, TenantId,
};
use crate::json::{copy_json, json_text, write_json};
use crate::text::{byte_len, decimal, decimal_string, join2, lemma_decimal_digits, text_bytes};

verus! {

/// Tag of [`AgentReconciliationProtocolRef`].
#[derive(Debug)]
pub struct ReconciliationTag;

/// Tag of [`AgentCompensationRef`].
#[derive(Debug)]
pub struct CompensationTag;

/// Tag of [`AgentContextSnapshotRef`].
#[derive(Debug)]
pub struct ContextTag;

/// Tag of [`AgentDelegationId`].
#[derive(Debug)]
pub struct DelegationTag;

/// Tag of [`AgentWorkflowInvocationId`].
#[derive(Debug)]
pub struct InvocationTag;

/// The protocol that reconciles an ambiguous attempt.
pub type AgentReconciliationProtocolRef = Identifier<ReconciliationTag>;

/// A compensation of an earlier effect.
pub type AgentCompensationRef = Identifier<CompensationTag>;

/// The context snapshot of one turn.
pub type AgentContextSnapshotRef = Identifier<ContextTag>;

/// One delegation to a peer agent.
pub type AgentDelegationId = Identifier<DelegationTag>;

/// One workflow invocation.
pub type AgentWorkflowInvocationId = Identifier<InvocationTag>;

/// Largest argument payload of a tool call, in bytes.
pub const AGENT_TOOL_ARGUMENTS_MAX_BYTES: usize = 16_384;

/// The durable scope of one run.
#[derive(Debug)]
pub struct AgentRunScope {
    /// The tenant boundary.
    pub tenant: TenantId,
    /// The agent.
    pub agent: AgentId,
    /// The run.
    pub run: AgentRunId,
}

impl AgentRunScope {
    /// Scopes a run, refusing a tenant that keys nothing.
    pub fn new(tenant: TenantId, agent: AgentId, run: AgentRunId) -> (result: Result<
        Self,
        AgentIdentityError,
    >)
        ensures
            result == (if tenant@.len() > 0 {
                Ok::<Self, AgentIdentityError>(AgentRunScope { tenant, agent, run })
            } else {
                Err(AgentIdentityError::Empty)
            }),
    {
        match validate_tenant(&tenant) {
            Ok(_) => Ok(AgentRunScope { tenant, agent, run }),
            Err(error) => Err(error),
        }
    }

    /// Whether two scopes name the same run.
    pub open spec fn is_same(&self, other: &Self) -> bool {
        self.tenant@ == other.tenant@ && self.agent@ == other.agent@ && self.run@ == other.run@
    }

    /// Whether two scopes name the same run.
    pub fn same(&self, other: &Self) -> (result: bool)
        ensures
            result == self.is_same(other),
    {
        self.tenant.same(&other.tenant) && self.agent.same(&other.agent) && self.run.same(
            &other.run,
        )
    }
}

impl Clone for AgentRunScope {
    fn clone(&self) -> (copy: Self)
        ensures
            copy == *self,
    {
        AgentRunScope {
            tenant: self.tenant.clone(),
            agent: self.agent.clone(),
            run: self.run.clone(),
        }
    }
}

/// A canonical fingerprint of some content.
#[derive(Debug)]
pub struct AgentContentDigest {
    /// The digest, in lowercase hexadecimal.
    pub value: String,
}

impl View for AgentContentDigest {
    type V = Seq<char>;

    open spec fn view(&self) -> Seq<char> {
        self.value@
    }
}

impl AgentContentDigest {
    /// Whether two fingerprints are the same.
    pub fn same(&self, other: &Self) -> (result: bool)
        ensures
            result == (self@ == other@),
    {
        self.value == other.value
    }

    /// The fingerprint of a text.
    pub fn of_text(text: &str) -> (digest: Self)
        ensures
            digest@ == sha256_hex(encode_utf8(text@)),
    {
        AgentContentDigest { value: sha256_hex_of_text(text) }
    }

    /// The fingerprint of a JSON value: that of its compact text.
    pub fn of_json(value: &serde_json::Value) -> (digest: Self)
        ensures
            digest@ == json_digest(*value),
    {
        match write_json(value) {
            Some(text) => AgentContentDigest::of_text(text.as_str()),
            None => AgentContentDigest::of_text("null"),
        }
    }
}

/// The fingerprint of a JSON value; one that has no text counts as null.
pub open spec fn json_digest(value: serde_json::Value) -> Seq<char> {
    sha256_hex(
        encode_utf8(
            match json_text(value) {
                Some(text) => text,
                None => "null"@,
            },
        ),
    )
}

impl Clone for AgentContentDigest {
    fn clone(&self) -> (copy: Self)
        ensures
            copy == *self,
    {
        AgentContentDigest { value: self.value.clone() }
    }
}

/// The dispatch generation of an effect.
#[derive(Debug, Clone, Copy, PartialEq, Eq, Structural)]
pub struct AgentEffectGeneration {
    /// The generation's number.
    pub number: u32,
}

impl AgentEffectGeneration {
    /// The generation's number.
    pub fn get(self) -> (number: u32)
        ensures
            number == self.number,
    {
        self.number
    }

    /// The generation that follows; the last one follows itself.
    pub fn next(self) -> (generation: Self)
        ensures
            generation.number == if self.number < u32::MAX {
                (self.number + 1) as u32
            } else {
                u32::MAX
            },
    {
        AgentEffectGeneration { number: self.number.saturating_add(1) }
    }
}

/// The rejection of an effect or its failure policy.
#[derive(Debug)]
#[non_exhaustive]
pub enum AgentEffectError {
    /// The failure policy could not be honored.
    InvalidPolicy {
        /// What made it unenforceable.
        message: String,
    },
    /// The request's content could not be encoded.
    Unencodable,
    /// A tool call's arguments exceed their bound.
    ArgumentsTooLarge,
}

impl AgentEffectError {
    /// The rejection in words.
    pub fn message(&self) -> (text: String)
        ensures
            text@ == self.message_text(),
    {
        match self {
            AgentEffectError::InvalidPolicy { message } => message.clone(),
            AgentEffectError::Unencodable => "the request cannot be encoded".to_owned(),
            AgentEffectError::ArgumentsTooLarge => "the arguments exceed their bound".to_owned(),
        }
    }

    /// The words of each rejection.
    pub open spec fn message_text(&self) -> Seq<char> {
        match self {
            AgentEffectError::InvalidPolicy { message } => message@,
            AgentEffectError::Unencodable => "the request cannot be encoded"@,
            AgentEffectError::ArgumentsTooLarge => "the arguments exceed their bound"@,
        }
    }
}

/// The failure policy an effect dispatches under.
#[derive(Debug)]
pub struct AgentEffectSpec {
    /// The safety class.
    pub safety_class: AgentEffectSafetyClass,
    /// Most attempts one generation may make.
    pub max_attempts: u32,
    /// The protocol that reconciles an ambiguous attempt.
    pub reconciliation_protocol: Option<AgentReconciliationProtocolRef>,
    /// The credential an attempt may resolve.
    pub credential_binding: Option<AgentCredentialBindingRef>,
    /// The per-attempt timeout, in milliseconds.
    pub timeout_ms: Option<u64>,
    /// The execution policy attempts are routed through.
    pub execution_policy: Option<AgentExecutionPolicyRef>,
}

impl AgentEffectSpec {
    /// Why the policy cannot be honored: an effect needs an attempt, and a
    /// reconciliation protocol belongs to the reconcileable class alone.
    pub open spec fn objection(&self) -> Option<Seq<char>> {
        if self.max_attempts == 0 {
            Some("an effect must permit at least one attempt"@)
        } else if (self.safety_class == AgentEffectSafetyClass::Reconcileable) != (
        self.reconciliation_protocol is Some) {
            Some("a reconciliation protocol is named exactly for the reconcileable class"@)
        } else {
            None
        }
    }

    /// Rejects a policy that cannot be honored.
    pub fn validate(&self) -> (result: Result<(), AgentEffectError>)
        ensures
            match self.objection() {
                None => result is Ok,
                Some(objection) => result is Err && result->Err_0 is InvalidPolicy
                    && result->Err_0.message_text() == objection,
            },
    {
        if self.max_attempts == 0 {
            return Err(
                AgentEffectError::InvalidPolicy {
                    message: "an effect must permit at least one attempt".to_owned(),
                },
            );
        }
        let reconcileable = self.safety_class == AgentEffectSafetyClass::Reconcileable;
        if reconcileable != self.reconciliation_protocol.is_some() {
            return Err(
                AgentEffectError::InvalidPolicy {
                    message: "a reconciliation protocol is named exactly for the reconcileable class".to_owned(),
                },
            );
        }
        Ok(())
    }

    /// One attempt of a class, and nothing else.
    pub open spec fn is_single_attempt(&self, class: AgentEffectSafetyClass) -> bool {
        &&& self.safety_class == class
        &&& self.max_attempts == 1
        &&& self.reconciliation_protocol is None
        &&& self.credential_binding is None
        &&& self.timeout_ms is None
        &&& self.execution_policy is None
    }

    /// One read-only attempt.
    pub fn read_only() -> (spec: Self)
        ensures
            spec.is_single_attempt(AgentEffectSafetyClass::ReadOnly),
    {
        AgentEffectSpec {
            safety_class: AgentEffectSafetyClass::ReadOnly,
            max_attempts: 1,
            reconciliation_protocol: None,
            credential_binding: None,
            timeout_ms: None,
            execution_policy: None,
        }
    }

    /// One non-idempotent attempt.
    pub fn non_idempotent() -> (spec: Self)
        ensures
            spec.is_single_attempt(AgentEffectSafetyClass::NonIdempotent),
    {
        AgentEffectSpec {
            safety_class: AgentEffectSafetyClass::NonIdempotent,
            max_attempts: 1,
            reconciliation_protocol: None,
            credential_binding: None,
            timeout_ms: None,
            execution_policy: None,
        }
    }
}

impl Clone for AgentEffectSpec {
    fn clone(&self) -> (copy: Self)
        ensures
            copy == *self,
    {
        AgentEffectSpec {
            safety_class: self.safety_class,
            max_attempts: self.max_attempts,
            reconciliation_protocol: copy_optional(&self.reconciliation_protocol),
            credential_binding: copy_optional(&self.credential_binding),
            timeout_ms: self.timeout_ms,
            execution_policy: copy_optional(&self.execution_policy),
        }
    }
}

/// A tool call as a model asks for it: a call id, a tool name and arguments.
#[derive(Debug)]
pub struct AgentToolCallRequest {
    /// The call's identity.
    pub call_id: AgentToolCallId,
    /// The tool asked for.
    pub tool: AgentToolId,
    /// The arguments.
    pub arguments: serde_json::Value,
}

impl AgentToolCallRequest {
    /// Why a call with these arguments is refused: they must have a JSON text
    /// within the bound.
    pub open spec fn arguments_refusal(arguments: serde_json::Value) -> Option<AgentEffectError> {
        match json_text(arguments) {
            None => Some(AgentEffectError::Unencodable),
            Some(text) => if byte_len(text) > AGENT_TOOL_ARGUMENTS_MAX_BYTES {
                Some(AgentEffectError::ArgumentsTooLarge)
            } else {
                None
            },
        }
    }

    /// Creates a call, refusing arguments beyond their bound.
    pub fn new(
        call_id: AgentToolCallId,
        tool: AgentToolId,
        arguments: serde_json::Value,
    ) -> (result: Result<Self, AgentEffectError>)
        ensures
            result == match Self::arguments_refusal(arguments) {
                Some(error) => Err::<Self, AgentEffectError>(error),
                None => Ok(AgentToolCallRequest { call_id, tool, arguments }),
            },
    {
        match write_json(&arguments) {
            None => Err(AgentEffectError::Unencodable),
            Some(text) => {
                if text_bytes(text.as_str()) > AGENT_TOOL_ARGUMENTS_MAX_BYTES {
                    Err(AgentEffectError::ArgumentsTooLarge)
                } else {
                    Ok(AgentToolCallRequest { call_id, tool, arguments })
                }
            },
        }
    }
}

/// Bounded content a task or a tool carries inline.
#[derive(Debug)]
pub struct AgentTaskContent {
    /// The content.
    pub value: serde_json::Value,
}

impl AgentTaskContent {
    /// Content carried inline.
    pub fn inline(value: serde_json::Value) -> (content: Self)
        ensures
            content.value == value,
    {
        AgentTaskContent { value }
    }
}

impl Clone for AgentTaskContent {
    fn clone(&self) -> (copy: Self)
        ensures
            copy == *self,
    {
        AgentTaskContent { value: copy_json(&self.value) }
    }
}

/// A delegation an effect sends to a peer.
#[derive(Debug)]
pub struct AgentDelegationRecord {
    /// The delegation.
    pub delegation: AgentDelegationId,
    /// The run that delegates.
    pub parent_run: AgentRunScope,
}

/// A workflow invocation an effect starts or cancels.
#[derive(Debug)]
pub struct AgentWorkflowInvocationRecord {
    /// The invocation.
    pub invocation: AgentWorkflowInvocationId,
    /// The run that invokes.
    pub parent_run: AgentRunScope,
    /// The workflow run it starts.
    pub child_run: String,
}

/// How a goal evaluation reaches its verdict.
#[derive(Debug, Clone, Copy, PartialEq, Eq, Structural)]
#[non_exhaustive]
pub enum AgentGoalEvaluationMethod {
    /// A person decides, by the effect-bound approval grant.
    HumanReview,
    /// A verification workflow decides.
    VerificationWorkflow,
    /// A deterministic check decides.
    Deterministic,
    /// A model judges.
    ModelJudge,
}

/// One piece of evidence of a goal evaluation.
#[derive(Debug)]
pub struct AgentGoalEvidenceRef {
    /// The class of evidence.
    pub class: String,
    /// The artifact that holds it.
    pub artifact: Option<String>,
    /// Its fingerprint.
    pub digest: Option<AgentContentDigest>,
}

/// What one goal evaluation is asked to judge.
#[derive(Debug)]
pub struct AgentGoalEvaluationRequest {
    /// The goal.
    pub goal: AgentGoalId,
    /// The evaluator.
    pub evaluator: String,
    /// How the verdict is reached.
    pub method: AgentGoalEvaluationMethod,
    /// The revision of the criteria.
    pub criteria_revision: AgentRevisionNumber,
    /// The evidence gathered so far.
    pub evidence: Vec<AgentGoalEvidenceRef>,
}

/// A promotion of session memory an effect asks for.
#[derive(Debug)]
pub struct AgentMemoryPromotionRequest {
    /// The session memory that is promoted.
    pub memory: String,
}

/// An append of a communal claim an effect asks for.
#[derive(Debug)]
pub struct AgentClaimAppendRequest {
    /// What is claimed.
    pub statement: String,
}

/// Where an appended claim comes from.
#[derive(Debug)]
pub struct AgentClaimAppendProvenance {
    /// The source.
    pub source: String,
}

/// What an effect asks for.
#[derive(Debug)]
#[non_exhaustive]
pub enum AgentRunEffectRequest {
    /// A model turn.
    Model {
        /// The turn's context snapshot.
        context: AgentContextSnapshotRef,
        /// The model profile the run asked for.
        profile: Option<AgentModelProfileId>,
    },
    /// A tool call.
    Tool {
        /// The call.
        call: AgentToolCallRequest,
    },
    /// A compensation of an earlier effect.
    Compensation {
        /// The compensation.
        compensation: AgentCompensationRef,
    },
    /// A promotion of session memory.
    MemoryPromotion {
        /// What is promoted.
        promotion: AgentMemoryPromotionRequest,
    },
    /// A goal evaluation.
    Evaluation {
        /// What is judged.
        evaluation: AgentGoalEvaluationRequest,
    },
    /// A send to a peer agent.
    A2aSend {
        /// The delegation.
        delegation: AgentDelegationRecord,
    },
    /// A workflow start.
    WorkflowStart {
        /// The invocation.
        invocation: AgentWorkflowInvocationRecord,
    },
    /// A workflow cancellation.
    WorkflowCancel {
        /// The invocation.
        invocation: AgentWorkflowInvocationRecord,
        /// Why it is cancelled.
        reason: String,
    },
    /// An append of a communal claim.
    ClaimAppend {
        /// What is appended.
        append: AgentClaimAppendRequest,
        /// Where it comes from.
        provenance: AgentClaimAppendProvenance,
    },
}

impl AgentRunEffectRequest {
    /// What an effect other than a tool call is fingerprinted by, in order: a
    /// model turn's context and profile, and every other kind's name and what it
    /// is about.
    pub open spec fn argument_segments(&self) -> Seq<Seq<char>> {
        match self {
            AgentRunEffectRequest::Tool { .. } => Seq::empty(),
            AgentRunEffectRequest::Model { context, profile } => match profile {
                Some(profile) => seq![context@, profile@],
                None => seq![context@],
            },
            AgentRunEffectRequest::Compensation { compensation } => seq![
                "compensation"@,
                compensation@,
            ],
            AgentRunEffectRequest::MemoryPromotion { promotion } => seq![
                "memory-promotion"@,
                promotion.memory@,
            ],
            AgentRunEffectRequest::Evaluation { evaluation } => seq![
                "evaluation"@,
                evaluation.goal@,
                evaluation.evaluator@,
            ],
            AgentRunEffectRequest::A2aSend { delegation } => seq![
                "a2a-send"@,
                delegation.delegation@,
            ],
            AgentRunEffectRequest::WorkflowStart { invocation } => seq![
                "workflow-start"@,
                invocation.invocation@,
            ],
            AgentRunEffectRequest::WorkflowCancel { invocation, reason } => seq![
                "workflow-cancel"@,
                invocation.invocation@,
                reason@,
            ],
            AgentRunEffectRequest::ClaimAppend { append, provenance } => seq![
                "claim-append"@,
                append.statement@,
                provenance.source@,
            ],
        }
    }

    /// The text an effect's arguments are fingerprinted as: a tool call's
    /// arguments as JSON, and the canonical encoding of what every other kind is
    /// about.
    pub open spec fn argument_text(&self) -> Option<Seq<char>> {
        match self {
            AgentRunEffectRequest::Tool { call } => json_text(call.arguments),
            _ => Some(canonical_segments(self.argument_segments())),
        }
    }

    /// Fingerprints the arguments.
    pub fn argument_digest(&self) -> (result: Result<AgentContentDigest, AgentEffectError>)
        ensures
            match self.argument_text() {
                Some(text) => result is Ok && result->Ok_0@ == sha256_hex(encode_utf8(text)),
                None => result == Err::<AgentContentDigest, _>(AgentEffectError::Unencodable),
            },
    {
        let mut segments: Vec<&str> = Vec::new();
        match self {
            AgentRunEffectRequest::Tool { call } => {
                return match write_json(&call.arguments) {
                    Some(text) => Ok(AgentContentDigest::of_text(text.as_str())),
                    None => Err(AgentEffectError::Unencodable),
                };
            },
            AgentRunEffectRequest::Model { context, profile } => {
                segments.push(context.as_str());
                if let Some(profile) = profile {
                    segments.push(profile.as_str());
                }
            },
            AgentRunEffectRequest::Compensation { compensation } => {
                segments.push("compensation");
                segments.push(compensation.as_str());
            },
            AgentRunEffectRequest::MemoryPromotion { promotion } => {
                segments.push("memory-promotion");
                segments.push(promotion.memory.as_str());
            },
            AgentRunEffectRequest::Evaluation { evaluation } => {
                segments.push("evaluation");
                segments.push(evaluation.goal.as_str());
                segments.push(evaluation.evaluator.as_str());
            },
            AgentRunEffectRequest::A2aSend { delegation } => {
                segments.push("a2a-send");
                segments.push(delegation.delegation.as_str());
            },
            AgentRunEffectRequest::WorkflowStart { invocation } => {
                segments.push("workflow-start");
                segments.push(invocation.invocation.as_str());
            },
            AgentRunEffectRequest::WorkflowCancel { invocation, reason } => {
                segments.push("workflow-cancel");
                segments.push(invocation.invocation.as_str());
                segments.push(reason.as_str());
            },
            AgentRunEffectRequest::ClaimAppend { append, provenance } => {
                segments.push("claim-append");
                segments.push(append.statement.as_str());
                segments.push(provenance.source.as_str());
            },
        }
        proof {
            assert(texts(segments@) =~= self.argument_segments());
        }
        let text = canonical_text(segments.as_slice());
        Ok(AgentContentDigest::of_text(text.as_str()))
    }

    /// What a tool call or a model turn is dispatched to.
    pub open spec fn target_text(&self) -> Seq<char> {
        match self {
            AgentRunEffectRequest::Tool { call } => "tool:"@ + call.tool@,
            AgentRunEffectRequest::Model { profile, .. } => match profile {
                Some(profile) => "model:"@ + profile@,
                None => "model:default"@,
            },
            _ => "effect:internal"@,
        }
    }

    /// What a tool call or a model turn is dispatched to.
    pub fn target(&self) -> (text: String)
        ensures
            text@ == self.target_text(),
    {
        match self {
            AgentRunEffectRequest::Tool { call } => join2("tool:", call.tool.as_str()),
            AgentRunEffectRequest::Model { profile, .. } => match profile {
                Some(profile) => join2("model:", profile.as_str()),
                None => "model:default".to_owned(),
            },
            _ => "effect:internal".to_owned(),
        }
    }
}

/// How far an effect has come.
#[derive(Debug, Clone, Copy, PartialEq, Eq, Structural)]
#[non_exhaustive]
pub enum AgentRunEffectStatus {
    /// Committed and waiting for dispatch.
    Ready,
    /// Settled with a result.
    Settled,
}

/// One durable effect of a run.
#[derive(Debug)]
pub struct AgentRunEffect {
    /// The effect's identity.
    pub effect_id: AgentEffectId,
    /// The dispatch generation.
    pub generation: AgentEffectGeneration,
    /// The turn that committed the effect.
    pub turn: u64,
    /// The effect's slot within the turn.
    pub slot: u64,
    /// What the effect asks for.
    pub request: AgentRunEffectRequest,
    /// The recorded fingerprint of the arguments.
    pub argument_digest: AgentContentDigest,
    /// The safety class the intent claims.
    pub safety: AgentEffectSafetyClass,
    /// Most attempts the intent permits.
    pub max_attempts: u32,
    /// The credential the intent names.
    pub credential_binding: Option<AgentCredentialBindingRef>,
    /// The execution policy the intent names.
    pub execution_policy: Option<AgentExecutionPolicyRef>,
    /// The idempotency key targets are handed.
    pub idempotency_key: String,
    /// How far the effect has come.
    pub status: AgentRunEffectStatus,
    /// Attempts made so far.
    pub attempts: u32,
    /// When the effect was committed.
    pub committed_at: AgentTimestampMillis,
}

/// The text of an effect's derived identity.
pub open spec fn effect_text(scope: AgentRunScope, turn: u64, slot: u64) -> Seq<char> {
    canonical_segments(
        seq![
            scope.tenant@,
            scope.agent@,
            scope.run@,
            decimal(turn as nat),
            decimal(slot as nat),
        ],
    )
}

impl AgentRunEffect {
    /// Derives the effect one slot of a turn commits under a failure policy.
    pub fn new(
        scope: &AgentRunScope,
        turn: u64,
        slot: u64,
        request: AgentRunEffectRequest,
        spec: &AgentEffectSpec,
        now: AgentTimestampMillis,
    ) -> (result: Result<Self, AgentEffectError>)
        ensures
            request.argument_text() is None ==> result == Err::<Self, _>(
                AgentEffectError::Unencodable,
            ),
            request.argument_text() is Some ==> result is Ok && ({
                let effect = result->Ok_0;
                &&& effect.effect_id@ == effect_text(*scope, turn, slot)
                &&& effect.idempotency_key@ == effect_text(*scope, turn, slot)
                &&& effect.generation.number == 1
                &&& effect.turn == turn
                &&& effect.slot == slot
                &&& effect.request == request
                &&& effect.argument_digest@ == sha256_hex(
                    encode_utf8(request.argument_text()->Some_0),
                )
                &&& effect.safety == spec.safety_class
                &&& effect.max_attempts == spec.max_attempts
                &&& effect.credential_binding == spec.credential_binding
                &&& effect.execution_policy == spec.execution_policy
                &&& effect.status == AgentRunEffectStatus::Ready
                &&& effect.attempts == 0
                &&& effect.committed_at == now
            }),
    {
        let argument_digest = match request.argument_digest() {
            Ok(digest) => digest,
            Err(_) => {
                return Err(AgentEffectError::Unencodable);
            },
        };
        let turn_text = decimal_string(turn);
        let slot_text = decimal_string(slot);
        let segments: [&str; 5] = [
            scope.tenant.as_str(),
            scope.agent.as_str(),
            scope.run.as_str(),
            turn_text.as_str(),
            slot_text.as_str(),
        ];
        let text = canonical_text(&segments);
        proof {
            let listed = seq![
                scope.tenant@,
                scope.agent@,
                scope.run@,
                decimal(turn as nat),
                decimal(slot as nat),
            ];
            assert(texts(segments@) =~= listed);
            lemma_decimal_digits(byte_len(listed.last()));
            assert(text@.len() > 0);
        }
        Ok(
            AgentRunEffect {
                effect_id: Identifier::from_text(text.clone()),
                generation: AgentEffectGeneration { number: 1 },
                turn,
                slot,
                request,
                argument_digest,
                safety: spec.safety_class,
                max_attempts: spec.max_attempts,
                credential_binding: copy_optional(&spec.credential_binding),
                execution_policy: copy_optional(&spec.execution_policy),
                idempotency_key: text,
                status: AgentRunEffectStatus::Ready,
                attempts: 0,
                committed_at: now,
            },
        )
    }
}

} // verus!
