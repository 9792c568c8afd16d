//! Model turns, effect outcomes, and what each collaborator's finding becomes.

use vstd::prelude::*;
use vstd::string::*;

use crate::definition::AgentModelProfileId;
use crate::effect::{
    AgentContentDigest, AgentContextSnapshotRef, AgentDelegationId, AgentDelegationRecord,
    AgentEffectGeneration, AgentGoalEvaluationMethod, AgentGoalEvaluationRequest,
    AgentGoalEvidenceRef, AgentRunEffect, AgentRunScope, AgentTaskContent,
    AgentWorkflowInvocationId, AgentWorkflowInvocationRecord,
};
use crate::identity::{
    canonical_segments, canonical_text, copy_optional, texts, validate_tenant, AgentEffectId,
    AgentGoalId, AgentIdentityError, AgentRevisionNumber, AgentRunId, AgentTaskId,
    AgentTimestampMillis, AgentToolCallId, PrincipalRef,
};
use crate::testkit_doubles::AgentDispatchError;
use crate::text::{
    byte_len, decimal, decimal_string, is_digit, join3, lemma_decimal_digits, lemma_decimal_injective,
    text_bytes,
};

verus! {

/// Longest text of a model turn, in bytes.
pub const AGENT_MODEL_TEXT_MAX_LENGTH: usize = 65_536;

/// Evidence class of a person's decision.
pub const AGENT_GOAL_EVALUATION_HUMAN_DECISION_CLASS: &'static str = "human-decision";

/// Code of a workflow start that met another invocation.
pub const AGENT_WORKFLOW_INVOCATION_CONFLICT_CODE: &'static str = "workflow-invocation-conflict";

/// A model call that failed, or a turn that cannot be bounded.
#[derive(Debug)]
#[non_exhaustive]
pub enum AgentModelError {
    /// The turn's text is too long.
    TextTooLong {
        /// The text's length in bytes.
        length: usize,
    },
    /// The retry policy permits no attempt.
    RetryPolicyWithoutAttempts,
    /// The provider failed.
    Provider {
        /// The stable code.
        code: String,
        /// The failure in words.
        message: String,
    },
}

impl AgentModelError {
    /// The code of each failure.
    pub open spec fn code_text(&self) -> Seq<char> {
        match self {
            AgentModelError::TextTooLong { .. } => "model-text-too-long"@,
            AgentModelError::RetryPolicyWithoutAttempts => "model-retry-policy-invalid"@,
            AgentModelError::Provider { code, .. } => code@,
        }
    }

    /// Each failure in words.
    pub open spec fn message_text(&self) -> Seq<char> {
        match self {
            AgentModelError::TextTooLong { length } => "the model text is "@ + decimal(
                *length as nat,
            ) + " bytes long, more than a turn holds"@,
            AgentModelError::RetryPolicyWithoutAttempts =>
            "the model retry policy permits no attempt"@,
            AgentModelError::Provider { message, .. } => message@,
        }
    }

    /// The code of each failure.
    pub fn code(&self) -> (code: &str)
        ensures
            code@ == self.code_text(),
    {
        match self {
            AgentModelError::TextTooLong { .. } => "model-text-too-long",
            AgentModelError::RetryPolicyWithoutAttempts => "model-retry-policy-invalid",
            AgentModelError::Provider { code, .. } => code.as_str(),
        }
    }

    /// Each failure in words.
    pub fn message(&self) -> (text: String)
        ensures
            text@ == self.message_text(),
    {
        match self {
            AgentModelError::TextTooLong { length } => {
                let digits = decimal_string(*length as u64);
                join3(
                    "the model text is ",
                    digits.as_str(),
                    " bytes long, more than a turn holds",
                )
            },
            AgentModelError::RetryPolicyWithoutAttempts =>
            "the model retry policy permits no attempt".to_owned(),
            AgentModelError::Provider { message, .. } => message.clone(),
        }
    }
}

/// One turn a model produced.
#[derive(Debug)]
pub struct AgentModelTurn {
    /// The version of the adapter that produced it.
    pub adapter_version: AgentRevisionNumber,
    /// What the model said.
    pub text: Option<String>,
}

impl AgentModelTurn {
    /// A turn that proposes nothing and asks for nothing.
    pub fn new(adapter_version: AgentRevisionNumber) -> (turn: Self)
        ensures
            turn == (AgentModelTurn { adapter_version, text: None }),
    {
        AgentModelTurn { adapter_version, text: None }
    }

    /// The turn with a text.
    pub fn with_text(self, text: &str) -> (turn: Self)
        ensures
            turn.adapter_version == self.adapter_version,
            turn.text is Some,
            turn.text->Some_0@ == text@,
    {
        AgentModelTurn { adapter_version: self.adapter_version, text: Some(text.to_owned()) }
    }

    /// Why the turn cannot be bounded.
    pub open spec fn objection(&self) -> Option<AgentModelError> {
        match self.text {
            Some(text) => if byte_len(text@) > AGENT_MODEL_TEXT_MAX_LENGTH {
                Some(AgentModelError::TextTooLong { length: byte_len(text@) as usize })
            } else {
                None
            },
            None => None,
        }
    }

    /// Refuses a turn that cannot be bounded.
    pub fn validate(&self) -> (result: Result<(), AgentModelError>)
        ensures
            result == (match self.objection() {
                Some(error) => Err::<(), _>(error),
                None => Ok(()),
            }),
    {
        match &self.text {
            Some(text) => {
                let length: usize = text_bytes(text.as_str());
                if length > AGENT_MODEL_TEXT_MAX_LENGTH {
                    Err(AgentModelError::TextTooLong { length })
                } else {
                    Ok(())
                }
            },
            None => Ok(()),
        }
    }
}

impl Clone for AgentModelTurn {
    fn clone(&self) -> (copy: Self)
        ensures
            copy == *self,
    {
        AgentModelTurn {
            adapter_version: self.adapter_version,
            text: match &self.text {
                Some(text) => Some(text.clone()),
                None => None,
            },
        }
    }
}

/// What one model call is asked.
#[derive(Debug)]
pub struct AgentModelRequest {
    /// The turn's context snapshot.
    pub context: AgentContextSnapshotRef,
    /// The turn's number.
    pub turn: u64,
    /// The model profile asked for.
    pub profile: Option<AgentModelProfileId>,
}

impl AgentModelRequest {
    /// A request with no profile.
    pub fn new(context: AgentContextSnapshotRef, turn: u64) -> (request: Self)
        ensures
            request == (AgentModelRequest { context, turn, profile: None }),
    {
        AgentModelRequest { context, turn, profile: None }
    }

    /// The request with a profile.
    pub fn with_profile(self, profile: AgentModelProfileId) -> (request: Self)
        ensures
            request == (AgentModelRequest { profile: Some(profile), ..self }),
    {
        AgentModelRequest { profile: Some(profile), ..self }
    }
}

impl Clone for AgentModelRequest {
    fn clone(&self) -> (copy: Self)
        ensures
            copy == *self,
    {
        AgentModelRequest {
            context: self.context.clone(),
            turn: self.turn,
            profile: copy_optional(&self.profile),
        }
    }
}

/// Builds the model request one model effect resolves to.
pub fn model_request(
    context: &AgentContextSnapshotRef,
    profile: &Option<AgentModelProfileId>,
    turn: u64,
) -> (request: AgentModelRequest)
    ensures
        request == (AgentModelRequest { context: *context, turn, profile: *profile }),
{
    let request = AgentModelRequest::new(context.clone(), turn);
    match profile {
        Some(profile) => request.with_profile(profile.clone()),
        None => request,
    }
}

/// The receipt of a send to a peer.
#[derive(Debug)]
pub struct AgentA2aSendReceipt {
    /// The delegation.
    pub delegation: AgentDelegationId,
    /// The task the peer opened.
    pub child_task: AgentTaskId,
    /// The run the peer opened, when it said.
    pub child_run: Option<AgentRunId>,
    /// The status the peer reported.
    pub peer_status: String,
}

impl Clone for AgentA2aSendReceipt {
    fn clone(&self) -> (copy: Self)
        ensures
            copy == *self,
    {
        AgentA2aSendReceipt {
            delegation: self.delegation.clone(),
            child_task: self.child_task.clone(),
            child_run: copy_optional(&self.child_run),
            peer_status: self.peer_status.clone(),
        }
    }
}

/// The receipt of a workflow start.
#[derive(Debug)]
pub struct AgentWorkflowStartReceipt {
    /// The invocation.
    pub invocation: AgentWorkflowInvocationId,
    /// The workflow run.
    pub child_run: String,
    /// Whether a run already started was adopted.
    pub adopted: bool,
}

impl Clone for AgentWorkflowStartReceipt {
    fn clone(&self) -> (copy: Self)
        ensures
            copy == *self,
    {
        AgentWorkflowStartReceipt {
            invocation: self.invocation.clone(),
            child_run: self.child_run.clone(),
            adopted: self.adopted,
        }
    }
}

/// The verdict of a goal evaluation.
#[derive(Debug, Clone, Copy, PartialEq, Eq, Structural)]
#[non_exhaustive]
pub enum AgentGoalEvaluationOutcome {
    /// The goal is met.
    Satisfied,
    /// The goal is not met.
    NotSatisfied,
    /// The evidence does not decide.
    Inconclusive,
}

impl Clone for AgentGoalEvidenceRef {
    fn clone(&self) -> (copy: Self)
        ensures
            copy == *self,
    {
        AgentGoalEvidenceRef {
            class: self.class.clone(),
            artifact: match &self.artifact {
                Some(artifact) => Some(artifact.clone()),
                None => None,
            },
            digest: match &self.digest {
                Some(digest) => Some(digest.clone()),
                None => None,
            },
        }
    }
}

/// Copies a list of evidence.
fn copy_evidence(evidence: &Vec<AgentGoalEvidenceRef>) -> (copy: Vec<AgentGoalEvidenceRef>)
    ensures
        copy@ == evidence@,
{
    let mut copy: Vec<AgentGoalEvidenceRef> = Vec::new();
    let mut i: usize = 0;
    while i < evidence.len()
        invariant
            i <= evidence@.len(),
            copy@ == evidence@.subrange(0, i as int),
        decreases evidence.len() - i,
    {
        copy.push(evidence[i].clone());
        i = i + 1;
        assert(copy@ =~= evidence@.subrange(0, i as int));
    }
    assert(copy@ =~= evidence@);
    copy
}

/// The durable record of one goal evaluation.
#[derive(Debug)]
pub struct AgentGoalEvaluationRecord {
    /// The record's identity.
    pub evaluation_id: String,
    /// The goal.
    pub goal: AgentGoalId,
    /// The evaluator.
    pub evaluator: String,
    /// How the verdict was reached.
    pub method: AgentGoalEvaluationMethod,
    /// The revision of the criteria.
    pub criteria_revision: AgentRevisionNumber,
    /// The verdict.
    pub outcome: AgentGoalEvaluationOutcome,
    /// Why, as a stable code.
    pub reason_code: String,
    /// The evidence.
    pub evidence: Vec<AgentGoalEvidenceRef>,
    /// Who decided, when a person did.
    pub evaluated_by: Option<PrincipalRef>,
    /// The effect that evaluated.
    pub effect_id: AgentEffectId,
    /// The effect's generation.
    pub generation: AgentEffectGeneration,
    /// When.
    pub evaluated_at: AgentTimestampMillis,
}

/// What an evaluation record says.
pub struct RecordModel {
    /// The record's identity.
    pub evaluation_id: Seq<char>,
    /// The goal.
    pub goal: AgentGoalId,
    /// The evaluator.
    pub evaluator: Seq<char>,
    /// How the verdict was reached.
    pub method: AgentGoalEvaluationMethod,
    /// The revision of the criteria.
    pub criteria_revision: AgentRevisionNumber,
    /// The verdict.
    pub outcome: AgentGoalEvaluationOutcome,
    /// Why.
    pub reason_code: Seq<char>,
    /// The evidence.
    pub evidence: Seq<EvidenceModel>,
    /// Who decided.
    pub evaluated_by: Option<PrincipalRef>,
    /// The effect that evaluated.
    pub effect_id: AgentEffectId,
    /// The effect's generation.
    pub generation: AgentEffectGeneration,
    /// When.
    pub evaluated_at: AgentTimestampMillis,
}

/// What a piece of evidence says.
pub struct EvidenceModel {
    /// The class of evidence.
    pub class: Seq<char>,
    /// The artifact that holds it.
    pub artifact: Option<String>,
    /// Its fingerprint.
    pub digest: Option<AgentContentDigest>,
}

impl View for AgentGoalEvidenceRef {
    type V = EvidenceModel;

    open spec fn view(&self) -> EvidenceModel {
        EvidenceModel { class: self.class@, artifact: self.artifact, digest: self.digest }
    }
}

/// What a list of evidence says.
pub open spec fn evidence_model(evidence: Seq<AgentGoalEvidenceRef>) -> Seq<EvidenceModel> {
    evidence.map_values(|piece: AgentGoalEvidenceRef| piece@)
}

impl View for AgentGoalEvaluationRecord {
    type V = RecordModel;

    open spec fn view(&self) -> RecordModel {
        RecordModel {
            evaluation_id: self.evaluation_id@,
            goal: self.goal,
            evaluator: self.evaluator@,
            method: self.method,
            criteria_revision: self.criteria_revision,
            outcome: self.outcome,
            reason_code: self.reason_code@,
            evidence: evidence_model(self.evidence@),
            evaluated_by: self.evaluated_by,
            effect_id: self.effect_id,
            generation: self.generation,
            evaluated_at: self.evaluated_at,
        }
    }
}

impl Clone for AgentGoalEvaluationRecord {
    fn clone(&self) -> (copy: Self)
        ensures
            copy@ == self@,
    {
        AgentGoalEvaluationRecord {
            evaluation_id: self.evaluation_id.clone(),
            goal: self.goal.clone(),
            evaluator: self.evaluator.clone(),
            method: self.method,
            criteria_revision: self.criteria_revision,
            outcome: self.outcome,
            reason_code: self.reason_code.clone(),
            evidence: copy_evidence(&self.evidence),
            evaluated_by: match &self.evaluated_by {
                Some(principal) => Some(principal.clone()),
                None => None,
            },
            effect_id: self.effect_id.clone(),
            generation: self.generation,
            evaluated_at: self.evaluated_at,
        }
    }
}

/// What became of one effect.
#[derive(Debug)]
#[non_exhaustive]
#[allow(inconsistent_fields)]
pub enum AgentRunEffectOutcome {
    /// The model produced a turn.
    Model {
        /// The turn.
        turn: AgentModelTurn,
    },
    /// A tool or a compensation returned.
    Tool {
        /// The call.
        call_id: AgentToolCallId,
        /// What it returned.
        content: AgentTaskContent,
    },
    /// Memory was promoted.
    MemoryPromotion {
        /// The promoted memory.
        promoted: String,
    },
    /// A goal was evaluated.
    Evaluation {
        /// The record.
        record: AgentGoalEvaluationRecord,
    },
    /// A peer took a delegation.
    A2aSend {
        /// The receipt.
        receipt: AgentA2aSendReceipt,
    },
    /// A workflow runs.
    WorkflowStart {
        /// The receipt.
        receipt: AgentWorkflowStartReceipt,
    },
    /// A workflow was asked to stop.
    WorkflowCancel {
        /// Whether it had finished already.
        already_finished: bool,
    },
    /// A claim was appended.
    ClaimAppend {
        /// The claim.
        claim: String,
    },
    /// The effect failed, for good in its generation.
    Failed {
        /// The stable code.
        code: String,
        /// The failure in words.
        message: String,
    },
}

/// What an outcome says.
pub enum OutcomeModel {
    /// The model produced a turn.
    Model(AgentModelTurn),
    /// A tool or a compensation returned: the call, and its content.
    Tool(Seq<char>, AgentTaskContent),
    /// Memory was promoted.
    MemoryPromotion(String),
    /// A goal was evaluated.
    Evaluation(RecordModel),
    /// A peer took a delegation.
    A2aSend(AgentA2aSendReceipt),
    /// A workflow runs.
    WorkflowStart(AgentWorkflowStartReceipt),
    /// A workflow was asked to stop; whether it had finished already.
    WorkflowCancel(bool),
    /// A claim was appended.
    ClaimAppend(String),
    /// The effect failed: the code, and the words.
    Failed(Seq<char>, Seq<char>),
}

impl View for AgentRunEffectOutcome {
    type V = OutcomeModel;

    open spec fn view(&self) -> OutcomeModel {
        match self {
            AgentRunEffectOutcome::Model { turn } => OutcomeModel::Model(*turn),
            AgentRunEffectOutcome::Tool { call_id, content } => OutcomeModel::Tool(
                call_id@,
                *content,
            ),
            AgentRunEffectOutcome::MemoryPromotion { promoted } => OutcomeModel::MemoryPromotion(
                *promoted,
            ),
            AgentRunEffectOutcome::Evaluation { record } => OutcomeModel::Evaluation(record@),
            AgentRunEffectOutcome::A2aSend { receipt } => OutcomeModel::A2aSend(*receipt),
            AgentRunEffectOutcome::WorkflowStart { receipt } => OutcomeModel::WorkflowStart(
                *receipt,
            ),
            AgentRunEffectOutcome::WorkflowCancel { already_finished } =>
            OutcomeModel::WorkflowCancel(*already_finished),
            AgentRunEffectOutcome::ClaimAppend { claim } => OutcomeModel::ClaimAppend(*claim),
            AgentRunEffectOutcome::Failed { code, message } => OutcomeModel::Failed(
                code@,
                message@,
            ),
        }
    }
}

impl Clone for AgentRunEffectOutcome {
    fn clone(&self) -> (copy: Self)
        ensures
            copy@ == self@,
    {
        match self {
            AgentRunEffectOutcome::Model { turn } => AgentRunEffectOutcome::Model {
                turn: turn.clone(),
            },
            AgentRunEffectOutcome::Tool { call_id, content } => AgentRunEffectOutcome::Tool {
                call_id: call_id.clone(),
                content: content.clone(),
            },
            AgentRunEffectOutcome::MemoryPromotion { promoted } => {
                AgentRunEffectOutcome::MemoryPromotion { promoted: promoted.clone() }
            },
            AgentRunEffectOutcome::Evaluation { record } => AgentRunEffectOutcome::Evaluation {
                record: record.clone(),
            },
            AgentRunEffectOutcome::A2aSend { receipt } => AgentRunEffectOutcome::A2aSend {
                receipt: receipt.clone(),
            },
            AgentRunEffectOutcome::WorkflowStart { receipt } => {
                AgentRunEffectOutcome::WorkflowStart { receipt: receipt.clone() }
            },
            AgentRunEffectOutcome::WorkflowCancel { already_finished } => {
                AgentRunEffectOutcome::WorkflowCancel { already_finished: *already_finished }
            },
            AgentRunEffectOutcome::ClaimAppend { claim } => AgentRunEffectOutcome::ClaimAppend {
                claim: claim.clone(),
            },
            AgentRunEffectOutcome::Failed { code, message } => AgentRunEffectOutcome::Failed {
                code: code.clone(),
                message: message.clone(),
            },
        }
    }
}

impl AgentRunEffectOutcome {
    /// The code of a failure.
    pub fn failure_code(&self) -> (code: Option<&str>)
        ensures
            match code {
                Some(code) => self@ is Failed && self@->Failed_0 == code@,
                None => !(self@ is Failed),
            },
    {
        match self {
            AgentRunEffectOutcome::Failed { code, .. } => Some(code.as_str()),
            _ => None,
        }
    }
}

/// A failed outcome.
pub fn failed_outcome(code: &str, message: &str) -> (outcome: AgentRunEffectOutcome)
    ensures
        outcome@ == OutcomeModel::Failed(code@, message@),
{
    AgentRunEffectOutcome::Failed { code: code.to_owned(), message: message.to_owned() }
}

/// What a produced turn becomes: a turn that cannot be bounded fails its effect.
pub open spec fn model_result(produced: Result<AgentModelTurn, AgentModelError>) -> OutcomeModel {
    match produced {
        Ok(turn) => match turn.objection() {
            Some(error) => OutcomeModel::Failed(error.code_text(), error.message_text()),
            None => OutcomeModel::Model(turn),
        },
        Err(error) => OutcomeModel::Failed(error.code_text(), error.message_text()),
    }
}

/// Wraps what an adapter produced as the model effect's outcome.
pub fn model_outcome(produced: Result<AgentModelTurn, AgentModelError>) -> (outcome:
    AgentRunEffectOutcome)
    ensures
        outcome@ == model_result(produced),
{
    match produced {
        Ok(turn) => match turn.validate() {
            Ok(()) => AgentRunEffectOutcome::Model { turn },
            Err(error) => {
                let message = error.message();
                failed_outcome(error.code(), message.as_str())
            },
        },
        Err(error) => {
            let message = error.message();
            failed_outcome(error.code(), message.as_str())
        },
    }
}

/// What a send to a peer found.
#[derive(Debug)]
#[non_exhaustive]
pub enum AgentA2aSendFinding {
    /// The peer took the delegation.
    Sent {
        /// The task the peer opened.
        child_task: AgentTaskId,
        /// The run the peer opened, when it said.
        child_run: Option<AgentRunId>,
        /// The status the peer reported.
        peer_status: String,
    },
    /// The peer holds another delegation under the same key.
    Conflict {
        /// The stable code.
        code: String,
        /// The conflict in words.
        message: String,
    },
    /// The peer refused.
    Refused {
        /// The stable code.
        code: String,
        /// The refusal in words.
        message: String,
    },
}

/// What a send's finding becomes.
pub open spec fn a2a_send_result(
    delegation: AgentDelegationRecord,
    found: Result<AgentA2aSendFinding, AgentDispatchError>,
) -> OutcomeModel {
    match found {
        Ok(AgentA2aSendFinding::Sent { child_task, child_run, peer_status }) => {
            OutcomeModel::A2aSend(
                AgentA2aSendReceipt {
                    delegation: delegation.delegation,
                    child_task,
                    child_run,
                    peer_status,
                },
            )
        },
        Ok(AgentA2aSendFinding::Conflict { code, message })
        | Ok(AgentA2aSendFinding::Refused { code, message }) => OutcomeModel::Failed(
            code@,
            message@,
        ),
        Err(error) => OutcomeModel::Failed("a2a-send-attempt-failed"@, error.message@),
    }
}

/// Wraps what a send to a peer found as the effect's outcome.
pub fn a2a_send_outcome(
    delegation: &AgentDelegationRecord,
    found: Result<AgentA2aSendFinding, AgentDispatchError>,
) -> (outcome: AgentRunEffectOutcome)
    ensures
        outcome@ == a2a_send_result(*delegation, found),
{
    match found {
        Ok(AgentA2aSendFinding::Sent { child_task, child_run, peer_status }) => {
            AgentRunEffectOutcome::A2aSend {
                receipt: AgentA2aSendReceipt {
                    delegation: delegation.delegation.clone(),
                    child_task,
                    child_run,
                    peer_status,
                },
            }
        },
        Ok(AgentA2aSendFinding::Conflict { code, message }) => AgentRunEffectOutcome::Failed {
            code,
            message,
        },
        Ok(AgentA2aSendFinding::Refused { code, message }) => AgentRunEffectOutcome::Failed {
            code,
            message,
        },
        Err(error) => failed_outcome("a2a-send-attempt-failed", error.message.as_str()),
    }
}

/// What a workflow start found.
#[derive(Debug)]
#[non_exhaustive]
pub enum AgentWorkflowStartFinding {
    /// A run was started.
    Started,
    /// A run already started was adopted.
    Adopted,
    /// Another invocation holds the run.
    Conflict {
        /// The stable code.
        code: String,
        /// The conflict in words.
        message: String,
    },
    /// The start was refused.
    Refused {
        /// The stable code.
        code: String,
        /// The refusal in words.
        message: String,
    },
}

/// What a start's finding becomes; every conflict has one code.
pub open spec fn workflow_start_result(
    invocation: AgentWorkflowInvocationRecord,
    found: Result<AgentWorkflowStartFinding, AgentDispatchError>,
) -> OutcomeModel {
    match found {
        Ok(AgentWorkflowStartFinding::Started) => OutcomeModel::WorkflowStart(
            AgentWorkflowStartReceipt {
                invocation: invocation.invocation,
                child_run: invocation.child_run,
                adopted: false,
            },
        ),
        Ok(AgentWorkflowStartFinding::Adopted) => OutcomeModel::WorkflowStart(
            AgentWorkflowStartReceipt {
                invocation: invocation.invocation,
                child_run: invocation.child_run,
                adopted: true,
            },
        ),
        Ok(AgentWorkflowStartFinding::Conflict { code, message }) => OutcomeModel::Failed(
            AGENT_WORKFLOW_INVOCATION_CONFLICT_CODE@,
            code@ + ": "@ + message@,
        ),
        Ok(AgentWorkflowStartFinding::Refused { code, message }) => OutcomeModel::Failed(
            code@,
            message@,
        ),
        Err(error) => OutcomeModel::Failed("workflow-start-attempt-failed"@, error.message@),
    }
}

/// Wraps what a workflow start found as the effect's outcome.
pub fn workflow_start_outcome(
    invocation: &AgentWorkflowInvocationRecord,
    found: Result<AgentWorkflowStartFinding, AgentDispatchError>,
) -> (outcome: AgentRunEffectOutcome)
    ensures
        outcome@ == workflow_start_result(*invocation, found),
{
    let adopted = match &found {
        Ok(AgentWorkflowStartFinding::Adopted) => true,
        _ => false,
    };
    match found {
        Ok(AgentWorkflowStartFinding::Started) | Ok(AgentWorkflowStartFinding::Adopted) => {
            AgentRunEffectOutcome::WorkflowStart {
                receipt: AgentWorkflowStartReceipt {
                    invocation: invocation.invocation.clone(),
                    child_run: invocation.child_run.clone(),
                    adopted,
                },
            }
        },
        Ok(AgentWorkflowStartFinding::Conflict { code, message }) => {
            let text = join3(code.as_str(), ": ", message.as_str());
            failed_outcome(AGENT_WORKFLOW_INVOCATION_CONFLICT_CODE, text.as_str())
        },
        Ok(AgentWorkflowStartFinding::Refused { code, message }) => AgentRunEffectOutcome::Failed {
            code,
            message,
        },
        Err(error) => failed_outcome("workflow-start-attempt-failed", error.message.as_str()),
    }
}

/// What a workflow cancellation found.
#[derive(Debug)]
#[non_exhaustive]
pub enum AgentWorkflowCancelFinding {
    /// The run was asked to stop.
    Requested,
    /// The run had finished already.
    AlreadyFinished,
    /// The cancellation was refused.
    Refused {
        /// The stable code.
        code: String,
        /// The refusal in words.
        message: String,
    },
}

/// What a cancellation's finding becomes.
pub open spec fn workflow_cancel_result(
    found: Result<AgentWorkflowCancelFinding, AgentDispatchError>,
) -> OutcomeModel {
    match found {
        Ok(AgentWorkflowCancelFinding::Requested) => OutcomeModel::WorkflowCancel(false),
        Ok(AgentWorkflowCancelFinding::AlreadyFinished) => OutcomeModel::WorkflowCancel(true),
        Ok(AgentWorkflowCancelFinding::Refused { code, message }) => OutcomeModel::Failed(
            code@,
            message@,
        ),
        Err(error) => OutcomeModel::Failed("workflow-cancel-attempt-failed"@, error.message@),
    }
}

/// Wraps what a workflow cancellation found as the effect's outcome.
pub fn workflow_cancel_outcome(
    found: Result<AgentWorkflowCancelFinding, AgentDispatchError>,
) -> (outcome: AgentRunEffectOutcome)
    ensures
        outcome@ == workflow_cancel_result(found),
{
    match found {
        Ok(AgentWorkflowCancelFinding::Requested) => AgentRunEffectOutcome::WorkflowCancel {
            already_finished: false,
        },
        Ok(AgentWorkflowCancelFinding::AlreadyFinished) => AgentRunEffectOutcome::WorkflowCancel {
            already_finished: true,
        },
        Ok(AgentWorkflowCancelFinding::Refused { code, message }) => {
            AgentRunEffectOutcome::Failed { code, message }
        },
        Err(error) => failed_outcome("workflow-cancel-attempt-failed", error.message.as_str()),
    }
}

/// What a claim append found.
#[derive(Debug)]
#[non_exhaustive]
pub enum AgentClaimAppendFinding {
    /// The claim was appended.
    Appended {
        /// The claim.
        claim: String,
    },
    /// The append was refused.
    Refused {
        /// The stable code.
        code: String,
        /// The refusal in words.
        message: String,
    },
}

/// What an append's finding becomes.
pub open spec fn claim_append_result(
    found: Result<AgentClaimAppendFinding, AgentDispatchError>,
) -> OutcomeModel {
    match found {
        Ok(AgentClaimAppendFinding::Appended { claim }) => OutcomeModel::ClaimAppend(claim),
        Ok(AgentClaimAppendFinding::Refused { code, message }) => OutcomeModel::Failed(
            code@,
            message@,
        ),
        Err(error) => OutcomeModel::Failed("claim-append-attempt-failed"@, error.message@),
    }
}

/// Wraps what a claim append found as the effect's outcome.
pub fn appended_outcome(found: Result<AgentClaimAppendFinding, AgentDispatchError>) -> (outcome:
    AgentRunEffectOutcome)
    ensures
        outcome@ == claim_append_result(found),
{
    match found {
        Ok(AgentClaimAppendFinding::Appended { claim }) => AgentRunEffectOutcome::ClaimAppend {
            claim,
        },
        Ok(AgentClaimAppendFinding::Refused { code, message }) => AgentRunEffectOutcome::Failed {
            code,
            message,
        },
        Err(error) => failed_outcome("claim-append-attempt-failed", error.message.as_str()),
    }
}

/// What a memory promotion found.
#[derive(Debug)]
#[non_exhaustive]
pub enum AgentMemoryPromotionFinding {
    /// The memory was promoted.
    Promoted {
        /// The promoted memory.
        promoted: String,
    },
    /// The promotion was refused.
    Refused {
        /// The stable code.
        code: String,
        /// The refusal in words.
        message: String,
    },
}

/// What a promotion's finding becomes.
pub open spec fn promotion_result(
    found: Result<AgentMemoryPromotionFinding, AgentDispatchError>,
) -> OutcomeModel {
    match found {
        Ok(AgentMemoryPromotionFinding::Promoted { promoted }) => OutcomeModel::MemoryPromotion(
            promoted,
        ),
        Ok(AgentMemoryPromotionFinding::Refused { code, message }) => OutcomeModel::Failed(
            code@,
            message@,
        ),
        Err(error) => OutcomeModel::Failed("memory-promotion-attempt-failed"@, error.message@),
    }
}

/// Wraps what a memory promotion found as the effect's outcome.
pub fn promoted_outcome(
    found: Result<AgentMemoryPromotionFinding, AgentDispatchError>,
) -> (outcome: AgentRunEffectOutcome)
    ensures
        outcome@ == promotion_result(found),
{
    match found {
        Ok(AgentMemoryPromotionFinding::Promoted { promoted }) => {
            AgentRunEffectOutcome::MemoryPromotion { promoted }
        },
        Ok(AgentMemoryPromotionFinding::Refused { code, message }) => {
            AgentRunEffectOutcome::Failed { code, message }
        },
        Err(error) => failed_outcome("memory-promotion-attempt-failed", error.message.as_str()),
    }
}

/// What a goal evaluation found.
#[derive(Debug)]
#[non_exhaustive]
pub enum AgentGoalEvaluationFinding {
    /// A verdict was reached.
    Evaluated {
        /// The verdict.
        outcome: AgentGoalEvaluationOutcome,
        /// Why, as a stable code.
        reason_code: String,
        /// The evidence.
        evidence: Vec<AgentGoalEvidenceRef>,
        /// Who decided, when a person did.
        evaluated_by: Option<PrincipalRef>,
    },
    /// The evaluation was refused.
    Refused {
        /// The stable code.
        code: String,
        /// The refusal in words.
        message: String,
    },
}

/// What an evaluation's finding says.
pub enum FindingModel {
    /// What was decided, why, on which evidence, and by whom.
    Evaluated(
        AgentGoalEvaluationOutcome,
        Seq<char>,
        Seq<EvidenceModel>,
        Option<PrincipalRef>,
    ),
    /// A refusal: the code, and the words.
    Refused(Seq<char>, Seq<char>),
}

impl View for AgentGoalEvaluationFinding {
    type V = FindingModel;

    open spec fn view(&self) -> FindingModel {
        match self {
            AgentGoalEvaluationFinding::Evaluated {
                outcome,
                reason_code,
                evidence,
                evaluated_by,
            } => FindingModel::Evaluated(
                *outcome,
                reason_code@,
                evidence_model(evidence@),
                *evaluated_by,
            ),
            AgentGoalEvaluationFinding::Refused { code, message } => FindingModel::Refused(
                code@,
                message@,
            ),
        }
    }
}

/// A person's approval of one effect.
#[derive(Debug)]
pub struct AgentCheckpointGrant {
    /// The fingerprint of what was approved.
    pub argument_digest: AgentContentDigest,
    /// Who approved it.
    pub resolver: PrincipalRef,
}

/// The finding a person's approval amounts to: the goal is met, with the
/// decision as the last piece of evidence.
pub open spec fn approved(
    evaluation: AgentGoalEvaluationRequest,
    grant: AgentCheckpointGrant,
) -> FindingModel {
    FindingModel::Evaluated(
        AgentGoalEvaluationOutcome::Satisfied,
        "human-approved"@,
        evidence_model(evaluation.evidence@).push(
            EvidenceModel {
                class: AGENT_GOAL_EVALUATION_HUMAN_DECISION_CLASS@,
                artifact: None,
                digest: Some(grant.argument_digest),
            },
        ),
        Some(grant.resolver),
    )
}

/// Reads a person's approval as a finding.
pub fn approval_finding(
    evaluation: &AgentGoalEvaluationRequest,
    grant: &AgentCheckpointGrant,
) -> (finding: AgentGoalEvaluationFinding)
    ensures
        finding@ == approved(*evaluation, *grant),
{
    let mut evidence = copy_evidence(&evaluation.evidence);
    evidence.push(
        AgentGoalEvidenceRef {
            class: AGENT_GOAL_EVALUATION_HUMAN_DECISION_CLASS.to_owned(),
            artifact: None,
            digest: Some(grant.argument_digest.clone()),
        },
    );
    assert(evidence_model(evidence@) =~= evidence_model(evaluation.evidence@).push(
        EvidenceModel {
            class: AGENT_GOAL_EVALUATION_HUMAN_DECISION_CLASS@,
            artifact: None,
            digest: Some(grant.argument_digest),
        },
    ));
    AgentGoalEvaluationFinding::Evaluated {
        outcome: AgentGoalEvaluationOutcome::Satisfied,
        reason_code: "human-approved".to_owned(),
        evidence,
        evaluated_by: Some(grant.resolver.clone()),
    }
}

/// The text of an evaluation record's identity.
pub open spec fn evaluation_text(
    scope: AgentRunScope,
    turn: u64,
    slot: u64,
    generation: AgentEffectGeneration,
) -> Seq<char> {
    canonical_segments(
        seq![
            scope.tenant@,
            scope.agent@,
            scope.run@,
            decimal(turn as nat),
            decimal(slot as nat),
            decimal(generation.number as nat),
        ],
    )
}

/// Derives the identity of an evaluation record; a scope whose tenant keys
/// nothing has none.
pub fn goal_evaluation_record_id(
    scope: &AgentRunScope,
    turn: u64,
    slot: u64,
    generation: AgentEffectGeneration,
) -> (result: Result<String, AgentIdentityError>)
    ensures
        result is Ok <==> scope.tenant@.len() > 0,
        result is Ok ==> result->Ok_0@ == evaluation_text(*scope, turn, slot, generation),
        result is Err ==> result->Err_0 == AgentIdentityError::Empty,
{
    match validate_tenant(&scope.tenant) {
        Ok(()) => {},
        Err(error) => {
            return Err(error);
        },
    }
    let turn_text = decimal_string(turn);
    let slot_text = decimal_string(slot);
    let generation_text = decimal_string(generation.number as u64);
    let segments: [&str; 6] = [
        scope.tenant.as_str(),
        scope.agent.as_str(),
        scope.run.as_str(),
        turn_text.as_str(),
        slot_text.as_str(),
        generation_text.as_str(),
    ];
    let text = canonical_text(&segments);
    proof {
        assert(texts(segments@) =~= seq![
            scope.tenant@,
            scope.agent@,
            scope.run@,
            decimal(turn as nat),
            decimal(slot as nat),
            decimal(generation.number as nat),
        ]);
    }
    Ok(text)
}

/// The failure of a verdict without a reason.
pub const EVALUATION_WITHOUT_REASON: &'static str = "an evaluation states the reason of its verdict";

/// What an evaluation's finding becomes: a record of the verdict, if it states
/// its reason.
pub open spec fn evaluation_result(
    evaluation_id: Seq<char>,
    evaluation: AgentGoalEvaluationRequest,
    effect: AgentRunEffect,
    now: AgentTimestampMillis,
    finding: FindingModel,
) -> OutcomeModel {
    match finding {
        FindingModel::Evaluated(outcome, reason_code, evidence, evaluated_by) => if reason_code.len()
            == 0 {
            OutcomeModel::Failed("evaluation-record-invalid"@, EVALUATION_WITHOUT_REASON@)
        } else {
            OutcomeModel::Evaluation(
                RecordModel {
                    evaluation_id,
                    goal: evaluation.goal,
                    evaluator: evaluation.evaluator@,
                    method: evaluation.method,
                    criteria_revision: evaluation.criteria_revision,
                    outcome,
                    reason_code,
                    evidence,
                    evaluated_by,
                    effect_id: effect.effect_id,
                    generation: effect.generation,
                    evaluated_at: now,
                },
            )
        },
        FindingModel::Refused(code, message) => OutcomeModel::Failed(code, message),
    }
}

/// Wraps what a goal evaluation found as the effect's outcome.
pub fn evaluated_outcome(
    evaluation_id: String,
    evaluation: &AgentGoalEvaluationRequest,
    effect: &AgentRunEffect,
    now: AgentTimestampMillis,
    finding: AgentGoalEvaluationFinding,
) -> (outcome: AgentRunEffectOutcome)
    ensures
        outcome@ == evaluation_result(evaluation_id@, *evaluation, *effect, now, finding@),
{
    match finding {
        AgentGoalEvaluationFinding::Evaluated {
            outcome,
            reason_code,
            evidence,
            evaluated_by,
        } => {
            if reason_code.as_str().is_empty() {
                return failed_outcome("evaluation-record-invalid", EVALUATION_WITHOUT_REASON);
            }
            AgentRunEffectOutcome::Evaluation {
                record: AgentGoalEvaluationRecord {
                    evaluation_id,
                    goal: evaluation.goal.clone(),
                    evaluator: evaluation.evaluator.clone(),
                    method: evaluation.method,
                    criteria_revision: evaluation.criteria_revision,
                    outcome,
                    reason_code,
                    evidence,
                    evaluated_by,
                    effect_id: effect.effect_id.clone(),
                    generation: effect.generation,
                    evaluated_at: now,
                },
            }
        },
        AgentGoalEvaluationFinding::Refused { code, message } => AgentRunEffectOutcome::Failed {
            code,
            message,
        },
    }
}

/// The key one effect's answer is remembered under: the effect and its dispatch
/// generation.
pub open spec fn memo_text(effect_id: Seq<char>, generation: u32) -> Seq<char> {
    effect_id + "#"@ + decimal(generation as nat)
}

/// The key one effect's answer is remembered under.
pub fn memo_key(effect: &AgentRunEffect) -> (key: String)
    ensures
        key@ == memo_text(effect.effect_id@, effect.generation.number),
{
    let generation = decimal_string(effect.generation.get() as u64);
    join3(effect.effect_id.as_str(), "#", generation.as_str())
}

proof fn lemma_memo_lengths(
    first: Seq<char>,
    first_generation: u32,
    second: Seq<char>,
    second_generation: u32,
)
    requires
        memo_text(first, first_generation) == memo_text(second, second_generation),
    ensures
        first.len() >= second.len(),
{
    reveal_strlit("#");
    let text = memo_text(first, first_generation);
    if first.len() < second.len() {
        let digits = decimal(first_generation as nat);
        lemma_decimal_digits(first_generation as nat);
        assert(memo_text(second, second_generation)[second.len() as int] == '#');
        let at = second.len() - first.len() - 1;
        assert("#"@.len() == 1);
        assert(text.len() == second.len() + 1 + decimal(second_generation as nat).len());
        assert(0 <= at < digits.len());
        assert((first + "#"@).len() == first.len() + 1);
        assert(text[second.len() as int] == digits[at]);
        assert(is_digit(digits[at]));
    }
}

/// Answers of different effects, or of different generations of one effect, are
/// remembered apart.
pub proof fn answers_are_remembered_apart(
    first: Seq<char>,
    first_generation: u32,
    second: Seq<char>,
    second_generation: u32,
)
    requires
        memo_text(first, first_generation) == memo_text(second, second_generation),
    ensures
        first == second,
        first_generation == second_generation,
{
    reveal_strlit("#");
    lemma_memo_lengths(first, first_generation, second, second_generation);
    lemma_memo_lengths(second, second_generation, first, first_generation);
    let text = memo_text(first, first_generation);
    let size = first.len() as int;
    assert(text.subrange(0, size) =~= first);
    assert(memo_text(second, second_generation).subrange(0, size) =~= second);
    assert(text.subrange(size + 1, text.len() as int) =~= decimal(first_generation as nat));
    assert(memo_text(second, second_generation).subrange(size + 1, text.len() as int) =~= decimal(
        second_generation as nat,
    ));
    lemma_decimal_injective(first_generation as nat, second_generation as nat);
}

} // verus!
