//! Guardrail chains, and what one decided of a request.

use vstd::prelude::*;
use vstd::string::*;

use crate::collections::IdSet;
use crate::definition::{AgentGuardrailStageId, AgentModelProfileId, GuardrailStageTag};
use crate::identity::AgentRevisionNumber;
use crate::json::{
    copy_json, field, fields_model, json_number, json_object, json_optional, json_string,
    number_value, object_value, optional_value, string_value,
};

verus! {

/// The deployment's guardrail chain: its revision and the stages it runs.
#[derive(Debug)]
pub struct AgentGuardrailChain {
    /// The chain's revision.
    pub revision: AgentRevisionNumber,
    /// The stages it runs.
    pub stages: IdSet<GuardrailStageTag>,
}

impl AgentGuardrailChain {
    /// Whether the chain runs every required stage.
    pub fn covers(&self, required: &IdSet<GuardrailStageTag>) -> (result: bool)
        ensures
            result == required@.subset_of(self.stages@),
    {
        required.is_subset(&self.stages)
    }
}

/// Where a chain looks at a request.
#[derive(Debug, Clone, Copy, PartialEq, Eq, Structural)]
#[non_exhaustive]
pub enum AgentGuardrailBoundary {
    /// Before a tool is called.
    ToolRequest,
    /// Before a model is called.
    ModelRequest,
}

/// What a chain is asked to evaluate.
#[derive(Debug)]
pub enum AgentGuardrailRequest {
    /// A tool call.
    ToolRequest {
        /// The call's arguments.
        content: serde_json::Value,
    },
    /// A model call.
    ModelRequest {
        /// The profile the call resolves to.
        profile: Option<AgentModelProfileId>,
        /// The run's turn.
        turn: u64,
    },
}

/// The fields that describe a model call.
pub open spec fn model_call_fields(profile: Option<AgentModelProfileId>, turn: u64) -> Seq<
    (Seq<char>, serde_json::Value),
> {
    seq![
        ("kind"@, json_string("model-call"@)),
        (
            "profile"@,
            json_optional(
                match profile {
                    Some(profile) => Some(json_string(profile@)),
                    None => None,
                },
            ),
        ),
        ("turn"@, json_number(turn)),
    ]
}

impl AgentGuardrailRequest {
    /// Where the chain looks at the request.
    pub fn boundary(&self) -> (boundary: AgentGuardrailBoundary)
        ensures
            boundary == (if self is ToolRequest {
                AgentGuardrailBoundary::ToolRequest
            } else {
                AgentGuardrailBoundary::ModelRequest
            }),
    {
        match self {
            AgentGuardrailRequest::ToolRequest { .. } => AgentGuardrailBoundary::ToolRequest,
            AgentGuardrailRequest::ModelRequest { .. } => AgentGuardrailBoundary::ModelRequest,
        }
    }

    /// What the stages read: the arguments of a tool call, and of a model call a
    /// bounded description.
    pub open spec fn read(&self) -> serde_json::Value {
        match *self {
            AgentGuardrailRequest::ToolRequest { content } => content,
            AgentGuardrailRequest::ModelRequest { profile, turn } => json_object(
                model_call_fields(profile, turn),
            ),
        }
    }

    /// What the stages read.
    pub fn content(&self) -> (content: serde_json::Value)
        ensures
            content == self.read(),
    {
        match self {
            AgentGuardrailRequest::ToolRequest { content: arguments } => copy_json(arguments),
            AgentGuardrailRequest::ModelRequest { profile, turn } => {
                let named = match profile {
                    Some(profile) => Some(string_value(profile.as_str())),
                    None => None,
                };
                let fields: Vec<(String, serde_json::Value)> = vec![
                    field("kind", string_value("model-call")),
                    field("profile", optional_value(named)),
                    field("turn", number_value(*turn)),
                ];
                assert(fields_model(fields@) =~= model_call_fields(*profile, *turn));
                object_value(fields)
            },
        }
    }
}

/// What a chain decided of a request.
#[derive(Debug)]
#[non_exhaustive]
pub enum AgentGuardrailDisposition {
    /// The request may go on.
    Allowed,
    /// A stage blocked the request.
    Blocked {
        /// The stage.
        stage: AgentGuardrailStageId,
        /// Why.
        reason_code: String,
    },
    /// A stage asks for a checkpoint grant.
    CheckpointRequired {
        /// The stage.
        stage: AgentGuardrailStageId,
        /// Why.
        reason_code: String,
    },
}

/// A report-only finding of a stage.
#[derive(Debug)]
pub struct AgentGuardrailReport {
    /// The stage.
    pub stage: AgentGuardrailStageId,
    /// What it found.
    pub reason_code: String,
}

/// A chain's evaluation of a request.
#[derive(Debug)]
pub struct AgentGuardrailDecision {
    /// What was decided.
    pub disposition: AgentGuardrailDisposition,
    /// The request's content, when a stage transformed it.
    pub transformed: Option<serde_json::Value>,
    /// Report-only findings.
    pub reports: Vec<AgentGuardrailReport>,
}

} // verus!
