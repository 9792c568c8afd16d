//! The tool registry: what tools exist, and what failure policy each permits.

use vstd::prelude::*;
use vstd::string::*;

use crate::collections::{
    keys_in_order, text_before, text_order_is_strict_and_total, IdMap, IdSet,
};
use crate::definition::{
    AgentAuthorityEnvelope, AgentEffectSafetyClass, AgentGuardrailStageId, AgentSettings,
    AgentToolDeclaration, DeclarationModel, GuardrailStageTag,
};
use crate::effect::{
    json_digest, AgentContentDigest, AgentEffectError, AgentEffectSpec,
    AgentReconciliationProtocolRef, AgentRunEffectRequest,
};
use crate::identity::{copy_optional, AgentRevisionNumber, AgentToolId, Identifier, ToolTag};
use crate::json::{
    copy_json, field, fields_model, json_number, json_object, json_optional, json_string,
    json_text, number_value, object_value, optional_value, string_value, write_json,
};
use crate::text::{byte_len, decimal, decimal_string, join2, join3, join7, text_bytes};

verus! {

/// Largest model-visible tool description, in bytes.
pub const AGENT_TOOL_DESCRIPTION_MAX_LENGTH: usize = 1024;

/// Largest inline model-visible parameter schema, in bytes.
pub const AGENT_TOOL_PARAMETERS_MAX_BYTES: usize = 4096;

/// Most tools one registry may hold.
pub const AGENT_TOOL_REGISTRY_MAX_TOOLS: usize = 256;

/// The kind of component behind a tool.
#[derive(Debug, Clone, Copy, PartialEq, Eq, PartialOrd, Ord, Hash, Structural)]
#[non_exhaustive]
pub enum AgentToolKind {
    /// A bounded function adapter.
    Function,
    /// A compiled workflow invoked as a tool.
    Workflow,
    /// A supervised child-process adapter.
    Process,
    /// A remote MCP tool.
    RemoteMcp,
    /// A retrieval or memory query.
    Retrieval,
    /// A shared-environment operation.
    Environment,
    /// An agent-coordination operation surfaced as a tool.
    AgentCoordination,
}

impl AgentToolKind {
    /// Stable kebab-case label.
    pub fn as_label(self) -> (label: &'static str)
        ensures
            label@ == self.label_text(),
    {
        match self {
            AgentToolKind::Function => "function",
            AgentToolKind::Workflow => "workflow",
            AgentToolKind::Process => "process",
            AgentToolKind::RemoteMcp => "remote-mcp",
            AgentToolKind::Retrieval => "retrieval",
            AgentToolKind::Environment => "environment",
            AgentToolKind::AgentCoordination => "agent-coordination",
        }
    }

    /// The label of each kind.
    pub open spec fn label_text(self) -> Seq<char> {
        match self {
            AgentToolKind::Function => "function"@,
            AgentToolKind::Workflow => "workflow"@,
            AgentToolKind::Process => "process"@,
            AgentToolKind::RemoteMcp => "remote-mcp"@,
            AgentToolKind::Retrieval => "retrieval"@,
            AgentToolKind::Environment => "environment"@,
            AgentToolKind::AgentCoordination => "agent-coordination"@,
        }
    }
}

/// How a tool's result is bounded.
#[derive(Debug, Clone, Copy, PartialEq, Eq, PartialOrd, Ord, Hash, Structural)]
#[non_exhaustive]
pub enum AgentToolResultBehavior {
    /// The result is bounded inline content.
    InlineBounded,
    /// The result arrives as an immutable artifact reference.
    ArtifactReference,
}

impl AgentToolResultBehavior {
    /// Stable kebab-case label.
    pub fn as_label(self) -> (label: &'static str)
        ensures
            label@ == self.label_text(),
    {
        match self {
            AgentToolResultBehavior::InlineBounded => "inline-bounded",
            AgentToolResultBehavior::ArtifactReference => "artifact-reference",
        }
    }

    /// The label of each behavior.
    pub open spec fn label_text(self) -> Seq<char> {
        match self {
            AgentToolResultBehavior::InlineBounded => "inline-bounded"@,
            AgentToolResultBehavior::ArtifactReference => "artifact-reference"@,
        }
    }
}

/// Tag of [`AgentSchemaId`].
#[derive(Debug)]
pub struct SchemaTag;

/// A content schema.
pub type AgentSchemaId = Identifier<SchemaTag>;

/// One revision of a content schema.
#[derive(Debug)]
pub struct AgentSchemaRef {
    /// The schema.
    pub schema: AgentSchemaId,
    /// Its revision.
    pub revision: AgentRevisionNumber,
}

impl AgentSchemaRef {
    /// The reference as JSON.
    pub open spec fn shape(&self) -> serde_json::Value {
        json_object(
            seq![
                ("schema"@, json_string(self.schema@)),
                ("revision"@, json_number(self.revision.number)),
            ],
        )
    }

    /// The reference as JSON.
    pub fn to_json(&self) -> (value: serde_json::Value)
        ensures
            value == self.shape(),
    {
        let fields: Vec<(String, serde_json::Value)> = vec![
            field("schema", string_value(self.schema.as_str())),
            field("revision", number_value(self.revision.number)),
        ];
        assert(fields_model(fields@) =~= seq![
            ("schema"@, json_string(self.schema@)),
            ("revision"@, json_number(self.revision.number)),
        ]);
        object_value(fields)
    }
}

/// Rejection of a tool descriptor, binding, or registry operation.
#[derive(Debug)]
#[non_exhaustive]
pub enum AgentToolError {
    /// The mandatory model-facing description was empty.
    EmptyDescription {
        /// The tool whose descriptor was refused.
        tool: AgentToolId,
    },
    /// The description exceeded its bounded length.
    DescriptionTooLong {
        /// The tool whose descriptor was refused.
        tool: AgentToolId,
        /// Length of the rejected description, in bytes.
        length: usize,
        /// Maximum accepted length, in bytes.
        maximum: usize,
    },
    /// The inline parameter schema exceeded its bound.
    ParametersTooLarge {
        /// The tool whose descriptor was refused.
        tool: AgentToolId,
        /// Size of the rejected schema, in bytes.
        bytes: usize,
        /// Maximum accepted size, in bytes.
        maximum: usize,
    },
    /// The registry already holds as many tools as it may.
    RegistryFull {
        /// The maximum number of tools.
        maximum: usize,
    },
    /// A tool with the same identity is already registered.
    DuplicateTool {
        /// The duplicated tool.
        tool: AgentToolId,
    },
    /// The binding's failure policy could not be honored.
    Policy {
        /// What made it unenforceable.
        message: String,
    },
}

impl AgentToolError {
    /// Stable machine-readable error code.
    pub fn code(&self) -> (code: &'static str)
        ensures
            code@ == self.code_text(),
    {
        match self {
            AgentToolError::EmptyDescription { .. } => "tool-description-empty",
            AgentToolError::DescriptionTooLong { .. } => "tool-description-too-long",
            AgentToolError::ParametersTooLarge { .. } => "tool-parameters-too-large",
            AgentToolError::RegistryFull { .. } => "tool-registry-full",
            AgentToolError::DuplicateTool { .. } => "tool-already-registered",
            AgentToolError::Policy { .. } => "tool-policy-invalid",
        }
    }

    /// The code of each rejection.
    pub open spec fn code_text(&self) -> Seq<char> {
        match self {
            AgentToolError::EmptyDescription { .. } => "tool-description-empty"@,
            AgentToolError::DescriptionTooLong { .. } => "tool-description-too-long"@,
            AgentToolError::ParametersTooLarge { .. } => "tool-parameters-too-large"@,
            AgentToolError::RegistryFull { .. } => "tool-registry-full"@,
            AgentToolError::DuplicateTool { .. } => "tool-already-registered"@,
            AgentToolError::Policy { .. } => "tool-policy-invalid"@,
        }
    }

    /// The rejection in words.
    pub fn message(&self) -> (text: String)
        ensures
            text@ == self.message_text(),
    {
        match self {
            AgentToolError::EmptyDescription { tool } => join3(
                "the tool ",
                tool.as_str(),
                " requires a bounded model-facing description",
            ),
            AgentToolError::DescriptionTooLong { tool, length, maximum } => {
                let size = decimal_string(*length as u64);
                let limit = decimal_string(*maximum as u64);
                join7(
                    "the description of tool ",
                    tool.as_str(),
                    " is ",
                    size.as_str(),
                    " bytes, which exceeds the ",
                    limit.as_str(),
                    " byte limit",
                )
            },
            AgentToolError::ParametersTooLarge { tool, bytes, maximum } => {
                let size = decimal_string(*bytes as u64);
                let limit = decimal_string(*maximum as u64);
                join7(
                    "the parameter schema of tool ",
                    tool.as_str(),
                    " is ",
                    size.as_str(),
                    " bytes, which exceeds the ",
                    limit.as_str(),
                    " byte limit",
                )
            },
            AgentToolError::RegistryFull { maximum } => {
                let limit = decimal_string(*maximum as u64);
                join3("a tool registry may hold at most ", limit.as_str(), " tools")
            },
            AgentToolError::DuplicateTool { tool } => join3(
                "the tool ",
                tool.as_str(),
                " is already registered",
            ),
            AgentToolError::Policy { message } => join2(
                "the tool binding's policy cannot be honored: ",
                message.as_str(),
            ),
        }
    }

    /// The words of each rejection.
    pub open spec fn message_text(&self) -> Seq<char> {
        match self {
            AgentToolError::EmptyDescription { tool } => "the tool "@ + tool@
                + " requires a bounded model-facing description"@,
            AgentToolError::DescriptionTooLong { tool, length, maximum } =>
            "the description of tool "@ + tool@ + " is "@ + decimal(*length as nat)
                + " bytes, which exceeds the "@ + decimal(*maximum as nat) + " byte limit"@,
            AgentToolError::ParametersTooLarge { tool, bytes, maximum } =>
            "the parameter schema of tool "@ + tool@ + " is "@ + decimal(*bytes as nat)
                + " bytes, which exceeds the "@ + decimal(*maximum as nat) + " byte limit"@,
            AgentToolError::RegistryFull { maximum } => "a tool registry may hold at most "@
                + decimal(*maximum as nat) + " tools"@,
            AgentToolError::DuplicateTool { tool } => "the tool "@ + tool@
                + " is already registered"@,
            AgentToolError::Policy { message } => "the tool binding's policy cannot be honored: "@
                + message@,
        }
    }
}

/// The bounded, model-visible face of one registered tool. Showing it to a
/// model lets the model ask; it implies no dispatch authority.
#[derive(Debug)]
pub struct AgentToolDescriptor {
    /// Stable tool name.
    pub tool: AgentToolId,
    /// Monotonic descriptor version.
    pub version: AgentRevisionNumber,
    /// The kind of component behind the tool.
    pub kind: AgentToolKind,
    /// Bounded model-facing description.
    pub description: String,
    /// Versioned reference to the input schema.
    pub input_schema: AgentSchemaRef,
    /// Versioned reference to the output schema.
    pub output_schema: AgentSchemaRef,
    /// Inline model-visible parameter schema, when the adapter surfaces one.
    pub parameters: Option<serde_json::Value>,
    /// How the tool's result is bounded.
    pub result_behavior: AgentToolResultBehavior,
}

/// The size of a parameter schema, in bytes of JSON; one that cannot be written
/// is larger than any bound.
pub open spec fn parameters_size(parameters: serde_json::Value) -> usize {
    match json_text(parameters) {
        Some(text) => byte_len(text) as usize,
        None => usize::MAX,
    }
}

fn measure_parameters(parameters: &serde_json::Value) -> (bytes: usize)
    ensures
        bytes == parameters_size(*parameters),
{
    match write_json(parameters) {
        Some(text) => text_bytes(text.as_str()),
        None => usize::MAX,
    }
}

impl AgentToolDescriptor {
    /// The first bound the descriptor exceeds.
    pub open spec fn verdict(&self) -> Result<(), AgentToolError> {
        if self.description@.len() == 0 {
            Err(AgentToolError::EmptyDescription { tool: self.tool })
        } else if byte_len(self.description@) > AGENT_TOOL_DESCRIPTION_MAX_LENGTH {
            Err(
                AgentToolError::DescriptionTooLong {
                    tool: self.tool,
                    length: byte_len(self.description@) as usize,
                    maximum: AGENT_TOOL_DESCRIPTION_MAX_LENGTH,
                },
            )
        } else if self.parameters is Some && parameters_size(self.parameters->Some_0)
            > AGENT_TOOL_PARAMETERS_MAX_BYTES {
            Err(
                AgentToolError::ParametersTooLarge {
                    tool: self.tool,
                    bytes: parameters_size(self.parameters->Some_0),
                    maximum: AGENT_TOOL_PARAMETERS_MAX_BYTES,
                },
            )
        } else {
            Ok(())
        }
    }

    /// Creates a descriptor, rejecting an unbounded description.
    pub fn new(
        tool: AgentToolId,
        kind: AgentToolKind,
        description: String,
        input_schema: AgentSchemaRef,
        output_schema: AgentSchemaRef,
    ) -> (result: Result<Self, AgentToolError>)
        ensures
            ({
                let descriptor = AgentToolDescriptor {
                    tool,
                    version: AgentRevisionNumber { number: 1 },
                    kind,
                    description,
                    input_schema,
                    output_schema,
                    parameters: None,
                    result_behavior: AgentToolResultBehavior::InlineBounded,
                };
                checked_descriptor(descriptor, result)
            }),
    {
        let descriptor = AgentToolDescriptor {
            tool,
            version: AgentRevisionNumber::initial(),
            kind,
            description,
            input_schema,
            output_schema,
            parameters: None,
            result_behavior: AgentToolResultBehavior::InlineBounded,
        };
        match descriptor.validate() {
            Ok(_) => Ok(descriptor),
            Err(error) => Err(error),
        }
    }

    /// Sets the descriptor version.
    pub fn with_version(self, version: AgentRevisionNumber) -> (descriptor: Self)
        ensures
            descriptor == (AgentToolDescriptor { version, ..self }),
    {
        AgentToolDescriptor { version, ..self }
    }

    /// Attaches an inline model-visible parameter schema.
    pub fn with_parameters(self, parameters: serde_json::Value) -> (result: Result<
        Self,
        AgentToolError,
    >)
        ensures
            checked_descriptor(
                (AgentToolDescriptor { parameters: Some(parameters), ..self }),
                result,
            ),
    {
        let descriptor = AgentToolDescriptor { parameters: Some(parameters), ..self };
        match descriptor.validate() {
            Ok(_) => Ok(descriptor),
            Err(error) => Err(error),
        }
    }

    /// Declares the tool's result behavior.
    pub fn with_result_behavior(self, behavior: AgentToolResultBehavior) -> (descriptor: Self)
        ensures
            descriptor == (AgentToolDescriptor { result_behavior: behavior, ..self }),
    {
        AgentToolDescriptor { result_behavior: behavior, ..self }
    }

    /// Rejects a descriptor that exceeds its bounds.
    pub fn validate(&self) -> (result: Result<(), AgentToolError>)
        ensures
            result == self.verdict(),
    {
        if self.description.as_str().is_empty() {
            return Err(AgentToolError::EmptyDescription { tool: self.tool.clone() });
        }
        let length: usize = text_bytes(self.description.as_str());
        if length > AGENT_TOOL_DESCRIPTION_MAX_LENGTH {
            return Err(
                AgentToolError::DescriptionTooLong {
                    tool: self.tool.clone(),
                    length,
                    maximum: AGENT_TOOL_DESCRIPTION_MAX_LENGTH,
                },
            );
        }
        if let Some(parameters) = &self.parameters {
            let bytes: usize = measure_parameters(parameters);
            if bytes > AGENT_TOOL_PARAMETERS_MAX_BYTES {
                return Err(
                    AgentToolError::ParametersTooLarge {
                        tool: self.tool.clone(),
                        bytes,
                        maximum: AGENT_TOOL_PARAMETERS_MAX_BYTES,
                    },
                );
            }
        }
        Ok(())
    }

    /// The model-visible shape as JSON.
    pub open spec fn shape(&self) -> serde_json::Value {
        json_object(
            seq![
                ("tool"@, json_string(self.tool@)),
                ("version"@, json_number(self.version.number)),
                ("kind"@, json_string(self.kind.label_text())),
                ("description"@, json_string(self.description@)),
                ("input_schema"@, self.input_schema.shape()),
                ("output_schema"@, self.output_schema.shape()),
                ("parameters"@, json_optional(self.parameters)),
                ("result_behavior"@, json_string(self.result_behavior.label_text())),
            ],
        )
    }

    /// Canonical fingerprint of the model-visible shape: a grant that binds it
    /// tells a descriptor that changed since.
    pub fn schema_digest(&self) -> (digest: AgentContentDigest)
        ensures
            digest@ == json_digest(self.shape()),
    {
        let parameters = match &self.parameters {
            Some(parameters) => Some(copy_json(parameters)),
            None => None,
        };
        let fields: Vec<(String, serde_json::Value)> = vec![
            field("tool", string_value(self.tool.as_str())),
            field("version", number_value(self.version.number)),
            field("kind", string_value(self.kind.as_label())),
            field("description", string_value(self.description.as_str())),
            field("input_schema", self.input_schema.to_json()),
            field("output_schema", self.output_schema.to_json()),
            field("parameters", optional_value(parameters)),
            field("result_behavior", string_value(self.result_behavior.as_label())),
        ];
        assert(fields_model(fields@) =~= seq![
            ("tool"@, json_string(self.tool@)),
            ("version"@, json_number(self.version.number)),
            ("kind"@, json_string(self.kind.label_text())),
            ("description"@, json_string(self.description@)),
            ("input_schema"@, self.input_schema.shape()),
            ("output_schema"@, self.output_schema.shape()),
            ("parameters"@, json_optional(self.parameters)),
            ("result_behavior"@, json_string(self.result_behavior.label_text())),
        ]);
        AgentContentDigest::of_json(&object_value(fields))
    }
}

/// What checking a descriptor gives: the descriptor when it is within its
/// bounds, and the first bound it exceeds otherwise.
pub open spec fn checked_descriptor(
    descriptor: AgentToolDescriptor,
    result: Result<AgentToolDescriptor, AgentToolError>,
) -> bool {
    match descriptor.verdict() {
        Ok(_) => result == Ok::<AgentToolDescriptor, AgentToolError>(descriptor),
        Err(error) => result == Err::<AgentToolDescriptor, AgentToolError>(error),
    }
}

/// The deployment-authorized authority of one registered tool: trusted data
/// that model output can neither produce nor widen.
#[derive(Debug)]
pub struct AgentToolBinding {
    /// The bounded, model-visible descriptor.
    pub descriptor: AgentToolDescriptor,
    /// The authorized declaration.
    pub declaration: AgentToolDeclaration,
    /// Most attempts one generation may make.
    pub max_attempts: u32,
    /// The protocol that reconciles an ambiguous attempt.
    pub reconciliation_protocol: Option<AgentReconciliationProtocolRef>,
    /// The per-attempt timeout, in milliseconds.
    pub timeout_ms: Option<u64>,
    /// Guardrail stages that must be present before the tool may dispatch.
    pub guardrails: IdSet<GuardrailStageTag>,
    /// Whether the tool requires an effect-bound checkpoint grant.
    pub checkpoint_required: bool,
}

impl AgentToolBinding {
    /// Whether the binding is of a descriptor under a declaration and attempt
    /// bound, with nothing more attached.
    pub open spec fn is_plain(
        &self,
        descriptor: AgentToolDescriptor,
        declaration: DeclarationModel,
        max_attempts: u32,
    ) -> bool {
        &&& self.descriptor == descriptor
        &&& self.declaration@ == declaration
        &&& self.max_attempts == max_attempts
        &&& self.reconciliation_protocol is None
        &&& self.timeout_ms is None
        &&& self.guardrails@ == Set::<Seq<char>>::empty()
        &&& !self.checkpoint_required
    }

    /// Binds a descriptor under the fail-safe unclassified declaration: one
    /// non-idempotent attempt, no capability and no credential.
    pub fn unclassified(descriptor: AgentToolDescriptor) -> (binding: Self)
        ensures
            binding.is_plain(
                descriptor,
                DeclarationModel {
                    safety: AgentEffectSafetyClass::NonIdempotent,
                    capabilities: Set::empty(),
                    credential_binding: None,
                    execution_policy: None,
                },
                1,
            ),
    {
        Self::new(descriptor, AgentToolDeclaration::new(AgentEffectSafetyClass::NonIdempotent), 1)
    }

    /// Binds a descriptor under an explicit declaration and attempt bound. The
    /// closed validation runs where the binding is registered.
    pub fn new(
        descriptor: AgentToolDescriptor,
        declaration: AgentToolDeclaration,
        max_attempts: u32,
    ) -> (binding: Self)
        ensures
            binding.is_plain(descriptor, declaration@, max_attempts),
            binding.declaration == declaration,
    {
        AgentToolBinding {
            descriptor,
            declaration,
            max_attempts,
            reconciliation_protocol: None,
            timeout_ms: None,
            guardrails: IdSet::new(),
            checkpoint_required: false,
        }
    }

    /// Names the protocol that reconciles an ambiguous attempt.
    pub fn with_reconciliation_protocol(self, protocol: AgentReconciliationProtocolRef) -> (binding:
        Self)
        ensures
            binding == (AgentToolBinding { reconciliation_protocol: Some(protocol), ..self }),
    {
        AgentToolBinding { reconciliation_protocol: Some(protocol), ..self }
    }

    /// Sets the per-attempt timeout.
    pub fn with_timeout_ms(self, timeout_ms: u64) -> (binding: Self)
        ensures
            binding == (AgentToolBinding { timeout_ms: Some(timeout_ms), ..self }),
    {
        AgentToolBinding { timeout_ms: Some(timeout_ms), ..self }
    }

    /// Requires a guardrail stage before this tool may dispatch.
    pub fn with_guardrail(self, stage: AgentGuardrailStageId) -> (binding: Self)
        ensures
            binding.guardrails@ == self.guardrails@.insert(stage@),
            binding == (AgentToolBinding { guardrails: binding.guardrails, ..self }),
    {
        let mut binding = self;
        binding.guardrails.insert(stage);
        binding
    }

    /// Requires an effect-bound checkpoint grant before this tool may dispatch.
    pub fn with_checkpoint_required(self) -> (binding: Self)
        ensures
            binding == (AgentToolBinding { checkpoint_required: true, ..self }),
    {
        AgentToolBinding { checkpoint_required: true, ..self }
    }

    /// The bounded, model-visible descriptor.
    pub fn descriptor(&self) -> (descriptor: &AgentToolDescriptor)
        ensures
            *descriptor == self.descriptor,
    {
        &self.descriptor
    }

    /// The authorized declaration.
    pub fn declaration(&self) -> (declaration: &AgentToolDeclaration)
        ensures
            *declaration == self.declaration,
    {
        &self.declaration
    }

    /// Guardrail stages that must be present before this tool may dispatch.
    pub fn guardrails(&self) -> (guardrails: &IdSet<GuardrailStageTag>)
        ensures
            *guardrails == self.guardrails,
    {
        &self.guardrails
    }

    /// Whether this tool requires an effect-bound checkpoint grant.
    pub fn checkpoint_required(&self) -> (required: bool)
        ensures
            required == self.checkpoint_required,
    {
        self.checkpoint_required
    }

    /// The failure policy calls to this tool dispatch under.
    pub open spec fn policy(&self) -> AgentEffectSpec {
        AgentEffectSpec {
            safety_class: self.declaration.safety,
            max_attempts: self.max_attempts,
            reconciliation_protocol: self.reconciliation_protocol,
            credential_binding: self.declaration.credential_binding,
            timeout_ms: self.timeout_ms,
            execution_policy: self.declaration.execution_policy,
        }
    }

    /// The effect spec calls to this tool dispatch under.
    pub fn effect_spec(&self) -> (result: Result<AgentEffectSpec, AgentEffectError>)
        ensures
            match self.policy().objection() {
                None => result == Ok::<_, AgentEffectError>(self.policy()),
                Some(objection) => result is Err && result->Err_0 is InvalidPolicy
                    && result->Err_0.message_text() == objection,
            },
    {
        let spec = AgentEffectSpec {
            safety_class: self.declaration.safety,
            max_attempts: self.max_attempts,
            reconciliation_protocol: copy_optional(&self.reconciliation_protocol),
            credential_binding: copy_optional(&self.declaration.credential_binding),
            timeout_ms: self.timeout_ms,
            execution_policy: copy_optional(&self.declaration.execution_policy),
        };
        match spec.validate() {
            Ok(_) => Ok(spec),
            Err(error) => Err(error),
        }
    }
}

/// The failure policies a run stamps onto the effects it commits.
#[derive(Debug)]
pub struct AgentEffectPolicies {
    tools: IdMap<ToolTag, AgentEffectSpec>,
    unregistered: AgentEffectSpec,
    model: AgentEffectSpec,
}

impl AgentEffectPolicies {
    /// The policies of registered tools.
    pub closed spec fn spec_tools(&self) -> Map<Seq<char>, AgentEffectSpec> {
        self.tools@
    }

    /// The policy a request is stamped with: a registered tool's own, one
    /// non-idempotent attempt for anything else a tool might do, and one
    /// read-only attempt for a model turn.
    pub open spec fn is_spec_for(
        &self,
        request: AgentRunEffectRequest,
        spec: AgentEffectSpec,
    ) -> bool {
        match request {
            AgentRunEffectRequest::Tool { call } => if self.spec_tools().dom().contains(
                call.tool@,
            ) {
                spec == self.spec_tools()[call.tool@]
            } else {
                spec.is_single_attempt(AgentEffectSafetyClass::NonIdempotent)
            },
            AgentRunEffectRequest::Model { .. } => spec.is_single_attempt(
                AgentEffectSafetyClass::ReadOnly,
            ),
            _ => spec.is_single_attempt(AgentEffectSafetyClass::NonIdempotent),
        }
    }

    #[verifier::type_invariant]
    spec fn has_fail_safe_defaults(&self) -> bool {
        &&& self.unregistered.is_single_attempt(AgentEffectSafetyClass::NonIdempotent)
        &&& self.model.is_single_attempt(AgentEffectSafetyClass::ReadOnly)
    }

    /// Policies with no tool registered.
    pub fn new() -> (policies: Self)
        ensures
            policies.spec_tools() == Map::<Seq<char>, AgentEffectSpec>::empty(),
    {
        AgentEffectPolicies {
            tools: IdMap::new(),
            unregistered: AgentEffectSpec::non_idempotent(),
            model: AgentEffectSpec::read_only(),
        }
    }

    /// Sets one tool's policy.
    pub fn with_tool_spec(self, tool: AgentToolId, spec: AgentEffectSpec) -> (policies: Self)
        ensures
            policies.spec_tools() == self.spec_tools().insert(tool@, spec),
    {
        proof {
            use_type_invariant(&self);
        }
        let AgentEffectPolicies { tools, unregistered, model } = self;
        let mut tools = tools;
        tools.insert(tool, spec);
        AgentEffectPolicies { tools, unregistered, model }
    }

    /// The policy a request is stamped with.
    pub fn spec_for(&self, request: &AgentRunEffectRequest) -> (spec: &AgentEffectSpec)
        ensures
            self.is_spec_for(*request, *spec),
    {
        proof {
            use_type_invariant(self);
        }
        match request {
            AgentRunEffectRequest::Tool { call } => match self.tools.get(&call.tool) {
                Some(spec) => spec,
                None => &self.unregistered,
            },
            AgentRunEffectRequest::Model { .. } => &self.model,
            _ => &self.unregistered,
        }
    }
}

/// The deployment's registry of dispatchable tools. Registration is necessary
/// but never sufficient: a registered tool still needs the definition to
/// declare it, and every dispatch still needs a grant.
#[derive(Debug)]
pub struct AgentToolRegistry {
    tools: IdMap<ToolTag, AgentToolBinding>,
}

impl View for AgentToolRegistry {
    type V = Map<Seq<char>, AgentToolBinding>;

    closed spec fn view(&self) -> Map<Seq<char>, AgentToolBinding> {
        self.tools@
    }
}

impl AgentToolRegistry {
    /// The registered tools, in order.
    pub closed spec fn spec_tools(&self) -> Seq<Seq<char>> {
        self.tools.spec_keys()
    }

    /// Whether every binding is under its own tool's name, within its bounds
    /// and under a policy that can be honored, and no more are held than may
    /// be.
    pub open spec fn is_sound(&self) -> bool {
        &&& self@.len() <= AGENT_TOOL_REGISTRY_MAX_TOOLS
        &&& forall|tool: Seq<char>| #[trigger]
            self@.dom().contains(tool) ==> self@[tool].descriptor.tool@ == tool
                && self@[tool].descriptor.verdict() is Ok && self@[tool].policy().objection()
                is None
    }

    /// An empty registry.
    pub fn new() -> (registry: Self)
        ensures
            registry@ == Map::<Seq<char>, AgentToolBinding>::empty(),
            registry.is_sound(),
    {
        AgentToolRegistry { tools: IdMap::new() }
    }

    /// Registers one tool binding, refusing, in this order, one too many, a
    /// descriptor beyond its bounds, a policy that cannot be honored, and a
    /// tool that is registered already.
    pub fn register(self, binding: AgentToolBinding) -> (result: Result<Self, AgentToolError>)
        ensures
            if self@.len() >= AGENT_TOOL_REGISTRY_MAX_TOOLS {
                result == Err::<Self, _>(
                    AgentToolError::RegistryFull { maximum: AGENT_TOOL_REGISTRY_MAX_TOOLS },
                )
            } else if binding.descriptor.verdict() is Err {
                result == Err::<Self, _>(binding.descriptor.verdict()->Err_0)
            } else if binding.policy().objection() is Some {
                result is Err && result->Err_0 is Policy && result->Err_0->message@
                    == binding.policy().objection()->Some_0
            } else if self@.dom().contains(binding.descriptor.tool@) {
                result == Err::<Self, _>(
                    AgentToolError::DuplicateTool { tool: binding.descriptor.tool },
                )
            } else {
                result is Ok && result->Ok_0@ == self@.insert(binding.descriptor.tool@, binding)
            },
            self.is_sound() && result is Ok ==> result->Ok_0.is_sound(),
    {
        if self.tools.len() >= AGENT_TOOL_REGISTRY_MAX_TOOLS {
            return Err(
                AgentToolError::RegistryFull { maximum: AGENT_TOOL_REGISTRY_MAX_TOOLS },
            );
        }
        if let Err(error) = binding.descriptor.validate() {
            return Err(error);
        }
        if let Err(error) = binding.effect_spec() {
            return Err(AgentToolError::Policy { message: error.message() });
        }
        let tool = binding.descriptor.tool.clone();
        if self.tools.contains_key(&tool) {
            return Err(AgentToolError::DuplicateTool { tool });
        }
        let mut tools = self.tools;
        tools.insert(tool, binding);
        let registry = AgentToolRegistry { tools };
        proof {
            assert(registry@.dom() =~= self@.dom().insert(binding.descriptor.tool@));
        }
        Ok(registry)
    }

    /// The binding of one registered tool.
    pub fn binding(&self, tool: &AgentToolId) -> (binding: Option<&AgentToolBinding>)
        ensures
            match binding {
                Some(binding) => self@.dom().contains(tool@) && *binding == self@[tool@],
                None => !self@.dom().contains(tool@),
            },
    {
        self.tools.get(tool)
    }

    /// How many tools are registered.
    pub fn len(&self) -> (len: usize)
        ensures
            len == self@.len(),
    {
        self.tools.len()
    }

    /// Whether no tool is registered.
    pub fn is_empty(&self) -> (result: bool)
        ensures
            result == (self@.len() == 0),
    {
        self.tools.len() == 0
    }

    /// Whether a tool is the first, in the order of tools, whose binding is no
    /// valid policy.
    pub open spec fn objects_first(&self, tool: Seq<char>) -> bool {
        &&& self@.dom().contains(tool)
        &&& self@[tool].policy().objection() is Some
        &&& forall|other: Seq<char>| #[trigger]
            self@.dom().contains(other) && text_before(other, tool)
                ==> self@[other].policy().objection() is None
    }

    /// The failure policies of the registered bindings, or the error of the
    /// first tool whose binding is no valid policy.
    pub fn effect_policies(&self) -> (result: Result<AgentEffectPolicies, AgentEffectError>)
        ensures
            result is Ok <==> (forall|tool: Seq<char>| #[trigger]
                self@.dom().contains(tool) ==> self@[tool].policy().objection() is None),
            result is Ok ==> result->Ok_0.spec_tools().dom() == self@.dom() && forall|
                tool: Seq<char>,
            | #[trigger]
                self@.dom().contains(tool) ==> result->Ok_0.spec_tools()[tool]
                    == self@[tool].policy(),
            result is Err ==> result->Err_0 is InvalidPolicy && exists|tool: Seq<char>| #[trigger]
                self.objects_first(tool) && self@[tool].policy().objection() == Some(
                    result->Err_0.message_text(),
                ),
    {
        let count: usize = self.tools.len();
        let ghost keys = self.tools.spec_keys();
        let mut policies = AgentEffectPolicies::new();
        let mut i: usize = 0;
        proof {
            assert(policies.spec_tools().dom() =~= keys.subrange(0, 0).to_set());
        }
        while i < count
            invariant
                i <= count,
                count == keys.len(),
                keys == self.tools.spec_keys(),
                keys.to_set() == self@.dom(),
                keys_in_order(keys),
                forall|k: int|
                    0 <= k < i ==> self@[#[trigger] keys[k]].policy().objection() is None,
                policies.spec_tools().dom() == keys.subrange(0, i as int).to_set(),
                forall|k: int|
                    0 <= k < i ==> policies.spec_tools()[#[trigger] keys[k]]
                        == self@[keys[k]].policy(),
            decreases count - i,
        {
            let tool = self.tools.key_at(i);
            let binding = self.tools.value_at(i);
            match binding.effect_spec() {
                Ok(spec) => {
                    let ghost before = policies.spec_tools();
                    policies = policies.with_tool_spec(tool.clone(), spec);
                    proof {
                        let done = keys.subrange(0, i as int);
                        let next = keys.subrange(0, i + 1);
                        assert(next =~= done.push(keys[i as int]));
                        assert(next.to_set() =~= done.to_set().insert(keys[i as int])) by {
                            assert(next[i as int] == keys[i as int]);
                            assert forall|key| done.contains(key) implies next.contains(key) by {
                                let k = choose|k: int| 0 <= k < done.len() && done[k] == key;
                                assert(next[k] == key);
                            }
                        }
                    }
                },
                Err(error) => {
                    proof {
                        let tool = keys[i as int];
                        assert(self@.dom().contains(tool));
                        assert forall|other: Seq<char>| #[trigger]
                            self@.dom().contains(other) && text_before(
                                other,
                                tool,
                            ) implies self@[other].policy().objection() is None by {
                            let k = keys.index_of(other);
                            assert(keys[k] == other);
                            text_order_is_strict_and_total(tool, other, tool);
                        }
                        assert(self.objects_first(tool));
                    }
                    return Err(error);
                },
            }
            i = i + 1;
        }
        proof {
            assert(keys.subrange(0, keys.len() as int) =~= keys);
            assert forall|tool: Seq<char>| #[trigger] self@.dom().contains(tool) implies
                self@[tool].policy().objection() is None && policies.spec_tools()[tool]
                == self@[tool].policy() by {
                assert(keys.contains(tool));
                let k = keys.index_of(tool);
                assert(keys[k] == tool);
            }
        }
        Ok(policies)
    }

    /// The declarations the registered bindings authorize, keyed by tool.
    pub fn tool_declarations(&self) -> (declarations: IdMap<ToolTag, AgentToolDeclaration>)
        ensures
            declarations@.dom() == self@.dom(),
            forall|tool: Seq<char>| #[trigger]
                self@.dom().contains(tool) ==> declarations@[tool]@ == self@[tool].declaration@,
    {
        let count: usize = self.tools.len();
        let ghost keys = self.tools.spec_keys();
        let mut declarations: IdMap<ToolTag, AgentToolDeclaration> = IdMap::new();
        let mut i: usize = 0;
        proof {
            assert(declarations@.dom() =~= keys.subrange(0, 0).to_set());
        }
        while i < count
            invariant
                i <= count,
                count == keys.len(),
                keys == self.tools.spec_keys(),
                keys.to_set() == self@.dom(),
                declarations@.dom() == keys.subrange(0, i as int).to_set(),
                forall|k: int|
                    0 <= k < i ==> declarations@[#[trigger] keys[k]]@
                        == self@[keys[k]].declaration@,
            decreases count - i,
        {
            let tool = self.tools.key_at(i);
            let binding = self.tools.value_at(i);
            declarations.insert(tool.clone(), binding.declaration.clone());
            proof {
                let done = keys.subrange(0, i as int);
                let next = keys.subrange(0, i + 1);
                assert(next =~= done.push(keys[i as int]));
                assert(next.to_set() =~= done.to_set().insert(keys[i as int])) by {
                    assert(next[i as int] == keys[i as int]);
                    assert forall|key| done.contains(key) implies next.contains(key) by {
                        let k = choose|k: int| 0 <= k < done.len() && done[k] == key;
                        assert(next[k] == key);
                    }
                }
            }
            i = i + 1;
        }
        proof {
            assert(keys.subrange(0, keys.len() as int) =~= keys);
            assert forall|tool: Seq<char>| #[trigger] self@.dom().contains(tool) implies
                declarations@[tool]@ == self@[tool].declaration@ by {
                assert(keys.contains(tool));
                let k = keys.index_of(tool);
                assert(keys[k] == tool);
            }
        }
        declarations
    }

    /// Whether a tool may be shown: declared by the envelope and not revoked.
    pub open spec fn is_visible(
        envelope: AgentAuthorityEnvelope,
        settings: AgentSettings,
        tool: Seq<char>,
    ) -> bool {
        envelope.tools@.dom().contains(tool) && !settings.revoked_tools@.contains(tool)
    }

    /// The tools one agent's model may be shown, in order.
    pub open spec fn visible_tools(
        &self,
        envelope: AgentAuthorityEnvelope,
        settings: AgentSettings,
    ) -> Seq<Seq<char>> {
        self.spec_tools().filter(|tool: Seq<char>| Self::is_visible(envelope, settings, tool))
    }

    /// The descriptors one agent's model may be shown: registered, declared by
    /// the envelope, and not revoked by the current settings; in order.
    pub fn model_visible(&self, envelope: &AgentAuthorityEnvelope, settings: &AgentSettings) -> (visible: Vec<
        &AgentToolDescriptor,
    >)
        ensures
            visible@.len() == self.visible_tools(*envelope, *settings).len(),
            forall|i: int|
                0 <= i < visible@.len() ==> *(#[trigger] visible@[i])
                    == self@[self.visible_tools(*envelope, *settings)[i]].descriptor,
            self.spec_tools().to_set() == self@.dom(),
            keys_in_order(self.spec_tools()),
    {
        let count: usize = self.tools.len();
        let ghost keys = self.tools.spec_keys();
        let ghost keep = |tool: Seq<char>| Self::is_visible(*envelope, *settings, tool);
        let mut visible: Vec<&AgentToolDescriptor> = Vec::new();
        let mut i: usize = 0;
        proof {
            reveal(Seq::filter);
            assert(keys.subrange(0, 0).filter(keep) =~= Seq::<Seq<char>>::empty());
        }
        while i < count
            invariant
                i <= count,
                count == keys.len(),
                keys == self.tools.spec_keys(),
                keep == (|tool: Seq<char>| Self::is_visible(*envelope, *settings, tool)),
                visible@.len() == keys.subrange(0, i as int).filter(keep).len(),
                forall|k: int|
                    0 <= k < visible@.len() ==> *(#[trigger] visible@[k])
                        == self@[keys.subrange(0, i as int).filter(keep)[k]].descriptor,
            decreases count - i,
        {
            let tool = self.tools.key_at(i);
            let binding = self.tools.value_at(i);
            proof {
                let done = keys.subrange(0, i as int);
                let next = keys.subrange(0, i + 1);
                assert(next =~= done.push(keys[i as int]));
                reveal(Seq::filter);
                assert(next.drop_last() =~= done);
            }
            if envelope.tools.contains_key(tool) && !settings.revoked_tools.contains(tool) {
                visible.push(&binding.descriptor);
            }
            i = i + 1;
        }
        proof {
            assert(keys.subrange(0, keys.len() as int) =~= keys);
        }
        visible
    }
}

impl Default for AgentToolRegistry {
    fn default() -> (registry: Self)
        ensures
            registry@ == Map::<Seq<char>, AgentToolBinding>::empty(),
    {
        Self::new()
    }
}

} // verus!
