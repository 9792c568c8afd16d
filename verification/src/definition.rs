//! What an agent's definition, setup and settings authorize.

use vstd::prelude::*;

use crate::collections::{IdMap, IdSet};
use crate::identity::{
    copy_optional, AgentRevisionNumber, AgentToolId, CapabilityTag, Identifier, ToolTag,
};

verus! {

/// Tag of [`AgentCredentialBindingRef`].
#[derive(Debug)]
pub struct CredentialTag;

/// Tag of [`AgentExecutionPolicyRef`].
#[derive(Debug)]
pub struct ExecutionPolicyTag;

/// Tag of [`AgentModelProfileId`].
#[derive(Debug)]
pub struct ModelProfileTag;

/// Tag of [`AgentGuardrailStageId`].
#[derive(Debug)]
pub struct GuardrailStageTag;

/// A logical credential binding.
pub type AgentCredentialBindingRef = Identifier<CredentialTag>;

/// A class of execution isolation.
pub type AgentExecutionPolicyRef = Identifier<ExecutionPolicyTag>;

/// A model profile.
pub type AgentModelProfileId = Identifier<ModelProfileTag>;

/// A guardrail stage.
pub type AgentGuardrailStageId = Identifier<GuardrailStageTag>;

/// How safely an effect may be attempted again, from the laxest class on.
#[derive(Debug, Clone, Copy, PartialEq, Eq, Structural)]
#[non_exhaustive]
pub enum AgentEffectSafetyClass {
    /// The effect changes nothing.
    ReadOnly,
    /// Attempting it again has no further effect.
    Idempotent,
    /// A protocol can tell whether an attempt took effect.
    Reconcileable,
    /// Every attempt may take effect.
    NonIdempotent,
}

impl AgentEffectSafetyClass {
    /// How strict the class is; a larger number is stricter.
    pub fn strictness(self) -> (strictness: u8)
        ensures
            strictness == self.rank(),
    {
        match self {
            AgentEffectSafetyClass::ReadOnly => 0,
            AgentEffectSafetyClass::Idempotent => 1,
            AgentEffectSafetyClass::Reconcileable => 2,
            AgentEffectSafetyClass::NonIdempotent => 3,
        }
    }

    /// The strictness of each class.
    pub open spec fn rank(self) -> nat {
        match self {
            AgentEffectSafetyClass::ReadOnly => 0,
            AgentEffectSafetyClass::Idempotent => 1,
            AgentEffectSafetyClass::Reconcileable => 2,
            AgentEffectSafetyClass::NonIdempotent => 3,
        }
    }

    /// Stable kebab-case label.
    pub fn as_label(self) -> (label: &'static str)
        ensures
            label@ == self.label_text(),
    {
        match self {
            AgentEffectSafetyClass::ReadOnly => "read-only",
            AgentEffectSafetyClass::Idempotent => "idempotent",
            AgentEffectSafetyClass::Reconcileable => "reconcileable",
            AgentEffectSafetyClass::NonIdempotent => "non-idempotent",
        }
    }

    /// The label of each class.
    pub open spec fn label_text(self) -> Seq<char> {
        match self {
            AgentEffectSafetyClass::ReadOnly => "read-only"@,
            AgentEffectSafetyClass::Idempotent => "idempotent"@,
            AgentEffectSafetyClass::Reconcileable => "reconcileable"@,
            AgentEffectSafetyClass::NonIdempotent => "non-idempotent"@,
        }
    }
}

/// What a definition or a deployment declares of one tool.
#[derive(Debug)]
pub struct AgentToolDeclaration {
    /// The safety class of the tool's calls.
    pub safety: AgentEffectSafetyClass,
    /// The capabilities the tool may use.
    pub capabilities: IdSet<CapabilityTag>,
    /// The credential the tool may resolve.
    pub credential_binding: Option<AgentCredentialBindingRef>,
    /// The execution policy the tool is routed through.
    pub execution_policy: Option<AgentExecutionPolicyRef>,
}

/// What a declaration says, by the texts of what it names.
pub struct DeclarationModel {
    /// The safety class.
    pub safety: AgentEffectSafetyClass,
    /// The capabilities.
    pub capabilities: Set<Seq<char>>,
    /// The credential.
    pub credential_binding: Option<AgentCredentialBindingRef>,
    /// The execution policy.
    pub execution_policy: Option<AgentExecutionPolicyRef>,
}

impl View for AgentToolDeclaration {
    type V = DeclarationModel;

    open spec fn view(&self) -> DeclarationModel {
        DeclarationModel {
            safety: self.safety,
            capabilities: self.capabilities@,
            credential_binding: self.credential_binding,
            execution_policy: self.execution_policy,
        }
    }
}

impl AgentToolDeclaration {
    /// A declaration of a safety class and nothing else.
    pub fn new(safety: AgentEffectSafetyClass) -> (declaration: Self)
        ensures
            declaration@ == (DeclarationModel {
                safety,
                capabilities: Set::empty(),
                credential_binding: None,
                execution_policy: None,
            }),
    {
        AgentToolDeclaration {
            safety,
            capabilities: IdSet::new(),
            credential_binding: None,
            execution_policy: None,
        }
    }
}

impl Clone for AgentToolDeclaration {
    fn clone(&self) -> (copy: Self)
        ensures
            copy@ == self@,
    {
        AgentToolDeclaration {
            safety: self.safety,
            capabilities: self.capabilities.clone(),
            credential_binding: copy_optional(&self.credential_binding),
            execution_policy: copy_optional(&self.execution_policy),
        }
    }
}

/// The authority a definition or a setup spans.
#[derive(Debug)]
pub struct AgentAuthorityEnvelope {
    /// The declared tools.
    pub tools: IdMap<ToolTag, AgentToolDeclaration>,
    /// The authorized credential bindings.
    pub credential_bindings: IdSet<CredentialTag>,
    /// The approved model profiles.
    pub model_profiles: IdSet<ModelProfileTag>,
    /// The guardrail stages every dispatch must pass.
    pub mandatory_guardrails: IdSet<GuardrailStageTag>,
}

impl AgentAuthorityEnvelope {
    /// An envelope that authorizes nothing.
    pub fn empty() -> (envelope: Self)
        ensures
            envelope.tools@ == Map::<Seq<char>, AgentToolDeclaration>::empty(),
            envelope.credential_bindings@ == Set::<Seq<char>>::empty(),
            envelope.model_profiles@ == Set::<Seq<char>>::empty(),
            envelope.mandatory_guardrails@ == Set::<Seq<char>>::empty(),
    {
        AgentAuthorityEnvelope {
            tools: IdMap::new(),
            credential_bindings: IdSet::new(),
            model_profiles: IdSet::new(),
            mandatory_guardrails: IdSet::new(),
        }
    }
}

/// One published revision of an agent's definition.
#[derive(Debug)]
pub struct AgentDefinitionRevision {
    /// The revision's number.
    pub revision: AgentRevisionNumber,
    /// What the definition authorizes.
    pub envelope: AgentAuthorityEnvelope,
}

/// Schema version of every [`AgentSetupRevision`] written now.
pub const CURRENT_AGENT_SETUP_SCHEMA_VERSION: u32 = 1;

/// One revision of a run's setup, a narrowing of the definition.
#[derive(Debug)]
pub struct AgentSetupRevision {
    /// The revision's number.
    pub revision: AgentRevisionNumber,
    /// What the setup selects.
    pub envelope: AgentAuthorityEnvelope,
    /// The schema version the record was written under.
    pub schema_version: u32,
}

impl AgentSetupRevision {
    /// A setup that selects an envelope, under the current schema.
    pub fn new(revision: AgentRevisionNumber, envelope: AgentAuthorityEnvelope) -> (setup: Self)
        ensures
            setup == (AgentSetupRevision {
                revision,
                envelope,
                schema_version: CURRENT_AGENT_SETUP_SCHEMA_VERSION,
            }),
    {
        AgentSetupRevision {
            revision,
            envelope,
            schema_version: CURRENT_AGENT_SETUP_SCHEMA_VERSION,
        }
    }
}

/// Sampling parameters of a model call, in thousandths.
#[derive(Debug, Clone, Copy, PartialEq, Eq, Structural)]
pub struct AgentSamplingSettings {
    /// The temperature, when one is set.
    pub temperature_thousandths: Option<u32>,
}

/// The settings an operator may change while an agent runs.
#[derive(Debug)]
pub struct AgentSettings {
    /// The model profile turns use, when one is selected.
    pub model_profile: Option<AgentModelProfileId>,
    /// The sampling parameters turns use.
    pub sampling: AgentSamplingSettings,
    /// Tools that may not be dispatched any more.
    pub revoked_tools: IdSet<ToolTag>,
    /// Credential bindings that may not be resolved any more.
    pub revoked_credential_bindings: IdSet<CredentialTag>,
}

impl Default for AgentSettings {
    fn default() -> (settings: Self)
        ensures
            settings.model_profile is None,
            settings.sampling == (AgentSamplingSettings { temperature_thousandths: None }),
            settings.revoked_tools@ == Set::<Seq<char>>::empty(),
            settings.revoked_credential_bindings@ == Set::<Seq<char>>::empty(),
    {
        AgentSettings {
            model_profile: None,
            sampling: AgentSamplingSettings { temperature_thousandths: None },
            revoked_tools: IdSet::new(),
            revoked_credential_bindings: IdSet::new(),
        }
    }
}

/// One accepted revision of an agent's settings.
#[derive(Debug)]
pub struct SettingsRevision {
    /// The revision's number.
    pub revision: AgentRevisionNumber,
    /// The settings in force.
    pub settings: AgentSettings,
}

impl SettingsRevision {
    /// Revokes a tool, producing the next revision.
    pub fn revoking_tool(self, tool: AgentToolId) -> (next: Self)
        ensures
            next.revision == self.revision.successor(),
            next.settings.revoked_tools@ == self.settings.revoked_tools@.insert(tool@),
            next.settings.revoked_credential_bindings == self.settings.revoked_credential_bindings,
            next.settings.model_profile == self.settings.model_profile,
            next.settings.sampling == self.settings.sampling,
    {
        let mut settings = self.settings;
        settings.revoked_tools.insert(tool);
        SettingsRevision { revision: self.revision.next(), settings }
    }
}

/// An agent's administrative lifecycle status.
#[derive(Debug, Clone, Copy, PartialEq, Eq, Structural)]
#[non_exhaustive]
pub enum AgentLifecycleStatus {
    /// Dispatching effects.
    Active,
    /// Dispatching nothing until resumed.
    Suspended,
    /// Dispatching nothing ever again.
    Terminated,
}

impl AgentLifecycleStatus {
    /// Whether the status is final.
    pub fn is_terminal(self) -> (result: bool)
        ensures
            result == (self == AgentLifecycleStatus::Terminated),
    {
        matches!(self, AgentLifecycleStatus::Terminated)
    }

    /// Whether the status lets effects be dispatched.
    pub fn permits_dispatch(self) -> (result: bool)
        ensures
            result == (self == AgentLifecycleStatus::Active),
    {
        matches!(self, AgentLifecycleStatus::Active)
    }
}

/// One agent's durable authority state.
#[derive(Debug)]
pub struct AgentEntityState {
    /// The administrative lifecycle status.
    pub status: AgentLifecycleStatus,
    /// The published definition revision.
    pub definition: AgentDefinitionRevision,
    /// The current settings revision.
    pub settings: SettingsRevision,
}

/// A dimension of the authority envelope a request may exceed.
#[derive(Debug, Clone, Copy, PartialEq, Eq, Structural)]
#[non_exhaustive]
pub enum AgentEnvelopeDimension {
    /// A tool the definition does not declare.
    Tool,
    /// A capability a tool's declaration does not hold.
    ToolCapability,
    /// A credential a tool's declaration does not hold.
    ToolCredentialBinding,
    /// An execution policy other than the declared one.
    ToolExecutionPolicy,
    /// A safety class below the declared one.
    EffectSafety,
    /// A model profile the definition does not approve.
    ModelProfile,
    /// A credential binding the definition does not authorize.
    CredentialBinding,
}

impl AgentEnvelopeDimension {
    /// Stable kebab-case label.
    pub fn as_label(self) -> (label: &'static str)
        ensures
            label@ == self.label_text(),
    {
        match self {
            AgentEnvelopeDimension::Tool => "undeclared-tool",
            AgentEnvelopeDimension::ToolCapability => "undeclared-tool-capability",
            AgentEnvelopeDimension::ToolCredentialBinding => "undeclared-tool-credential-binding",
            AgentEnvelopeDimension::ToolExecutionPolicy => "changed-tool-execution-policy",
            AgentEnvelopeDimension::EffectSafety => "downgraded-effect-safety",
            AgentEnvelopeDimension::ModelProfile => "unapproved-model-profile",
            AgentEnvelopeDimension::CredentialBinding => "unauthorized-credential-binding",
        }
    }

    /// The label of each dimension.
    pub open spec fn label_text(self) -> Seq<char> {
        match self {
            AgentEnvelopeDimension::Tool => "undeclared-tool"@,
            AgentEnvelopeDimension::ToolCapability => "undeclared-tool-capability"@,
            AgentEnvelopeDimension::ToolCredentialBinding => "undeclared-tool-credential-binding"@,
            AgentEnvelopeDimension::ToolExecutionPolicy => "changed-tool-execution-policy"@,
            AgentEnvelopeDimension::EffectSafety => "downgraded-effect-safety"@,
            AgentEnvelopeDimension::ModelProfile => "unapproved-model-profile"@,
            AgentEnvelopeDimension::CredentialBinding => "unauthorized-credential-binding"@,
        }
    }
}

} // verus!
