use rakka_agent::collections::{IdMap, IdSet};
use rakka_agent::definition::{
    AgentAuthorityEnvelope, AgentCredentialBindingRef, AgentDefinitionRevision,
    AgentEffectSafetyClass, AgentEntityState, AgentExecutionPolicyRef, AgentGuardrailStageId,
    AgentLifecycleStatus, AgentModelProfileId, AgentSettings, AgentSetupRevision,
    AgentToolDeclaration, SettingsRevision, CURRENT_AGENT_SETUP_SCHEMA_VERSION,
};
use rakka_agent::effect::{
    AgentContentDigest, AgentContextSnapshotRef, AgentEffectSpec, AgentReconciliationProtocolRef, AgentRunEffect,
    AgentRunEffectRequest, AgentRunScope, AgentToolCallRequest, AGENT_TOOL_ARGUMENTS_MAX_BYTES,
};
use rakka_agent::guardrails::{
    AgentGuardrailBoundary, AgentGuardrailChain, AgentGuardrailDecision, AgentGuardrailDisposition,
};
use rakka_agent::identity::{
    AgentCapabilityId, AgentId, AgentRevisionNumber, AgentRunId, AgentTimestampMillis,
    AgentToolCallId, AgentToolId, TenantId, ToolTag,
};
use rakka_agent::tool_authority::{
    AcceptedExecutionPolicies, AgentAuthorityContext, AgentAuthorityRefusal, AgentGrantedDispatch,
    AgentToolAuthority, AGENT_DISPATCH_GRANT_DEFAULT_TTL_MS,
};
use rakka_agent::tool_router::AgentToolExecutorRouter;
use rakka_agent::tools::{
    AgentSchemaId, AgentSchemaRef, AgentToolBinding, AgentToolDescriptor, AgentToolKind,
    AgentToolRegistry, AgentToolResultBehavior, AGENT_TOOL_DESCRIPTION_MAX_LENGTH,
    AGENT_TOOL_PARAMETERS_MAX_BYTES, AGENT_TOOL_REGISTRY_MAX_TOOLS,
};
use serde_json::Value;

fn schema(id: &str) -> AgentSchemaRef {
    AgentSchemaRef {
        schema: AgentSchemaId::new(id).expect("the schema id is valid"),
        revision: AgentRevisionNumber::initial(),
    }
}

fn tool_id(id: &str) -> AgentToolId {
    AgentToolId::new(id).expect("the tool id is valid")
}

fn descriptor(tool: &str) -> AgentToolDescriptor {
    AgentToolDescriptor::new(
        tool_id(tool),
        AgentToolKind::Function,
        "Charges a card.".to_string(),
        schema("charge-input"),
        schema("charge-output"),
    )
    .expect("the descriptor is valid")
}

fn scope() -> AgentRunScope {
    AgentRunScope::new(
        TenantId::new("acme"),
        AgentId::new("support").expect("the agent id is valid"),
        AgentRunId::new("t-gen-1").expect("the run id is valid"),
    )
    .expect("the scope is valid")
}

fn amount() -> Value {
    let mut fields = serde_json::Map::new();
    fields.insert("amount".to_string(), Value::from(42));
    Value::Object(fields)
}

fn definition_with(tools: IdMap<ToolTag, AgentToolDeclaration>) -> AgentDefinitionRevision {
    let mut envelope = AgentAuthorityEnvelope::empty();
    for index in 0..tools.len() {
        if let Some(credential) = &tools.value_at(index).credential_binding {
            envelope.credential_bindings.insert(credential.clone());
        }
    }
    envelope.tools = tools;
    AgentDefinitionRevision {
        revision: AgentRevisionNumber::initial(),
        envelope,
    }
}

fn one_tool(tool: &str, declaration: AgentToolDeclaration) -> AgentDefinitionRevision {
    let mut tools = IdMap::new();
    tools.insert(tool_id(tool), declaration);
    definition_with(tools)
}

fn initial_settings() -> SettingsRevision {
    SettingsRevision {
        revision: AgentRevisionNumber::initial(),
        settings: AgentSettings::default(),
    }
}

fn non_idempotent() -> AgentToolDeclaration {
    AgentToolDeclaration::new(AgentEffectSafetyClass::NonIdempotent)
}

fn registry_of(declaration: AgentToolDeclaration) -> AgentToolRegistry {
    AgentToolRegistry::new()
        .register(AgentToolBinding::new(
            descriptor("charge-card"),
            declaration,
            1,
        ))
        .expect("the tool registers")
}

fn tool_intent(tool: &str, spec: &AgentEffectSpec) -> AgentRunEffect {
    let call = AgentToolCallRequest::new(
        AgentToolCallId::new("call-1").expect("the call id is valid"),
        tool_id(tool),
        amount(),
    )
    .expect("the call is bounded");
    AgentRunEffect::new(
        &scope(),
        1,
        0,
        AgentRunEffectRequest::Tool { call },
        spec,
        AgentTimestampMillis::new(1),
    )
    .expect("the effect derives")
}

fn allowed() -> AgentGuardrailDecision {
    AgentGuardrailDecision {
        disposition: AgentGuardrailDisposition::Allowed,
        transformed: None,
        reports: vec![],
    }
}

fn authorize(
    authority: &AgentToolAuthority<AcceptedExecutionPolicies>,
    context: &AgentAuthorityContext<'_>,
    intent: &AgentRunEffect,
    at: u64,
) -> Result<AgentGrantedDispatch, AgentAuthorityRefusal> {
    authority.authorize(
        context,
        &scope(),
        None,
        None,
        intent,
        allowed(),
        AgentTimestampMillis::new(at),
    )
}

#[test]
fn an_unclassified_binding_fails_safe_and_the_registry_projects_policies() {
    let registry = AgentToolRegistry::new()
        .register(AgentToolBinding::unclassified(descriptor("charge-card")))
        .expect("the tool registers");

    let binding = registry
        .binding(&tool_id("charge-card"))
        .expect("the binding exists");
    let spec = binding.effect_spec().expect("the spec derives");
    assert_eq!(spec.safety_class, AgentEffectSafetyClass::NonIdempotent);
    assert_eq!(spec.max_attempts, 1);

    // The projected policies stamp the same spec at commit time.
    let policies = registry.effect_policies().expect("the policies derive");
    let intent = tool_intent("charge-card", &AgentEffectSpec::non_idempotent());
    assert_eq!(
        format!("{:?}", policies.spec_for(&intent.request)),
        format!("{spec:?}")
    );
}

#[test]
fn a_duplicate_registration_is_refused() {
    let registry = AgentToolRegistry::new()
        .register(AgentToolBinding::unclassified(descriptor("charge-card")))
        .expect("the tool registers");
    let error = registry
        .register(AgentToolBinding::unclassified(descriptor("charge-card")))
        .expect_err("a duplicate is refused");
    assert_eq!(error.code(), "tool-already-registered");
}

#[test]
fn the_descriptor_digest_moves_with_the_model_visible_shape() {
    let first = descriptor("charge-card");
    let same = descriptor("charge-card");
    assert_eq!(first.schema_digest().value, same.schema_digest().value);

    let revised = descriptor("charge-card").with_version(AgentRevisionNumber::new(2));
    assert_ne!(first.schema_digest().value, revised.schema_digest().value);
}

#[test]
fn model_visibility_is_declared_and_not_revoked() {
    let registry = AgentToolRegistry::new()
        .register(AgentToolBinding::unclassified(descriptor("charge-card")))
        .expect("the tool registers")
        .register(AgentToolBinding::unclassified(descriptor("refund-card")))
        .expect("the tool registers");

    let mut envelope = AgentAuthorityEnvelope::empty();
    envelope
        .tools
        .insert(tool_id("charge-card"), non_idempotent());

    // Declared and unrevoked: visible.
    let visible = registry.model_visible(&envelope, &AgentSettings::default());
    assert_eq!(visible.len(), 1);
    assert_eq!(visible[0].tool.as_str(), "charge-card");

    // Revoked: invisible, though still declared and registered.
    let mut settings = AgentSettings::default();
    settings.revoked_tools.insert(tool_id("charge-card"));
    assert!(registry.model_visible(&envelope, &settings).is_empty());
}

#[test]
fn an_intent_cannot_downgrade_the_bindings_safety_class() {
    // The binding declares the tool non-idempotent; an intent claiming a
    // read-only class is refused, however it was produced.
    let registry = registry_of(non_idempotent());
    let definition = one_tool("charge-card", non_idempotent());
    let settings = initial_settings();
    let context = AgentAuthorityContext {
        status: AgentLifecycleStatus::Active,
        definition: &definition,
        settings: &settings,
        setup: None,
    };

    let authority = AgentToolAuthority::new(registry);
    let intent = tool_intent("charge-card", &AgentEffectSpec::read_only());
    let refusal =
        authorize(&authority, &context, &intent, 2).expect_err("a downgraded intent is refused");
    assert_eq!(refusal.code, "downgraded-effect-safety");
    assert!(!refusal.retryable);
}

#[test]
fn a_grant_validates_its_exact_intent_expiry_and_use_count() {
    let registry = registry_of(non_idempotent());
    let definition = one_tool("charge-card", non_idempotent());
    let settings = initial_settings();
    let context = AgentAuthorityContext {
        status: AgentLifecycleStatus::Active,
        definition: &definition,
        settings: &settings,
        setup: None,
    };

    let authority = AgentToolAuthority::new(registry).with_grant_ttl_ms(1_000);
    let intent = tool_intent("charge-card", &AgentEffectSpec::non_idempotent());
    let granted = authorize(&authority, &context, &intent, 10).expect("the dispatch is granted");
    let grant = &granted.grant;

    // The grant binds the descriptor identity and the exact intent.
    let descriptor = grant.descriptor.as_ref().expect("a tool grant has one");
    assert_eq!(descriptor.tool.as_str(), "charge-card");
    assert_eq!(grant.allowed_use_count, 1);

    // Valid for its first attempt, inside its window.
    grant
        .validate_for(&scope(), &intent, 1, AgentTimestampMillis::new(500))
        .expect("the grant covers the attempt");

    // Spent uses and elapsed windows fail closed.
    assert_eq!(
        grant
            .validate_for(&scope(), &intent, 2, AgentTimestampMillis::new(500))
            .expect_err("a spent grant is refused")
            .code,
        "grant-uses-exhausted"
    );
    assert_eq!(
        grant
            .validate_for(&scope(), &intent, 1, AgentTimestampMillis::new(1_010))
            .expect_err("an expired grant is refused")
            .code,
        "grant-expired"
    );

    // A different generation is a different intent: the grant refuses it.
    let mut later = tool_intent("charge-card", &AgentEffectSpec::non_idempotent());
    later.generation = later.generation.next();
    assert_eq!(
        grant
            .validate_for(&scope(), &later, 1, AgentTimestampMillis::new(500))
            .expect_err("a superseded intent is refused")
            .code,
        "grant-intent-mismatch"
    );
}

#[test]
fn a_setup_that_excludes_a_declared_tool_is_enforced_at_dispatch() {
    // The definition declares the tool, the run's setup narrows it away, and
    // the dispatch refuses.
    let registry = registry_of(non_idempotent());
    let definition = one_tool("charge-card", non_idempotent());
    let settings = initial_settings();
    let setup = AgentSetupRevision::new(
        AgentRevisionNumber::initial(),
        AgentAuthorityEnvelope::empty(),
    );
    assert_eq!(
        setup.schema_version, CURRENT_AGENT_SETUP_SCHEMA_VERSION,
        "the setup carries its schema version"
    );
    let context = AgentAuthorityContext {
        status: AgentLifecycleStatus::Active,
        definition: &definition,
        settings: &settings,
        setup: Some(&setup),
    };

    let authority = AgentToolAuthority::new(registry);
    let intent = tool_intent("charge-card", &AgentEffectSpec::non_idempotent());
    let refusal = authorize(&authority, &context, &intent, 2)
        .expect_err("the setup's narrowing is enforced at dispatch");
    assert_eq!(refusal.code, "setup-excludes-tool");
}

#[test]
fn an_immediate_safety_revocation_reaches_the_next_dispatch() {
    let registry = registry_of(non_idempotent());
    let definition = one_tool("charge-card", non_idempotent());
    let revoked = initial_settings().revoking_tool(tool_id("charge-card"));
    let context = AgentAuthorityContext {
        status: AgentLifecycleStatus::Active,
        definition: &definition,
        settings: &revoked,
        setup: None,
    };

    let authority = AgentToolAuthority::new(registry);
    let intent = tool_intent("charge-card", &AgentEffectSpec::non_idempotent());
    let refusal =
        authorize(&authority, &context, &intent, 2).expect_err("a revoked tool is refused");
    assert_eq!(refusal.code, "tool-revoked");
}

#[test]
fn suspension_is_a_transient_refusal_and_termination_a_definitive_one() {
    let registry = AgentToolRegistry::new();
    let definition = definition_with(IdMap::new());
    let settings = initial_settings();
    let authority = AgentToolAuthority::new(registry);
    let intent = tool_intent("charge-card", &AgentEffectSpec::non_idempotent());

    let suspended = AgentAuthorityContext {
        status: AgentLifecycleStatus::Suspended,
        definition: &definition,
        settings: &settings,
        setup: None,
    };
    let refusal = authorize(&authority, &suspended, &intent, 2)
        .expect_err("a suspended agent dispatches nothing");
    assert_eq!(refusal.code, "agent-dispatch-suspended");
    assert!(refusal.retryable, "a suspension may be resumed");

    let terminated = AgentAuthorityContext {
        status: AgentLifecycleStatus::Terminated,
        definition: &definition,
        settings: &settings,
        setup: None,
    };
    let refusal = authorize(&authority, &terminated, &intent, 2)
        .expect_err("a terminated agent dispatches nothing");
    assert_eq!(refusal.code, "agent-terminated");
    assert!(!refusal.retryable);
}

#[test]
fn a_descriptor_is_bounded() {
    let build = |description: String| {
        AgentToolDescriptor::new(
            tool_id("charge-card"),
            AgentToolKind::Function,
            description,
            schema("charge-input"),
            schema("charge-output"),
        )
    };
    assert_eq!(
        build(String::new()).expect_err("empty").code(),
        "tool-description-empty"
    );
    let error = build("x".repeat(AGENT_TOOL_DESCRIPTION_MAX_LENGTH + 1)).expect_err("too long");
    assert_eq!(error.code(), "tool-description-too-long");
    build("x".repeat(AGENT_TOOL_DESCRIPTION_MAX_LENGTH)).expect("the bound is inclusive");

    // A JSON string costs its two quotes.
    let within = Value::String("x".repeat(AGENT_TOOL_PARAMETERS_MAX_BYTES - 2));
    descriptor("charge-card")
        .with_parameters(within)
        .expect("the bound is inclusive");
    let beyond = Value::String("x".repeat(AGENT_TOOL_PARAMETERS_MAX_BYTES - 1));
    let error = descriptor("charge-card")
        .with_parameters(beyond)
        .expect_err("too large");
    assert_eq!(error.code(), "tool-parameters-too-large");
}

#[test]
fn the_descriptor_digest_covers_parameters_and_result_behavior() {
    let plain = descriptor("charge-card").schema_digest().value;
    assert_eq!(plain.len(), 64);
    let with_parameters = descriptor("charge-card")
        .with_parameters(amount())
        .expect("the parameters are bounded")
        .schema_digest()
        .value;
    assert_ne!(plain, with_parameters);
    let renamed = descriptor("refund-card").schema_digest().value;
    assert_ne!(plain, renamed);
    let by_reference = descriptor("charge-card")
        .with_result_behavior(AgentToolResultBehavior::ArtifactReference)
        .schema_digest()
        .value;
    assert_ne!(plain, by_reference);
}

#[test]
fn a_full_registry_refuses_another_tool() {
    let mut registry = AgentToolRegistry::new();
    for index in 0..AGENT_TOOL_REGISTRY_MAX_TOOLS {
        registry = registry
            .register(AgentToolBinding::unclassified(descriptor(&format!(
                "tool-{index}"
            ))))
            .expect("the tool registers");
    }
    assert_eq!(registry.len(), AGENT_TOOL_REGISTRY_MAX_TOOLS);
    let error = registry
        .register(AgentToolBinding::unclassified(descriptor("one-more")))
        .expect_err("the registry is full");
    assert_eq!(error.code(), "tool-registry-full");
}

#[test]
fn a_binding_whose_policy_is_invalid_is_refused() {
    let error = AgentToolRegistry::new()
        .register(AgentToolBinding::new(
            descriptor("charge-card"),
            non_idempotent(),
            0,
        ))
        .expect_err("no attempt is permitted");
    assert_eq!(error.code(), "tool-policy-invalid");
}

#[test]
fn a_registry_projects_its_declarations() {
    let registry = registry_of(non_idempotent());
    let declarations = registry.tool_declarations();
    assert_eq!(declarations.len(), 1);
    assert_eq!(declarations.key_at(0).as_str(), "charge-card");
    assert_eq!(
        declarations.value_at(0).safety,
        AgentEffectSafetyClass::NonIdempotent
    );
    assert!(!registry.is_empty());
    assert!(AgentToolRegistry::default().is_empty());
}

#[test]
fn binding_options_reach_the_effect_spec() {
    let binding = AgentToolBinding::new(
        descriptor("charge-card"),
        AgentToolDeclaration::new(AgentEffectSafetyClass::Reconcileable),
        3,
    )
    .with_reconciliation_protocol(
        AgentReconciliationProtocolRef::new("ledger").expect("the protocol is valid"),
    )
    .with_timeout_ms(250)
    .with_guardrail(AgentGuardrailStageId::new("pii").expect("the stage is valid"))
    .with_checkpoint_required();
    assert!(binding.checkpoint_required());
    assert_eq!(binding.guardrails().len(), 1);
    let spec = binding.effect_spec().expect("the spec derives");
    assert_eq!(spec.max_attempts, 3);
    assert_eq!(spec.timeout_ms, Some(250));
    assert_eq!(
        spec.reconciliation_protocol
            .as_ref()
            .map(|protocol| protocol.as_str()),
        Some("ledger")
    );
}

#[test]
fn every_refusal_of_a_tool_call_names_its_cause() {
    let settings = initial_settings();
    let definition = one_tool("charge-card", non_idempotent());
    let active = AgentAuthorityContext {
        status: AgentLifecycleStatus::Active,
        definition: &definition,
        settings: &settings,
        setup: None,
    };
    let intent = tool_intent("charge-card", &AgentEffectSpec::non_idempotent());
    let code = |registry: AgentToolRegistry,
                context: &AgentAuthorityContext<'_>,
                intent: &AgentRunEffect| {
        authorize(&AgentToolAuthority::new(registry), context, intent, 2)
            .expect_err("the dispatch is refused")
            .code
    };

    // Not registered.
    assert_eq!(
        code(AgentToolRegistry::new(), &active, &intent),
        "tool-binding-missing"
    );

    // Arguments that are not the fingerprinted ones.
    let mut forged = tool_intent("charge-card", &AgentEffectSpec::non_idempotent());
    forged.argument_digest.value = "0".repeat(64);
    assert_eq!(
        code(registry_of(non_idempotent()), &active, &forged),
        "argument-digest-mismatch"
    );

    // A deployment laxer than the definition.
    assert_eq!(
        code(
            registry_of(AgentToolDeclaration::new(AgentEffectSafetyClass::ReadOnly)),
            &active,
            &intent
        ),
        "tool-declaration-conflict"
    );

    // More attempts than the binding permits.
    let mut eager = tool_intent("charge-card", &AgentEffectSpec::non_idempotent());
    eager.max_attempts = 2;
    assert_eq!(
        code(registry_of(non_idempotent()), &active, &eager),
        "tool-policy-conflict"
    );

    // A revoked credential.
    let credential = || AgentCredentialBindingRef::new("card-api").expect("the binding is valid");
    let mut with_credential = non_idempotent();
    with_credential.credential_binding = Some(credential());
    let authorized = one_tool("charge-card", with_credential.clone());
    let mut revoking = initial_settings();
    revoking
        .settings
        .revoked_credential_bindings
        .insert(credential());
    let context = AgentAuthorityContext {
        status: AgentLifecycleStatus::Active,
        definition: &authorized,
        settings: &revoking,
        setup: None,
    };
    let mut resolving = tool_intent("charge-card", &AgentEffectSpec::non_idempotent());
    resolving.credential_binding = Some(credential());
    assert_eq!(
        code(registry_of(with_credential.clone()), &context, &resolving),
        "credential-revoked"
    );

    // An intent that drops the credential its binding names.
    assert_eq!(
        code(registry_of(with_credential), &context, &intent),
        "tool-policy-conflict"
    );

    // A capability the definition never declared.
    let mut capable = non_idempotent();
    capable
        .capabilities
        .insert(AgentCapabilityId::new("refund").expect("the capability is valid"));
    let refused = code(registry_of(capable), &active, &intent);
    assert_eq!(refused, "undeclared-tool-capability");

    // An execution policy nothing routes.
    let policy = || AgentExecutionPolicyRef::new("sandbox").expect("the policy is valid");
    let mut routed = non_idempotent();
    routed.execution_policy = Some(policy());
    let sandboxed = one_tool("charge-card", routed.clone());
    let context = AgentAuthorityContext {
        status: AgentLifecycleStatus::Active,
        definition: &sandboxed,
        settings: &settings,
        setup: None,
    };
    let mut routing = tool_intent("charge-card", &AgentEffectSpec::non_idempotent());
    routing.execution_policy = Some(policy());
    assert_eq!(
        code(registry_of(routed.clone()), &context, &routing),
        "execution-policy-unroutable"
    );
    let mut accepted = IdSet::new();
    accepted.insert(policy());
    let authority = AgentToolAuthority::new(registry_of(routed))
        .with_execution_router(AcceptedExecutionPolicies { policies: accepted });
    authorize(&authority, &context, &routing, 2).expect("an accepted policy is routed");

    // A checkpoint the binding requires.
    let guarded = AgentToolRegistry::new()
        .register(
            AgentToolBinding::new(descriptor("charge-card"), non_idempotent(), 1)
                .with_checkpoint_required(),
        )
        .expect("the tool registers");
    assert_eq!(code(guarded, &active, &intent), "checkpoint-required");
}

#[test]
fn guardrails_gate_a_tool_call() {
    let stage = || AgentGuardrailStageId::new("pii").expect("the stage is valid");
    let settings = initial_settings();
    let mut definition = one_tool("charge-card", non_idempotent());
    definition.envelope.mandatory_guardrails.insert(stage());
    let context = AgentAuthorityContext {
        status: AgentLifecycleStatus::Active,
        definition: &definition,
        settings: &settings,
        setup: None,
    };
    let intent = tool_intent("charge-card", &AgentEffectSpec::non_idempotent());

    // A required stage without a chain that runs it.
    let bare = AgentToolAuthority::new(registry_of(non_idempotent()));
    assert_eq!(
        authorize(&bare, &context, &intent, 2)
            .expect_err("the stage is missing")
            .code,
        "guardrail-stage-missing"
    );

    let mut stages = IdSet::new();
    stages.insert(stage());
    let chained = AgentToolAuthority::new(registry_of(non_idempotent())).with_guardrails(
        AgentGuardrailChain {
            revision: AgentRevisionNumber::new(4),
            stages,
        },
    );
    let decide = |decision: AgentGuardrailDecision| {
        chained.authorize(
            &context,
            &scope(),
            None,
            None,
            &intent,
            decision,
            AgentTimestampMillis::new(2),
        )
    };
    assert_eq!(
        decide(AgentGuardrailDecision {
            disposition: AgentGuardrailDisposition::Blocked {
                stage: stage(),
                reason_code: "card-number".to_string(),
            },
            transformed: None,
            reports: vec![],
        })
        .expect_err("the stage blocks")
        .message(),
        "dispatch refused (guardrail-blocked): guardrail stage pii blocked the call: card-number"
    );
    assert_eq!(
        decide(AgentGuardrailDecision {
            disposition: AgentGuardrailDisposition::CheckpointRequired {
                stage: stage(),
                reason_code: "large-amount".to_string(),
            },
            transformed: None,
            reports: vec![],
        })
        .expect_err("the stage asks for a grant")
        .code,
        "checkpoint-required"
    );
    assert_eq!(
        decide(AgentGuardrailDecision {
            disposition: AgentGuardrailDisposition::Allowed,
            transformed: Some(Value::String("x".repeat(AGENT_TOOL_ARGUMENTS_MAX_BYTES))),
            reports: vec![],
        })
        .expect_err("the transform is oversized")
        .code,
        "guardrail-transform-oversized"
    );
    let granted = decide(allowed()).expect("the stage allows");
    assert_eq!(
        granted.grant.guardrail_revision,
        Some(AgentRevisionNumber::new(4))
    );
    assert_eq!(
        granted.grant.expires_at.as_millis(),
        2 + AGENT_DISPATCH_GRANT_DEFAULT_TTL_MS
    );
}

#[test]
fn a_model_turn_uses_an_approved_profile() {
    let profile = |name: &str| AgentModelProfileId::new(name).expect("the profile is valid");
    let model_intent = |name: Option<&str>| {
        AgentRunEffect::new(
            &scope(),
            1,
            0,
            AgentRunEffectRequest::Model {
                context: AgentContextSnapshotRef::new("context-1").expect("the ref is valid"),
                profile: name.map(profile),
            },
            &AgentEffectSpec::read_only(),
            AgentTimestampMillis::new(1),
        )
        .expect("the effect derives")
    };
    let settings = initial_settings();
    let mut definition = definition_with(IdMap::new());
    definition.envelope.model_profiles.insert(profile("small"));
    let context = AgentAuthorityContext {
        status: AgentLifecycleStatus::Active,
        definition: &definition,
        settings: &settings,
        setup: None,
    };
    let authority = AgentToolAuthority::new(AgentToolRegistry::new());

    let granted =
        authorize(&authority, &context, &model_intent(Some("small")), 5).expect("it is approved");
    assert!(granted.grant.descriptor.is_none());
    let refusal = authorize(&authority, &context, &model_intent(Some("large")), 5)
        .expect_err("it is not approved");
    assert_eq!(refusal.code, "unapproved-model-profile");
    authorize(&authority, &context, &model_intent(None), 5).expect("no profile is asked for");

    // The operator's selection wins over the intent's.
    let mut selecting = initial_settings();
    selecting.settings.model_profile = Some(profile("large"));
    let context = AgentAuthorityContext {
        status: AgentLifecycleStatus::Active,
        definition: &definition,
        settings: &selecting,
        setup: None,
    };
    assert_eq!(
        authorize(&authority, &context, &model_intent(Some("small")), 5)
            .expect_err("the selected profile is not approved")
            .code,
        "unapproved-model-profile"
    );
}

#[test]
fn a_chain_is_asked_only_what_the_checks_let_through() {
    let stage = || AgentGuardrailStageId::new("pii").expect("the stage is valid");
    let settings = initial_settings();
    let definition = one_tool("charge-card", non_idempotent());
    let context = AgentAuthorityContext {
        status: AgentLifecycleStatus::Active,
        definition: &definition,
        settings: &settings,
        setup: None,
    };
    let intent = tool_intent("charge-card", &AgentEffectSpec::non_idempotent());
    let chained = || {
        let mut stages = IdSet::new();
        stages.insert(stage());
        AgentToolAuthority::new(registry_of(non_idempotent())).with_guardrails(
            AgentGuardrailChain {
                revision: AgentRevisionNumber::new(4),
                stages,
            },
        )
    };

    // A tool call is shown with its own arguments.
    let request = chained()
        .guardrail_request(&context, &intent)
        .expect("the chain is asked");
    assert_eq!(request.boundary(), AgentGuardrailBoundary::ToolRequest);
    let AgentRunEffectRequest::Tool { call } = &intent.request else {
        panic!("the intent is a tool call");
    };
    assert_eq!(request.content(), call.arguments);

    // No chain, nothing to ask.
    assert!(AgentToolAuthority::new(registry_of(non_idempotent()))
        .guardrail_request(&context, &intent)
        .is_none());

    // A call an earlier check refuses is not shown.
    let revoked = initial_settings().revoking_tool(tool_id("charge-card"));
    let refused = AgentAuthorityContext {
        settings: &revoked,
        ..context
    };
    assert!(chained().guardrail_request(&refused, &intent).is_none());
    let suspended = AgentAuthorityContext {
        status: AgentLifecycleStatus::Suspended,
        ..context
    };
    assert!(chained().guardrail_request(&suspended, &intent).is_none());

    // A model call is shown as a bounded description.
    let model = |profile: Option<AgentModelProfileId>| {
        AgentRunEffect::new(
            &scope(),
            3,
            0,
            AgentRunEffectRequest::Model {
                context: AgentContextSnapshotRef::new("context-1").expect("the ref is valid"),
                profile,
            },
            &AgentEffectSpec::read_only(),
            AgentTimestampMillis::new(1),
        )
        .expect("the effect derives")
    };
    let request = chained()
        .guardrail_request(&context, &model(None))
        .expect("the chain is asked");
    assert_eq!(request.boundary(), AgentGuardrailBoundary::ModelRequest);
    assert_eq!(
        request.content().to_string(),
        r#"{"kind":"model-call","profile":null,"turn":3}"#
    );
    let small = || AgentModelProfileId::new("small").expect("the profile is valid");
    let mut approving = definition_with(IdMap::new());
    approving.envelope.model_profiles.insert(small());
    let approved = AgentAuthorityContext {
        definition: &approving,
        ..context
    };
    let request = chained()
        .guardrail_request(&approved, &model(Some(small())))
        .expect("the chain is asked");
    assert_eq!(
        request.content().to_string(),
        r#"{"kind":"model-call","profile":"small","turn":3}"#
    );
    assert!(chained()
        .guardrail_request(&context, &model(Some(small())))
        .is_none());
}

#[test]
fn the_descriptor_digest_is_that_of_its_json() {
    let text = concat_shape("null");
    assert_eq!(
        descriptor("charge-card").schema_digest().value,
        AgentContentDigest::of_text(&text).value
    );
    let with_parameters = descriptor("charge-card")
        .with_parameters(Value::from("any"))
        .expect("the parameters are bounded");
    assert_eq!(
        with_parameters.schema_digest().value,
        AgentContentDigest::of_text(&concat_shape("\"any\"")).value
    );
}

fn concat_shape(parameters: &str) -> String {
    [
        r#"{"description":"Charges a card.","#,
        r#""input_schema":{"revision":1,"schema":"charge-input"},"#,
        r#""kind":"function","#,
        r#""output_schema":{"revision":1,"schema":"charge-output"},"#,
        r#""parameters":"#,
        parameters,
        r#","result_behavior":"inline-bounded","tool":"charge-card","version":1}"#,
    ]
    .concat()
}

#[test]
fn an_entity_provides_its_context() {
    let state = AgentEntityState {
        status: AgentLifecycleStatus::Active,
        definition: one_tool("charge-card", non_idempotent()),
        settings: initial_settings(),
    };
    let setup = AgentSetupRevision::new(
        AgentRevisionNumber::initial(),
        AgentAuthorityEnvelope::empty(),
    );
    let context = AgentAuthorityContext::for_entity(&state);
    assert!(context.setup.is_none());
    assert!(context.with_setup(&setup).setup.is_some());
    let authority = AgentToolAuthority::new(registry_of(non_idempotent()));
    let intent = tool_intent("charge-card", &AgentEffectSpec::non_idempotent());
    authorize(&authority, &context, &intent, 2).expect("the dispatch is granted");
}

#[test]
fn an_exact_route_beats_a_prefix_which_beats_a_kind() {
    let registry = AgentToolRegistry::new()
        .register(AgentToolBinding::unclassified(descriptor("search")))
        .expect("the tool registers");
    let router = AgentToolExecutorRouter::new("fallback")
        .with_kind_route(AgentToolKind::Function, registry, "kind")
        .with_prefix_route("github/".to_string(), "github")
        .with_prefix_route("github/issues/".to_string(), "issues")
        .with_tool_route(tool_id("github/issues/close"), "close");
    assert_eq!(*router.resolve(&tool_id("github/issues/close")), "close");
    assert_eq!(*router.resolve(&tool_id("github/issues/open")), "issues");
    assert_eq!(*router.resolve(&tool_id("github/pulls")), "github");
    assert_eq!(*router.resolve(&tool_id("search")), "kind");
    assert_eq!(*router.resolve(&tool_id("unknown")), "fallback");
}

#[test]
fn a_repeated_prefix_keeps_its_first_executor() {
    let router = AgentToolExecutorRouter::new("fallback")
        .with_prefix_route("a/".to_string(), "first")
        .with_prefix_route("a/".to_string(), "second");
    assert_eq!(*router.resolve(&tool_id("a/b")), "first");

    // An empty prefix is no second catch-all.
    let router = router.with_prefix_route(String::new(), "everything");
    assert_eq!(*router.resolve(&tool_id("b")), "fallback");
}
