use rakka_agent::definition::AgentModelProfileId;
use rakka_agent::effect::{
    AgentClaimAppendProvenance, AgentClaimAppendRequest, AgentCompensationRef, AgentContentDigest, AgentContextSnapshotRef, AgentDelegationId,
    AgentDelegationRecord, AgentEffectSpec, AgentGoalEvaluationMethod, AgentGoalEvaluationRequest,
    AgentGoalEvidenceRef, AgentMemoryPromotionRequest, AgentRunEffect, AgentRunEffectRequest, AgentRunEffectStatus,
    AgentRunScope, AgentTaskContent, AgentToolCallRequest, AgentWorkflowInvocationId,
    AgentWorkflowInvocationRecord,
};
use rakka_agent::exchange::{
    AgentEntityAddress, AgentEntityClass, AgentExchangeDecodeError, AgentExchangeKind,
    AgentExchangeResult, AgentTeamScope,
};
use rakka_agent::identity::{
    AgentGoalId, AgentId, AgentOperationId, AgentRevisionNumber, AgentRunId, AgentTaskId,
    AgentTeamId, AgentTimestampMillis, AgentToolCallId, AgentToolId, PrincipalRef, TenantId,
};
use rakka_agent::testkit_delivery::{
    check_local_route, sweep_crash_points, AgentDispatchWindow, CrashPoint, CrashSchedule, DeferredExchangeRouter,
    DurableWrite, ExchangeFault, InProcessTransport, KillSwitchProbe, SharedAtomicWorkflowClock,
    TransportClass, WriteFate,
};
use rakka_agent::testkit_dispatch::{
    dispatched_effects, result_command, AgentDispatchReport, AgentDispatchStep,
    AgentExecutorRequest, AgentModelRetryPolicy, DeterministicModelAdapter, ScriptedDispatcher,
};
use rakka_agent::testkit_doubles::{
    hash_fnv1a, AgentDispatchError, AgentReconciliationFinding, DeterministicEmbedder,
    MemoryRetrievalOutcome, RecordingToolExecutor, ScriptedCredentialResolver,
    ScriptedPrivateMemoryRetriever, ScriptedReconciler, DETERMINISTIC_EMBEDDER_MODEL,
};
use rakka_agent::testkit_outcome::{
    AgentA2aSendFinding, AgentCheckpointGrant, AgentClaimAppendFinding, AgentGoalEvaluationFinding,
    AgentGoalEvaluationOutcome, AgentMemoryPromotionFinding, AgentModelError, AgentModelRequest,
    AgentModelTurn, AgentRunEffectOutcome, AgentWorkflowCancelFinding, AgentWorkflowStartFinding,
    AGENT_MODEL_TEXT_MAX_LENGTH,
};
use rakka_agent::testkit_probe::{
    ChoreographyProbe, ProbeAssignment, ProbeCommand, ProbeCreation, ProbeLedgerEntry,
    ProbeProposal, RunAcceptanceProbe, RunProbeAnswer, AgentRunAssignment,
    PROBE_DECISION_CAPACITY, PROBE_LEDGER_TYPE,
};
use rakka_agent::wake_scanner::AgentTaskScope;
use serde_json::Value;

fn run_scope() -> AgentRunScope {
    AgentRunScope::new(
        TenantId::new("acme"),
        AgentId::new("support").expect("the agent id is valid"),
        AgentRunId::new("t-gen-1").expect("the run id is valid"),
    )
    .expect("the scope is valid")
}

fn context_for(turn: u64) -> AgentContextSnapshotRef {
    AgentContextSnapshotRef::new(&format!("context-{turn}")).expect("the reference is valid")
}

fn model_request_for(turn: u64) -> AgentModelRequest {
    AgentModelRequest::new(context_for(turn), turn)
}

fn current_turn() -> AgentModelTurn {
    AgentModelTurn::new(AgentRevisionNumber::initial())
}

fn answered(
    dispatcher: &mut ScriptedDispatcher<DeterministicModelAdapter>,
    effect: &AgentRunEffect,
) -> AgentRunEffectOutcome {
    match dispatcher.answer(effect) {
        AgentDispatchStep::Answered { outcome } => outcome,
        other => panic!("the effect is answered, got {other:?}"),
    }
}

fn object(key: &str, value: Value) -> Value {
    let mut fields = serde_json::Map::new();
    fields.insert(key.to_string(), value);
    Value::Object(fields)
}

#[test]
fn the_deterministic_adapter_conditions_a_turn_on_its_turn_number() {
    let first = current_turn().with_text("first");
    let second = current_turn().with_text("second");
    let mut adapter = DeterministicModelAdapter::new()
        .with_turn_for(2, second)
        .with_turn(first);

    // A call for turn 2 gets the turn scripted for that number regardless of
    // the ordered script; a call for turn 1 falls through to the ordered
    // script. A call that runs produces the same turn as `produce`.
    let turn_two = adapter.call(&model_request_for(2)).run(&mut adapter);
    assert_eq!(turn_two.text.as_deref(), Some("second"));
    assert_eq!(
        adapter.produce(&model_request_for(1)).text.as_deref(),
        Some("first")
    );
    assert_eq!(adapter.calls(), 2);
}

fn tool_effect(scope: &AgentRunScope, slot: u64, call_id: &str) -> AgentRunEffect {
    let call = AgentToolCallRequest::new(
        AgentToolCallId::new(call_id).expect("the call id is valid"),
        AgentToolId::new("search").expect("the tool id is valid"),
        object("query", Value::from(slot)),
    )
    .expect("the call is bounded");
    AgentRunEffect::new(
        scope,
        1,
        slot,
        AgentRunEffectRequest::Tool { call },
        &AgentEffectSpec::non_idempotent(),
        AgentTimestampMillis::new(1),
    )
    .expect("the effect derives")
}

#[test]
fn a_tool_answer_is_memoized_on_the_effect_id() {
    let scope = AgentRunScope::new(
        TenantId::new("acme"),
        AgentId::new("support").expect("the agent id is valid"),
        AgentRunId::new("t-gen-1").expect("the run id is valid"),
    )
    .expect("the scope is valid");
    let effect = tool_effect(&scope, 1, "call-1");

    let mut dispatcher = ScriptedDispatcher::new();
    let first = answered(&mut dispatcher, &effect);

    // The script changes under the dispatcher, so the tool now fails, but
    // re-invoking the same effect returns the answer already given.
    let mut dispatcher = dispatcher.with_tool_failure("search", "tool-unavailable", "down");
    assert_eq!(
        format!("{first:?}"),
        format!("{:?}", answered(&mut dispatcher, &effect))
    );

    // A different effect is a different invocation and sees the new script.
    let sibling = tool_effect(&scope, 2, "call-2");
    assert_eq!(
        answered(&mut dispatcher, &sibling).failure_code(),
        Some("tool-unavailable")
    );

    // Re-invocations are still counted: each really is another call.
    assert_eq!(dispatcher.tool_calls(), 3);
}

fn model_effect(scope: &AgentRunScope, slot: u64) -> AgentRunEffect {
    AgentRunEffect::new(
        scope,
        1,
        slot,
        AgentRunEffectRequest::Model {
            context: context_for(1),
            profile: None,
        },
        &AgentEffectSpec::read_only(),
        AgentTimestampMillis::new(1),
    )
    .expect("the effect derives")
}

#[test]
fn a_dropped_unpolled_call_consumes_no_scripted_turn() {
    let mut adapter =
        DeterministicModelAdapter::new().with_turn(current_turn().with_text("kept"));

    // A call built and dropped without running performs no production.
    drop(adapter.call(&model_request_for(1)));
    assert_eq!(adapter.calls(), 0);

    assert_eq!(
        adapter.produce(&model_request_for(1)).text.as_deref(),
        Some("kept"),
        "the scripted turn is still there for the call that runs"
    );
}

#[test]
fn an_unboundable_scripted_turn_surfaces_as_a_failed_effect() {
    let oversized = current_turn().with_text(&"x".repeat(AGENT_MODEL_TEXT_MAX_LENGTH + 1));
    let mut dispatcher =
        ScriptedDispatcher::with_adapter(DeterministicModelAdapter::new().with_turn(oversized));

    // The turn is refused where the outcome is formed, as a failed effect.
    let outcome = answered(&mut dispatcher, &model_effect(&run_scope(), 0));
    assert_eq!(outcome.failure_code(), Some("model-text-too-long"));
}

#[test]
fn a_later_dispatch_generation_reaches_the_adapter_again() {
    let first = current_turn().with_text("first");
    let second = current_turn().with_text("second");
    let mut dispatcher = ScriptedDispatcher::with_adapter(
        DeterministicModelAdapter::new()
            .with_turn(first)
            .with_turn(second),
    );

    let effect = model_effect(&run_scope(), 0);
    let answer = answered(&mut dispatcher, &effect);
    // The same generation replays the memoized answer without producing.
    assert_eq!(
        format!("{answer:?}"),
        format!("{:?}", answered(&mut dispatcher, &effect))
    );
    assert_eq!(dispatcher.adapter().calls(), 1);

    // A later generation is a new attempt entirely, so it reaches the adapter
    // instead of replaying the recorded answer forever.
    let mut retried = effect;
    retried.generation = retried.generation.next();
    let retried_answer = answered(&mut dispatcher, &retried);
    assert_ne!(format!("{answer:?}"), format!("{retried_answer:?}"));
    assert_eq!(dispatcher.adapter().calls(), 2);
}

#[test]
fn a_spent_script_produces_empty_turns() {
    let mut adapter = DeterministicModelAdapter::new();
    let turn = adapter.produce(&model_request_for(1));
    assert!(turn.text.is_none());
    assert_eq!(turn.adapter_version, AgentRevisionNumber::initial());

    let adapter = adapter
        .with_retry_policy(AgentModelRetryPolicy { max_attempts: 3 })
        .expect("the policy permits attempts");
    assert_eq!(adapter.retry_policy().max_attempts, 3);
    let error = adapter
        .with_retry_policy(AgentModelRetryPolicy { max_attempts: 0 })
        .expect_err("the policy permits none");
    assert_eq!(error.code(), "model-retry-policy-invalid");
}

#[test]
fn an_unscripted_tool_echoes_its_name() {
    let mut dispatcher = ScriptedDispatcher::new();
    match answered(&mut dispatcher, &tool_effect(&run_scope(), 1, "call-1")) {
        AgentRunEffectOutcome::Tool { call_id, content } => {
            assert_eq!(call_id.as_str(), "call-1");
            assert_eq!(content.value, object("tool", Value::from("search")));
        }
        other => panic!("a tool outcome, got {other:?}"),
    }
    let mut scripted = ScriptedDispatcher::new()
        .with_tool_result("search", AgentTaskContent::inline(Value::from("found")));
    match answered(&mut scripted, &tool_effect(&run_scope(), 1, "call-1")) {
        AgentRunEffectOutcome::Tool { content, .. } => {
            assert_eq!(content.value, Value::from("found"));
        }
        other => panic!("a tool outcome, got {other:?}"),
    }
}

fn effect_of(request: AgentRunEffectRequest) -> AgentRunEffect {
    AgentRunEffect::new(
        &run_scope(),
        1,
        0,
        request,
        &AgentEffectSpec::read_only(),
        AgentTimestampMillis::new(1),
    )
    .expect("the effect derives")
}

fn delegation() -> AgentDelegationRecord {
    AgentDelegationRecord {
        delegation: AgentDelegationId::new("delegation-1").expect("the id is valid"),
        parent_run: run_scope(),
    }
}

fn invocation() -> AgentWorkflowInvocationRecord {
    AgentWorkflowInvocationRecord {
        invocation: AgentWorkflowInvocationId::new("invocation-1").expect("the id is valid"),
        parent_run: run_scope(),
        child_run: "child-1".to_string(),
    }
}

fn evaluation(method: AgentGoalEvaluationMethod) -> AgentGoalEvaluationRequest {
    AgentGoalEvaluationRequest {
        goal: AgentGoalId::new("goal-1").expect("the id is valid"),
        evaluator: "checks".to_string(),
        method,
        criteria_revision: AgentRevisionNumber::new(2),
        evidence: vec![AgentGoalEvidenceRef {
            class: "log".to_string(),
            artifact: Some("artifact-1".to_string()),
            digest: None,
        }],
    }
}

fn begun<'a>(
    dispatcher: &mut ScriptedDispatcher<DeterministicModelAdapter>,
    scope: &'a AgentRunScope,
    effect: &'a AgentRunEffect,
    grant: Option<&AgentCheckpointGrant>,
) -> AgentDispatchStep<'a> {
    dispatcher.dispatch(scope, effect, grant, AgentTimestampMillis::new(7))
}

fn append() -> AgentRunEffectRequest {
    AgentRunEffectRequest::ClaimAppend {
        append: AgentClaimAppendRequest {
            statement: "the pump is worn".to_string(),
        },
        provenance: AgentClaimAppendProvenance {
            source: "inspection-7".to_string(),
        },
    }
}

fn promotion() -> AgentRunEffectRequest {
    AgentRunEffectRequest::MemoryPromotion {
        promotion: AgentMemoryPromotionRequest {
            memory: "note-3".to_string(),
        },
    }
}

fn code_of<'a>(step: &'a AgentDispatchStep<'_>) -> Option<&'a str> {
    step.outcome().and_then(|outcome| outcome.failure_code())
}

#[test]
fn a_compensation_answers_from_its_script() {
    let effect = effect_of(AgentRunEffectRequest::Compensation {
        compensation: AgentCompensationRef::new("refund").expect("the ref is valid"),
    });
    let mut bare = ScriptedDispatcher::new();
    let outcome = answered(&mut bare, &effect);
    assert_eq!(outcome.failure_code(), Some("compensation-unscripted"));
    let mut scripted = ScriptedDispatcher::new()
        .with_compensation_result("refund", AgentTaskContent::inline(Value::from("refunded")));
    match answered(&mut scripted, &effect) {
        AgentRunEffectOutcome::Tool { call_id, content } => {
            assert!(call_id.as_str().starts_with("compensation:"));
            assert_eq!(content.value, Value::from("refunded"));
        }
        other => panic!("a tool outcome, got {other:?}"),
    }
}

#[test]
fn an_effect_without_its_executor_fails_closed() {
    let cases = [
        (
            AgentRunEffectRequest::A2aSend {
                delegation: delegation(),
            },
            "a2a-send-executor-missing",
        ),
        (
            AgentRunEffectRequest::WorkflowStart {
                invocation: invocation(),
            },
            "workflow-start-executor-missing",
        ),
        (
            AgentRunEffectRequest::WorkflowCancel {
                invocation: invocation(),
                reason: "stop".to_string(),
            },
            "workflow-cancel-executor-missing",
        ),
        (
            append(),
            "claim-append-executor-missing",
        ),
        (
            promotion(),
            "memory-promotion-executor-missing",
        ),
        (
            AgentRunEffectRequest::Evaluation {
                evaluation: evaluation(AgentGoalEvaluationMethod::Deterministic),
            },
            "evaluation-executor-missing",
        ),
        (
            AgentRunEffectRequest::Evaluation {
                evaluation: evaluation(AgentGoalEvaluationMethod::VerificationWorkflow),
            },
            "evaluation-workflow-deferred",
        ),
        (
            AgentRunEffectRequest::Evaluation {
                evaluation: evaluation(AgentGoalEvaluationMethod::HumanReview),
            },
            "evaluation-grant-missing",
        ),
    ];
    for (request, code) in cases {
        let mut dispatcher = ScriptedDispatcher::new();
        let (run, effect) = (run_scope(), effect_of(request));
        let step = begun(&mut dispatcher, &run, &effect, None);
        assert_eq!(code_of(&step), Some(code));
        assert_eq!(dispatcher.tool_calls(), 1);
        assert_eq!(dispatcher.model_calls(), 0);
    }
}

#[test]
fn an_unscoped_answer_can_still_be_resolved() {
    let cases = [
        (
            append(),
            "claim-append-unscoped",
        ),
        (
            promotion(),
            "memory-promotion-unscoped",
        ),
        (
            AgentRunEffectRequest::Evaluation {
                evaluation: evaluation(AgentGoalEvaluationMethod::ModelJudge),
            },
            "goal-evaluation-unscoped",
        ),
    ];
    for (request, code) in cases {
        let mut dispatcher = ScriptedDispatcher::new()
            .with_claim_append_executor()
            .with_memory_promotion_executor()
            .with_goal_evaluation_executor();
        let (run, effect) = (run_scope(), effect_of(request));
        assert_eq!(answered(&mut dispatcher, &effect).failure_code(), Some(code));
        assert_eq!(dispatcher.tool_calls(), 0);
        let step = begun(&mut dispatcher, &run, &effect, None);
        assert!(matches!(step, AgentDispatchStep::Execute { .. }));
    }
}

fn concluded(request: AgentRunEffectRequest, report: AgentDispatchReport) -> AgentRunEffectOutcome {
    let mut dispatcher = ScriptedDispatcher::new()
        .with_a2a_send_executor()
        .with_workflow_start_executor()
        .with_workflow_cancel_executor()
        .with_claim_append_executor()
        .with_memory_promotion_executor()
        .with_goal_evaluation_executor();
    let (run, effect) = (run_scope(), effect_of(request));
    let step = begun(&mut dispatcher, &run, &effect, None);
    assert!(matches!(step, AgentDispatchStep::Execute { .. }));
    assert!(report.fits(&effect.request));
    let outcome = dispatcher.conclude(
        &run_scope(),
        &effect,
        AgentTimestampMillis::new(9),
        report,
    );
    // The answer is remembered.
    let again = begun(&mut dispatcher, &run, &effect, None);
    assert_eq!(
        format!("{:?}", again.outcome().expect("the answer replays")),
        format!("{outcome:?}")
    );
    outcome
}

#[test]
fn an_executor_runs_under_the_scope_its_record_names() {
    let parent = || {
        AgentRunScope::new(
            TenantId::new("acme"),
            AgentId::new("planner").expect("the agent id is valid"),
            AgentRunId::new("parent-run").expect("the run id is valid"),
        )
        .expect("the scope is valid")
    };
    let mut dispatcher = ScriptedDispatcher::new()
        .with_a2a_send_executor()
        .with_workflow_start_executor()
        .with_workflow_cancel_executor()
        .with_claim_append_executor()
        .with_memory_promotion_executor()
        .with_goal_evaluation_executor();
    let run = run_scope();
    let requests = [
        AgentRunEffectRequest::A2aSend {
            delegation: AgentDelegationRecord {
                parent_run: parent(),
                ..delegation()
            },
        },
        AgentRunEffectRequest::WorkflowStart {
            invocation: AgentWorkflowInvocationRecord {
                parent_run: parent(),
                ..invocation()
            },
        },
        AgentRunEffectRequest::WorkflowCancel {
            invocation: AgentWorkflowInvocationRecord {
                parent_run: parent(),
                ..invocation()
            },
            reason: "stop".to_string(),
        },
        append(),
        promotion(),
        AgentRunEffectRequest::Evaluation {
            evaluation: evaluation(AgentGoalEvaluationMethod::ModelJudge),
        },
    ];
    for (slot, request) in requests.into_iter().enumerate() {
        let effect = AgentRunEffect::new(
            &run,
            1,
            slot as u64,
            request,
            &AgentEffectSpec::read_only(),
            AgentTimestampMillis::new(1),
        )
        .expect("the effect derives");
        let AgentDispatchStep::Execute { request } = begun(&mut dispatcher, &run, &effect, None)
        else {
            panic!("the effect is handed to its executor");
        };
        match request {
            AgentExecutorRequest::A2aSend {
                scope, delegation, ..
            } => {
                assert_eq!(scope.run.as_str(), "parent-run");
                assert_eq!(delegation.delegation.as_str(), "delegation-1");
            }
            AgentExecutorRequest::WorkflowStart {
                scope, invocation, ..
            } => {
                assert_eq!(scope.run.as_str(), "parent-run");
                assert_eq!(invocation.child_run, "child-1");
            }
            AgentExecutorRequest::WorkflowCancel { scope, reason, .. } => {
                assert_eq!(scope.run.as_str(), "parent-run");
                assert_eq!(reason, "stop");
            }
            AgentExecutorRequest::ClaimAppend {
                scope,
                append,
                provenance,
                now,
                ..
            } => {
                assert_eq!(scope.run.as_str(), "t-gen-1");
                assert_eq!(append.statement, "the pump is worn");
                assert_eq!(provenance.source, "inspection-7");
                assert_eq!(now.as_millis(), 7);
            }
            AgentExecutorRequest::MemoryPromotion {
                scope,
                promotion,
                now,
                ..
            } => {
                assert_eq!(scope.run.as_str(), "t-gen-1");
                assert_eq!(promotion.memory, "note-3");
                assert_eq!(now.as_millis(), 7);
            }
            AgentExecutorRequest::Evaluation {
                scope,
                effect: handed,
                evaluation,
                now,
            } => {
                assert_eq!(scope.run.as_str(), "t-gen-1");
                assert_eq!(handed.effect_id.as_str(), effect.effect_id.as_str());
                assert_eq!(evaluation.evaluator, "checks");
                assert_eq!(now.as_millis(), 7);
            }
            other => panic!("an executor of a known kind, got {other:?}"),
        }
    }
}

#[test]
fn a_deferred_router_stands_for_agents_tasks_and_runs() {
    let mut deferred: DeferredExchangeRouter<&str> = DeferredExchangeRouter::new();
    deferred.install("routes");
    let router = deferred.as_router();
    let task = AgentEntityAddress::Task(AgentTaskScope {
        tenant: TenantId::new("acme"),
        task: AgentTaskId::new("t").expect("the task id is valid"),
    });
    let through = router.route(&task).expect("tasks are routed");
    assert_eq!(*through.resolve().expect("routes are installed"), "routes");
    let run = AgentEntityAddress::Run(run_scope());
    assert!(router.route(&run).is_some());
    let team = AgentEntityAddress::Team(
        AgentTeamScope::new(
            TenantId::new("acme"),
            AgentTeamId::new("triage").expect("the team id is valid"),
        )
        .expect("the scope is valid"),
    );
    assert_eq!(team.class(), AgentEntityClass::Team);
    assert!(router.route(&team).is_none());
}

fn down() -> AgentDispatchError {
    AgentDispatchError::collaborator("down".to_string(), "the peer is down".to_string())
}

#[test]
fn a_send_concludes_by_what_the_peer_said() {
    let send = || AgentRunEffectRequest::A2aSend {
        delegation: delegation(),
    };
    match concluded(
        send(),
        AgentDispatchReport::A2aSend(Ok(AgentA2aSendFinding::Sent {
            child_task: AgentTaskId::new("child-task").expect("the id is valid"),
            child_run: None,
            peer_status: "working".to_string(),
        })),
    ) {
        AgentRunEffectOutcome::A2aSend { receipt } => {
            assert_eq!(receipt.delegation.as_str(), "delegation-1");
            assert_eq!(receipt.child_task.as_str(), "child-task");
            assert_eq!(receipt.peer_status, "working");
        }
        other => panic!("a receipt, got {other:?}"),
    }
    let conflict = concluded(
        send(),
        AgentDispatchReport::A2aSend(Ok(AgentA2aSendFinding::Conflict {
            code: "key-taken".to_string(),
            message: "taken".to_string(),
        })),
    );
    assert_eq!(conflict.failure_code(), Some("key-taken"));
    let refused = concluded(
        send(),
        AgentDispatchReport::A2aSend(Ok(AgentA2aSendFinding::Refused {
            code: "no-such-skill".to_string(),
            message: "no".to_string(),
        })),
    );
    assert_eq!(refused.failure_code(), Some("no-such-skill"));
    let failed = concluded(send(), AgentDispatchReport::A2aSend(Err(down())));
    assert_eq!(failed.failure_code(), Some("a2a-send-attempt-failed"));
}

#[test]
fn a_workflow_start_normalizes_conflicts() {
    let start = || AgentRunEffectRequest::WorkflowStart {
        invocation: invocation(),
    };
    for (finding, adopted) in [
        (AgentWorkflowStartFinding::Started, false),
        (AgentWorkflowStartFinding::Adopted, true),
    ] {
        match concluded(start(), AgentDispatchReport::WorkflowStart(Ok(finding))) {
            AgentRunEffectOutcome::WorkflowStart { receipt } => {
                assert_eq!(receipt.invocation.as_str(), "invocation-1");
                assert_eq!(receipt.child_run, "child-1");
                assert_eq!(receipt.adopted, adopted);
            }
            other => panic!("a receipt, got {other:?}"),
        }
    }
    match concluded(
        start(),
        AgentDispatchReport::WorkflowStart(Ok(AgentWorkflowStartFinding::Conflict {
            code: "other-input".to_string(),
            message: "another run".to_string(),
        })),
    ) {
        AgentRunEffectOutcome::Failed { code, message } => {
            assert_eq!(code, "workflow-invocation-conflict");
            assert_eq!(message, "other-input: another run");
        }
        other => panic!("a failure, got {other:?}"),
    }
    let refused = concluded(
        start(),
        AgentDispatchReport::WorkflowStart(Ok(AgentWorkflowStartFinding::Refused {
            code: "unknown-workflow".to_string(),
            message: "no".to_string(),
        })),
    );
    assert_eq!(refused.failure_code(), Some("unknown-workflow"));
    let failed = concluded(start(), AgentDispatchReport::WorkflowStart(Err(down())));
    assert_eq!(failed.failure_code(), Some("workflow-start-attempt-failed"));
}

#[test]
fn a_workflow_cancel_tells_whether_it_was_late() {
    let cancel = || AgentRunEffectRequest::WorkflowCancel {
        invocation: invocation(),
        reason: "stop".to_string(),
    };
    for (finding, finished) in [
        (AgentWorkflowCancelFinding::Requested, false),
        (AgentWorkflowCancelFinding::AlreadyFinished, true),
    ] {
        let outcome = concluded(cancel(), AgentDispatchReport::WorkflowCancel(Ok(finding)));
        assert!(matches!(
            outcome,
            AgentRunEffectOutcome::WorkflowCancel { already_finished } if already_finished == finished
        ));
    }
    let refused = concluded(
        cancel(),
        AgentDispatchReport::WorkflowCancel(Ok(AgentWorkflowCancelFinding::Refused {
            code: "not-yours".to_string(),
            message: "no".to_string(),
        })),
    );
    assert_eq!(refused.failure_code(), Some("not-yours"));
    let failed = concluded(cancel(), AgentDispatchReport::WorkflowCancel(Err(down())));
    assert_eq!(
        failed.failure_code(),
        Some("workflow-cancel-attempt-failed")
    );
}

#[test]
fn appends_and_promotions_conclude() {
    let appended = concluded(
        append(),
        AgentDispatchReport::ClaimAppend(Ok(AgentClaimAppendFinding::Appended {
            claim: "claim-1".to_string(),
        })),
    );
    assert!(matches!(
        appended,
        AgentRunEffectOutcome::ClaimAppend { claim } if claim == "claim-1"
    ));
    let refused = concluded(
        append(),
        AgentDispatchReport::ClaimAppend(Ok(AgentClaimAppendFinding::Refused {
            code: "closed".to_string(),
            message: "no".to_string(),
        })),
    );
    assert_eq!(refused.failure_code(), Some("closed"));
    let failed = concluded(
        append(),
        AgentDispatchReport::ClaimAppend(Err(down())),
    );
    assert_eq!(failed.failure_code(), Some("claim-append-attempt-failed"));

    let promoted = concluded(
        promotion(),
        AgentDispatchReport::MemoryPromotion(Ok(AgentMemoryPromotionFinding::Promoted {
            promoted: "memory-1".to_string(),
        })),
    );
    assert!(matches!(
        promoted,
        AgentRunEffectOutcome::MemoryPromotion { promoted } if promoted == "memory-1"
    ));
    let refused = concluded(
        promotion(),
        AgentDispatchReport::MemoryPromotion(Ok(AgentMemoryPromotionFinding::Refused {
            code: "unknown-session".to_string(),
            message: "no".to_string(),
        })),
    );
    assert_eq!(refused.failure_code(), Some("unknown-session"));
    let failed = concluded(
        promotion(),
        AgentDispatchReport::MemoryPromotion(Err(down())),
    );
    assert_eq!(
        failed.failure_code(),
        Some("memory-promotion-attempt-failed")
    );
}

#[test]
fn a_human_review_is_decided_by_its_grant() {
    let effect = effect_of(AgentRunEffectRequest::Evaluation {
        evaluation: evaluation(AgentGoalEvaluationMethod::HumanReview),
    });
    let grant = AgentCheckpointGrant {
        argument_digest: AgentContentDigest {
            value: "ab".repeat(32),
        },
        resolver: PrincipalRef {
            principal_type: "user".to_string(),
            principal_id: "ada".to_string(),
            display_name: None,
        },
    };
    let mut dispatcher = ScriptedDispatcher::new();
    let run = run_scope();
    let step = begun(&mut dispatcher, &run, &effect, Some(&grant));
    match step.outcome().expect("the grant decides") {
        AgentRunEffectOutcome::Evaluation { record } => {
            assert_eq!(record.outcome, AgentGoalEvaluationOutcome::Satisfied);
            assert_eq!(record.reason_code, "human-approved");
            assert_eq!(record.evidence.len(), 2);
            assert_eq!(record.evidence[0].class, "log");
            assert_eq!(record.evidence[1].class, "human-decision");
            assert_eq!(
                record.evidence[1]
                    .digest
                    .as_ref()
                    .map(|digest| digest.value.clone()),
                Some("ab".repeat(32))
            );
            assert_eq!(
                record
                    .evaluated_by
                    .as_ref()
                    .map(|principal| principal.principal_id.as_str()),
                Some("ada")
            );
            assert_eq!(record.evaluated_at.as_millis(), 7);
            assert_eq!(record.effect_id.as_str(), effect.effect_id.as_str());
        }
        other => panic!("a record, got {other:?}"),
    }

    let mut dispatcher = ScriptedDispatcher::new();
    let mut nowhere = run_scope();
    nowhere.tenant = TenantId::new("");
    let step = dispatcher.dispatch(&nowhere, &effect, Some(&grant), AgentTimestampMillis::new(7));
    assert_eq!(code_of(&step), Some("evaluation-identity-invalid"));
}

#[test]
fn an_evaluation_records_what_its_executor_found() {
    let evaluate = || AgentRunEffectRequest::Evaluation {
        evaluation: evaluation(AgentGoalEvaluationMethod::Deterministic),
    };
    let finding = |reason: &str| {
        AgentDispatchReport::Evaluation(Ok(AgentGoalEvaluationFinding::Evaluated {
            outcome: AgentGoalEvaluationOutcome::NotSatisfied,
            reason_code: reason.to_string(),
            evidence: vec![],
            evaluated_by: None,
        }))
    };
    match concluded(evaluate(), finding("missing-artifact")) {
        AgentRunEffectOutcome::Evaluation { record } => {
            assert_eq!(record.outcome, AgentGoalEvaluationOutcome::NotSatisfied);
            assert_eq!(record.reason_code, "missing-artifact");
            assert_eq!(record.goal.as_str(), "goal-1");
            assert_eq!(record.evaluator, "checks");
            assert_eq!(record.criteria_revision, AgentRevisionNumber::new(2));
            assert_eq!(record.evaluated_at.as_millis(), 9);
        }
        other => panic!("a record, got {other:?}"),
    }
    assert_eq!(
        concluded(evaluate(), finding("")).failure_code(),
        Some("evaluation-record-invalid")
    );
    let refused = concluded(
        evaluate(),
        AgentDispatchReport::Evaluation(Ok(AgentGoalEvaluationFinding::Refused {
            code: "no-criteria".to_string(),
            message: "no".to_string(),
        })),
    );
    assert_eq!(refused.failure_code(), Some("no-criteria"));
    let failed = concluded(evaluate(), AgentDispatchReport::Evaluation(Err(down())));
    assert_eq!(failed.failure_code(), Some("evaluation-attempt-failed"));
}

#[test]
fn a_provider_failure_fails_the_effect() {
    let mut dispatcher = ScriptedDispatcher::new();
    let effect = effect_of(AgentRunEffectRequest::Model {
        context: context_for(1),
        profile: Some(AgentModelProfileId::new("small").expect("the profile is valid")),
    });
    let run = run_scope();
    match begun(&mut dispatcher, &run, &effect, None) {
        AgentDispatchStep::CallModel { request } => {
            assert_eq!(request.turn, 1);
            assert_eq!(
                request.profile.as_ref().map(|profile| profile.as_str()),
                Some("small")
            );
        }
        other => panic!("a call, got {other:?}"),
    }
    let outcome = dispatcher.conclude(
        &run_scope(),
        &effect,
        AgentTimestampMillis::new(9),
        AgentDispatchReport::Model(Err(AgentModelError::Provider {
            code: "overloaded".to_string(),
            message: "try later".to_string(),
        })),
    );
    assert_eq!(outcome.failure_code(), Some("overloaded"));
    assert_eq!(dispatcher.model_calls(), 1);
}

#[test]
fn only_ready_effects_are_dispatched() {
    let scope = run_scope();
    let mut settled = tool_effect(&scope, 1, "call-1");
    settled.status = AgentRunEffectStatus::Settled;
    let effects = [
        tool_effect(&scope, 0, "call-0"),
        settled,
        tool_effect(&scope, 2, "call-2"),
    ];
    assert_eq!(dispatched_effects(&effects), vec![0, 2]);

    let outcome = AgentRunEffectOutcome::WorkflowCancel {
        already_finished: false,
    };
    let command = result_command(&scope, &effects[0], outcome).expect("the command derives");
    assert_eq!(command.attempt, 1);
    assert_eq!(command.fence, 0);
    let effect_id = effects[0].effect_id.as_str();
    assert_eq!(
        command.operation_id.as_str(),
        format!(
            "effect-result:4:acme7:support7:t-gen-1{}:{effect_id}1:1",
            effect_id.len()
        )
    );
}

#[test]
fn an_executor_records_before_it_fails() {
    let mut executor = RecordingToolExecutor::new()
        .with_result("search", AgentTaskContent::inline(Value::from("found")));
    let effect = tool_effect(&run_scope(), 3, "call-3");
    let AgentRunEffectRequest::Tool { call } = &effect.request else {
        panic!("a tool effect");
    };
    let content = executor
        .execute(&effect, call, true)
        .expect("the tool returns");
    assert_eq!(content.value, Value::from("found"));

    let mut executor = executor.with_failure("search", "tool-unavailable", "down");
    let error = executor
        .execute(&effect, call, false)
        .expect_err("the tool fails");
    assert_eq!(error.code, "tool-unavailable");
    assert_eq!(executor.invocation_count("search"), 2);
    assert_eq!(executor.invocation_count("other"), 0);
    let invocation = &executor.invocations()[0];
    assert_eq!(invocation.arguments, object("query", Value::from(3)));
    assert_eq!(invocation.call_id, "call-3");
    assert_eq!(invocation.generation, 1);
    assert!(invocation.with_credential);
    assert_eq!(invocation.idempotency_key, effect.idempotency_key);

    let mut bare = RecordingToolExecutor::new();
    let echoed = bare.execute(&effect, call, false).expect("the tool echoes");
    assert_eq!(echoed.value, object("tool", Value::from("search")));
}

#[test]
fn a_reconciler_repeats_its_last_finding() {
    let mut unscripted = ScriptedReconciler::new();
    assert!(matches!(
        unscripted.reconcile(),
        AgentReconciliationFinding::Unknown
    ));
    let mut reconciler = ScriptedReconciler::new()
        .with_finding(AgentReconciliationFinding::Unknown)
        .with_finding(AgentReconciliationFinding::NotCommitted);
    assert!(matches!(
        reconciler.reconcile(),
        AgentReconciliationFinding::Unknown
    ));
    for _ in 0..2 {
        assert!(matches!(
            reconciler.reconcile(),
            AgentReconciliationFinding::NotCommitted
        ));
    }
    assert_eq!(reconciler.queries(), 3);
}

#[test]
fn a_resolver_counts_its_resolutions() {
    let mut resolver = ScriptedCredentialResolver::new("token-1".to_string());
    assert_eq!(resolver.resolutions(), 0);
    assert_eq!(resolver.resolve().token, "token-1");
    assert_eq!(resolver.resolve().token, "token-1");
    assert_eq!(resolver.resolutions(), 2);
}

#[test]
fn the_embedder_counts_tokens_by_their_hash() {
    // The published FNV-1a vectors of the empty text, of "a" and of "foobar".
    assert_eq!(hash_fnv1a(b""), 0xcbf2_9ce4_8422_2325);
    assert_eq!(hash_fnv1a(b"a"), 0xaf63_dc4c_8601_ec8c);
    assert_eq!(hash_fnv1a(b"foobar"), 0x8594_4171_f739_67e8);

    let embedder = DeterministicEmbedder::new();
    let weights = embedder.embed("Foobar, foobar! a");
    assert_eq!(weights.len(), 8);
    assert_eq!(weights.iter().sum::<u64>(), 3);
    let foobar = (0x8594_4171_f739_67e8_u64 % 8) as usize;
    let a = (0xaf63_dc4c_8601_ec8c_u64 % 8) as usize;
    assert_eq!(foobar, 0);
    assert_eq!(a, 4);
    assert_eq!(weights[foobar], 2);
    assert_eq!(weights[a], 1);
    // Case folds, and punctuation separates.
    assert_eq!(weights, embedder.embed("foobar foobar a"));
    assert_eq!(embedder.embed(" ,. "), vec![0; 8]);
    // A letter beyond ASCII belongs to its token.
    assert_eq!(embedder.embed("Élan"), embedder.embed("élan"));
    assert_eq!(embedder.embed("Élan").iter().sum::<u64>(), 1);

    let embedding = embedder.embedding_ref();
    assert_eq!(embedding.model, DETERMINISTIC_EMBEDDER_MODEL);
    assert_eq!(embedding.dimensions, 8);
    let clamped = DeterministicEmbedder::default()
        .with_dimensions(0)
        .with_version(AgentRevisionNumber::new(3));
    assert_eq!(clamped.embed("a b c"), vec![3]);
    assert_eq!(
        clamped.embedding_ref().version,
        AgentRevisionNumber::new(3)
    );
}

#[test]
fn a_retriever_answers_in_order_and_then_empty() {
    let mut retriever: ScriptedPrivateMemoryRetriever<&str, &str> =
        ScriptedPrivateMemoryRetriever::new()
            .with_outcome(MemoryRetrievalOutcome {
                memories: vec!["first"],
                index_watermark: Some(4),
            })
            .with_error("outage")
            .with_retriever_version(AgentRevisionNumber::new(2));
    let first = retriever.retrieve().expect("the first outcome");
    assert_eq!(first.memories, vec!["first"]);
    assert_eq!(first.index_watermark, Some(4));
    assert_eq!(retriever.retrieve().expect_err("the outage"), "outage");
    let empty = retriever.retrieve().expect("an empty outcome");
    assert!(empty.memories.is_empty());
    assert!(empty.index_watermark.is_none());
    assert_eq!(retriever.calls(), 3);
    assert_eq!(retriever.retriever_version(), AgentRevisionNumber::new(2));
}

fn task_address() -> AgentEntityAddress {
    AgentEntityAddress::Task(
        AgentTaskScope::new(
            TenantId::new("acme"),
            AgentTaskId::new("task-1").expect("the id is valid"),
        )
        .expect("the scope is valid"),
    )
}

#[test]
fn a_wake_delivery_counts_the_commands_that_arrived() {
    let address = task_address();
    let mut wakes = InProcessTransport::new(TransportClass::Wake);
    wakes.inject(ExchangeFault::LoseEnvelope);
    wakes.inject(ExchangeFault::DeliverTwice);
    let lost = wakes.begin(&address);
    assert_eq!(lost.acceptances, 0);
    assert_eq!(wakes.deliveries(), 0);
    let twice = wakes.begin(&address);
    for _ in 0..twice.acceptances {
        wakes.accept();
    }
    assert_eq!(wakes.deliveries(), 2);
}

#[test]
fn each_fault_has_its_window() {
    let address = task_address();
    let mut transport = InProcessTransport::new(TransportClass::Task);
    transport.inject(ExchangeFault::LoseEnvelope);
    transport.inject(ExchangeFault::LoseReply);
    transport.inject(ExchangeFault::DeliverTwice);

    let lost = transport.begin(&address);
    assert_eq!(lost.acceptances, 0);
    assert_eq!(
        lost.failure.expect("the envelope is lost").code,
        "injected-lost-envelope"
    );
    let unanswered = transport.begin(&address);
    assert_eq!(unanswered.acceptances, 1);
    let failure = unanswered.failure.expect("the reply is lost");
    assert_eq!(failure.code, "injected-lost-reply");
    assert_eq!(
        failure.message,
        "the task accepted the exchange, and its reply was lost"
    );
    let twice = transport.begin(&address);
    assert_eq!(twice.acceptances, 2);
    assert!(twice.failure.is_none());
    let plain = transport.begin(&address);
    assert_eq!(plain.acceptances, 1);
    assert!(plain.failure.is_none());
    transport.accept();
    assert_eq!(transport.acceptances(), 1);
    assert_eq!(transport.deliveries(), 4);

    let mut runs = InProcessTransport::new(TransportClass::Run);
    let unrouted = runs.begin(&address);
    let failure = unrouted.failure.expect("a task is no run");
    assert_eq!(failure.code, "exchange-no-route");
    assert_eq!(failure.message, "this transport serves run entities only");

    let mut wakes = InProcessTransport::new(TransportClass::Wake);
    wakes.inject(ExchangeFault::LoseEnvelope);
    assert_eq!(
        wakes
            .begin(&address)
            .failure
            .expect("the command is lost")
            .code,
        "injected-lost-command"
    );
}

#[test]
fn a_local_route_refuses_another_node() {
    check_local_route("team-1", "node-b", true).expect("the owner is local");
    let error = check_local_route("team-1", "node-b", false).expect_err("the owner is not");
    assert_eq!(error.code, "exchange-not-local");
    assert_eq!(
        error.message,
        "the shard owner of team-1 is node-b, which is not this node; \
         the local route serves single-node systems only"
    );
}

#[test]
fn a_deferred_router_resolves_once_installed() {
    let mut router = DeferredExchangeRouter::new();
    assert!(!router.installed());
    assert_eq!(
        router.resolve().expect_err("nothing is installed").code,
        "exchange-no-route"
    );
    router.install("routes");
    assert!(router.installed());
    assert_eq!(router.resolve().expect("the routes"), &"routes");
}

#[test]
fn a_sweep_visits_every_window() {
    assert_eq!(
        sweep_crash_points(2),
        vec![
            (1, CrashPoint::AfterWrite),
            (2, CrashPoint::AfterWrite),
            (1, CrashPoint::BeforeWrite),
            (2, CrashPoint::BeforeWrite),
        ]
    );
    assert!(sweep_crash_points(0).is_empty());
}

#[test]
fn an_armed_crash_fires_at_its_write_alone() {
    let mut schedule = CrashSchedule::new();
    assert_eq!(schedule.attempt(), WriteFate::Survives);
    schedule.crash_at(2, CrashPoint::BeforeWrite);
    assert_eq!(schedule.writes(), 0);
    assert_eq!(schedule.attempt(), WriteFate::Survives);
    assert!(!schedule.crash_fired(2));
    let fate = schedule.attempt();
    assert_eq!(fate, WriteFate::LostBefore);
    assert!(schedule.crash_fired(2));
    assert_eq!(
        fate.failure(DurableWrite::Replace),
        Some("the owner was lost before the write reached the store")
    );
    assert_eq!(schedule.attempt(), WriteFate::Survives);

    schedule.crash_at(1, CrashPoint::AfterWrite);
    let fate = schedule.attempt();
    assert_eq!(
        fate.failure(DurableWrite::Delete),
        Some("the owner was lost after the delete committed")
    );
    schedule.crash_at(1, CrashPoint::AfterWrite);
    schedule.survive();
    assert_eq!(schedule.attempt(), WriteFate::Survives);
    schedule.reset_writes();
    assert_eq!(schedule.writes(), 0);
}

#[test]
fn a_kill_switch_strikes_one_worker() {
    let window = AgentDispatchWindow { ordinal: 2 };
    let mut probe = KillSwitchProbe::new();
    assert!(probe.survives(window));
    probe.arm(window);
    assert!(probe.survives(AgentDispatchWindow { ordinal: 1 }));
    assert!(!probe.survives(window));
    assert!(probe.survives(window));
    assert_eq!(probe.deaths(), 1);
}

#[test]
fn a_clock_advances_by_hand() {
    let mut clock = SharedAtomicWorkflowClock::new(5);
    assert_eq!(clock.now(), 5);
    clock.advance(10);
    assert_eq!(clock.now(), 15);
    assert_eq!(clock.tick(), 15);
    assert_eq!(clock.now(), 16);
    clock.advance(u64::MAX);
    assert_eq!(clock.now(), 15);
}

fn decode_error() -> AgentExchangeDecodeError {
    AgentExchangeDecodeError {
        code: "payload-type-mismatch".to_string(),
        message: "another payload".to_string(),
    }
}

fn detail(answer: &AgentExchangeResult) -> &str {
    match answer {
        AgentExchangeResult::Accepted { payload } => &payload.detail,
        AgentExchangeResult::Rejected { payload, .. } => &payload.detail,
        other => panic!("an answer, got {other:?}"),
    }
}

#[test]
fn a_probe_fences_its_own_transitions() {
    let probe = ChoreographyProbe;
    let mut state = probe.initialize(task_address());
    let creation = || {
        Ok(ProbeCommand::Creation(ProbeCreation {
            label: "work".to_string(),
        }))
    };
    let assignment =
        |generation: u64| Ok(ProbeCommand::Assignment(ProbeAssignment { generation }));

    let early = probe.apply(&mut state, AgentExchangeKind::Assignment, assignment(1));
    assert_eq!(early.rejection_code(), Some("not-created"));
    let created = probe.apply(&mut state, AgentExchangeKind::Creation, creation());
    assert_eq!(detail(&created), "created work");
    let again = probe.apply(&mut state, AgentExchangeKind::Creation, creation());
    assert_eq!(again.rejection_code(), Some("already-created"));
    assert_eq!(state.label(), Some("work"));
    assert!(state.is_created());

    let assigned = probe.apply(&mut state, AgentExchangeKind::Assignment, assignment(2));
    assert_eq!(detail(&assigned), "accepted generation 2");
    let stale = probe.apply(&mut state, AgentExchangeKind::Assignment, assignment(2));
    match stale {
        AgentExchangeResult::Rejected { code, message, .. } => {
            assert_eq!(code, "stale-generation");
            assert_eq!(
                message,
                "generation 2 is not newer than the accepted generation 2"
            );
        }
        other => panic!("a refusal, got {other:?}"),
    }
    assert_eq!(state.assignment_generation(), 2);
    assert_eq!(state.applied_count(AgentExchangeKind::Assignment), 3);
    assert_eq!(state.applied_count(AgentExchangeKind::Creation), 2);
    assert_eq!(state.applied_count(AgentExchangeKind::RunCancel), 0);

    let proposal = |valid: bool| Ok(ProbeCommand::Proposal(ProbeProposal { valid }));
    let valid = probe.apply(&mut state, AgentExchangeKind::ResultProposal, proposal(true));
    assert!(valid.is_accepted());
    let invalid = probe.apply(
        &mut state,
        AgentExchangeKind::ResultProposal,
        proposal(false),
    );
    assert_eq!(invalid.rejection_code(), Some("result-rule-violation"));
    let undecodable = probe.apply(
        &mut state,
        AgentExchangeKind::ResultProposal,
        Err(decode_error()),
    );
    assert_eq!(undecodable.rejection_code(), Some("payload-type-mismatch"));
    assert!(matches!(state.address(), AgentEntityAddress::Task(_)));
}

#[test]
fn a_probe_keeps_its_ledger() {
    let probe = ChoreographyProbe;
    let mut state = probe.initialize(task_address());
    let entry = |amount: i64| Ok(ProbeCommand::Ledger(ProbeLedgerEntry { amount }));
    probe.apply(&mut state, AgentExchangeKind::BudgetAllocation, entry(10));
    let settled = probe.apply(&mut state, AgentExchangeKind::BudgetSettlement, entry(25));
    assert_eq!(detail(&settled), "balance is now -15");
    let unmoved = probe.apply(&mut state, AgentExchangeKind::EpochResult, entry(99));
    assert_eq!(detail(&unmoved), "balance is now -15");
    probe.apply(&mut state, AgentExchangeKind::BudgetReturn, entry(5));
    assert_eq!(state.balance(), -10);
    state.debit(7);
    assert_eq!(state.balance(), -17);
    state.debit(i64::MIN);
    assert_eq!(state.balance(), i64::MAX - 16);
    state.debit(i64::MIN);
    assert_eq!(state.balance(), i64::MAX);
    probe.apply(
        &mut state,
        AgentExchangeKind::BudgetAllocation,
        entry(i64::MAX),
    );
    assert_eq!(state.balance(), i64::MAX);
}

#[test]
fn a_probe_forgets_its_oldest_decisions() {
    let probe = ChoreographyProbe;
    let mut state = probe.initialize(task_address());
    for index in 0..PROBE_DECISION_CAPACITY + 3 {
        let result = if index == 2 {
            AgentExchangeResult::accepted("type", "detail".to_string())
        } else {
            AgentExchangeResult::rejected(
                format!("code-{index}"),
                "no".to_string(),
                "type",
                String::new(),
            )
        };
        probe.settle(&mut state, AgentExchangeKind::Creation, &result);
    }
    assert_eq!(state.decisions().len(), PROBE_DECISION_CAPACITY);
    assert_eq!(
        state.decisions()[0].rejection_code.as_deref(),
        Some("code-3")
    );
    assert!(!state.decisions()[0].accepted);
    assert_eq!(
        state.settled_count(AgentExchangeKind::Creation) as usize,
        PROBE_DECISION_CAPACITY + 3
    );
}

#[test]
fn an_envelope_carries_the_payload_of_its_kind() {
    let operation = || AgentOperationId::new("operation-1").expect("the id is valid");
    let envelope = ChoreographyProbe::envelope(
        AgentExchangeKind::BudgetReturn,
        operation(),
        task_address(),
        task_address(),
        AgentTimestampMillis::new(4),
    );
    assert_eq!(envelope.payload_type, PROBE_LEDGER_TYPE);
    assert_eq!(envelope.correlation_id, "operation-1");
    assert!(matches!(
        envelope.command,
        ProbeCommand::Ledger(ProbeLedgerEntry { amount: 10 })
    ));
    let envelope = ChoreographyProbe::envelope(
        AgentExchangeKind::Assignment,
        operation(),
        task_address(),
        task_address(),
        AgentTimestampMillis::new(4),
    );
    assert!(matches!(
        envelope.command,
        ProbeCommand::Assignment(ProbeAssignment { generation: 1 })
    ));
}

#[test]
fn an_acceptance_probe_answers_assignments_and_cancellations() {
    let assignment = || {
        Ok(AgentRunAssignment {
            run: run_scope(),
            generation: 4,
        })
    };
    let now = AgentTimestampMillis::new(8);
    let accepting = RunAcceptanceProbe::default();
    let mut state = accepting.initialize(AgentEntityAddress::Run(run_scope()));
    match accepting.apply(&mut state, AgentExchangeKind::Assignment, assignment(), now) {
        RunProbeAnswer::Accepted { acceptance } => {
            assert_eq!(acceptance.generation, 4);
            assert_eq!(acceptance.accepted_at, now);
        }
        other => panic!("an acceptance, got {other:?}"),
    }
    assert_eq!(state.accepted_generations(), &[4]);
    match accepting.apply(&mut state, AgentExchangeKind::RunCancel, assignment(), now) {
        RunProbeAnswer::Cancelled { run } => assert_eq!(run.run.as_str(), "t-gen-1"),
        other => panic!("a cancellation, got {other:?}"),
    }
    match accepting.apply(&mut state, AgentExchangeKind::Creation, assignment(), now) {
        RunProbeAnswer::Rejected { code, message } => {
            assert_eq!(code, "unsupported-exchange");
            assert_eq!(message, "a run does not receive a creation exchange");
        }
        other => panic!("a refusal, got {other:?}"),
    }
    assert!(matches!(
        accepting.apply(&mut state, AgentExchangeKind::Assignment, Err(decode_error()), now),
        RunProbeAnswer::Rejected { code, .. } if code == "payload-type-mismatch"
    ));

    let refusing = RunAcceptanceProbe::refusing();
    let mut state = refusing.initialize(task_address());
    assert!(matches!(
        refusing.apply(&mut state, AgentExchangeKind::Assignment, assignment(), now),
        RunProbeAnswer::Rejected { code, .. } if code == "run-refused-assignment"
    ));
    assert!(state.accepted_generations().is_empty());
    match refusing.apply(&mut state, AgentExchangeKind::RunCancel, assignment(), now) {
        RunProbeAnswer::Cancelled { run } => {
            assert_eq!(run.tenant.as_str(), "acme");
            assert_eq!(run.run.as_str(), "probe");
        }
        other => panic!("a cancellation, got {other:?}"),
    }
    refusing.settle(
        &mut state,
        AgentExchangeKind::ResultProposal,
        &AgentExchangeResult::accepted("type", String::new()),
    );
    assert_eq!(state.decisions().len(), 1);
    assert!(RunAcceptanceProbe::accepting().accepts);
}
