//! What the in-process dispatcher promises a run: every effect is answered from
//! what was scripted, handed to the executor it belongs to, or failed closed, and
//! an answer once given is given again.

use vstd::prelude::*;

use crate::effect::{
    AgentGoalEvaluationMethod, AgentRunEffect, AgentRunEffectStatus, AgentRunScope,
    AgentTaskContent,
};
use crate::identity::{
    canonical_segments, operation_text, AgentIdentityError, AgentOperationKind,
    AgentTimestampMillis,
};
use crate::json::{json_object, json_string};
use crate::testkit_dispatch::{
    dispatched_effects, result_command, AgentDispatchReport, AgentDispatchStep, AgentModelCall,
    DeterministicModelAdapter, DispatcherModel, ExecutorModel, RecordEffectResult,
    ScriptedDispatcher, StepModel,
};
use crate::testkit_outcome::{
    evidence_model, AgentA2aSendFinding, AgentCheckpointGrant, AgentClaimAppendFinding,
    AgentGoalEvaluationOutcome, AgentMemoryPromotionFinding, AgentModelRequest, AgentModelTurn,
    AgentRunEffectOutcome, AgentWorkflowCancelFinding, AgentWorkflowStartFinding, FindingModel,
    OutcomeModel,
};
use crate::text::{byte_len, decimal};

verus! {

/// What an effect's answer is kept under: the effect and its generation.
pub open spec fn answer_key(effect: AgentRunEffect) -> Seq<char> {
    effect.effect_id@ + "#"@ + decimal(effect.generation.number as nat)
}

/// A count one higher, wrapping at the top.
pub open spec fn one_more(before: usize, after: usize) -> bool {
    if before == usize::MAX {
        after == 0
    } else {
        after == before + 1
    }
}

/// Whether nothing scripted or wired differs.
pub open spec fn same_scripts(a: DispatcherModel, b: DispatcherModel) -> bool {
    a.tools == b.tools && a.failures == b.failures && a.compensations == b.compensations && a.wired
        == b.wired
}

/// Whether a dispatch counted its call: a model call as one, any other as the
/// other kind.
pub open spec fn counted(a: DispatcherModel, b: DispatcherModel, model: bool) -> bool {
    &&& model ==> one_more(a.model_calls, b.model_calls) && b.tool_calls == a.tool_calls
    &&& !model ==> one_more(a.tool_calls, b.tool_calls) && b.model_calls == a.model_calls
}

/// Whether an answer was given and is now kept for its effect alone.
pub open spec fn answers_with(
    before: DispatcherModel,
    after: DispatcherModel,
    effect: AgentRunEffect,
    step: StepModel,
    outcome: OutcomeModel,
) -> bool {
    &&& step == StepModel::Answered(outcome)
    &&& after.answered == before.answered.insert(answer_key(effect), outcome)
}

/// An effect that was answered is answered the same again, and only the call is
/// counted; what was scripted or wired is never touched by a dispatch.
pub proof fn an_answer_is_given_again<A>(
    dispatcher: &mut ScriptedDispatcher<A>,
    scope: &AgentRunScope,
    effect: &AgentRunEffect,
    grant: Option<&AgentCheckpointGrant>,
    now: AgentTimestampMillis,
    step: AgentDispatchStep,
)
    requires
        call_ensures(
            ScriptedDispatcher::<A>::dispatch,
            (dispatcher, scope, effect, grant, now),
            step,
        ),
    ensures
        ({
            let (before, after) = (old(dispatcher)@, final(dispatcher)@);
            let key = answer_key(*effect);
            &&& same_scripts(before, after)
            &&& final(dispatcher).spec_adapter() == old(dispatcher).spec_adapter()
            &&& counted(before, after, effect.request is Model)
            &&& before.answered.dom().contains(key) ==> step@ == StepModel::Answered(
                before.answered[key],
            ) && after.answered == before.answered
        }),
{
    assert(crate::testkit_dispatch::effect_key(*effect) =~= answer_key(*effect));
}

/// A model call is asked of the adapter with its own context, turn and profile;
/// a tool call is answered from its script, a failure first, then a result, then
/// its own name; and a compensation from its script, or fails.
pub proof fn a_scripted_effect_is_answered_from_its_script<A>(
    dispatcher: &mut ScriptedDispatcher<A>,
    scope: &AgentRunScope,
    effect: &AgentRunEffect,
    grant: Option<&AgentCheckpointGrant>,
    now: AgentTimestampMillis,
    step: AgentDispatchStep,
)
    requires
        call_ensures(
            ScriptedDispatcher::<A>::dispatch,
            (dispatcher, scope, effect, grant, now),
            step,
        ),
        !old(dispatcher)@.answered.dom().contains(answer_key(*effect)),
    ensures
        ({
            let (before, after) = (old(dispatcher)@, final(dispatcher)@);
            let request = effect.request;
            &&& request is Model ==> step@ is CallModel && step@->CallModel_0.context
                == request->context && step@->CallModel_0.profile == request->Model_profile
                && step@->CallModel_0.turn == effect.turn && after.answered == before.answered
            &&& request is Tool ==> {
                let call = request->call;
                let tool = call.tool@;
                let fails = before.failures.dom().contains(tool);
                let scripted = before.tools.dom().contains(tool);
                &&& fails ==> answers_with(
                    before,
                    after,
                    *effect,
                    step@,
                    OutcomeModel::Failed(
                        before.failures[tool].code@,
                        before.failures[tool].message@,
                    ),
                )
                &&& !fails && scripted ==> answers_with(
                    before,
                    after,
                    *effect,
                    step@,
                    OutcomeModel::Tool(call.call_id@, before.tools[tool]),
                )
                &&& !fails && !scripted ==> answers_with(
                    before,
                    after,
                    *effect,
                    step@,
                    OutcomeModel::Tool(
                        call.call_id@,
                        AgentTaskContent { value: json_object(seq![("tool"@, json_string(tool))]) },
                    ),
                )
            }
            &&& request is Compensation ==> {
                let compensation = request->compensation@;
                let scripted = before.compensations.dom().contains(compensation);
                &&& scripted ==> answers_with(
                    before,
                    after,
                    *effect,
                    step@,
                    OutcomeModel::Tool(
                        "compensation:"@ + effect.effect_id@,
                        before.compensations[compensation],
                    ),
                )
                &&& !scripted ==> step@ is Answered && step@->Answered_0 is Failed
                    && step@->Answered_0->Failed_0 == "compensation-unscripted"@ && after.answered
                    == before.answered.insert(answer_key(*effect), step@->Answered_0)
            }
        }),
{
    assert(crate::testkit_dispatch::effect_key(*effect) =~= answer_key(*effect));
}

/// Whether an effect without its executor failed closed under a code, for good.
pub open spec fn failed_closed(
    before: DispatcherModel,
    after: DispatcherModel,
    effect: AgentRunEffect,
    step: StepModel,
    code: Seq<char>,
) -> bool {
    &&& step is Answered
    &&& step->Answered_0 is Failed
    &&& step->Answered_0->Failed_0 == code
    &&& after.answered == before.answered.insert(answer_key(effect), step->Answered_0)
}

/// A send, a workflow start and a cancellation are handed to their executor with
/// their own record, under the run that record names, and an append and a
/// promotion with their own payload under the run that is driven; without an
/// executor each fails closed.
pub proof fn an_effect_goes_to_its_own_executor<A>(
    dispatcher: &mut ScriptedDispatcher<A>,
    scope: &AgentRunScope,
    effect: &AgentRunEffect,
    grant: Option<&AgentCheckpointGrant>,
    now: AgentTimestampMillis,
    step: AgentDispatchStep,
)
    requires
        call_ensures(
            ScriptedDispatcher::<A>::dispatch,
            (dispatcher, scope, effect, grant, now),
            step,
        ),
        !old(dispatcher)@.answered.dom().contains(answer_key(*effect)),
    ensures
        ({
            let (before, after) = (old(dispatcher)@, final(dispatcher)@);
            let request = effect.request;
            let handed = step@->Execute_0;
            &&& step@ is Execute ==> after.answered == before.answered
            &&& request is A2aSend && before.wired.a2a_send ==> step@ is Execute && handed == (
            ExecutorModel::A2aSend {
                scope: request->delegation.parent_run,
                effect: *effect,
                delegation: request->delegation,
            })
            &&& request is A2aSend && !before.wired.a2a_send ==> failed_closed(
                before,
                after,
                *effect,
                step@,
                "a2a-send-executor-missing"@,
            )
            &&& request is WorkflowStart && before.wired.workflow_start ==> step@ is Execute
                && handed == (ExecutorModel::WorkflowStart {
                scope: request->WorkflowStart_invocation.parent_run,
                effect: *effect,
                invocation: request->WorkflowStart_invocation,
            })
            &&& request is WorkflowStart && !before.wired.workflow_start ==> failed_closed(
                before,
                after,
                *effect,
                step@,
                "workflow-start-executor-missing"@,
            )
            &&& request is WorkflowCancel && before.wired.workflow_cancel ==> step@ is Execute
                && handed == (ExecutorModel::WorkflowCancel {
                scope: request->WorkflowCancel_invocation.parent_run,
                effect: *effect,
                invocation: request->WorkflowCancel_invocation,
                reason: request->WorkflowCancel_reason,
            })
            &&& request is WorkflowCancel && !before.wired.workflow_cancel ==> failed_closed(
                before,
                after,
                *effect,
                step@,
                "workflow-cancel-executor-missing"@,
            )
            &&& request is ClaimAppend && before.wired.claim_append ==> step@ is Execute && handed
                == (ExecutorModel::ClaimAppend {
                scope: *scope,
                effect: *effect,
                append: request->append,
                provenance: request->provenance,
                now,
            })
            &&& request is ClaimAppend && !before.wired.claim_append ==> failed_closed(
                before,
                after,
                *effect,
                step@,
                "claim-append-executor-missing"@,
            )
            &&& request is MemoryPromotion && before.wired.memory_promotion ==> step@ is Execute
                && handed == (ExecutorModel::MemoryPromotion {
                scope: *scope,
                effect: *effect,
                promotion: request->promotion,
                now,
            })
            &&& request is MemoryPromotion && !before.wired.memory_promotion ==> failed_closed(
                before,
                after,
                *effect,
                step@,
                "memory-promotion-executor-missing"@,
            )
        }),
{
    assert(crate::testkit_dispatch::effect_key(*effect) =~= answer_key(*effect));
}

/// A goal evaluation of a run that cannot be identified fails; a person's is
/// decided by their grant, which says satisfied, adds their decision to the
/// evidence and names them, and fails without one; a verification workflow is
/// deferred; and every other is handed to its executor, or fails closed.
pub proof fn an_evaluation_is_decided_by_its_method<A>(
    dispatcher: &mut ScriptedDispatcher<A>,
    scope: &AgentRunScope,
    effect: &AgentRunEffect,
    grant: Option<&AgentCheckpointGrant>,
    now: AgentTimestampMillis,
    step: AgentDispatchStep,
)
    requires
        call_ensures(
            ScriptedDispatcher::<A>::dispatch,
            (dispatcher, scope, effect, grant, now),
            step,
        ),
        !old(dispatcher)@.answered.dom().contains(answer_key(*effect)),
        effect.request is Evaluation,
    ensures
        ({
            let (before, after) = (old(dispatcher)@, final(dispatcher)@);
            let evaluation = effect.request->evaluation;
            let person = evaluation.method == AgentGoalEvaluationMethod::HumanReview;
            let workflow = evaluation.method == AgentGoalEvaluationMethod::VerificationWorkflow;
            let keyed = scope.tenant@.len() > 0;
            let record = step@->Answered_0->Evaluation_0;
            &&& !keyed ==> failed_closed(
                before,
                after,
                *effect,
                step@,
                "evaluation-identity-invalid"@,
            )
            &&& keyed && person && grant is None ==> failed_closed(
                before,
                after,
                *effect,
                step@,
                "evaluation-grant-missing"@,
            )
            &&& keyed && workflow ==> failed_closed(
                before,
                after,
                *effect,
                step@,
                "evaluation-workflow-deferred"@,
            )
            &&& keyed && !person && !workflow && before.wired.goal_evaluation ==> step@ is Execute
                && after.answered == before.answered && step@->Execute_0 == (
            ExecutorModel::Evaluation { scope: *scope, effect: *effect, evaluation, now })
            &&& keyed && !person && !workflow && !before.wired.goal_evaluation ==> failed_closed(
                before,
                after,
                *effect,
                step@,
                "evaluation-executor-missing"@,
            )
            &&& keyed && person && grant is Some ==> {
                &&& step@ is Answered && step@->Answered_0 is Evaluation
                &&& after.answered == before.answered.insert(
                    answer_key(*effect),
                    step@->Answered_0,
                )
                &&& record.outcome == AgentGoalEvaluationOutcome::Satisfied
                &&& record.reason_code == "human-approved"@
                &&& record.evaluated_by == Some(grant->Some_0.resolver)
                &&& record.evaluated_at == now
                &&& record.goal == evaluation.goal
                &&& record.evaluator == evaluation.evaluator@
                &&& record.method == evaluation.method
                &&& record.criteria_revision == evaluation.criteria_revision
                &&& record.effect_id == effect.effect_id
                &&& record.generation == effect.generation
                &&& record.evaluation_id == canonical_segments(
                    seq![
                        scope.tenant@,
                        scope.agent@,
                        scope.run@,
                        decimal(effect.turn as nat),
                        decimal(effect.slot as nat),
                        decimal(effect.generation.number as nat),
                    ],
                )
                &&& record.evidence.len() == evaluation.evidence@.len() + 1
                &&& record.evidence.drop_last() == evidence_model(evaluation.evidence@)
                &&& record.evidence.last().class == "human-decision"@
                &&& record.evidence.last().artifact is None
                &&& record.evidence.last().digest == Some(grant->Some_0.argument_digest)
            }
        }),
{
    assert(crate::testkit_dispatch::effect_key(*effect) =~= answer_key(*effect));
    reveal_strlit("human-approved");
    if grant is Some && scope.tenant@.len() > 0 && effect.request->evaluation.method
        == AgentGoalEvaluationMethod::HumanReview {
        let record = step@->Answered_0->Evaluation_0;
        assert(record.evidence.drop_last() =~= evidence_model(
            effect.request->evaluation.evidence@,
        ));
    }
}

/// Asked about without its run's scope, an effect that needs one is told so and is
/// not answered for good; every other is answered as under the scope.
pub proof fn an_effect_that_needs_its_scope_waits_for_it<A>(
    dispatcher: &mut ScriptedDispatcher<A>,
    effect: &AgentRunEffect,
    step: AgentDispatchStep,
    scoped: &mut ScriptedDispatcher<A>,
    scope: &AgentRunScope,
    grant: Option<&AgentCheckpointGrant>,
    now: AgentTimestampMillis,
    under: AgentDispatchStep,
)
    requires
        call_ensures(ScriptedDispatcher::<A>::begin, (dispatcher, effect), step),
        call_ensures(
            ScriptedDispatcher::<A>::dispatch,
            (scoped, scope, effect, grant, now),
            under,
        ),
        old(scoped)@ == old(dispatcher)@,
    ensures
        ({
            let before = old(dispatcher)@;
            let needs = effect.request is MemoryPromotion || effect.request is Evaluation
                || effect.request is ClaimAppend;
            let known = before.answered.dom().contains(answer_key(*effect));
            &&& !needs ==> final(dispatcher)@ == final(scoped)@ && step@ == under@
            &&& needs ==> final(dispatcher)@ == before
            &&& needs && known ==> step@ == StepModel::Answered(
                before.answered[answer_key(*effect)],
            )
            &&& needs && !known ==> step@ is Answered && step@->Answered_0 is Failed
            &&& effect.request is MemoryPromotion && !known ==> step@->Answered_0->Failed_0
                == "memory-promotion-unscoped"@
            &&& effect.request is Evaluation && !known ==> step@->Answered_0->Failed_0
                == "goal-evaluation-unscoped"@
            &&& effect.request is ClaimAppend && !known ==> step@->Answered_0->Failed_0
                == "claim-append-unscoped"@
        }),
{
    assert(crate::testkit_dispatch::effect_key(*effect) =~= answer_key(*effect));
}

/// The first answer an effect gets is kept, and given to whoever answers it
/// later; no other effect's answer is touched.
pub proof fn the_first_answer_is_kept<A>(
    dispatcher: &mut ScriptedDispatcher<A>,
    effect: &AgentRunEffect,
    outcome: AgentRunEffectOutcome,
    given: AgentRunEffectOutcome,
)
    requires
        call_ensures(ScriptedDispatcher::<A>::remember, (dispatcher, effect, outcome), given),
    ensures
        ({
            let (before, after) = (old(dispatcher)@, final(dispatcher)@);
            let key = answer_key(*effect);
            let known = before.answered.dom().contains(key);
            &&& known ==> after == before && given@ == before.answered[key]
            &&& !known ==> given@ == outcome@ && after.answered == before.answered.insert(
                key,
                outcome@,
            )
            &&& same_scripts(before, after)
            &&& after.model_calls == before.model_calls
            &&& after.tool_calls == before.tool_calls
        }),
{
    assert(crate::testkit_dispatch::effect_key(*effect) =~= answer_key(*effect));
}

/// What an executor or the adapter reports becomes the effect's answer: a success
/// its receipt, a refusal its own code and words, a failed attempt the kind's own
/// failure, and a turn too long to keep a failure.
pub proof fn a_report_becomes_the_answer<A>(
    dispatcher: &mut ScriptedDispatcher<A>,
    scope: &AgentRunScope,
    effect: &AgentRunEffect,
    now: AgentTimestampMillis,
    report: AgentDispatchReport,
    outcome: AgentRunEffectOutcome,
)
    requires
        call_ensures(
            ScriptedDispatcher::<A>::conclude,
            (dispatcher, scope, effect, now, report),
            outcome,
        ),
        !old(dispatcher)@.answered.dom().contains(answer_key(*effect)),
    ensures
        final(dispatcher)@.answered == old(dispatcher)@.answered.insert(
            answer_key(*effect),
            outcome@,
        ),
        match report {
            AgentDispatchReport::Model(Ok(turn)) => {
                let fits = turn.text is None || byte_len(turn.text->Some_0@) <= 64 * 1024;
                &&& fits ==> outcome@ == OutcomeModel::Model(turn)
                &&& !fits ==> outcome@ is Failed && outcome@->Failed_0 == "model-text-too-long"@
            },
            AgentDispatchReport::Model(Err(error)) => outcome@ is Failed && outcome@->Failed_0
                == error.code_text(),
            AgentDispatchReport::A2aSend(
                Ok(AgentA2aSendFinding::Sent { child_task, child_run, peer_status }),
            ) => {
                &&& outcome@ is A2aSend
                &&& outcome@->A2aSend_0.delegation == effect.request->delegation.delegation
                &&& outcome@->A2aSend_0.child_task == child_task
                &&& outcome@->A2aSend_0.child_run == child_run
                &&& outcome@->A2aSend_0.peer_status == peer_status
            },
            AgentDispatchReport::A2aSend(Ok(AgentA2aSendFinding::Conflict { code, message })) =>
            outcome@ == OutcomeModel::Failed(code@, message@),
            AgentDispatchReport::A2aSend(Ok(AgentA2aSendFinding::Refused { code, message })) =>
            outcome@ == OutcomeModel::Failed(code@, message@),
            AgentDispatchReport::A2aSend(Err(error)) => outcome@ == OutcomeModel::Failed(
                "a2a-send-attempt-failed"@,
                error.message@,
            ),
            AgentDispatchReport::WorkflowStart(
                Ok(AgentWorkflowStartFinding::Conflict { code, message }),
            ) => outcome@ == OutcomeModel::Failed(
                "workflow-invocation-conflict"@,
                code@ + ": "@ + message@,
            ),
            AgentDispatchReport::WorkflowStart(
                Ok(AgentWorkflowStartFinding::Refused { code, message }),
            ) => outcome@ == OutcomeModel::Failed(code@, message@),
            AgentDispatchReport::WorkflowStart(Err(error)) => outcome@ == OutcomeModel::Failed(
                "workflow-start-attempt-failed"@,
                error.message@,
            ),
            AgentDispatchReport::WorkflowStart(Ok(found)) => {
                let invocation = effect.request->WorkflowStart_invocation;
                &&& outcome@ is WorkflowStart
                &&& outcome@->WorkflowStart_0.invocation == invocation.invocation
                &&& outcome@->WorkflowStart_0.child_run == invocation.child_run
                &&& outcome@->WorkflowStart_0.adopted <==> found is Adopted
            },
            AgentDispatchReport::WorkflowCancel(
                Ok(AgentWorkflowCancelFinding::Refused { code, message }),
            ) => outcome@ == OutcomeModel::Failed(code@, message@),
            AgentDispatchReport::WorkflowCancel(Err(error)) => outcome@ == OutcomeModel::Failed(
                "workflow-cancel-attempt-failed"@,
                error.message@,
            ),
            AgentDispatchReport::WorkflowCancel(Ok(found)) => outcome@
                == OutcomeModel::WorkflowCancel(found is AlreadyFinished),
            AgentDispatchReport::ClaimAppend(Ok(AgentClaimAppendFinding::Appended { claim })) =>
            outcome@ == OutcomeModel::ClaimAppend(claim),
            AgentDispatchReport::ClaimAppend(
                Ok(AgentClaimAppendFinding::Refused { code, message }),
            ) => outcome@ == OutcomeModel::Failed(code@, message@),
            AgentDispatchReport::ClaimAppend(Err(error)) => outcome@ == OutcomeModel::Failed(
                "claim-append-attempt-failed"@,
                error.message@,
            ),
            AgentDispatchReport::MemoryPromotion(
                Ok(AgentMemoryPromotionFinding::Promoted { promoted }),
            ) => outcome@ == OutcomeModel::MemoryPromotion(promoted),
            AgentDispatchReport::MemoryPromotion(
                Ok(AgentMemoryPromotionFinding::Refused { code, message }),
            ) => outcome@ == OutcomeModel::Failed(code@, message@),
            AgentDispatchReport::MemoryPromotion(Err(error)) => outcome@ == OutcomeModel::Failed(
                "memory-promotion-attempt-failed"@,
                error.message@,
            ),
            AgentDispatchReport::Evaluation(Err(error)) => outcome@ == OutcomeModel::Failed(
                "evaluation-attempt-failed"@,
                error.message@,
            ),
            AgentDispatchReport::Evaluation(Ok(finding)) => match finding@ {
                FindingModel::Refused(code, message) => outcome@ == OutcomeModel::Failed(
                    code,
                    message,
                ),
                FindingModel::Evaluated(verdict, reason, evidence, by) => {
                    let record = outcome@->Evaluation_0;
                    &&& reason.len() == 0 ==> outcome@ is Failed && outcome@->Failed_0
                        == "evaluation-record-invalid"@
                    &&& reason.len() > 0 ==> {
                        &&& outcome@ is Evaluation
                        &&& record.outcome == verdict
                        &&& record.reason_code == reason
                        &&& record.evidence == evidence
                        &&& record.evaluated_by == by
                        &&& record.evaluated_at == now
                        &&& record.goal == effect.request->evaluation.goal
                        &&& record.evaluator == effect.request->evaluation.evaluator@
                        &&& record.method == effect.request->evaluation.method
                        &&& record.criteria_revision
                            == effect.request->evaluation.criteria_revision
                        &&& record.effect_id == effect.effect_id
                        &&& record.generation == effect.generation
                    }
                },
            },
        },
{
    assert(crate::testkit_dispatch::effect_key(*effect) =~= answer_key(*effect));
}

/// An adapter gives a turn scripted for a call's own number first, then the next
/// of its ordered script, which only then moves on, and then a turn that proposes
/// nothing; each call counts.
pub proof fn an_adapter_answers_from_its_script(
    adapter: &mut DeterministicModelAdapter,
    request: &AgentModelRequest,
    turn: AgentModelTurn,
)
    requires
        call_ensures(DeterministicModelAdapter::produce, (adapter, request), turn),
    ensures
        ({
            let (before, after) = (old(adapter)@, final(adapter)@);
            let own = before.by_turn.dom().contains(request.turn);
            let next = before.turns.len() > 0;
            &&& own ==> turn == before.by_turn[request.turn] && after.turns == before.turns
            &&& !own && next ==> turn == before.turns[0] && after.turns.len()
                == before.turns.len() - 1 && forall|i: int|
                0 <= i < after.turns.len() ==> #[trigger] after.turns[i] == before.turns[i + 1]
            &&& !own && !next ==> turn.text is None && turn.adapter_version
                == before.adapter_version && after.turns == before.turns
            &&& after.by_turn == before.by_turn
            &&& after.retry_policy == before.retry_policy
            &&& after.adapter_version == before.adapter_version
            &&& one_more(before.calls, after.calls)
        }),
{
}

/// A call that has not run consumes nothing, and running it is asking what it was
/// begun with.
pub proof fn a_call_runs_what_it_was_begun_with(
    idle: &DeterministicModelAdapter,
    request: &AgentModelRequest,
    call: AgentModelCall,
    adapter: &mut DeterministicModelAdapter,
    turn: AgentModelTurn,
    plain: &mut DeterministicModelAdapter,
    produced: AgentModelTurn,
)
    requires
        call_ensures(DeterministicModelAdapter::call, (idle, request), call),
        call_ensures(AgentModelCall::run, (call, adapter), turn),
        call_ensures(DeterministicModelAdapter::produce, (plain, request), produced),
        old(plain)@ == old(adapter)@,
    ensures
        turn == produced,
        final(adapter)@ == final(plain)@,
{
}

/// A run's ready effects are handed out, all of them and nothing else, in order.
pub proof fn the_ready_effects_are_dispatched_in_order(
    effects: &[AgentRunEffect],
    ready: Vec<usize>,
)
    requires
        call_ensures(dispatched_effects, (effects,), ready),
        effects@.len() <= usize::MAX,
    ensures
        forall|i: int|
            0 <= i < ready@.len() ==> 0 <= (#[trigger] ready@[i]) < effects@.len()
                && effects@[ready@[i] as int].status == AgentRunEffectStatus::Ready,
        forall|i: int, j: int|
            0 <= i < j < ready@.len() ==> (#[trigger] ready@[i]) < (#[trigger] ready@[j]),
        forall|at: int|
            0 <= at < effects@.len() && (#[trigger] effects@[at]).status
                == AgentRunEffectStatus::Ready ==> ready@.contains(at as usize),
{
    let whole = Seq::new(effects@.len(), |i: int| i as usize);
    let keep = |i: usize| effects@[i as int].status == AgentRunEffectStatus::Ready;
    lemma_ready(whole, keep);
    assert(ready@ == whole.filter(keep));
    assert forall|i: int| 0 <= i < ready@.len() implies 0 <= (#[trigger] ready@[i]) < effects@.len()
        && effects@[ready@[i] as int].status == AgentRunEffectStatus::Ready by {
        assert(keep(whole.filter(keep)[i]));
    }
    assert forall|at: int|
        0 <= at < effects@.len() && (#[trigger] effects@[at]).status
            == AgentRunEffectStatus::Ready implies ready@.contains(at as usize) by {
        assert(keep(at as usize));
    }
}

proof fn lemma_ready(whole: Seq<usize>, keep: spec_fn(usize) -> bool)
    requires
        whole.len() <= usize::MAX,
        forall|i: int| 0 <= i < whole.len() ==> #[trigger] whole[i] == i,
    ensures
        ({
            let kept = whole.filter(keep);
            &&& forall|i: int|
                0 <= i < kept.len() ==> keep(#[trigger] kept[i]) && kept[i] < whole.len()
            &&& forall|i: int, j: int|
                0 <= i < j < kept.len() ==> (#[trigger] kept[i]) < (#[trigger] kept[j])
            &&& forall|at: usize| at < whole.len() && #[trigger] keep(at) ==> kept.contains(at)
        }),
    decreases whole.len(),
{
    reveal(Seq::filter);
    if whole.len() > 0 {
        let shorter = whole.drop_last();
        lemma_ready(shorter, keep);
        let last = (whole.len() - 1) as usize;
        assert(whole.last() == last);
        let (rest, kept) = (shorter.filter(keep), whole.filter(keep));
        if keep(last) {
            assert(kept == rest.push(last));
        } else {
            assert(kept == rest);
        }
        assert forall|at: usize| at < whole.len() && #[trigger] keep(at) implies kept.contains(
            at,
        ) by {
            if at < whole.len() - 1 {
                assert(rest.contains(at));
                let i = rest.index_of(at);
                assert(kept[i] == at);
            } else {
                assert(at == last);
                assert(kept[kept.len() - 1] == at);
            }
        }
    } else {
        assert(whole.filter(keep) =~= Seq::empty());
    }
}

/// A result is recorded for the very effect and generation it answers, as the
/// attempt after those made, under an operation of its own.
pub proof fn a_result_is_recorded_for_its_effect(
    scope: &AgentRunScope,
    effect: &AgentRunEffect,
    outcome: AgentRunEffectOutcome,
    result: Result<RecordEffectResult, AgentIdentityError>,
)
    requires
        call_ensures(result_command, (scope, effect, outcome), result),
    ensures
        result is Ok <==> scope.tenant@.len() > 0,
        result is Err ==> result->Err_0 == AgentIdentityError::Empty,
        result is Ok ==> {
            let command = result->Ok_0;
            &&& command.effect_id == effect.effect_id
            &&& command.generation == effect.generation
            &&& command.outcome == outcome
            &&& command.fence == 0
            &&& effect.attempts < u32::MAX ==> command.attempt == effect.attempts + 1
            &&& effect.attempts == u32::MAX ==> command.attempt == u32::MAX
            &&& command.operation_id@ == operation_text(
                AgentOperationKind::EffectResult,
                seq![
                    scope.tenant@,
                    scope.agent@,
                    scope.run@,
                    effect.effect_id@,
                    decimal(effect.generation.number as nat),
                ],
            )
        },
{
}

} // verus!
