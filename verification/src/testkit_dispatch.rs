//! A deterministic model adapter, and an in-process dispatcher that answers a
//! run's effects.

use vstd::prelude::*;
use vstd::string::*;

use crate::effect::{
    AgentClaimAppendProvenance, AgentClaimAppendRequest, AgentDelegationRecord,
    AgentEffectGeneration, AgentGoalEvaluationMethod, AgentGoalEvaluationRequest,
    AgentMemoryPromotionRequest, AgentRunEffect, AgentRunEffectRequest, AgentRunEffectStatus,
    AgentRunScope, AgentTaskContent, AgentToolCallRequest, AgentWorkflowInvocationRecord,
};
use crate::identity::{
    derive_operation_id, operation_text, texts, AgentEffectId, AgentIdentityError,
    AgentOperationId, AgentOperationKind, AgentRevisionNumber, AgentTimestampMillis, Identifier,
};
use crate::testkit_delivery::{bump, bumped};
use crate::testkit_doubles::{
    run_scripted_tool, scripted_tool, AgentDispatchError, ScriptedFailure,
};
use crate::testkit_outcome::{
    a2a_send_outcome, a2a_send_result, answers_are_remembered_apart, appended_outcome,
    approval_finding, approved, claim_append_result, evaluated_outcome, evaluation_result,
    evaluation_text, failed_outcome, goal_evaluation_record_id, memo_key, memo_text, model_outcome,
    model_request, model_result, promoted_outcome, promotion_result, workflow_cancel_outcome,
    workflow_cancel_result, workflow_start_outcome, workflow_start_result, AgentA2aSendFinding,
    AgentCheckpointGrant, AgentClaimAppendFinding, AgentGoalEvaluationFinding,
    AgentMemoryPromotionFinding, AgentModelError, AgentModelRequest, AgentModelTurn,
    AgentRunEffectOutcome, AgentWorkflowCancelFinding, AgentWorkflowStartFinding, OutcomeModel,
};
use crate::testkit_script::Script;
use crate::text::{decimal, decimal_string, join2, lemma_decimal_digits};

verus! {

/// How often a model call is attempted.
#[derive(Debug, Clone, Copy, PartialEq, Eq, Structural)]
pub struct AgentModelRetryPolicy {
    /// Most attempts of one call.
    pub max_attempts: u32,
}

impl AgentModelRetryPolicy {
    /// One attempt, no retry.
    pub fn single_attempt() -> (policy: Self)
        ensures
            policy.max_attempts == 1,
    {
        AgentModelRetryPolicy { max_attempts: 1 }
    }

    /// Refuses a policy that permits no attempt.
    pub fn validate(&self) -> (result: Result<(), AgentModelError>)
        ensures
            result == (if self.max_attempts == 0 {
                Err::<(), _>(AgentModelError::RetryPolicyWithoutAttempts)
            } else {
                Ok(())
            }),
    {
        if self.max_attempts == 0 {
            Err(AgentModelError::RetryPolicyWithoutAttempts)
        } else {
            Ok(())
        }
    }
}

/// A model adapter that answers from a script, without any provider: a turn
/// scripted for the call's turn number first, then the next turn of the ordered
/// script, then a turn that proposes nothing.
#[derive(Debug)]
pub struct DeterministicModelAdapter {
    adapter_version: AgentRevisionNumber,
    retry_policy: AgentModelRetryPolicy,
    turns: Vec<AgentModelTurn>,
    by_turn: Vec<(u64, AgentModelTurn)>,
    calls: usize,
}

/// What an adapter holds.
pub struct AdapterModel {
    /// The version its turns carry.
    pub adapter_version: AgentRevisionNumber,
    /// The policy its calls dispatch under.
    pub retry_policy: AgentModelRetryPolicy,
    /// The ordered script, next first.
    pub turns: Seq<AgentModelTurn>,
    /// The turns scripted for a turn number.
    pub by_turn: Map<u64, AgentModelTurn>,
    /// How many turns it has produced.
    pub calls: usize,
}

/// The turn last scripted for a turn number.
spec fn scripted_for(by_turn: Seq<(u64, AgentModelTurn)>, turn: u64) -> Option<AgentModelTurn>
    decreases by_turn.len(),
{
    if by_turn.len() == 0 {
        None
    } else if by_turn.last().0 == turn {
        Some(by_turn.last().1)
    } else {
        scripted_for(by_turn.drop_last(), turn)
    }
}

impl View for DeterministicModelAdapter {
    type V = AdapterModel;

    closed spec fn view(&self) -> AdapterModel {
        AdapterModel {
            adapter_version: self.adapter_version,
            retry_policy: self.retry_policy,
            turns: self.turns@,
            by_turn: Map::new(
                |turn: u64| scripted_for(self.by_turn@, turn) is Some,
                |turn: u64| scripted_for(self.by_turn@, turn)->Some_0,
            ),
            calls: self.calls,
        }
    }
}

impl AdapterModel {
    /// The turn a call for a turn number gets.
    pub open spec fn turn_for(self, turn: u64) -> AgentModelTurn {
        if self.by_turn.contains_key(turn) {
            self.by_turn[turn]
        } else if self.turns.len() > 0 {
            self.turns[0]
        } else {
            AgentModelTurn { adapter_version: self.adapter_version, text: None }
        }
    }

    /// After a call for a turn number: only a call without a turn of its own
    /// consumes the ordered script.
    pub open spec fn called(self, turn: u64) -> AdapterModel {
        AdapterModel {
            turns: if !self.by_turn.contains_key(turn) && self.turns.len() > 0 {
                self.turns.drop_first()
            } else {
                self.turns
            },
            calls: bumped(self.calls),
            ..self
        }
    }

    /// With one more turn at the end of the ordered script.
    pub open spec fn scripting(self, turn: AgentModelTurn) -> AdapterModel {
        AdapterModel { turns: self.turns.push(turn), ..self }
    }
}

/// A model call that has not run: it produces its turn when it runs, and a call
/// that is dropped consumes nothing.
#[derive(Debug)]
pub struct AgentModelCall {
    /// What the call asks.
    pub request: AgentModelRequest,
}

impl AgentModelCall {
    /// Runs the call.
    pub fn run(self, adapter: &mut DeterministicModelAdapter) -> (turn: AgentModelTurn)
        ensures
            turn == old(adapter)@.turn_for(self.request.turn),
            final(adapter)@ == old(adapter)@.called(self.request.turn),
    {
        adapter.produce(&self.request)
    }
}

impl DeterministicModelAdapter {
    /// An adapter with an empty script and the default retry policy.
    pub fn new() -> (adapter: Self)
        ensures
            adapter@.adapter_version.number == 1,
            adapter@.retry_policy.max_attempts == 1,
            adapter@.turns == Seq::<AgentModelTurn>::empty(),
            adapter@.by_turn == Map::<u64, AgentModelTurn>::empty(),
            adapter@.calls == 0,
    {
        let adapter = DeterministicModelAdapter {
            adapter_version: AgentRevisionNumber::initial(),
            retry_policy: AgentModelRetryPolicy::single_attempt(),
            turns: Vec::new(),
            by_turn: Vec::new(),
            calls: 0,
        };
        assert(adapter@.turns =~= Seq::empty());
        assert(adapter@.by_turn =~= Map::empty());
        adapter
    }

    /// Scripts the turn the next unconditioned model call returns.
    pub fn with_turn(self, turn: AgentModelTurn) -> (adapter: Self)
        ensures
            adapter@ == self@.scripting(turn),
    {
        let mut adapter = self;
        adapter.script_turn(turn);
        adapter
    }

    /// Scripts the turn a model call for a specific turn number returns,
    /// regardless of order.
    pub fn with_turn_for(self, turn: u64, model_turn: AgentModelTurn) -> (adapter: Self)
        ensures
            adapter@ == (AdapterModel {
                by_turn: self@.by_turn.insert(turn, model_turn),
                ..self@
            }),
    {
        let mut adapter = self;
        let ghost before = adapter.by_turn@;
        adapter.by_turn.push((turn, model_turn));
        proof {
            let after = adapter.by_turn@;
            assert(after.drop_last() =~= before);
            assert(after.last() == (turn, model_turn));
            assert forall|other: u64| #[trigger]
                scripted_for(after, other) == (if other == turn {
                    Some(model_turn)
                } else {
                    scripted_for(before, other)
                }) by {}
            assert(adapter@.by_turn =~= self@.by_turn.insert(turn, model_turn));
        }
        adapter
    }

    /// Declares the retry policy this adapter's model calls dispatch under,
    /// refusing one that permits no attempt.
    pub fn with_retry_policy(self, policy: AgentModelRetryPolicy) -> (result: Result<
        Self,
        AgentModelError,
    >)
        ensures
            policy.max_attempts == 0 ==> result == Err::<Self, _>(
                AgentModelError::RetryPolicyWithoutAttempts,
            ),
            policy.max_attempts != 0 ==> result is Ok && result->Ok_0@ == (AdapterModel {
                retry_policy: policy,
                ..self@
            }),
    {
        match policy.validate() {
            Ok(()) => Ok(DeterministicModelAdapter { retry_policy: policy, ..self }),
            Err(error) => Err(error),
        }
    }

    /// How many model turns the adapter has produced.
    pub fn calls(&self) -> (calls: usize)
        ensures
            calls == self@.calls,
    {
        self.calls
    }

    /// The version the adapter's turns carry.
    pub fn adapter_version(&self) -> (version: AgentRevisionNumber)
        ensures
            version == self@.adapter_version,
    {
        self.adapter_version
    }

    /// The retry policy the adapter's calls dispatch under.
    pub fn retry_policy(&self) -> (policy: AgentModelRetryPolicy)
        ensures
            policy == self@.retry_policy,
    {
        self.retry_policy
    }

    fn script_turn(&mut self, turn: AgentModelTurn)
        ensures
            final(self)@ == old(self)@.scripting(turn),
    {
        self.turns.push(turn);
    }

    /// Begins a model call. Nothing is produced until it runs.
    pub fn call(&self, request: &AgentModelRequest) -> (call: AgentModelCall)
        ensures
            call.request == *request,
    {
        AgentModelCall { request: request.clone() }
    }

    /// Produces the turn one model request resolves to.
    pub fn produce(&mut self, request: &AgentModelRequest) -> (turn: AgentModelTurn)
        ensures
            turn == old(self)@.turn_for(request.turn),
            final(self)@ == old(self)@.called(request.turn),
    {
        self.calls = bump(self.calls);
        let mut left: usize = self.by_turn.len();
        assert(self.by_turn@.subrange(0, left as int) =~= self.by_turn@);
        while left > 0
            invariant
                left <= self.by_turn@.len(),
                self@ == (AdapterModel { calls: bumped(old(self)@.calls), ..old(self)@ }),
                scripted_for(self.by_turn@, request.turn) == scripted_for(
                    self.by_turn@.subrange(0, left as int),
                    request.turn,
                ),
            decreases left,
        {
            proof {
                assert(self.by_turn@.subrange(0, left as int).drop_last()
                    =~= self.by_turn@.subrange(0, left - 1));
            }
            left = left - 1;
            if self.by_turn[left].0 == request.turn {
                assert(self@.by_turn.contains_key(request.turn));
                return self.by_turn[left].1.clone();
            }
        }
        assert(!self@.by_turn.contains_key(request.turn));
        if self.turns.len() > 0 {
            let turn = self.turns.remove(0);
            assert(self.turns@ =~= old(self)@.turns.drop_first());
            assert(self@.by_turn =~= old(self)@.by_turn);
            turn
        } else {
            AgentModelTurn::new(self.adapter_version)
        }
    }
}

impl Default for DeterministicModelAdapter {
    fn default() -> (adapter: Self)
        ensures
            adapter@.turns == Seq::<AgentModelTurn>::empty(),
            adapter@.by_turn == Map::<u64, AgentModelTurn>::empty(),
            adapter@.calls == 0,
    {
        DeterministicModelAdapter::new()
    }
}

/// A turn scripted for a turn number is given whatever the ordered script holds,
/// and leaves that script as it is.
pub proof fn a_conditioned_turn_keeps_the_script(adapter: AdapterModel, turn: u64)
    requires
        adapter.by_turn.contains_key(turn),
    ensures
        adapter.turn_for(turn) == adapter.by_turn[turn],
        adapter.called(turn).turns == adapter.turns,
        adapter.called(turn).turn_for(turn) == adapter.turn_for(turn),
{
}

/// Which executors a dispatcher has.
#[derive(Debug, Clone, Copy, PartialEq, Eq, Structural)]
pub struct WiredExecutors {
    /// An executor of memory promotions.
    pub memory_promotion: bool,
    /// An executor of goal evaluations.
    pub goal_evaluation: bool,
    /// An executor of sends to peers.
    pub a2a_send: bool,
    /// An executor of workflow starts.
    pub workflow_start: bool,
    /// An executor of workflow cancellations.
    pub workflow_cancel: bool,
    /// An executor of claim appends.
    pub claim_append: bool,
}

/// The in-process stand-in for a durable dispatch pipeline. It answers each
/// effect a run committed, from its scripts or through an executor it was wired
/// with, and remembers every answer by the effect and its generation.
#[derive(Debug)]
pub struct ScriptedDispatcher<A> {
    adapter: A,
    answered: Script<AgentRunEffectOutcome>,
    tools: Script<AgentTaskContent>,
    failures: Script<ScriptedFailure>,
    compensations: Script<AgentTaskContent>,
    wired: WiredExecutors,
    model_calls: usize,
    tool_calls: usize,
}

/// What a dispatcher holds, but for its adapter.
pub struct DispatcherModel {
    /// The answers given, by effect and generation.
    pub answered: Map<Seq<char>, OutcomeModel>,
    /// The scripted tool results.
    pub tools: Map<Seq<char>, AgentTaskContent>,
    /// The scripted tool failures.
    pub failures: Map<Seq<char>, ScriptedFailure>,
    /// The scripted compensations.
    pub compensations: Map<Seq<char>, AgentTaskContent>,
    /// The executors.
    pub wired: WiredExecutors,
    /// How many model calls were answered, repeats among them.
    pub model_calls: usize,
    /// How many other calls were answered, repeats among them.
    pub tool_calls: usize,
}

impl<A> View for ScriptedDispatcher<A> {
    type V = DispatcherModel;

    closed spec fn view(&self) -> DispatcherModel {
        DispatcherModel {
            answered: self.answered@.map_values(|outcome: AgentRunEffectOutcome| outcome@),
            tools: self.tools@,
            failures: self.failures@,
            compensations: self.compensations@,
            wired: self.wired,
            model_calls: self.model_calls,
            tool_calls: self.tool_calls,
        }
    }
}

/// What an executor is handed of an effect: the scope it runs under, the effect
/// and what it is about.
#[derive(Debug, Clone, Copy)]
#[non_exhaustive]
pub enum AgentExecutorRequest<'a> {
    /// A send to a peer, under the scope of the run that delegates.
    A2aSend {
        /// The delegating run.
        scope: &'a AgentRunScope,
        /// The effect.
        effect: &'a AgentRunEffect,
        /// The delegation.
        delegation: &'a AgentDelegationRecord,
    },
    /// A workflow start, under the scope of the run that invokes.
    WorkflowStart {
        /// The invoking run.
        scope: &'a AgentRunScope,
        /// The effect.
        effect: &'a AgentRunEffect,
        /// The invocation.
        invocation: &'a AgentWorkflowInvocationRecord,
    },
    /// A workflow cancellation, under the scope of the run that invoked.
    WorkflowCancel {
        /// The invoking run.
        scope: &'a AgentRunScope,
        /// The effect.
        effect: &'a AgentRunEffect,
        /// The invocation.
        invocation: &'a AgentWorkflowInvocationRecord,
        /// Why it is cancelled.
        reason: &'a String,
    },
    /// A claim append, under the run's scope.
    ClaimAppend {
        /// The run.
        scope: &'a AgentRunScope,
        /// The effect.
        effect: &'a AgentRunEffect,
        /// What is appended.
        append: &'a AgentClaimAppendRequest,
        /// Where it comes from.
        provenance: &'a AgentClaimAppendProvenance,
        /// When.
        now: AgentTimestampMillis,
    },
    /// A memory promotion, under the run's scope.
    MemoryPromotion {
        /// The run.
        scope: &'a AgentRunScope,
        /// The effect.
        effect: &'a AgentRunEffect,
        /// What is promoted.
        promotion: &'a AgentMemoryPromotionRequest,
        /// When.
        now: AgentTimestampMillis,
    },
    /// A goal evaluation, under the run's scope.
    Evaluation {
        /// The run.
        scope: &'a AgentRunScope,
        /// The effect.
        effect: &'a AgentRunEffect,
        /// What is judged.
        evaluation: &'a AgentGoalEvaluationRequest,
        /// When.
        now: AgentTimestampMillis,
    },
}

/// What an executor is handed of an effect, as values.
pub enum ExecutorModel {
    /// A send to a peer.
    A2aSend {
        /// The delegating run.
        scope: AgentRunScope,
        /// The effect.
        effect: AgentRunEffect,
        /// The delegation.
        delegation: AgentDelegationRecord,
    },
    /// A workflow start.
    WorkflowStart {
        /// The invoking run.
        scope: AgentRunScope,
        /// The effect.
        effect: AgentRunEffect,
        /// The invocation.
        invocation: AgentWorkflowInvocationRecord,
    },
    /// A workflow cancellation.
    WorkflowCancel {
        /// The invoking run.
        scope: AgentRunScope,
        /// The effect.
        effect: AgentRunEffect,
        /// The invocation.
        invocation: AgentWorkflowInvocationRecord,
        /// Why it is cancelled.
        reason: String,
    },
    /// A claim append.
    ClaimAppend {
        /// The run.
        scope: AgentRunScope,
        /// The effect.
        effect: AgentRunEffect,
        /// What is appended.
        append: AgentClaimAppendRequest,
        /// Where it comes from.
        provenance: AgentClaimAppendProvenance,
        /// When.
        now: AgentTimestampMillis,
    },
    /// A memory promotion.
    MemoryPromotion {
        /// The run.
        scope: AgentRunScope,
        /// The effect.
        effect: AgentRunEffect,
        /// What is promoted.
        promotion: AgentMemoryPromotionRequest,
        /// When.
        now: AgentTimestampMillis,
    },
    /// A goal evaluation.
    Evaluation {
        /// The run.
        scope: AgentRunScope,
        /// The effect.
        effect: AgentRunEffect,
        /// What is judged.
        evaluation: AgentGoalEvaluationRequest,
        /// When.
        now: AgentTimestampMillis,
    },
}

impl<'a> View for AgentExecutorRequest<'a> {
    type V = ExecutorModel;

    open spec fn view(&self) -> ExecutorModel {
        match *self {
            AgentExecutorRequest::A2aSend { scope, effect, delegation } => ExecutorModel::A2aSend {
                scope: *scope,
                effect: *effect,
                delegation: *delegation,
            },
            AgentExecutorRequest::WorkflowStart { scope, effect, invocation } => {
                ExecutorModel::WorkflowStart {
                    scope: *scope,
                    effect: *effect,
                    invocation: *invocation,
                }
            },
            AgentExecutorRequest::WorkflowCancel { scope, effect, invocation, reason } => {
                ExecutorModel::WorkflowCancel {
                    scope: *scope,
                    effect: *effect,
                    invocation: *invocation,
                    reason: *reason,
                }
            },
            AgentExecutorRequest::ClaimAppend { scope, effect, append, provenance, now } => {
                ExecutorModel::ClaimAppend {
                    scope: *scope,
                    effect: *effect,
                    append: *append,
                    provenance: *provenance,
                    now,
                }
            },
            AgentExecutorRequest::MemoryPromotion { scope, effect, promotion, now } => {
                ExecutorModel::MemoryPromotion {
                    scope: *scope,
                    effect: *effect,
                    promotion: *promotion,
                    now,
                }
            },
            AgentExecutorRequest::Evaluation { scope, effect, evaluation, now } => {
                ExecutorModel::Evaluation {
                    scope: *scope,
                    effect: *effect,
                    evaluation: *evaluation,
                    now,
                }
            },
        }
    }
}

impl ExecutorModel {
    /// The scope the executor runs under.
    pub open spec fn scope(self) -> AgentRunScope {
        match self {
            ExecutorModel::A2aSend { scope, .. } => scope,
            ExecutorModel::WorkflowStart { scope, .. } => scope,
            ExecutorModel::WorkflowCancel { scope, .. } => scope,
            ExecutorModel::ClaimAppend { scope, .. } => scope,
            ExecutorModel::MemoryPromotion { scope, .. } => scope,
            ExecutorModel::Evaluation { scope, .. } => scope,
        }
    }

    /// What an effect of a run becomes for its executor: the kinds that carry the
    /// record of another run's request go under that run's scope, the others
    /// under the run's own.
    pub open spec fn of(
        scope: AgentRunScope,
        effect: AgentRunEffect,
        now: AgentTimestampMillis,
    ) -> Option<ExecutorModel> {
        match effect.request {
            AgentRunEffectRequest::A2aSend { delegation } => Some(
                ExecutorModel::A2aSend { scope: delegation.parent_run, effect, delegation },
            ),
            AgentRunEffectRequest::WorkflowStart { invocation } => Some(
                ExecutorModel::WorkflowStart { scope: invocation.parent_run, effect, invocation },
            ),
            AgentRunEffectRequest::WorkflowCancel { invocation, reason } => Some(
                ExecutorModel::WorkflowCancel {
                    scope: invocation.parent_run,
                    effect,
                    invocation,
                    reason,
                },
            ),
            AgentRunEffectRequest::ClaimAppend { append, provenance } => Some(
                ExecutorModel::ClaimAppend { scope, effect, append, provenance, now },
            ),
            AgentRunEffectRequest::MemoryPromotion { promotion } => Some(
                ExecutorModel::MemoryPromotion { scope, effect, promotion, now },
            ),
            AgentRunEffectRequest::Evaluation { evaluation } => Some(
                ExecutorModel::Evaluation { scope, effect, evaluation, now },
            ),
            _ => None,
        }
    }
}

/// What a dispatcher is to do about an effect: nothing more, or hand it to the
/// adapter or the executor of its kind.
#[derive(Debug)]
#[non_exhaustive]
#[allow(inconsistent_fields)]
pub enum AgentDispatchStep<'a> {
    /// The effect is answered.
    Answered {
        /// The answer.
        outcome: AgentRunEffectOutcome,
    },
    /// The adapter is to be called.
    CallModel {
        /// What it is asked.
        request: AgentModelRequest,
    },
    /// The executor of the effect's kind is to run it.
    Execute {
        /// What it is handed.
        request: AgentExecutorRequest<'a>,
    },
}

/// What a step says.
pub enum StepModel {
    /// The effect is answered.
    Answered(OutcomeModel),
    /// The adapter is to be called.
    CallModel(AgentModelRequest),
    /// The executor of the effect's kind is to run it.
    Execute(ExecutorModel),
}

impl<'a> View for AgentDispatchStep<'a> {
    type V = StepModel;

    open spec fn view(&self) -> StepModel {
        match self {
            AgentDispatchStep::Answered { outcome } => StepModel::Answered(outcome@),
            AgentDispatchStep::CallModel { request } => StepModel::CallModel(*request),
            AgentDispatchStep::Execute { request } => StepModel::Execute(request@),
        }
    }
}

impl<'a> AgentDispatchStep<'a> {
    /// The answer, when the effect has one.
    pub fn outcome(&self) -> (outcome: Option<&AgentRunEffectOutcome>)
        ensures
            match outcome {
                Some(outcome) => self@ == StepModel::Answered(outcome@),
                None => !(self@ is Answered),
            },
    {
        match self {
            AgentDispatchStep::Answered { outcome } => Some(outcome),
            _ => None,
        }
    }
}

/// The key an effect's answer is remembered under.
pub open spec fn effect_key(effect: AgentRunEffect) -> Seq<char> {
    memo_text(effect.effect_id@, effect.generation.number)
}

/// The call a compensation's result is recorded under.
pub open spec fn compensation_call_text(effect: AgentRunEffect) -> Seq<char> {
    "compensation:"@ + effect.effect_id@
}

/// What becomes of an effect a pipeline without its executor is handed.
pub open spec fn unwired(code: Seq<char>, message: Seq<char>) -> OutcomeModel {
    OutcomeModel::Failed(code, message)
}

impl DispatcherModel {
    /// With one more model call counted.
    pub open spec fn counting_model(self) -> DispatcherModel {
        DispatcherModel { model_calls: bumped(self.model_calls), ..self }
    }

    /// With one more other call counted.
    pub open spec fn counting_tool(self) -> DispatcherModel {
        DispatcherModel { tool_calls: bumped(self.tool_calls), ..self }
    }

    /// Once an effect was asked about without its scope: the kinds that need it
    /// are not counted.
    pub open spec fn counting(self, request: AgentRunEffectRequest) -> DispatcherModel {
        match request {
            AgentRunEffectRequest::Model { .. } => self.counting_model(),
            AgentRunEffectRequest::MemoryPromotion { .. }
            | AgentRunEffectRequest::Evaluation { .. }
            | AgentRunEffectRequest::ClaimAppend { .. } => self,
            _ => self.counting_tool(),
        }
    }

    /// Remembering an answer, with the answer given: the first remembered wins.
    pub open spec fn remembering(self, effect: AgentRunEffect, outcome: OutcomeModel) -> (
        DispatcherModel,
        OutcomeModel,
    ) {
        let key = effect_key(effect);
        if self.answered.contains_key(key) {
            (self, self.answered[key])
        } else {
            (DispatcherModel { answered: self.answered.insert(key, outcome), ..self }, outcome)
        }
    }

    /// Answering an effect and remembering it.
    pub open spec fn giving(self, effect: AgentRunEffect, outcome: OutcomeModel) -> (
        DispatcherModel,
        StepModel,
    ) {
        let (next, given) = self.remembering(effect, outcome);
        (next, StepModel::Answered(given))
    }

    /// What a tool call becomes.
    pub open spec fn tool_result(self, call: AgentToolCallRequest) -> OutcomeModel {
        match scripted_tool(self.failures, self.tools, call.tool@) {
            Ok(content) => OutcomeModel::Tool(call.call_id@, content),
            Err(failure) => OutcomeModel::Failed(failure.code@, failure.message@),
        }
    }

    /// Handing an effect to its executor, or failing it where none is wired.
    pub open spec fn handing(
        self,
        effect: AgentRunEffect,
        wired: bool,
        request: ExecutorModel,
        code: Seq<char>,
        message: Seq<char>,
    ) -> (DispatcherModel, StepModel) {
        if wired {
            (self, StepModel::Execute(request))
        } else {
            self.giving(effect, unwired(code, message))
        }
    }

    /// What is done about an effect no answer is remembered for.
    pub open spec fn resolving(self, effect: AgentRunEffect) -> (DispatcherModel, StepModel) {
        match effect.request {
            AgentRunEffectRequest::Model { context, profile } => (
                self,
                StepModel::CallModel(AgentModelRequest { context, turn: effect.turn, profile }),
            ),
            AgentRunEffectRequest::Tool { call } => self.giving(effect, self.tool_result(call)),
            AgentRunEffectRequest::Compensation { compensation } => self.giving(
                effect,
                if self.compensations.contains_key(compensation@) {
                    OutcomeModel::Tool(
                        compensation_call_text(effect),
                        self.compensations[compensation@],
                    )
                } else {
                    OutcomeModel::Failed(
                        "compensation-unscripted"@,
                        "no scripted result for compensation "@ + compensation@,
                    )
                },
            ),
            AgentRunEffectRequest::MemoryPromotion { .. } => (
                self,
                StepModel::Answered(
                    OutcomeModel::Failed(
                        "memory-promotion-unscoped"@,
                        "a memory promotion is answered through drive or promotion_outcome, which carry the run scope"@,
                    ),
                ),
            ),
            AgentRunEffectRequest::Evaluation { .. } => (
                self,
                StepModel::Answered(
                    OutcomeModel::Failed(
                        "goal-evaluation-unscoped"@,
                        "a goal evaluation is answered through drive or evaluation_outcome, which carry the run scope"@,
                    ),
                ),
            ),
            AgentRunEffectRequest::A2aSend { delegation } => self.handing(
                effect,
                self.wired.a2a_send,
                ExecutorModel::A2aSend { scope: delegation.parent_run, effect, delegation },
                "a2a-send-executor-missing"@,
                "no A2A send executor is wired into this dispatcher"@,
            ),
            AgentRunEffectRequest::WorkflowStart { invocation } => self.handing(
                effect,
                self.wired.workflow_start,
                ExecutorModel::WorkflowStart { scope: invocation.parent_run, effect, invocation },
                "workflow-start-executor-missing"@,
                "no workflow start executor is wired into this dispatcher"@,
            ),
            AgentRunEffectRequest::WorkflowCancel { invocation, reason } => self.handing(
                effect,
                self.wired.workflow_cancel,
                ExecutorModel::WorkflowCancel {
                    scope: invocation.parent_run,
                    effect,
                    invocation,
                    reason,
                },
                "workflow-cancel-executor-missing"@,
                "no workflow cancel executor is wired into this dispatcher"@,
            ),
            AgentRunEffectRequest::ClaimAppend { .. } => (
                self,
                StepModel::Answered(
                    OutcomeModel::Failed(
                        "claim-append-unscoped"@,
                        "a claim append is answered through drive or claim_append_outcome, which carry the run scope"@,
                    ),
                ),
            ),
        }
    }

    /// Answering an effect: a remembered answer first.
    pub open spec fn answering(self, effect: AgentRunEffect) -> (DispatcherModel, StepModel) {
        let counted = self.counting(effect.request);
        if counted.answered.contains_key(effect_key(effect)) {
            (counted, StepModel::Answered(counted.answered[effect_key(effect)]))
        } else {
            counted.resolving(effect)
        }
    }

    /// Answering a claim append under the run's scope.
    pub open spec fn appending(
        self,
        scope: AgentRunScope,
        effect: AgentRunEffect,
        append: AgentClaimAppendRequest,
        provenance: AgentClaimAppendProvenance,
        now: AgentTimestampMillis,
    ) -> (DispatcherModel, StepModel) {
        let counted = self.counting_tool();
        if counted.answered.contains_key(effect_key(effect)) {
            (counted, StepModel::Answered(counted.answered[effect_key(effect)]))
        } else {
            counted.handing(
                effect,
                counted.wired.claim_append,
                ExecutorModel::ClaimAppend { scope, effect, append, provenance, now },
                "claim-append-executor-missing"@,
                "no claim-append executor is wired into this dispatcher"@,
            )
        }
    }

    /// Answering a memory promotion under the run's scope.
    pub open spec fn promoting(
        self,
        scope: AgentRunScope,
        effect: AgentRunEffect,
        promotion: AgentMemoryPromotionRequest,
        now: AgentTimestampMillis,
    ) -> (DispatcherModel, StepModel) {
        let counted = self.counting_tool();
        if counted.answered.contains_key(effect_key(effect)) {
            (counted, StepModel::Answered(counted.answered[effect_key(effect)]))
        } else {
            counted.handing(
                effect,
                counted.wired.memory_promotion,
                ExecutorModel::MemoryPromotion { scope, effect, promotion, now },
                "memory-promotion-executor-missing"@,
                "no memory-promotion executor is wired into this dispatcher"@,
            )
        }
    }

    /// Answering a goal evaluation under the run's scope: a person's grant is
    /// their verdict, a verification workflow is deferred, and everything else
    /// runs the executor.
    pub open spec fn evaluating(
        self,
        scope: AgentRunScope,
        effect: AgentRunEffect,
        evaluation: AgentGoalEvaluationRequest,
        grant: Option<&AgentCheckpointGrant>,
        now: AgentTimestampMillis,
    ) -> (DispatcherModel, StepModel) {
        let counted = self.counting_tool();
        if counted.answered.contains_key(effect_key(effect)) {
            (counted, StepModel::Answered(counted.answered[effect_key(effect)]))
        } else if scope.tenant@.len() == 0 {
            counted.giving(
                effect,
                OutcomeModel::Failed(
                    "evaluation-identity-invalid"@,
                    AgentIdentityError::Empty.message_text(),
                ),
            )
        } else {
            match evaluation.method {
                AgentGoalEvaluationMethod::HumanReview => match grant {
                    None => counted.giving(
                        effect,
                        OutcomeModel::Failed(
                            "evaluation-grant-missing"@,
                            "a human-review evaluation dispatched without its approval grant"@,
                        ),
                    ),
                    Some(grant) => counted.giving(
                        effect,
                        evaluation_result(
                            evaluation_text(scope, effect.turn, effect.slot, effect.generation),
                            evaluation,
                            effect,
                            now,
                            approved(evaluation, *grant),
                        ),
                    ),
                },
                AgentGoalEvaluationMethod::VerificationWorkflow => counted.giving(
                    effect,
                    OutcomeModel::Failed(
                        "evaluation-workflow-deferred"@,
                        "a verification-workflow evaluation cannot execute until the evaluation cell is bridged to the workflow-tool invocation path"@,
                    ),
                ),
                _ => counted.handing(
                    effect,
                    counted.wired.goal_evaluation,
                    ExecutorModel::Evaluation { scope, effect, evaluation, now },
                    "evaluation-executor-missing"@,
                    "no goal-evaluation executor is wired into this dispatcher"@,
                ),
            }
        }
    }
}

impl ScriptedDispatcher<DeterministicModelAdapter> {
    /// A dispatcher with an empty deterministic script.
    pub fn new() -> (dispatcher: Self)
        ensures
            dispatcher@ == empty_dispatcher(),
            dispatcher.spec_adapter()@.turns == Seq::<AgentModelTurn>::empty(),
            dispatcher.spec_adapter()@.by_turn == Map::<u64, AgentModelTurn>::empty(),
            dispatcher.spec_adapter()@.calls == 0,
            dispatcher.spec_adapter()@.adapter_version.number == 1,
    {
        ScriptedDispatcher::with_adapter(DeterministicModelAdapter::new())
    }

    /// Scripts the turn the next model call returns.
    pub fn with_turn(self, turn: AgentModelTurn) -> (dispatcher: Self)
        ensures
            dispatcher@ == self@,
            dispatcher.spec_adapter()@ == self.spec_adapter()@.scripting(turn),
    {
        let mut dispatcher = self;
        dispatcher.adapter.script_turn(turn);
        dispatcher
    }

    /// Produces the turn a model request resolves to.
    pub fn produce(&mut self, request: &AgentModelRequest) -> (turn: AgentModelTurn)
        ensures
            turn == old(self).spec_adapter()@.turn_for(request.turn),
            final(self).spec_adapter()@ == old(self).spec_adapter()@.called(request.turn),
            final(self)@ == old(self)@,
    {
        self.adapter.produce(request)
    }

    /// Answers one effect, calling the adapter for a model call.
    pub fn answer<'a>(&mut self, effect: &'a AgentRunEffect) -> (step: AgentDispatchStep<'a>)
        ensures
            ({
                let (next, begun) = old(self)@.answering(*effect);
                let adapter = old(self).spec_adapter()@;
                match begun {
                    StepModel::CallModel(request) => {
                        &&& (final(self)@, step@) == next.giving(
                            *effect,
                            model_result(Ok(adapter.turn_for(request.turn))),
                        )
                        &&& final(self).spec_adapter()@ == adapter.called(request.turn)
                    },
                    _ => {
                        &&& (final(self)@, step@) == (next, begun)
                        &&& final(self).spec_adapter()@ == adapter
                    },
                }
            }),
    {
        let step = self.begin(effect);
        match step {
            AgentDispatchStep::CallModel { request } => {
                let turn = self.produce(&request);
                let outcome = self.remember(effect, model_outcome(Ok(turn)));
                AgentDispatchStep::Answered { outcome }
            },
            other => other,
        }
    }
}

/// A dispatcher nothing was scripted for.
pub open spec fn empty_dispatcher() -> DispatcherModel {
    DispatcherModel {
        answered: Map::empty(),
        tools: Map::empty(),
        failures: Map::empty(),
        compensations: Map::empty(),
        wired: WiredExecutors {
            memory_promotion: false,
            goal_evaluation: false,
            a2a_send: false,
            workflow_start: false,
            workflow_cancel: false,
            claim_append: false,
        },
        model_calls: 0,
        tool_calls: 0,
    }
}

impl<A> ScriptedDispatcher<A> {
    /// The adapter model calls are answered through.
    pub closed spec fn spec_adapter(&self) -> A {
        self.adapter
    }

    /// A dispatcher that answers model calls through an adapter.
    pub fn with_adapter(adapter: A) -> (dispatcher: Self)
        ensures
            dispatcher@ == empty_dispatcher(),
            dispatcher.spec_adapter() == adapter,
    {
        let dispatcher = ScriptedDispatcher {
            adapter,
            answered: Script::new(),
            tools: Script::new(),
            failures: Script::new(),
            compensations: Script::new(),
            wired: WiredExecutors {
                memory_promotion: false,
                goal_evaluation: false,
                a2a_send: false,
                workflow_start: false,
                workflow_cancel: false,
                claim_append: false,
            },
            model_calls: 0,
            tool_calls: 0,
        };
        assert(dispatcher@.answered =~= Map::empty());
        dispatcher
    }

    /// The model adapter this dispatcher answers model calls through.
    pub fn adapter(&self) -> (adapter: &A)
        ensures
            *adapter == self.spec_adapter(),
    {
        &self.adapter
    }

    /// Scripts the result one tool returns, however often it is called.
    pub fn with_tool_result(self, tool: &str, content: AgentTaskContent) -> (dispatcher: Self)
        ensures
            dispatcher@ == (DispatcherModel {
                tools: self@.tools.insert(tool@, content),
                ..self@
            }),
            dispatcher.spec_adapter() == self.spec_adapter(),
    {
        let mut dispatcher = self;
        dispatcher.tools.insert(tool.to_owned(), content);
        dispatcher
    }

    /// Scripts a failure one tool returns.
    pub fn with_tool_failure(self, tool: &str, code: &str, message: &str) -> (dispatcher: Self)
        ensures
            dispatcher@.failures.contains_key(tool@),
            dispatcher@.failures[tool@].code@ == code@,
            dispatcher@.failures[tool@].message@ == message@,
            dispatcher@ == (DispatcherModel {
                failures: self@.failures.insert(tool@, dispatcher@.failures[tool@]),
                ..self@
            }),
            dispatcher.spec_adapter() == self.spec_adapter(),
    {
        let mut dispatcher = self;
        let failure = ScriptedFailure { code: code.to_owned(), message: message.to_owned() };
        dispatcher.failures.insert(tool.to_owned(), failure);
        dispatcher
    }

    /// Scripts the result one compensation returns.
    pub fn with_compensation_result(self, compensation: &str, content: AgentTaskContent) -> (dispatcher:
        Self)
        ensures
            dispatcher@ == (DispatcherModel {
                compensations: self@.compensations.insert(compensation@, content),
                ..self@
            }),
            dispatcher.spec_adapter() == self.spec_adapter(),
    {
        let mut dispatcher = self;
        dispatcher.compensations.insert(compensation.to_owned(), content);
        dispatcher
    }

    /// Hands memory promotions to an executor.
    pub fn with_memory_promotion_executor(self) -> (dispatcher: Self)
        ensures
            dispatcher@ == (DispatcherModel {
                wired: WiredExecutors { memory_promotion: true, ..self@.wired },
                ..self@
            }),
            dispatcher.spec_adapter() == self.spec_adapter(),
    {
        let mut dispatcher = self;
        dispatcher.wired.memory_promotion = true;
        dispatcher
    }

    /// Hands goal evaluations to an executor.
    pub fn with_goal_evaluation_executor(self) -> (dispatcher: Self)
        ensures
            dispatcher@ == (DispatcherModel {
                wired: WiredExecutors { goal_evaluation: true, ..self@.wired },
                ..self@
            }),
            dispatcher.spec_adapter() == self.spec_adapter(),
    {
        let mut dispatcher = self;
        dispatcher.wired.goal_evaluation = true;
        dispatcher
    }

    /// Hands sends to peers to an executor.
    pub fn with_a2a_send_executor(self) -> (dispatcher: Self)
        ensures
            dispatcher@ == (DispatcherModel {
                wired: WiredExecutors { a2a_send: true, ..self@.wired },
                ..self@
            }),
            dispatcher.spec_adapter() == self.spec_adapter(),
    {
        let mut dispatcher = self;
        dispatcher.wired.a2a_send = true;
        dispatcher
    }

    /// Hands workflow starts to an executor.
    pub fn with_workflow_start_executor(self) -> (dispatcher: Self)
        ensures
            dispatcher@ == (DispatcherModel {
                wired: WiredExecutors { workflow_start: true, ..self@.wired },
                ..self@
            }),
            dispatcher.spec_adapter() == self.spec_adapter(),
    {
        let mut dispatcher = self;
        dispatcher.wired.workflow_start = true;
        dispatcher
    }

    /// Hands workflow cancellations to an executor.
    pub fn with_workflow_cancel_executor(self) -> (dispatcher: Self)
        ensures
            dispatcher@ == (DispatcherModel {
                wired: WiredExecutors { workflow_cancel: true, ..self@.wired },
                ..self@
            }),
            dispatcher.spec_adapter() == self.spec_adapter(),
    {
        let mut dispatcher = self;
        dispatcher.wired.workflow_cancel = true;
        dispatcher
    }

    /// Hands claim appends to an executor.
    pub fn with_claim_append_executor(self) -> (dispatcher: Self)
        ensures
            dispatcher@ == (DispatcherModel {
                wired: WiredExecutors { claim_append: true, ..self@.wired },
                ..self@
            }),
            dispatcher.spec_adapter() == self.spec_adapter(),
    {
        let mut dispatcher = self;
        dispatcher.wired.claim_append = true;
        dispatcher
    }

    /// How many model calls the dispatcher has answered, repeats among them.
    pub fn model_calls(&self) -> (calls: usize)
        ensures
            calls == self@.model_calls,
    {
        self.model_calls
    }

    /// How many other calls the dispatcher has answered, repeats among them.
    pub fn tool_calls(&self) -> (calls: usize)
        ensures
            calls == self@.tool_calls,
    {
        self.tool_calls
    }

    /// The answer remembered for an effect.
    fn cached(&self, effect: &AgentRunEffect) -> (outcome: Option<AgentRunEffectOutcome>)
        ensures
            match outcome {
                Some(outcome) => self@.answered.contains_key(effect_key(*effect))
                    && self@.answered[effect_key(*effect)] == outcome@,
                None => !self@.answered.contains_key(effect_key(*effect)),
            },
    {
        let key = memo_key(effect);
        match self.answered.get(key.as_str()) {
            Some(outcome) => Some(outcome.clone()),
            None => None,
        }
    }

    /// Remembers the answer of an effect, the first remembered winning, and
    /// returns the one that is remembered.
    pub fn remember(&mut self, effect: &AgentRunEffect, outcome: AgentRunEffectOutcome) -> (given:
        AgentRunEffectOutcome)
        ensures
            (final(self)@, given@) == old(self)@.remembering(*effect, outcome@),
            final(self).spec_adapter() == old(self).spec_adapter(),
    {
        if let Some(given) = self.cached(effect) {
            return given;
        }
        let given = outcome.clone();
        self.answered.insert(memo_key(effect), outcome);
        proof {
            assert(self@.answered =~= old(self)@.answered.insert(effect_key(*effect), outcome@));
        }
        given
    }

    fn give<'a>(&mut self, effect: &'a AgentRunEffect, outcome: AgentRunEffectOutcome) -> (step:
        AgentDispatchStep<'a>)
        ensures
            (final(self)@, step@) == old(self)@.giving(*effect, outcome@),
            final(self).spec_adapter() == old(self).spec_adapter(),
    {
        let outcome = self.remember(effect, outcome);
        AgentDispatchStep::Answered { outcome }
    }

    fn hand<'a>(
        &mut self,
        effect: &'a AgentRunEffect,
        wired: bool,
        request: AgentExecutorRequest<'a>,
        code: &str,
        message: &str,
    ) -> (step: AgentDispatchStep<'a>)
        ensures
            (final(self)@, step@) == old(self)@.handing(
                *effect,
                wired,
                request@,
                code@,
                message@,
            ),
            final(self).spec_adapter() == old(self).spec_adapter(),
    {
        if wired {
            AgentDispatchStep::Execute { request }
        } else {
            self.give(effect, failed_outcome(code, message))
        }
    }

    fn tool_outcome(&self, call: &AgentToolCallRequest) -> (outcome: AgentRunEffectOutcome)
        ensures
            outcome@ == self@.tool_result(*call),
    {
        match run_scripted_tool(&self.failures, &self.tools, call.tool.as_str()) {
            Ok(content) => AgentRunEffectOutcome::Tool { call_id: call.call_id.clone(), content },
            Err(failure) => AgentRunEffectOutcome::Failed {
                code: failure.code,
                message: failure.message,
            },
        }
    }

    /// Begins answering one effect: a remembered answer, a scripted one, or what
    /// is to be called for it.
    ///
    /// The answer is remembered by the effect and its generation, so asking again
    /// returns the same outcome, while a later generation is answered anew. The
    /// call counters are not: asking again really is another call.
    pub fn begin<'a>(&mut self, effect: &'a AgentRunEffect) -> (step: AgentDispatchStep<'a>)
        ensures
            (final(self)@, step@) == old(self)@.answering(*effect),
            final(self).spec_adapter() == old(self).spec_adapter(),
    {
        match &effect.request {
            AgentRunEffectRequest::Model { .. } => {
                self.model_calls = bump(self.model_calls);
            },
            AgentRunEffectRequest::MemoryPromotion { .. }
            | AgentRunEffectRequest::Evaluation { .. }
            | AgentRunEffectRequest::ClaimAppend { .. } => {},
            _ => {
                self.tool_calls = bump(self.tool_calls);
            },
        }
        let ghost counted = old(self)@.counting(effect.request);
        assert(self@ == counted);
        if let Some(outcome) = self.cached(effect) {
            return AgentDispatchStep::Answered { outcome };
        }
        match &effect.request {
            AgentRunEffectRequest::Model { context, profile } => AgentDispatchStep::CallModel {
                request: model_request(context, profile, effect.turn),
            },
            AgentRunEffectRequest::Tool { call } => {
                let outcome = self.tool_outcome(call);
                self.give(effect, outcome)
            },
            AgentRunEffectRequest::Compensation { compensation } => {
                let outcome = match self.compensations.get(compensation.as_str()) {
                    Some(content) => {
                        let text = join2("compensation:", effect.effect_id.as_str());
                        proof {
                            reveal_strlit("compensation:");
                        }
                        AgentRunEffectOutcome::Tool {
                            call_id: Identifier::from_text(text),
                            content: content.clone(),
                        }
                    },
                    None => {
                        let message = join2(
                            "no scripted result for compensation ",
                            compensation.as_str(),
                        );
                        failed_outcome("compensation-unscripted", message.as_str())
                    },
                };
                self.give(effect, outcome)
            },
            AgentRunEffectRequest::MemoryPromotion { .. } => AgentDispatchStep::Answered {
                outcome: failed_outcome(
                    "memory-promotion-unscoped",
                    "a memory promotion is answered through drive or promotion_outcome, which carry the run scope",
                ),
            },
            AgentRunEffectRequest::Evaluation { .. } => AgentDispatchStep::Answered {
                outcome: failed_outcome(
                    "goal-evaluation-unscoped",
                    "a goal evaluation is answered through drive or evaluation_outcome, which carry the run scope",
                ),
            },
            AgentRunEffectRequest::A2aSend { delegation } => {
                let wired = self.wired.a2a_send;
                let scope = &delegation.parent_run;
                self.hand(
                    effect,
                    wired,
                    AgentExecutorRequest::A2aSend { scope, effect, delegation },
                    "a2a-send-executor-missing",
                    "no A2A send executor is wired into this dispatcher",
                )
            },
            AgentRunEffectRequest::WorkflowStart { invocation } => {
                let wired = self.wired.workflow_start;
                let scope = &invocation.parent_run;
                self.hand(
                    effect,
                    wired,
                    AgentExecutorRequest::WorkflowStart { scope, effect, invocation },
                    "workflow-start-executor-missing",
                    "no workflow start executor is wired into this dispatcher",
                )
            },
            AgentRunEffectRequest::WorkflowCancel { invocation, reason } => {
                let wired = self.wired.workflow_cancel;
                let scope = &invocation.parent_run;
                self.hand(
                    effect,
                    wired,
                    AgentExecutorRequest::WorkflowCancel { scope, effect, invocation, reason },
                    "workflow-cancel-executor-missing",
                    "no workflow cancel executor is wired into this dispatcher",
                )
            },
            AgentRunEffectRequest::ClaimAppend { .. } => AgentDispatchStep::Answered {
                outcome: failed_outcome(
                    "claim-append-unscoped",
                    "a claim append is answered through drive or claim_append_outcome, which carry the run scope",
                ),
            },
        }
    }

    /// Begins answering one claim append under the run's scope.
    pub fn claim_append_outcome<'a>(
        &mut self,
        scope: &'a AgentRunScope,
        effect: &'a AgentRunEffect,
        append: &'a AgentClaimAppendRequest,
        provenance: &'a AgentClaimAppendProvenance,
        now: AgentTimestampMillis,
    ) -> (step: AgentDispatchStep<'a>)
        ensures
            (final(self)@, step@) == old(self)@.appending(
                *scope,
                *effect,
                *append,
                *provenance,
                now,
            ),
            final(self).spec_adapter() == old(self).spec_adapter(),
    {
        self.tool_calls = bump(self.tool_calls);
        if let Some(outcome) = self.cached(effect) {
            return AgentDispatchStep::Answered { outcome };
        }
        let wired = self.wired.claim_append;
        self.hand(
            effect,
            wired,
            AgentExecutorRequest::ClaimAppend { scope, effect, append, provenance, now },
            "claim-append-executor-missing",
            "no claim-append executor is wired into this dispatcher",
        )
    }

    /// Begins answering one memory promotion under the run's scope.
    pub fn promotion_outcome<'a>(
        &mut self,
        scope: &'a AgentRunScope,
        effect: &'a AgentRunEffect,
        promotion: &'a AgentMemoryPromotionRequest,
        now: AgentTimestampMillis,
    ) -> (step: AgentDispatchStep<'a>)
        ensures
            (final(self)@, step@) == old(self)@.promoting(*scope, *effect, *promotion, now),
            final(self).spec_adapter() == old(self).spec_adapter(),
    {
        self.tool_calls = bump(self.tool_calls);
        if let Some(outcome) = self.cached(effect) {
            return AgentDispatchStep::Answered { outcome };
        }
        let wired = self.wired.memory_promotion;
        self.hand(
            effect,
            wired,
            AgentExecutorRequest::MemoryPromotion { scope, effect, promotion, now },
            "memory-promotion-executor-missing",
            "no memory-promotion executor is wired into this dispatcher",
        )
    }

    /// Begins answering one goal evaluation under the run's scope.
    pub fn evaluation_outcome<'a>(
        &mut self,
        scope: &'a AgentRunScope,
        effect: &'a AgentRunEffect,
        evaluation: &'a AgentGoalEvaluationRequest,
        grant: Option<&AgentCheckpointGrant>,
        now: AgentTimestampMillis,
    ) -> (step: AgentDispatchStep<'a>)
        ensures
            (final(self)@, step@) == old(self)@.evaluating(
                *scope,
                *effect,
                *evaluation,
                grant,
                now,
            ),
            final(self).spec_adapter() == old(self).spec_adapter(),
    {
        self.tool_calls = bump(self.tool_calls);
        if let Some(outcome) = self.cached(effect) {
            return AgentDispatchStep::Answered { outcome };
        }
        let evaluation_id = match goal_evaluation_record_id(
            scope,
            effect.turn,
            effect.slot,
            effect.generation,
        ) {
            Ok(evaluation_id) => evaluation_id,
            Err(error) => {
                let message = error.message();
                return self.give(
                    effect,
                    failed_outcome("evaluation-identity-invalid", message.as_str()),
                );
            },
        };
        match evaluation.method {
            AgentGoalEvaluationMethod::HumanReview => match grant {
                None => self.give(
                    effect,
                    failed_outcome(
                        "evaluation-grant-missing",
                        "a human-review evaluation dispatched without its approval grant",
                    ),
                ),
                Some(grant) => {
                    let finding = approval_finding(evaluation, grant);
                    let outcome = evaluated_outcome(
                        evaluation_id,
                        evaluation,
                        effect,
                        now,
                        finding,
                    );
                    self.give(effect, outcome)
                },
            },
            AgentGoalEvaluationMethod::VerificationWorkflow => self.give(
                effect,
                failed_outcome(
                    "evaluation-workflow-deferred",
                    "a verification-workflow evaluation cannot execute until the evaluation cell is bridged to the workflow-tool invocation path",
                ),
            ),
            _ => {
                let wired = self.wired.goal_evaluation;
                self.hand(
                    effect,
                    wired,
                    AgentExecutorRequest::Evaluation { scope, effect, evaluation, now },
                    "evaluation-executor-missing",
                    "no goal-evaluation executor is wired into this dispatcher",
                )
            },
        }
    }
}

/// What calling the adapter, or running the executor of an effect's kind, came
/// back with.
#[derive(Debug)]
#[non_exhaustive]
pub enum AgentDispatchReport {
    /// The adapter.
    Model(Result<AgentModelTurn, AgentModelError>),
    /// The executor of sends to peers.
    A2aSend(Result<AgentA2aSendFinding, AgentDispatchError>),
    /// The executor of workflow starts.
    WorkflowStart(Result<AgentWorkflowStartFinding, AgentDispatchError>),
    /// The executor of workflow cancellations.
    WorkflowCancel(Result<AgentWorkflowCancelFinding, AgentDispatchError>),
    /// The executor of claim appends.
    ClaimAppend(Result<AgentClaimAppendFinding, AgentDispatchError>),
    /// The executor of memory promotions.
    MemoryPromotion(Result<AgentMemoryPromotionFinding, AgentDispatchError>),
    /// The executor of goal evaluations.
    Evaluation(Result<AgentGoalEvaluationFinding, AgentDispatchError>),
}

/// Whether a report is one an effect's kind can come back with.
pub open spec fn reports_on(request: AgentRunEffectRequest, report: AgentDispatchReport) -> bool {
    match report {
        AgentDispatchReport::Model(_) => request is Model,
        AgentDispatchReport::A2aSend(_) => request is A2aSend,
        AgentDispatchReport::WorkflowStart(_) => request is WorkflowStart,
        AgentDispatchReport::WorkflowCancel(_) => request is WorkflowCancel,
        AgentDispatchReport::ClaimAppend(_) => request is ClaimAppend,
        AgentDispatchReport::MemoryPromotion(_) => request is MemoryPromotion,
        AgentDispatchReport::Evaluation(_) => request is Evaluation,
    }
}

impl AgentDispatchReport {
    /// Whether the report is one an effect's kind can come back with.
    pub fn fits(&self, request: &AgentRunEffectRequest) -> (result: bool)
        ensures
            result == reports_on(*request, *self),
    {
        match self {
            AgentDispatchReport::Model(_) => matches!(request, AgentRunEffectRequest::Model { .. }),
            AgentDispatchReport::A2aSend(_) => matches!(
                request,
                AgentRunEffectRequest::A2aSend { .. }
            ),
            AgentDispatchReport::WorkflowStart(_) => matches!(
                request,
                AgentRunEffectRequest::WorkflowStart { .. }
            ),
            AgentDispatchReport::WorkflowCancel(_) => matches!(
                request,
                AgentRunEffectRequest::WorkflowCancel { .. }
            ),
            AgentDispatchReport::ClaimAppend(_) => matches!(
                request,
                AgentRunEffectRequest::ClaimAppend { .. }
            ),
            AgentDispatchReport::MemoryPromotion(_) => matches!(
                request,
                AgentRunEffectRequest::MemoryPromotion { .. }
            ),
            AgentDispatchReport::Evaluation(_) => matches!(
                request,
                AgentRunEffectRequest::Evaluation { .. }
            ),
        }
    }
}

/// What a report becomes. An executor's own failure fails the effect: nothing
/// is attempted twice here.
pub open spec fn reported(
    scope: AgentRunScope,
    effect: AgentRunEffect,
    now: AgentTimestampMillis,
    report: AgentDispatchReport,
) -> OutcomeModel
    recommends
        reports_on(effect.request, report),
{
    match report {
        AgentDispatchReport::Model(produced) => model_result(produced),
        AgentDispatchReport::A2aSend(found) => a2a_send_result(effect.request->delegation, found),
        AgentDispatchReport::WorkflowStart(found) => workflow_start_result(
            effect.request->WorkflowStart_invocation,
            found,
        ),
        AgentDispatchReport::WorkflowCancel(found) => workflow_cancel_result(found),
        AgentDispatchReport::ClaimAppend(found) => claim_append_result(found),
        AgentDispatchReport::MemoryPromotion(found) => promotion_result(found),
        AgentDispatchReport::Evaluation(Ok(finding)) => evaluation_result(
            evaluation_text(scope, effect.turn, effect.slot, effect.generation),
            effect.request->evaluation,
            effect,
            now,
            finding@,
        ),
        AgentDispatchReport::Evaluation(Err(error)) => OutcomeModel::Failed(
            "evaluation-attempt-failed"@,
            error.message@,
        ),
    }
}

impl DispatcherModel {
    /// Answering an effect of a run: the kinds that need the run's scope get it.
    pub open spec fn dispatching(
        self,
        scope: AgentRunScope,
        effect: AgentRunEffect,
        grant: Option<&AgentCheckpointGrant>,
        now: AgentTimestampMillis,
    ) -> (DispatcherModel, StepModel) {
        match effect.request {
            AgentRunEffectRequest::MemoryPromotion { promotion } => self.promoting(
                scope,
                effect,
                promotion,
                now,
            ),
            AgentRunEffectRequest::ClaimAppend { append, provenance } => self.appending(
                scope,
                effect,
                append,
                provenance,
                now,
            ),
            AgentRunEffectRequest::Evaluation { evaluation } => self.evaluating(
                scope,
                effect,
                evaluation,
                grant,
                now,
            ),
            _ => self.answering(effect),
        }
    }
}

impl<A> ScriptedDispatcher<A> {
    /// Begins answering one effect of a run, under the run's scope.
    pub fn dispatch<'a>(
        &mut self,
        scope: &'a AgentRunScope,
        effect: &'a AgentRunEffect,
        grant: Option<&AgentCheckpointGrant>,
        now: AgentTimestampMillis,
    ) -> (step: AgentDispatchStep<'a>)
        ensures
            (final(self)@, step@) == old(self)@.dispatching(*scope, *effect, grant, now),
            final(self).spec_adapter() == old(self).spec_adapter(),
    {
        match &effect.request {
            AgentRunEffectRequest::MemoryPromotion { promotion } => self.promotion_outcome(
                scope,
                effect,
                promotion,
                now,
            ),
            AgentRunEffectRequest::ClaimAppend { append, provenance } => self.claim_append_outcome(
                scope,
                effect,
                append,
                provenance,
                now,
            ),
            AgentRunEffectRequest::Evaluation { evaluation } => self.evaluation_outcome(
                scope,
                effect,
                evaluation,
                grant,
                now,
            ),
            _ => self.begin(effect),
        }
    }

    /// Concludes an effect with what its adapter or executor came back with,
    /// and remembers the answer; an answer remembered meanwhile wins.
    pub fn conclude(
        &mut self,
        scope: &AgentRunScope,
        effect: &AgentRunEffect,
        now: AgentTimestampMillis,
        report: AgentDispatchReport,
    ) -> (outcome: AgentRunEffectOutcome)
        requires
            reports_on(effect.request, report),
            report is Evaluation ==> scope.tenant@.len() > 0,
        ensures
            (final(self)@, outcome@) == old(self)@.remembering(
                *effect,
                reported(*scope, *effect, now, report),
            ),
            final(self).spec_adapter() == old(self).spec_adapter(),
    {
        let outcome = match report {
            AgentDispatchReport::Model(produced) => model_outcome(produced),
            AgentDispatchReport::A2aSend(found) => match &effect.request {
                AgentRunEffectRequest::A2aSend { delegation } => a2a_send_outcome(
                    delegation,
                    found,
                ),
                _ => failed_outcome("", ""),
            },
            AgentDispatchReport::WorkflowStart(found) => match &effect.request {
                AgentRunEffectRequest::WorkflowStart { invocation } => workflow_start_outcome(
                    invocation,
                    found,
                ),
                _ => failed_outcome("", ""),
            },
            AgentDispatchReport::WorkflowCancel(found) => workflow_cancel_outcome(found),
            AgentDispatchReport::ClaimAppend(found) => appended_outcome(found),
            AgentDispatchReport::MemoryPromotion(found) => promoted_outcome(found),
            AgentDispatchReport::Evaluation(Ok(finding)) => {
                let evaluation_id = goal_evaluation_record_id(
                    scope,
                    effect.turn,
                    effect.slot,
                    effect.generation,
                );
                match (&effect.request, evaluation_id) {
                    (AgentRunEffectRequest::Evaluation { evaluation }, Ok(evaluation_id)) => {
                        evaluated_outcome(evaluation_id, evaluation, effect, now, finding)
                    },
                    _ => failed_outcome("", ""),
                }
            },
            AgentDispatchReport::Evaluation(Err(error)) => failed_outcome(
                "evaluation-attempt-failed",
                error.message.as_str(),
            ),
        };
        self.remember(effect, outcome)
    }
}

/// The effects a run is waiting on, in order.
pub open spec fn ready_effects(effects: Seq<AgentRunEffect>) -> Seq<usize> {
    Seq::new(effects.len(), |i: int| i as usize).filter(
        |i: usize| effects[i as int].status == AgentRunEffectStatus::Ready,
    )
}

/// The positions of the effects a run is waiting on, in order.
pub fn dispatched_effects(effects: &[AgentRunEffect]) -> (ready: Vec<usize>)
    ensures
        ready@ == ready_effects(effects@),
{
    let ghost is_ready = |i: usize| effects@[i as int].status == AgentRunEffectStatus::Ready;
    let mut ready: Vec<usize> = Vec::new();
    let mut i: usize = 0;
    proof {
        reveal(Seq::filter);
        assert(Seq::new(0, |k: int| k as usize).filter(is_ready) =~= Seq::empty());
    }
    while i < effects.len()
        invariant
            i <= effects@.len(),
            is_ready == (|k: usize| effects@[k as int].status == AgentRunEffectStatus::Ready),
            ready@ == Seq::new(i as nat, |k: int| k as usize).filter(is_ready),
        decreases effects.len() - i,
    {
        proof {
            reveal(Seq::filter);
            let longer = Seq::new((i + 1) as nat, |k: int| k as usize);
            assert(longer.drop_last() =~= Seq::new(i as nat, |k: int| k as usize));
            assert(longer.last() == i);
        }
        if effects[i].status == AgentRunEffectStatus::Ready {
            ready.push(i);
        }
        i = i + 1;
    }
    ready
}

/// The command that records one effect's outcome on its run.
#[derive(Debug)]
pub struct RecordEffectResult {
    /// The operation the command replays under.
    pub operation_id: AgentOperationId,
    /// The effect.
    pub effect_id: AgentEffectId,
    /// The effect's generation.
    pub generation: AgentEffectGeneration,
    /// The attempt that produced the outcome.
    pub attempt: u32,
    /// The fencing token; an in-process dispatcher holds no lease.
    pub fence: u64,
    /// The outcome.
    pub outcome: AgentRunEffectOutcome,
}

/// The text of the operation an effect's result is recorded under: the effect of
/// its run, and the generation.
pub open spec fn result_operation_text(scope: AgentRunScope, effect: AgentRunEffect) -> Seq<char> {
    operation_text(
        AgentOperationKind::EffectResult,
        seq![
            scope.tenant@,
            scope.agent@,
            scope.run@,
            effect.effect_id@,
            decimal(effect.generation.number as nat),
        ],
    )
}

/// Builds the command that records an effect's outcome on its run; a scope whose
/// tenant keys nothing has none.
pub fn result_command(
    scope: &AgentRunScope,
    effect: &AgentRunEffect,
    outcome: AgentRunEffectOutcome,
) -> (result: Result<RecordEffectResult, AgentIdentityError>)
    ensures
        scope.tenant@.len() == 0 ==> result == Err::<RecordEffectResult, _>(
            AgentIdentityError::Empty,
        ),
        scope.tenant@.len() > 0 ==> result is Ok && ({
            let command = result->Ok_0;
            &&& command.operation_id@ == result_operation_text(*scope, *effect)
            &&& command.effect_id == effect.effect_id
            &&& command.generation == effect.generation
            &&& command.attempt == (if effect.attempts < u32::MAX {
                (effect.attempts + 1) as u32
            } else {
                u32::MAX
            })
            &&& command.fence == 0
            &&& command.outcome == outcome
        }),
{
    let generation = decimal_string(effect.generation.get() as u64);
    let segments: [&str; 5] = [
        scope.tenant.as_str(),
        scope.agent.as_str(),
        scope.run.as_str(),
        effect.effect_id.as_str(),
        generation.as_str(),
    ];
    proof {
        lemma_decimal_digits(effect.generation.number as nat);
        assert(texts(segments@) =~= seq![
            scope.tenant@,
            scope.agent@,
            scope.run@,
            effect.effect_id@,
            decimal(effect.generation.number as nat),
        ]);
        assert(segments@[0]@ == scope.tenant@ && segments@[1]@ == scope.agent@ && segments@[2]@
            == scope.run@ && segments@[3]@ == effect.effect_id@ && segments@[4]@ == generation@);
    }
    match derive_operation_id(AgentOperationKind::EffectResult, &segments) {
        Err(error) => Err(error),
        Ok(operation_id) => Ok(
            RecordEffectResult {
                operation_id,
                effect_id: effect.effect_id.clone(),
                generation: effect.generation,
                attempt: effect.attempts.saturating_add(1),
                fence: 0,
                outcome,
            },
        ),
    }
}

/// A remembered answer is given again whatever the scripts now say, and asking
/// again changes nothing but the call counters.
pub proof fn a_remembered_answer_replays(dispatcher: DispatcherModel, effect: AgentRunEffect)
    requires
        dispatcher.answered.contains_key(effect_key(effect)),
    ensures
        dispatcher.answering(effect) == (
            dispatcher.counting(effect.request),
            StepModel::Answered(dispatcher.answered[effect_key(effect)]),
        ),
        dispatcher.counting(effect.request).answered == dispatcher.answered,
{
}

/// The first answer remembered for an effect is the one every later caller gets.
pub proof fn the_first_answer_wins(
    dispatcher: DispatcherModel,
    effect: AgentRunEffect,
    first: OutcomeModel,
    second: OutcomeModel,
)
    requires
        !dispatcher.answered.contains_key(effect_key(effect)),
    ensures
        dispatcher.remembering(effect, first).1 == first,
        dispatcher.remembering(effect, first).0.remembering(effect, second) == (
            dispatcher.remembering(effect, first).0,
            first,
        ),
{
}

/// Remembering an answer leaves every other effect's answer, and every other
/// generation's, as it was.
pub proof fn an_answer_is_remembered_for_its_generation_alone(
    dispatcher: DispatcherModel,
    effect: AgentRunEffect,
    other: AgentRunEffect,
    outcome: OutcomeModel,
)
    requires
        effect.effect_id@ != other.effect_id@ || effect.generation != other.generation,
    ensures
        dispatcher.remembering(effect, outcome).0.answered.contains_key(effect_key(other))
            == dispatcher.answered.contains_key(effect_key(other)),
        dispatcher.answered.contains_key(effect_key(other)) ==> dispatcher.remembering(
            effect,
            outcome,
        ).0.answered[effect_key(other)] == dispatcher.answered[effect_key(other)],
{
    if effect_key(effect) == effect_key(other) {
        answers_are_remembered_apart(
            effect.effect_id@,
            effect.generation.number,
            other.effect_id@,
            other.generation.number,
        );
    }
}

/// An executor is handed exactly its own effect: a send, a start and a
/// cancellation go with their own record and under the scope of the run that the
/// record names; an append, a promotion and an evaluation go under the scope of
/// the run that is driven. The adapter's and the scripted kinds have no executor.
pub proof fn an_executor_is_handed_its_effect(
    dispatcher: DispatcherModel,
    scope: AgentRunScope,
    effect: AgentRunEffect,
    grant: Option<&AgentCheckpointGrant>,
    now: AgentTimestampMillis,
)
    ensures
        ({
            let step = dispatcher.dispatching(scope, effect, grant, now).1;
            step is Execute ==> ExecutorModel::of(scope, effect, now) == Some(step->Execute_0)
        }),
        effect.request is A2aSend ==> ExecutorModel::of(scope, effect, now)->Some_0.scope()
            == effect.request->delegation.parent_run,
        effect.request is WorkflowStart ==> ExecutorModel::of(scope, effect, now)->Some_0.scope()
            == effect.request->WorkflowStart_invocation.parent_run,
        effect.request is WorkflowCancel ==> ExecutorModel::of(scope, effect, now)->Some_0.scope()
            == effect.request->WorkflowCancel_invocation.parent_run,
        effect.request is ClaimAppend || effect.request is MemoryPromotion
            || effect.request is Evaluation ==> ExecutorModel::of(
            scope,
            effect,
            now,
        )->Some_0.scope() == scope,
{
}

/// An effect asked about without the scope it needs is not answered for good: a
/// later answer under the scope can still be remembered.
pub proof fn an_unscoped_answer_is_not_remembered(
    dispatcher: DispatcherModel,
    effect: AgentRunEffect,
)
    requires
        effect.request is MemoryPromotion || effect.request is Evaluation
            || effect.request is ClaimAppend,
    ensures
        dispatcher.answering(effect).0 == dispatcher,
{
}

} // verus!
