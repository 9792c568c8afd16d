//! Scripted collaborators of a dispatch pipeline: tools, reconcilers,
//! credentials, embeddings, and memory retrieval.

use vstd::prelude::*;
use vstd::string::*;
use vstd::utf8::encode_utf8;

use crate::effect::{AgentRunEffect, AgentTaskContent, AgentToolCallRequest};
use crate::identity::AgentRevisionNumber;
use crate::json::{
    copy_json, field, fields_model, json_object, json_string, object_value, string_value,
};
use crate::testkit_delivery::{bump, bumped};
use crate::testkit_script::Script;
use crate::text::same_text;

verus! {

/// The failure of a collaborator a dispatch called.
#[derive(Debug)]
pub struct AgentDispatchError {
    /// The stable code.
    pub code: String,
    /// The failure in words.
    pub message: String,
}

impl AgentDispatchError {
    /// A collaborator's failure.
    pub fn collaborator(code: String, message: String) -> (error: Self)
        ensures
            error == (AgentDispatchError { code, message }),
    {
        AgentDispatchError { code, message }
    }
}

/// A scripted failure: its code and its words.
#[derive(Debug)]
pub struct ScriptedFailure {
    /// The stable code.
    pub code: String,
    /// The failure in words.
    pub message: String,
}

impl Clone for ScriptedFailure {
    fn clone(&self) -> (copy: Self)
        ensures
            copy == *self,
    {
        ScriptedFailure { code: self.code.clone(), message: self.message.clone() }
    }
}

/// What a tool nothing was scripted for returns: its own name.
pub open spec fn echoed(tool: Seq<char>) -> AgentTaskContent {
    AgentTaskContent { value: json_object(seq![("tool"@, json_string(tool))]) }
}

/// What a tool returns under a script of failures and a script of results; a
/// scripted failure comes first.
pub open spec fn scripted_tool(
    failures: Map<Seq<char>, ScriptedFailure>,
    results: Map<Seq<char>, AgentTaskContent>,
    tool: Seq<char>,
) -> Result<AgentTaskContent, ScriptedFailure> {
    if failures.contains_key(tool) {
        Err(failures[tool])
    } else if results.contains_key(tool) {
        Ok(results[tool])
    } else {
        Ok(echoed(tool))
    }
}

/// What a tool returns under its scripts.
pub fn run_scripted_tool(
    failures: &Script<ScriptedFailure>,
    results: &Script<AgentTaskContent>,
    tool: &str,
) -> (result: Result<AgentTaskContent, ScriptedFailure>)
    ensures
        result == scripted_tool(failures@, results@, tool@),
{
    if let Some(failure) = failures.get(tool) {
        return Err(failure.clone());
    }
    match results.get(tool) {
        Some(content) => Ok(content.clone()),
        None => {
            let fields: Vec<(String, serde_json::Value)> = vec![field("tool", string_value(tool))];
            assert(fields_model(fields@) =~= seq![("tool"@, json_string(tool@))]);
            Ok(AgentTaskContent::inline(object_value(fields)))
        },
    }
}

/// One external invocation a [`RecordingToolExecutor`] performed.
#[derive(Debug)]
pub struct RecordedToolInvocation {
    /// The tool that was invoked.
    pub tool: String,
    /// The call the model asked for.
    pub call_id: String,
    /// The arguments the executor was handed.
    pub arguments: serde_json::Value,
    /// The idempotency key the target was handed.
    pub idempotency_key: String,
    /// The generation the attempt served.
    pub generation: u32,
    /// Whether a resolved credential accompanied the attempt.
    pub with_credential: bool,
}

/// What a recorded invocation says.
pub struct InvocationModel {
    /// The tool.
    pub tool: Seq<char>,
    /// The call.
    pub call_id: Seq<char>,
    /// The arguments.
    pub arguments: serde_json::Value,
    /// The idempotency key.
    pub idempotency_key: Seq<char>,
    /// The generation.
    pub generation: u32,
    /// Whether a credential accompanied it.
    pub with_credential: bool,
}

impl View for RecordedToolInvocation {
    type V = InvocationModel;

    open spec fn view(&self) -> InvocationModel {
        InvocationModel {
            tool: self.tool@,
            call_id: self.call_id@,
            arguments: self.arguments,
            idempotency_key: self.idempotency_key@,
            generation: self.generation,
            with_credential: self.with_credential,
        }
    }
}

/// What a log of invocations says.
pub open spec fn invocations_model(invocations: Seq<RecordedToolInvocation>) -> Seq<
    InvocationModel,
> {
    invocations.map_values(|invocation: RecordedToolInvocation| invocation@)
}

/// How many invocations of a log are of one tool.
pub open spec fn invocations_of(log: Seq<InvocationModel>, tool: Seq<char>) -> nat
    decreases log.len(),
{
    if log.len() == 0 {
        0
    } else {
        invocations_of(log.drop_last(), tool) + if log.last().tool == tool {
            1nat
        } else {
            0nat
        }
    }
}

proof fn lemma_invocations_bounded(log: Seq<InvocationModel>, tool: Seq<char>)
    ensures
        invocations_of(log, tool) <= log.len(),
    decreases log.len(),
{
    if log.len() > 0 {
        lemma_invocations_bounded(log.drop_last(), tool);
    }
}

/// A tool executor that records every external invocation it performs.
#[derive(Debug)]
pub struct RecordingToolExecutor {
    results: Script<AgentTaskContent>,
    failures: Script<ScriptedFailure>,
    invocations: Vec<RecordedToolInvocation>,
}

/// What a recording executor holds.
pub struct ExecutorModel {
    /// The scripted results, by tool.
    pub results: Map<Seq<char>, AgentTaskContent>,
    /// The scripted failures, by tool.
    pub failures: Map<Seq<char>, ScriptedFailure>,
    /// Every invocation performed, in order.
    pub invocations: Seq<InvocationModel>,
}

impl View for RecordingToolExecutor {
    type V = ExecutorModel;

    closed spec fn view(&self) -> ExecutorModel {
        ExecutorModel {
            results: self.results@,
            failures: self.failures@,
            invocations: invocations_model(self.invocations@),
        }
    }
}

/// The invocation one call of an effect amounts to.
pub open spec fn invocation_of(
    intent: AgentRunEffect,
    call: AgentToolCallRequest,
    with_credential: bool,
) -> InvocationModel {
    InvocationModel {
        tool: call.tool@,
        call_id: call.call_id@,
        arguments: call.arguments,
        idempotency_key: intent.idempotency_key@,
        generation: intent.generation.number,
        with_credential,
    }
}

impl RecordingToolExecutor {
    /// An executor with no scripted results: every tool echoes its name.
    pub fn new() -> (executor: Self)
        ensures
            executor@ == (ExecutorModel {
                results: Map::empty(),
                failures: Map::empty(),
                invocations: Seq::empty(),
            }),
    {
        let executor = RecordingToolExecutor {
            results: Script::new(),
            failures: Script::new(),
            invocations: Vec::new(),
        };
        assert(executor@.invocations =~= Seq::empty());
        executor
    }

    /// Scripts the result one tool returns.
    pub fn with_result(self, tool: &str, content: AgentTaskContent) -> (executor: Self)
        ensures
            executor@ == (ExecutorModel {
                results: self@.results.insert(tool@, content),
                ..self@
            }),
    {
        let mut next = self;
        next.results.insert(tool.to_owned(), content);
        next
    }

    /// Scripts a failure one tool returns, however often it is invoked.
    pub fn with_failure(self, tool: &str, code: &str, message: &str) -> (executor: Self)
        ensures
            executor@.results == self@.results,
            executor@.invocations == self@.invocations,
            executor@.failures.contains_key(tool@),
            executor@.failures[tool@].code@ == code@,
            executor@.failures[tool@].message@ == message@,
            executor@.failures == self@.failures.insert(tool@, executor@.failures[tool@]),
    {
        let mut next = self;
        let failure = ScriptedFailure { code: code.to_owned(), message: message.to_owned() };
        next.failures.insert(tool.to_owned(), failure);
        next
    }

    /// Every external invocation performed, in order.
    pub fn invocations(&self) -> (invocations: &[RecordedToolInvocation])
        ensures
            invocations_model(invocations@) == self@.invocations,
    {
        self.invocations.as_slice()
    }

    /// How many external invocations one tool has performed.
    pub fn invocation_count(&self, tool: &str) -> (count: usize)
        ensures
            count == invocations_of(self@.invocations, tool@),
    {
        let ghost log = self@.invocations;
        let mut count: usize = 0;
        let mut i: usize = 0;
        assert(log.subrange(0, 0) =~= Seq::empty());
        while i < self.invocations.len()
            invariant
                i <= self.invocations@.len(),
                log == self@.invocations,
                count <= i,
                count == invocations_of(log.subrange(0, i as int), tool@),
            decreases self.invocations.len() - i,
        {
            proof {
                let longer = log.subrange(0, i + 1);
                assert(longer.drop_last() =~= log.subrange(0, i as int));
                assert(longer.last() == log[i as int]);
                assert(log[i as int].tool == self.invocations@[i as int].tool@);
            }
            if same_text(self.invocations[i].tool.as_str(), tool) {
                count = count + 1;
            }
            i = i + 1;
        }
        assert(log.subrange(0, i as int) =~= log);
        count
    }

    /// Performs one invocation. It is recorded before the script is consulted: a
    /// tool that fails may still have touched the external system.
    pub fn execute(
        &mut self,
        intent: &AgentRunEffect,
        call: &AgentToolCallRequest,
        with_credential: bool,
    ) -> (result: Result<AgentTaskContent, AgentDispatchError>)
        ensures
            final(self)@ == (ExecutorModel {
                invocations: old(self)@.invocations.push(
                    invocation_of(*intent, *call, with_credential),
                ),
                ..old(self)@
            }),
            match scripted_tool(old(self)@.failures, old(self)@.results, call.tool@) {
                Ok(content) => result == Ok::<_, AgentDispatchError>(content),
                Err(failure) => result == Err::<AgentTaskContent, _>(
                    AgentDispatchError { code: failure.code, message: failure.message },
                ),
            },
    {
        let invocation = RecordedToolInvocation {
            tool: call.tool.as_str().to_owned(),
            call_id: call.call_id.as_str().to_owned(),
            arguments: copy_json(&call.arguments),
            idempotency_key: intent.idempotency_key.clone(),
            generation: intent.generation.get(),
            with_credential,
        };
        assert(invocation@ == invocation_of(*intent, *call, with_credential));
        self.invocations.push(invocation);
        proof {
            assert(self@.invocations =~= old(self)@.invocations.push(
                invocation_of(*intent, *call, with_credential),
            ));
        }
        match run_scripted_tool(&self.failures, &self.results, call.tool.as_str()) {
            Ok(content) => Ok(content),
            Err(failure) => Err(AgentDispatchError::collaborator(failure.code, failure.message)),
        }
    }
}

/// An invocation counts once for its tool and for no other, whether or not the
/// tool then fails.
pub proof fn an_invocation_counts_once(
    log: Seq<InvocationModel>,
    invocation: InvocationModel,
    tool: Seq<char>,
)
    ensures
        invocations_of(log.push(invocation), tool) == invocations_of(log, tool) + if invocation.tool
            == tool {
            1nat
        } else {
            0nat
        },
        invocations_of(log, tool) <= log.len(),
{
    assert(log.push(invocation).drop_last() =~= log);
    lemma_invocations_bounded(log, tool);
}

/// What reconciling an ambiguous attempt found.
#[derive(Debug)]
#[non_exhaustive]
pub enum AgentReconciliationFinding {
    /// The target committed the attempt.
    Committed {
        /// What it returned.
        content: AgentTaskContent,
    },
    /// The target did not commit the attempt.
    NotCommitted,
    /// The target cannot tell.
    Unknown,
}

impl Clone for AgentReconciliationFinding {
    fn clone(&self) -> (copy: Self)
        ensures
            copy == *self,
    {
        match self {
            AgentReconciliationFinding::Committed { content } => {
                AgentReconciliationFinding::Committed { content: content.clone() }
            },
            AgentReconciliationFinding::NotCommitted => AgentReconciliationFinding::NotCommitted,
            AgentReconciliationFinding::Unknown => AgentReconciliationFinding::Unknown,
        }
    }
}

/// A reconciler that answers from a script, in order, and repeats its last
/// answer when the script is spent.
#[derive(Debug)]
pub struct ScriptedReconciler {
    findings: Vec<AgentReconciliationFinding>,
    queries: usize,
}

/// What a reconciler holds.
pub struct ReconcilerModel {
    /// The findings left, next first.
    pub findings: Seq<AgentReconciliationFinding>,
    /// How often it was queried.
    pub queries: usize,
}

impl View for ScriptedReconciler {
    type V = ReconcilerModel;

    closed spec fn view(&self) -> ReconcilerModel {
        ReconcilerModel { findings: self.findings@, queries: self.queries }
    }
}

impl ReconcilerModel {
    /// The answer to the next query: the next finding, or that nothing is known.
    pub open spec fn answer(self) -> AgentReconciliationFinding {
        if self.findings.len() > 0 {
            self.findings[0]
        } else {
            AgentReconciliationFinding::Unknown
        }
    }

    /// After a query: the finding is spent unless it is the last.
    pub open spec fn queried(self) -> ReconcilerModel {
        ReconcilerModel {
            findings: if self.findings.len() > 1 {
                self.findings.drop_first()
            } else {
                self.findings
            },
            queries: bumped(self.queries),
        }
    }
}

impl ScriptedReconciler {
    /// A reconciler whose every query answers `Unknown`.
    pub fn new() -> (reconciler: Self)
        ensures
            reconciler@ == (ReconcilerModel { findings: Seq::empty(), queries: 0 }),
    {
        let reconciler = ScriptedReconciler { findings: Vec::new(), queries: 0 };
        assert(reconciler@.findings =~= Seq::empty());
        reconciler
    }

    /// Scripts the next finding.
    pub fn with_finding(self, finding: AgentReconciliationFinding) -> (reconciler: Self)
        ensures
            reconciler@ == (ReconcilerModel {
                findings: self@.findings.push(finding),
                ..self@
            }),
    {
        let mut next = self;
        next.findings.push(finding);
        next
    }

    /// How many times a protocol was queried.
    pub fn queries(&self) -> (queries: usize)
        ensures
            queries == self@.queries,
    {
        self.queries
    }

    /// Answers one query.
    pub fn reconcile(&mut self) -> (finding: AgentReconciliationFinding)
        ensures
            finding == old(self)@.answer(),
            final(self)@ == old(self)@.queried(),
    {
        self.queries = bump(self.queries);
        if self.findings.len() > 1 {
            let finding = self.findings.remove(0);
            assert(self.findings@ =~= old(self).findings@.drop_first());
            finding
        } else if self.findings.len() == 1 {
            self.findings[0].clone()
        } else {
            AgentReconciliationFinding::Unknown
        }
    }
}

/// A reconciler down to its last finding repeats it.
pub proof fn the_last_finding_repeats(reconciler: ReconcilerModel)
    requires
        reconciler.findings.len() <= 1,
    ensures
        reconciler.queried().answer() == reconciler.answer(),
        reconciler.queried().findings == reconciler.findings,
{
}

/// A reconciler after a number of queries.
pub open spec fn after_queries(reconciler: ReconcilerModel, queries: nat) -> ReconcilerModel
    decreases queries,
{
    if queries == 0 {
        reconciler
    } else {
        after_queries(reconciler, (queries - 1) as nat).queried()
    }
}

/// A script is answered in order, each finding once, and its last finding from
/// then on; an empty script answers that nothing is known.
pub proof fn a_script_is_answered_in_order(reconciler: ReconcilerModel, queries: nat)
    ensures
        ({
            let findings = reconciler.findings;
            let answer = after_queries(reconciler, queries).answer();
            if findings.len() == 0 {
                answer is Unknown
            } else if queries < findings.len() {
                answer == findings[queries as int]
            } else {
                answer == findings.last()
            }
        }),
{
    lemma_after_queries(reconciler, queries);
}

proof fn lemma_after_queries(reconciler: ReconcilerModel, queries: nat)
    ensures
        ({
            let findings = reconciler.findings;
            let spent = if findings.len() == 0 {
                0
            } else if queries < findings.len() {
                queries as int
            } else {
                findings.len() - 1
            };
            after_queries(reconciler, queries).findings == findings.subrange(
                spent,
                findings.len() as int,
            )
        }),
    decreases queries,
{
    let findings = reconciler.findings;
    if queries == 0 {
        assert(findings.subrange(0, findings.len() as int) =~= findings);
    } else {
        lemma_after_queries(reconciler, (queries - 1) as nat);
        let before = after_queries(reconciler, (queries - 1) as nat).findings;
        if before.len() > 1 {
            assert(before.drop_first() =~= findings.subrange(
                queries as int,
                findings.len() as int,
            ));
        }
    }
}

/// A credential that lives for one attempt.
pub struct AgentEphemeralCredential {
    /// The bearer token.
    pub token: String,
}

/// A credential resolver that returns a scripted credential and counts its
/// resolutions.
pub struct ScriptedCredentialResolver {
    token: String,
    resolutions: usize,
}

impl ScriptedCredentialResolver {
    /// The token every credential carries.
    pub closed spec fn token(&self) -> Seq<char> {
        self.token@
    }

    /// How many bindings have been resolved.
    pub closed spec fn spec_resolutions(&self) -> usize {
        self.resolutions
    }

    /// A resolver that mints bearer credentials carrying a token.
    pub fn new(token: String) -> (resolver: Self)
        ensures
            resolver.token() == token@,
            resolver.spec_resolutions() == 0,
    {
        ScriptedCredentialResolver { token, resolutions: 0 }
    }

    /// How many bindings have been resolved.
    pub fn resolutions(&self) -> (resolutions: usize)
        ensures
            resolutions == self.spec_resolutions(),
    {
        self.resolutions
    }

    /// Resolves one binding.
    pub fn resolve(&mut self) -> (credential: AgentEphemeralCredential)
        ensures
            credential.token@ == old(self).token(),
            final(self).token() == old(self).token(),
            final(self).spec_resolutions() == bumped(old(self).spec_resolutions()),
    {
        self.resolutions = bump(self.resolutions);
        AgentEphemeralCredential { token: self.token.clone() }
    }
}

/// Whether a character is alphabetic or numeric, as `char::is_alphanumeric` has
/// it.
pub uninterp spec fn alphanumeric(character: char) -> bool;

/// A text's lowercase, as `str::to_lowercase` has it.
pub uninterp spec fn lowercase(text: Seq<char>) -> Seq<char>;

/// Asks `char::is_alphanumeric`. The answer is named [`alphanumeric`]: it
/// depends on the character alone.
#[verifier::external_body]
fn is_alphanumeric(character: char) -> (result: bool)
    ensures
        result == alphanumeric(character),
{
    character.is_alphanumeric()
}

/// Lowers a text with `str::to_lowercase`. The result is named [`lowercase`]: it
/// depends on the text alone.
#[verifier::external_body]
fn to_lowercase(text: &str) -> (lower: String)
    ensures
        lower@ == lowercase(text@),
{
    text.to_lowercase()
}

/// FNV-1a offset basis, in 64 bits.
pub const FNV_OFFSET_BASIS: u64 = 0xcbf2_9ce4_8422_2325;

/// FNV-1a prime, in 64 bits.
pub const FNV_PRIME: u64 = 0x0000_0100_0000_01b3;

/// The FNV-1a hash of some bytes, in 64 bits.
pub open spec fn fnv1a(bytes: Seq<u8>) -> u64
    decreases bytes.len(),
{
    if bytes.len() == 0 {
        FNV_OFFSET_BASIS
    } else {
        (((fnv1a(bytes.drop_last()) ^ (bytes.last() as u64)) * FNV_PRIME)
            % 0x1_0000_0000_0000_0000) as u64
    }
}

/// Hashes bytes with FNV-1a.
pub fn hash_fnv1a(bytes: &[u8]) -> (hash: u64)
    ensures
        hash == fnv1a(bytes@),
{
    let mut hash: u64 = FNV_OFFSET_BASIS;
    let mut i: usize = 0;
    assert(bytes@.subrange(0, 0) =~= Seq::empty());
    while i < bytes.len()
        invariant
            i <= bytes@.len(),
            hash == fnv1a(bytes@.subrange(0, i as int)),
        decreases bytes.len() - i,
    {
        proof {
            let longer = bytes@.subrange(0, i + 1);
            assert(longer.drop_last() =~= bytes@.subrange(0, i as int));
            assert(longer.last() == bytes@[i as int]);
        }
        let mixed: u64 = hash ^ (bytes[i] as u64);
        hash = mixed.wrapping_mul(FNV_PRIME);
        i = i + 1;
    }
    assert(bytes@.subrange(0, i as int) =~= bytes@);
    hash
}

/// A token, or nothing when it is empty.
pub open spec fn ended(token: Seq<char>) -> Seq<Seq<char>> {
    if token.len() == 0 {
        Seq::empty()
    } else {
        seq![token]
    }
}

/// The tokens of a text, in order: its longest runs of alphanumeric characters,
/// the first continuing one already begun.
pub open spec fn tokens_after(token: Seq<char>, text: Seq<char>) -> Seq<Seq<char>>
    decreases text.len(),
{
    if text.len() == 0 {
        ended(token)
    } else if alphanumeric(text[0]) {
        tokens_after(token.push(text[0]), text.drop_first())
    } else {
        ended(token) + tokens_after(Seq::empty(), text.drop_first())
    }
}

/// The tokens of a text: its longest runs of alphanumeric characters, in order.
pub open spec fn tokens(text: Seq<char>) -> Seq<Seq<char>> {
    tokens_after(Seq::empty(), text)
}

/// The component of an embedding a token counts toward.
pub open spec fn component(token: Seq<char>, dimensions: u32) -> int {
    fnv1a(encode_utf8(lowercase(token))) as int % dimensions as int
}

/// How many tokens count toward a component.
pub open spec fn weight(tokens: Seq<Seq<char>>, dimensions: u32, index: int) -> nat
    decreases tokens.len(),
{
    if tokens.len() == 0 {
        0
    } else {
        weight(tokens.drop_last(), dimensions, index) + if component(tokens.last(), dimensions)
            == index {
            1nat
        } else {
            0nat
        }
    }
}

/// The sum of the weights of the first components.
pub open spec fn total_weight(tokens: Seq<Seq<char>>, dimensions: u32, components: nat) -> nat
    decreases components,
{
    if components == 0 {
        0
    } else {
        total_weight(tokens, dimensions, (components - 1) as nat) + weight(
            tokens,
            dimensions,
            components - 1,
        )
    }
}

proof fn lemma_weight_bounded(tokens: Seq<Seq<char>>, dimensions: u32, index: int)
    ensures
        weight(tokens, dimensions, index) <= tokens.len(),
    decreases tokens.len(),
{
    if tokens.len() > 0 {
        lemma_weight_bounded(tokens.drop_last(), dimensions, index);
    }
}

proof fn lemma_weight_push(
    tokens: Seq<Seq<char>>,
    token: Seq<char>,
    dimensions: u32,
    index: int,
)
    ensures
        weight(tokens.push(token), dimensions, index) == weight(tokens, dimensions, index) + if component(
            token,
            dimensions,
        ) == index {
            1nat
        } else {
            0nat
        },
{
    assert(tokens.push(token).drop_last() =~= tokens);
}

proof fn lemma_tokens_bounded(token: Seq<char>, text: Seq<char>)
    ensures
        tokens_after(token, text).len() <= token.len() + text.len(),
    decreases text.len(),
{
    if text.len() > 0 {
        if alphanumeric(text[0]) {
            lemma_tokens_bounded(token.push(text[0]), text.drop_first());
        } else {
            lemma_tokens_bounded(Seq::empty(), text.drop_first());
        }
    }
}

proof fn lemma_total_weight_push(
    tokens: Seq<Seq<char>>,
    token: Seq<char>,
    dimensions: u32,
    components: nat,
)
    requires
        dimensions > 0,
    ensures
        total_weight(tokens.push(token), dimensions, components) == total_weight(
            tokens,
            dimensions,
            components,
        ) + if component(token, dimensions) < components {
            1nat
        } else {
            0nat
        },
    decreases components,
{
    if components > 0 {
        lemma_total_weight_push(tokens, token, dimensions, (components - 1) as nat);
        lemma_weight_push(tokens, token, dimensions, components - 1);
    }
}

proof fn lemma_total_weight_empty(dimensions: u32, components: nat)
    ensures
        total_weight(Seq::empty(), dimensions, components) == 0,
    decreases components,
{
    if components > 0 {
        lemma_total_weight_empty(dimensions, (components - 1) as nat);
    }
}

/// An embedding counts every token exactly once.
pub proof fn an_embedding_counts_every_token(tokens: Seq<Seq<char>>, dimensions: u32)
    requires
        dimensions > 0,
    ensures
        total_weight(tokens, dimensions, dimensions as nat) == tokens.len(),
    decreases tokens.len(),
{
    if tokens.len() == 0 {
        assert(tokens =~= Seq::empty());
        lemma_total_weight_empty(dimensions, dimensions as nat);
    } else {
        an_embedding_counts_every_token(tokens.drop_last(), dimensions);
        assert(tokens.drop_last().push(tokens.last()) =~= tokens);
        lemma_total_weight_push(
            tokens.drop_last(),
            tokens.last(),
            dimensions,
            dimensions as nat,
        );
    }
}

/// The identity of an embedding pipeline.
#[derive(Debug)]
pub struct MemoryEmbeddingRef {
    /// The model.
    pub model: String,
    /// How many components a vector has.
    pub dimensions: u32,
    /// The pipeline's version.
    pub version: AgentRevisionNumber,
}

/// A deterministic embedder: each token adds one to the component its hash
/// selects.
#[derive(Debug)]
pub struct DeterministicEmbedder {
    dimensions: u32,
    version: AgentRevisionNumber,
}

/// The model name the embedder declares.
pub const DETERMINISTIC_EMBEDDER_MODEL: &'static str = "deterministic-test-embedder";

impl DeterministicEmbedder {
    /// How many components a vector has.
    pub closed spec fn dimensions(&self) -> u32 {
        self.dimensions
    }

    /// The pipeline's version.
    pub closed spec fn version(&self) -> AgentRevisionNumber {
        self.version
    }

    #[verifier::type_invariant]
    spec fn wf(&self) -> bool {
        self.dimensions > 0
    }

    /// An embedder with eight dimensions at the initial version.
    pub fn new() -> (embedder: Self)
        ensures
            embedder.dimensions() == 8,
            embedder.version().number == 1,
    {
        DeterministicEmbedder { dimensions: 8, version: AgentRevisionNumber::initial() }
    }

    /// Uses an explicit dimension count, at least one.
    pub fn with_dimensions(self, dimensions: u32) -> (embedder: Self)
        ensures
            embedder.dimensions() == if dimensions == 0 {
                1
            } else {
                dimensions
            },
            embedder.version() == self.version(),
    {
        DeterministicEmbedder {
            dimensions: if dimensions == 0 {
                1
            } else {
                dimensions
            },
            version: self.version,
        }
    }

    /// Uses an explicit pipeline version.
    pub fn with_version(self, version: AgentRevisionNumber) -> (embedder: Self)
        ensures
            embedder.dimensions() == self.dimensions(),
            embedder.version() == version,
    {
        proof {
            use_type_invariant(&self);
        }
        DeterministicEmbedder { dimensions: self.dimensions, version }
    }

    /// The identity the embedder declares.
    pub fn embedding_ref(&self) -> (embedding: MemoryEmbeddingRef)
        ensures
            embedding.model@ == DETERMINISTIC_EMBEDDER_MODEL@,
            embedding.dimensions == self.dimensions(),
            embedding.version == self.version(),
    {
        MemoryEmbeddingRef {
            model: DETERMINISTIC_EMBEDDER_MODEL.to_owned(),
            dimensions: self.dimensions,
            version: self.version,
        }
    }

    /// Counts one token toward its component.
    fn count_token(&self, token: &str, weights: &mut Vec<u64>, Ghost(counted): Ghost<Seq<Seq<char>>>)
        requires
            old(weights)@.len() == self.dimensions(),
            counted.len() < u64::MAX,
            forall|i: int|
                0 <= i < self.dimensions() ==> #[trigger] old(weights)@[i] == weight(
                    counted,
                    self.dimensions(),
                    i,
                ),
        ensures
            final(weights)@.len() == self.dimensions(),
            forall|i: int|
                0 <= i < self.dimensions() ==> #[trigger] final(weights)@[i] == weight(
                    counted.push(token@),
                    self.dimensions(),
                    i,
                ),
    {
        proof {
            use_type_invariant(self);
        }
        let lower = to_lowercase(token);
        let hash: u64 = hash_fnv1a(lower.as_str().as_bytes());
        let index: u64 = hash % (self.dimensions as u64);
        let at: usize = index as usize;
        proof {
            assert(at == component(token@, self.dimensions()));
            lemma_weight_bounded(counted, self.dimensions(), at as int);
            assert(weights@[at as int] == weight(counted, self.dimensions(), at as int));
        }
        let count: u64 = weights[at];
        weights.set(at, count + 1);
        proof {
            assert forall|i: int| 0 <= i < self.dimensions() implies #[trigger] weights@[i]
                == weight(counted.push(token@), self.dimensions(), i) by {
                lemma_weight_push(counted, token@, self.dimensions(), i);
                assert(old(weights)@[i] == weight(counted, self.dimensions(), i));
            }
        }
    }

    /// Embeds a text: the weight of each component, in order.
    pub fn embed(&self, text: &str) -> (weights: Vec<u64>)
        ensures
            weights@.len() == self.dimensions(),
            forall|i: int|
                0 <= i < self.dimensions() ==> #[trigger] weights@[i] == weight(
                    tokens(text@),
                    self.dimensions(),
                    i,
                ),
    {
        let mut weights: Vec<u64> = Vec::new();
        let mut filled: u32 = 0;
        while filled < self.dimensions
            invariant
                filled <= self.dimensions,
                weights@.len() == filled,
                forall|i: int| 0 <= i < filled ==> #[trigger] weights@[i] == 0,
            decreases self.dimensions - filled,
        {
            weights.push(0);
            filled = filled + 1;
        }
        let length: usize = text.unicode_len();
        let mut start: usize = 0;
        let mut at: usize = 0;
        let ghost mut counted: Seq<Seq<char>> = Seq::empty();
        proof {
            assert(text@.subrange(0, 0) =~= Seq::empty());
            assert(text@.subrange(0, text@.len() as int) =~= text@);
            assert(counted + tokens(text@) =~= tokens(text@));
        }
        while at < length
            invariant
                start <= at <= length,
                length == text@.len(),
                weights@.len() == self.dimensions(),
                counted.len() <= start,
                tokens(text@) == counted + tokens_after(
                    text@.subrange(start as int, at as int),
                    text@.subrange(at as int, length as int),
                ),
                forall|i: int|
                    0 <= i < self.dimensions() ==> #[trigger] weights@[i] == weight(
                        counted,
                        self.dimensions(),
                        i,
                    ),
            decreases length - at,
        {
            let character = text.get_char(at);
            let ghost token = text@.subrange(start as int, at as int);
            let ghost rest = text@.subrange(at as int, length as int);
            proof {
                assert(rest[0] == character);
                assert(rest.drop_first() =~= text@.subrange(at + 1, length as int));
                assert(token.push(character) =~= text@.subrange(start as int, at + 1));
            }
            if !is_alphanumeric(character) {
                if start < at {
                    self.count_token(
                        text.substring_char(start, at),
                        &mut weights,
                        Ghost(counted),
                    );
                    proof {
                        assert(counted + (seq![token] + tokens_after(
                            Seq::empty(),
                            rest.drop_first(),
                        )) =~= counted.push(token) + tokens_after(
                            Seq::empty(),
                            rest.drop_first(),
                        ));
                        counted = counted.push(token);
                    }
                } else {
                    proof {
                        assert(token =~= Seq::empty());
                        assert(Seq::<Seq<char>>::empty() + tokens_after(
                            Seq::empty(),
                            rest.drop_first(),
                        ) =~= tokens_after(Seq::empty(), rest.drop_first()));
                    }
                }
                start = at + 1;
                assert(text@.subrange(start as int, at + 1) =~= Seq::empty());
            }
            at = at + 1;
        }
        let ghost token = text@.subrange(start as int, at as int);
        proof {
            assert(text@.subrange(at as int, length as int) =~= Seq::empty());
        }
        if start < at {
            self.count_token(text.substring_char(start, at), &mut weights, Ghost(counted));
            proof {
                assert(counted + seq![token] =~= counted.push(token));
            }
        } else {
            proof {
                assert(token =~= Seq::empty());
                assert(counted + Seq::<Seq<char>>::empty() =~= counted);
            }
        }
        weights
    }
}

impl Default for DeterministicEmbedder {
    fn default() -> (embedder: Self)
        ensures
            embedder.dimensions() == 8,
            embedder.version().number == 1,
    {
        DeterministicEmbedder::new()
    }
}

/// What one memory retrieval returned.
#[derive(Debug)]
pub struct MemoryRetrievalOutcome<M> {
    /// The memories, best first.
    pub memories: Vec<M>,
    /// How far the index had come.
    pub index_watermark: Option<u64>,
}

/// A scripted retriever: queued outcomes, answered in order, with every call
/// counted. An exhausted script answers an empty outcome.
#[derive(Debug)]
pub struct ScriptedPrivateMemoryRetriever<M, E> {
    outcomes: Vec<Result<MemoryRetrievalOutcome<M>, E>>,
    calls: usize,
    version: AgentRevisionNumber,
}

/// What a retriever holds.
#[verifier::reject_recursive_types(M)]
#[verifier::reject_recursive_types(E)]
pub struct RetrieverModel<M, E> {
    /// The outcomes left, next first.
    pub outcomes: Seq<Result<MemoryRetrievalOutcome<M>, E>>,
    /// How many retrievals were asked.
    pub calls: usize,
    /// The retriever's version.
    pub version: AgentRevisionNumber,
}

impl<M, E> View for ScriptedPrivateMemoryRetriever<M, E> {
    type V = RetrieverModel<M, E>;

    closed spec fn view(&self) -> RetrieverModel<M, E> {
        RetrieverModel { outcomes: self.outcomes@, calls: self.calls, version: self.version }
    }
}

impl<M, E> ScriptedPrivateMemoryRetriever<M, E> {
    /// A retriever with an empty script at the initial version.
    pub fn new() -> (retriever: Self)
        ensures
            retriever@.outcomes == Seq::<Result<MemoryRetrievalOutcome<M>, E>>::empty(),
            retriever@.calls == 0,
            retriever@.version.number == 1,
    {
        let retriever = ScriptedPrivateMemoryRetriever {
            outcomes: Vec::new(),
            calls: 0,
            version: AgentRevisionNumber::initial(),
        };
        assert(retriever@.outcomes =~= Seq::empty());
        retriever
    }

    /// Queues one retrieval outcome.
    pub fn with_outcome(self, outcome: MemoryRetrievalOutcome<M>) -> (retriever: Self)
        ensures
            retriever@ == (RetrieverModel { outcomes: self@.outcomes.push(Ok(outcome)), ..self@ }),
    {
        let mut next = self;
        next.outcomes.push(Ok(outcome));
        next
    }

    /// Queues one retrieval failure.
    pub fn with_error(self, error: E) -> (retriever: Self)
        ensures
            retriever@ == (RetrieverModel { outcomes: self@.outcomes.push(Err(error)), ..self@ }),
    {
        let mut next = self;
        next.outcomes.push(Err(error));
        next
    }

    /// Uses an explicit retriever version.
    pub fn with_retriever_version(self, version: AgentRevisionNumber) -> (retriever: Self)
        ensures
            retriever@ == (RetrieverModel { version, ..self@ }),
    {
        let mut next = self;
        next.version = version;
        next
    }

    /// How many retrievals have been asked of this retriever.
    pub fn calls(&self) -> (calls: usize)
        ensures
            calls == self@.calls,
    {
        self.calls
    }

    /// The retriever's version.
    pub fn retriever_version(&self) -> (version: AgentRevisionNumber)
        ensures
            version == self@.version,
    {
        self.version
    }

    /// Answers one retrieval.
    pub fn retrieve(&mut self) -> (result: Result<MemoryRetrievalOutcome<M>, E>)
        ensures
            final(self)@ == (RetrieverModel {
                outcomes: if old(self)@.outcomes.len() > 0 {
                    old(self)@.outcomes.drop_first()
                } else {
                    old(self)@.outcomes
                },
                calls: bumped(old(self)@.calls),
                ..old(self)@
            }),
            old(self)@.outcomes.len() > 0 ==> result == old(self)@.outcomes[0],
            old(self)@.outcomes.len() == 0 ==> {
                &&& result is Ok
                &&& result->Ok_0.memories@.len() == 0
                &&& result->Ok_0.index_watermark is None
            },
    {
        self.calls = bump(self.calls);
        if self.outcomes.len() > 0 {
            let outcome = self.outcomes.remove(0);
            assert(self.outcomes@ =~= old(self).outcomes@.drop_first());
            outcome
        } else {
            Ok(MemoryRetrievalOutcome { memories: Vec::new(), index_watermark: None })
        }
    }
}

} // verus!
