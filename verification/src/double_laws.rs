//! What the scripted collaborators and the failure windows of a recovery scenario
//! promise.

use vstd::prelude::*;
use vstd::utf8::encode_utf8;

use crate::dispatch_laws::one_more;
use crate::effect::{AgentRunEffect, AgentTaskContent, AgentToolCallRequest};
use crate::exchange::AgentEntityAddress;
use crate::json::{json_object, json_string};
use crate::testkit_delivery::{
    sweep_crash_points, AgentDispatchWindow, CrashPoint, CrashSchedule, DeferredExchangeRouter,
    DeliveryPlan, ExchangeFault, InProcessTransport, KillSwitchProbe, SharedAtomicWorkflowClock,
    TransportClass, WriteFate,
};
use crate::testkit_doubles::{
    alphanumeric, ended, fnv1a, hash_fnv1a, lowercase, tokens, tokens_after, weight,
    AgentDispatchError, AgentReconciliationFinding, DeterministicEmbedder, MemoryRetrievalOutcome,
    RecordingToolExecutor, ScriptedCredentialResolver, ScriptedPrivateMemoryRetriever,
    ScriptedReconciler,
};
use crate::wake_scanner::AgentExchangeDeliveryError;

verus! {

/// A recording executor records every invocation, last, as it was asked for, and
/// answers from its scripts: a failure first, then a result, then the tool's name.
pub proof fn an_executor_records_and_answers(
    executor: &mut RecordingToolExecutor,
    intent: &AgentRunEffect,
    call: &AgentToolCallRequest,
    with_credential: bool,
    result: Result<AgentTaskContent, AgentDispatchError>,
)
    requires
        call_ensures(
            RecordingToolExecutor::execute,
            (executor, intent, call, with_credential),
            result,
        ),
    ensures
        ({
            let (before, after) = (old(executor)@, final(executor)@);
            let tool = call.tool@;
            let recorded = after.invocations.last();
            let fails = before.failures.dom().contains(tool);
            let scripted = before.results.dom().contains(tool);
            &&& after.results == before.results
            &&& after.failures == before.failures
            &&& after.invocations.len() == before.invocations.len() + 1
            &&& after.invocations.drop_last() == before.invocations
            &&& recorded.tool == tool
            &&& recorded.call_id == call.call_id@
            &&& recorded.arguments == call.arguments
            &&& recorded.idempotency_key == intent.idempotency_key@
            &&& recorded.generation == intent.generation.number
            &&& recorded.with_credential == with_credential
            &&& result is Err <==> fails
            &&& fails ==> result->Err_0.code == before.failures[tool].code && result->Err_0.message
                == before.failures[tool].message
            &&& !fails && scripted ==> result->Ok_0 == before.results[tool]
            &&& !fails && !scripted ==> result->Ok_0.value == json_object(
                seq![("tool"@, json_string(tool))],
            )
        }),
{
    let (before, after) = (old(executor)@, final(executor)@);
    assert(after.invocations.drop_last() =~= before.invocations);
}

/// An executor's count of a tool is how many of its records are of that tool.
pub proof fn an_executor_counts_its_records(
    executor: &RecordingToolExecutor,
    tool: &str,
    count: usize,
)
    requires
        call_ensures(RecordingToolExecutor::invocation_count, (executor, tool), count),
    ensures
        count == executor@.invocations.filter(
            |invocation: crate::testkit_doubles::InvocationModel| invocation.tool == tool@,
        ).len(),
{
    lemma_counted(executor@.invocations, tool@);
}

proof fn lemma_counted(log: Seq<crate::testkit_doubles::InvocationModel>, tool: Seq<char>)
    ensures
        crate::testkit_doubles::invocations_of(log, tool) == log.filter(
            |invocation: crate::testkit_doubles::InvocationModel| invocation.tool == tool,
        ).len(),
    decreases log.len(),
{
    reveal(Seq::filter);
    if log.len() > 0 {
        lemma_counted(log.drop_last(), tool);
    }
}

/// A reconciler gives its findings in order, one for each query, and the last one
/// for ever; without any it does not know. Each query counts.
pub proof fn a_reconciler_answers_in_order(
    reconciler: &mut ScriptedReconciler,
    finding: AgentReconciliationFinding,
)
    requires
        call_ensures(ScriptedReconciler::reconcile, (reconciler,), finding),
    ensures
        ({
            let (before, after) = (old(reconciler)@.findings, final(reconciler)@.findings);
            &&& before.len() == 0 ==> finding is Unknown && after.len() == 0
            &&& before.len() == 1 ==> finding == before[0] && after == before
            &&& before.len() > 1 ==> finding == before[0] && after.len() == before.len() - 1
                && forall|i: int|
                0 <= i < after.len() ==> #[trigger] after[i] == before[i + 1]
            &&& one_more(old(reconciler)@.queries, final(reconciler)@.queries)
        }),
{
}

/// A resolver hands out its token, and counts each time.
pub proof fn a_resolver_hands_out_its_token(
    resolver: &mut ScriptedCredentialResolver,
    credential: crate::testkit_doubles::AgentEphemeralCredential,
)
    requires
        call_ensures(ScriptedCredentialResolver::resolve, (resolver,), credential),
    ensures
        credential.token@ == old(resolver).token(),
        final(resolver).token() == old(resolver).token(),
        one_more(old(resolver).spec_resolutions(), final(resolver).spec_resolutions()),
{
}

/// A retriever gives what was scripted, in order, one for each call, and then
/// nothing found; each call counts, and its version stays.
pub proof fn a_retriever_answers_in_order<M, E>(
    retriever: &mut ScriptedPrivateMemoryRetriever<M, E>,
    result: Result<MemoryRetrievalOutcome<M>, E>,
)
    requires
        call_ensures(ScriptedPrivateMemoryRetriever::<M, E>::retrieve, (retriever,), result),
    ensures
        ({
            let (before, after) = (old(retriever)@, final(retriever)@);
            &&& before.outcomes.len() > 0 ==> result == before.outcomes[0] && after.outcomes.len()
                == before.outcomes.len() - 1 && forall|i: int|
                0 <= i < after.outcomes.len() ==> #[trigger] after.outcomes[i]
                    == before.outcomes[i + 1]
            &&& before.outcomes.len() == 0 ==> result is Ok && result->Ok_0.memories@.len() == 0
                && result->Ok_0.index_watermark is None && after.outcomes.len() == 0
            &&& one_more(before.calls, after.calls)
            &&& after.version == before.version
        }),
{
}

/// The hash of nothing is the offset basis, and each further byte is mixed in and
/// multiplied through.
pub proof fn a_hash_mixes_in_each_byte(
    bytes: &[u8],
    hash: u64,
    longer: &[u8],
    next: u64,
    byte: u8,
)
    requires
        call_ensures(hash_fnv1a, (bytes,), hash),
        call_ensures(hash_fnv1a, (longer,), next),
        longer@ == bytes@.push(byte),
    ensures
        bytes@.len() == 0 ==> hash == 0xcbf2_9ce4_8422_2325,
        next == ((hash ^ (byte as u64)) * 0x0000_0100_0000_01b3) % 0x1_0000_0000_0000_0000,
{
    assert(longer@.drop_last() =~= bytes@);
}

proof fn lemma_split(token: Seq<char>, a: Seq<char>, separator: char, b: Seq<char>)
    requires
        !alphanumeric(separator),
    ensures
        tokens_after(token, a.push(separator) + b) == tokens_after(token, a) + tokens(b),
    decreases a.len(),
{
    let text = a.push(separator) + b;
    if a.len() == 0 {
        assert(text[0] == separator);
        assert(text.drop_first() =~= b);
    } else {
        let rest = a.drop_first();
        assert(text[0] == a[0]);
        assert(text.drop_first() =~= rest.push(separator) + b);
        if alphanumeric(a[0]) {
            lemma_split(token.push(a[0]), rest, separator, b);
        } else {
            lemma_split(Seq::empty(), rest, separator, b);
            assert(ended(token) + (tokens_after(Seq::empty(), rest) + tokens(b)) =~= (ended(token)
                + tokens_after(Seq::empty(), rest)) + tokens(b));
        }
    }
}

proof fn lemma_whole(token: Seq<char>, text: Seq<char>)
    requires
        forall|i: int| 0 <= i < text.len() ==> alphanumeric(#[trigger] text[i]),
    ensures
        tokens_after(token, text) == ended(token + text),
    decreases text.len(),
{
    if text.len() == 0 {
        assert(token + text =~= token);
    } else {
        lemma_whole(token.push(text[0]), text.drop_first());
        assert(token.push(text[0]) + text.drop_first() =~= token + text);
    }
}

proof fn lemma_weight_sum(a: Seq<Seq<char>>, b: Seq<Seq<char>>, dimensions: u32, index: int)
    ensures
        weight(a + b, dimensions, index) == weight(a, dimensions, index) + weight(
            b,
            dimensions,
            index,
        ),
    decreases b.len(),
{
    if b.len() == 0 {
        assert(a + b =~= a);
    } else {
        lemma_weight_sum(a, b.drop_last(), dimensions, index);
        assert((a + b).drop_last() =~= a + b.drop_last());
    }
}

/// A text without a separator is one token: it weighs one, in the place its
/// lower-case form hashes to, and nothing anywhere else; an empty text weighs
/// nothing.
pub proof fn a_word_weighs_one_in_its_own_place(
    embedder: &DeterministicEmbedder,
    text: &str,
    weights: Vec<u64>,
    index: int,
)
    requires
        call_ensures(DeterministicEmbedder::embed, (embedder, text), weights),
        forall|i: int| 0 <= i < text@.len() ==> alphanumeric(#[trigger] text@[i]),
        0 <= index < embedder.dimensions(),
    ensures
        weights@.len() == embedder.dimensions(),
        weights@[index] == if text@.len() > 0 && fnv1a(encode_utf8(lowercase(text@))) as int
            % embedder.dimensions() as int == index {
            1int
        } else {
            0int
        },
{
    lemma_whole(Seq::empty(), text@);
    assert(Seq::<char>::empty() + text@ =~= text@);
    reveal_with_fuel(weight, 2);
    if text@.len() > 0 {
        assert(tokens(text@) =~= seq![text@]);
        assert(seq![text@].drop_last() =~= Seq::empty());
    } else {
        assert(tokens(text@) =~= Seq::empty());
    }
}

/// Two texts joined by a separator weigh, in every place, what both weigh.
pub proof fn joined_texts_weigh_what_both_do(
    embedder: &DeterministicEmbedder,
    left: &str,
    right: &str,
    joined: &str,
    separator: char,
    left_weights: Vec<u64>,
    right_weights: Vec<u64>,
    weights: Vec<u64>,
    index: int,
)
    requires
        call_ensures(DeterministicEmbedder::embed, (embedder, left), left_weights),
        call_ensures(DeterministicEmbedder::embed, (embedder, right), right_weights),
        call_ensures(DeterministicEmbedder::embed, (embedder, joined), weights),
        joined@ == left@.push(separator) + right@,
        !alphanumeric(separator),
        0 <= index < embedder.dimensions(),
    ensures
        weights@[index] == left_weights@[index] + right_weights@[index],
{
    lemma_split(Seq::empty(), left@, separator, right@);
    lemma_weight_sum(tokens(left@), tokens(right@), embedder.dimensions(), index);
}

/// Whether a transport serves the kind of entity an address is of.
pub open spec fn serves(class: TransportClass, target: AgentEntityAddress) -> bool {
    match class {
        TransportClass::Participant => true,
        TransportClass::Run => target is Run,
        TransportClass::Task => target is Task,
        TransportClass::Wake => target is Task,
    }
}

/// A delivery meets the first fault queued, which is then spent, and counts as an
/// attempt. A lost envelope reaches nobody; a lost reply was received once; a
/// doubled delivery is received twice; any other once. Nothing reaches an entity
/// the transport does not serve.
pub proof fn a_delivery_meets_the_next_fault(
    transport: &mut InProcessTransport,
    target: &AgentEntityAddress,
    plan: DeliveryPlan,
)
    requires
        call_ensures(InProcessTransport::begin, (transport, target), plan),
    ensures
        ({
            let (before, after) = (old(transport)@, final(transport)@);
            let lost = before.faults.len() > 0 && before.faults[0] == ExchangeFault::LoseEnvelope;
            let unanswered = before.faults.len() > 0 && before.faults[0]
                == ExchangeFault::LoseReply;
            let twice = before.faults.len() > 0 && before.faults[0] == ExchangeFault::DeliverTwice;
            let served = serves(before.class, *target);
            &&& after.class == before.class
            &&& after.acceptances == before.acceptances
            &&& one_more(before.deliveries, after.deliveries)
            &&& before.faults.len() == 0 ==> after.faults.len() == 0
            &&& before.faults.len() > 0 ==> after.faults.len() == before.faults.len() - 1
                && forall|i: int|
                0 <= i < after.faults.len() ==> #[trigger] after.faults[i] == before.faults[i + 1]
            &&& plan.acceptances == if lost || !served {
                0u8
            } else if twice {
                2u8
            } else {
                1u8
            }
            &&& plan.failure is Some <==> lost || !served || unanswered
            &&& lost && before.class == TransportClass::Wake ==> plan.failure->Some_0.code@
                == "injected-lost-command"@
            &&& lost && before.class != TransportClass::Wake ==> plan.failure->Some_0.code@
                == "injected-lost-envelope"@
            &&& !lost && !served ==> plan.failure->Some_0.code@ == "exchange-no-route"@
            &&& !lost && served && unanswered ==> plan.failure->Some_0.code@
                == "injected-lost-reply"@
        }),
{
}

/// A receiver that was reached counts as reached; a fault is queued last; and what
/// a transport counts as deliveries are its attempts, but for wake commands those
/// that arrived.
pub proof fn a_transport_counts_what_it_did(
    reached: &mut InProcessTransport,
    queued: &mut InProcessTransport,
    fault: ExchangeFault,
    transport: &InProcessTransport,
    deliveries: usize,
    acceptances: usize,
)
    requires
        call_ensures(InProcessTransport::accept, (reached,), ()),
        call_ensures(InProcessTransport::inject, (queued, fault), ()),
        call_ensures(InProcessTransport::deliveries, (transport,), deliveries),
        call_ensures(InProcessTransport::acceptances, (transport,), acceptances),
    ensures
        one_more(old(reached)@.acceptances, final(reached)@.acceptances),
        final(reached)@.deliveries == old(reached)@.deliveries,
        final(reached)@.faults == old(reached)@.faults,
        final(queued)@.faults == old(queued)@.faults.push(fault),
        final(queued)@.deliveries == old(queued)@.deliveries,
        acceptances == transport@.acceptances,
        transport@.class == TransportClass::Wake ==> deliveries == transport@.acceptances,
        transport@.class != TransportClass::Wake ==> deliveries == transport@.deliveries,
{
}

/// An armed owner dies at exactly the write it was armed for, before or after it
/// as armed; every other write survives, and each counts.
pub proof fn an_owner_dies_at_the_armed_write(
    schedule: &mut CrashSchedule,
    fate: WriteFate,
    armed: &mut CrashSchedule,
    nth: usize,
    point: CrashPoint,
)
    requires
        call_ensures(CrashSchedule::attempt, (schedule,), fate),
        old(schedule).writes < usize::MAX,
        call_ensures(CrashSchedule::crash_at, (armed, nth, point), ()),
    ensures
        final(schedule).writes == old(schedule).writes + 1,
        final(schedule).armed_at == old(schedule).armed_at,
        final(schedule).after == old(schedule).after,
        fate != WriteFate::Survives <==> old(schedule).armed_at > 0 && old(schedule).writes + 1
            == old(schedule).armed_at,
        fate == WriteFate::LostAfter ==> old(schedule).after,
        fate == WriteFate::LostBefore ==> !old(schedule).after,
        final(armed).writes == 0,
        final(armed).armed_at == nth,
        final(armed).after <==> point == CrashPoint::AfterWrite,
{
}

/// A sweep names every write of a flow with both of its windows, each once.
pub proof fn a_sweep_names_every_window_once(
    writes: usize,
    windows: Vec<(usize, CrashPoint)>,
    nth: usize,
    point: CrashPoint,
)
    requires
        call_ensures(sweep_crash_points, (writes,), windows),
        1 <= nth <= writes,
    ensures
        windows@.contains((nth, point)),
        windows@.no_duplicates(),
        windows@.len() == 2 * writes,
        forall|i: int| 0 <= i < windows@.len() ==> 1 <= (#[trigger] windows@[i]).0 <= writes,
{
    crate::testkit_delivery::a_sweep_is_exhaustive(writes, nth, point);
}

/// A worker dies in the window the switch is armed for, once, and survives every
/// other.
pub proof fn a_worker_dies_in_the_armed_window(
    probe: &mut KillSwitchProbe,
    window: AgentDispatchWindow,
    survives: bool,
)
    requires
        call_ensures(KillSwitchProbe::survives, (probe, window), survives),
    ensures
        survives <==> old(probe).armed != Some(window),
        survives ==> *final(probe) == *old(probe),
        !survives ==> final(probe).armed is None && one_more(
            old(probe).killed,
            final(probe).killed,
        ),
{
}

/// A clock tells its time and moves on by one; it advances by what it is told.
pub proof fn a_clock_only_moves_on(
    ticking: &mut SharedAtomicWorkflowClock,
    tick: u64,
    advancing: &mut SharedAtomicWorkflowClock,
    by: u64,
)
    requires
        call_ensures(SharedAtomicWorkflowClock::tick, (ticking,), tick),
        call_ensures(SharedAtomicWorkflowClock::advance, (advancing, by), ()),
    ensures
        tick == old(ticking).millis,
        old(ticking).millis < u64::MAX ==> final(ticking).millis == old(ticking).millis + 1,
        old(advancing).millis + by <= u64::MAX ==> final(advancing).millis
            == old(advancing).millis + by,
{
}

/// A deferred router resolves to what was installed last, and to an error before.
pub proof fn a_deferred_router_resolves_what_was_installed<R>(
    router: &mut DeferredExchangeRouter<R>,
    routes: R,
    deferred: &DeferredExchangeRouter<R>,
    result: Result<&R, AgentExchangeDeliveryError>,
    installed: bool,
)
    requires
        call_ensures(DeferredExchangeRouter::<R>::install, (router, routes), ()),
        call_ensures(DeferredExchangeRouter::<R>::resolve, (deferred,), result),
        call_ensures(DeferredExchangeRouter::<R>::installed, (deferred,), installed),
    ensures
        final(router).routes() == Some(routes),
        installed <==> deferred.routes() is Some,
        result is Ok <==> installed,
        result is Ok ==> deferred.routes() == Some(*result->Ok_0),
        result is Err ==> result->Err_0.code@ == "exchange-no-route"@,
{
}

} // verus!
