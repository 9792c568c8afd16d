//! Where a tool call goes, and which due wakes a scan hands out.

use vstd::prelude::*;

use crate::identity::{
    operation_text, AgentIdentityError, AgentOperationKind, AgentToolId, AgentWakeId,
};
use crate::text::byte_len;
use crate::tool_router::{
    first_kind, first_prefix, AgentToolExecutorRouter, KindRoute, PrefixRoute,
};
use crate::tools::{AgentToolKind, AgentToolRegistry};
use crate::wake_scanner::{
    conclude_delivery, AgentExchangeDeliveryError, AgentTaskEntityCommand, AgentTaskEntityReply,
    AgentTaskScope, AgentWakeScan, AgentWakeScanError, AgentWakeScanOutcome, AgentWakeScanPass,
    AgentWakeTimerEntry, AgentWakeTimerStatus, ScanModel,
};
use crate::wake_state::AgentWakeDisposition;

verus! {

/// Whether a tool's identity begins with a prefix.
pub open spec fn begins_with(tool: Seq<char>, prefix: Seq<char>) -> bool {
    prefix.len() <= tool.len() && forall|i: int| 0 <= i < prefix.len() ==> #[trigger] prefix[i]
        == tool[i]
}

/// Whether a kind route's registry declares a tool with the very kind the route
/// is for.
pub open spec fn declares<E>(route: KindRoute<E>, tool: Seq<char>) -> bool {
    route.registry@.dom().contains(tool) && route.registry@[tool].descriptor.kind == route.kind
}

proof fn lemma_begins(tool: Seq<char>, prefix: Seq<char>)
    ensures
        crate::text::starts_with(tool, prefix) <==> begins_with(tool, prefix),
{
    if prefix.len() <= tool.len() {
        let head = tool.subrange(0, prefix.len() as int);
        if head == prefix {
            assert forall|i: int| 0 <= i < prefix.len() implies #[trigger] prefix[i] == tool[i] by {
                assert(head[i] == tool[i]);
            }
        }
        if begins_with(tool, prefix) {
            assert(head =~= prefix);
        }
    }
}

proof fn lemma_prefix_found<E>(prefixes: Seq<PrefixRoute<E>>, tool: Seq<char>, from: nat)
    ensures
        match first_prefix(prefixes, tool, from) {
            Some(at) => from <= at < prefixes.len() && begins_with(tool, prefixes[at].prefix@)
                && forall|i: int|
                from <= i < at ==> !begins_with(tool, (#[trigger] prefixes[i]).prefix@),
            None => forall|i: int|
                from <= i < prefixes.len() ==> !begins_with(
                    tool,
                    (#[trigger] prefixes[i]).prefix@,
                ),
        },
    decreases prefixes.len() - from,
{
    if from < prefixes.len() {
        lemma_begins(tool, prefixes[from as int].prefix@);
        if !begins_with(tool, prefixes[from as int].prefix@) {
            lemma_prefix_found(prefixes, tool, from + 1);
        }
    }
}

proof fn lemma_kind_found<E>(kinds: Seq<KindRoute<E>>, tool: Seq<char>, from: nat)
    ensures
        match first_kind(kinds, tool, from) {
            Some(at) => from <= at < kinds.len() && declares(kinds[at], tool) && forall|i: int|
                from <= i < at ==> !declares(#[trigger] kinds[i], tool),
            None => forall|i: int|
                from <= i < kinds.len() ==> !declares(#[trigger] kinds[i], tool),
        },
    decreases kinds.len() - from,
{
    if from < kinds.len() && !declares(kinds[from as int], tool) {
        lemma_kind_found(kinds, tool, from + 1);
    }
}

/// A tool with a route of its own takes it. Any other takes, among the prefixes
/// it begins with, one that none is longer than. Without one, it takes the first
/// kind route whose registry declares it with exactly the route's kind. And a tool
/// that no route claims so goes to the fallback.
pub proof fn a_tool_takes_the_closest_route<E>(
    router: &AgentToolExecutorRouter<E>,
    tool: &AgentToolId,
    executor: &E,
)
    requires
        call_ensures(AgentToolExecutorRouter::<E>::resolve, (router, tool), executor),
        forall|i: int, j: int|
            0 <= i < j < router@.prefixes.len() ==> byte_len(
                (#[trigger] router@.prefixes[i]).prefix@,
            ) >= byte_len((#[trigger] router@.prefixes[j]).prefix@),
    ensures
        ({
            let model = router@;
            let exact = model.exact.dom().contains(tool@);
            let prefixed = exists|i: int|
                0 <= i < model.prefixes.len() && begins_with(
                    tool@,
                    (#[trigger] model.prefixes[i]).prefix@,
                );
            let kinded = exists|i: int|
                0 <= i < model.kinds.len() && declares(#[trigger] model.kinds[i], tool@);
            &&& exact ==> *executor == model.exact[tool@]
            &&& !exact && prefixed ==> exists|i: int|
                0 <= i < model.prefixes.len() && begins_with(
                    tool@,
                    (#[trigger] model.prefixes[i]).prefix@,
                ) && *executor == model.prefixes[i].executor && (forall|j: int|
                    0 <= j < i ==> !begins_with(tool@, (#[trigger] model.prefixes[j]).prefix@))
                    && forall|j: int|
                    0 <= j < model.prefixes.len() && begins_with(
                        tool@,
                        (#[trigger] model.prefixes[j]).prefix@,
                    ) ==> byte_len(model.prefixes[j].prefix@) <= byte_len(
                        model.prefixes[i].prefix@,
                    )
            &&& !exact && !prefixed && kinded ==> exists|i: int|
                0 <= i < model.kinds.len() && declares(#[trigger] model.kinds[i], tool@)
                    && *executor == model.kinds[i].executor && forall|j: int|
                    0 <= j < i ==> !declares(#[trigger] model.kinds[j], tool@)
            &&& !exact && !prefixed && !kinded ==> *executor == model.fallback
        }),
{
    let model = router@;
    lemma_prefix_found(model.prefixes, tool@, 0);
    lemma_kind_found(model.kinds, tool@, 0);
    if !model.exact.dom().contains(tool@) {
        match first_prefix(model.prefixes, tool@, 0) {
            Some(at) => {
                assert(begins_with(tool@, model.prefixes[at].prefix@));
                assert forall|j: int|
                    0 <= j < model.prefixes.len() && begins_with(
                        tool@,
                        (#[trigger] model.prefixes[j]).prefix@,
                    ) implies byte_len(model.prefixes[j].prefix@) <= byte_len(
                    model.prefixes[at].prefix@,
                ) by {
                    if j > at {
                        assert(byte_len(model.prefixes[at].prefix@) >= byte_len(
                            model.prefixes[j].prefix@,
                        ));
                    }
                }
            },
            None => {
                match first_kind(model.kinds, tool@, 0) {
                    Some(at) => {
                        assert(declares(model.kinds[at], tool@));
                    },
                    None => {},
                }
            },
        }
    }
}

/// What a router is given it holds: a route of a tool's own replaces an earlier
/// one, a kind route comes last, a prefix route joins the others in the order of
/// their lengths behind its equals, and an empty prefix is none. A new router
/// sends everything to its fallback.
pub proof fn a_router_holds_the_routes_it_was_given<E>(
    router: AgentToolExecutorRouter<E>,
    tool: AgentToolId,
    kind: AgentToolKind,
    registry: AgentToolRegistry,
    prefix: String,
    executor: E,
    with_tool: AgentToolExecutorRouter<E>,
    with_kind: AgentToolExecutorRouter<E>,
    with_prefix: AgentToolExecutorRouter<E>,
    bare: AgentToolExecutorRouter<E>,
)
    requires
        call_ensures(
            AgentToolExecutorRouter::<E>::with_tool_route,
            (router, tool, executor),
            with_tool,
        ),
        call_ensures(
            AgentToolExecutorRouter::<E>::with_kind_route,
            (router, kind, registry, executor),
            with_kind,
        ),
        call_ensures(
            AgentToolExecutorRouter::<E>::with_prefix_route,
            (router, prefix, executor),
            with_prefix,
        ),
        call_ensures(AgentToolExecutorRouter::<E>::new, (executor,), bare),
    ensures
        with_tool@.exact.dom() == router@.exact.dom().insert(tool@),
        with_tool@.exact[tool@] == executor,
        forall|other: Seq<char>|
            other != tool@ ==> #[trigger] with_tool@.exact[other] == router@.exact[other],
        with_tool@.prefixes == router@.prefixes && with_tool@.kinds == router@.kinds
            && with_tool@.fallback == router@.fallback,
        with_kind@.kinds.len() == router@.kinds.len() + 1,
        with_kind@.kinds.drop_last() == router@.kinds,
        with_kind@.kinds.last().kind == kind && with_kind@.kinds.last().registry == registry
            && with_kind@.kinds.last().executor == executor,
        with_kind@.exact == router@.exact && with_kind@.prefixes == router@.prefixes
            && with_kind@.fallback == router@.fallback,
        with_prefix@.exact == router@.exact && with_prefix@.kinds == router@.kinds
            && with_prefix@.fallback == router@.fallback,
        prefix@.len() == 0 ==> with_prefix@.prefixes == router@.prefixes,
        prefix@.len() > 0 ==> exists|at: int|
            0 <= at <= router@.prefixes.len() && with_prefix@.prefixes == #[trigger]
            router@.prefixes.insert(at, PrefixRoute { prefix, executor }) && (forall|i: int|
                0 <= i < at ==> byte_len((#[trigger] router@.prefixes[i]).prefix@) >= byte_len(
                    prefix@,
                )) && (at < router@.prefixes.len() ==> byte_len(router@.prefixes[at].prefix@)
                < byte_len(prefix@)),
        bare@.fallback == executor,
        bare@.exact.dom() == Set::<Seq<char>>::empty(),
        bare@.prefixes.len() == 0,
        bare@.kinds.len() == 0,
{
    assert(with_tool@.exact.dom() =~= router@.exact.dom().insert(tool@));
    assert(with_kind@.kinds.drop_last() =~= router@.kinds);
    assert(bare@.exact.dom() =~= Set::empty());
    if prefix@.len() > 0 {
        let at = crate::tool_router::insertion_point(router@.prefixes, prefix@, 0) as int;
        lemma_insertion(router@.prefixes, prefix@, 0);
        assert(with_prefix@.prefixes == router@.prefixes.insert(
            at,
            PrefixRoute { prefix, executor },
        ));
    }
}

/// Whether the prefixes stand in the order of their lengths, the longest first.
pub open spec fn longest_first<E>(prefixes: Seq<PrefixRoute<E>>) -> bool {
    forall|i: int, j: int|
        0 <= i < j < prefixes.len() ==> byte_len((#[trigger] prefixes[i]).prefix@) >= byte_len(
            (#[trigger] prefixes[j]).prefix@,
        )
}

/// However a router is built, its prefixes stand in the order of their lengths.
pub proof fn a_router_keeps_its_longest_prefix_first<E>(
    router: AgentToolExecutorRouter<E>,
    prefix: String,
    executor: E,
    with_prefix: AgentToolExecutorRouter<E>,
    bare: AgentToolExecutorRouter<E>,
)
    requires
        call_ensures(
            AgentToolExecutorRouter::<E>::with_prefix_route,
            (router, prefix, executor),
            with_prefix,
        ),
        call_ensures(AgentToolExecutorRouter::<E>::new, (executor,), bare),
        longest_first(router@.prefixes),
    ensures
        longest_first(with_prefix@.prefixes),
        longest_first(bare@.prefixes),
{
    if prefix@.len() > 0 {
        let before = router@.prefixes;
        let after = with_prefix@.prefixes;
        let at = crate::tool_router::insertion_point(before, prefix@, 0) as int;
        lemma_insertion(before, prefix@, 0);
        assert(after == before.insert(at, PrefixRoute { prefix, executor }));
        assert forall|i: int, j: int| 0 <= i < j < after.len() implies byte_len(
            (#[trigger] after[i]).prefix@,
        ) >= byte_len((#[trigger] after[j]).prefix@) by {
            if i < at {
                assert(after[i] == before[i]);
            } else if i > at {
                assert(after[i] == before[i - 1]);
            }
            if j < at {
                assert(after[j] == before[j]);
            } else if j > at {
                assert(after[j] == before[j - 1]);
                assert(byte_len(before[at].prefix@) >= byte_len(before[j - 1].prefix@));
            }
        }
    }
}

proof fn lemma_insertion<E>(prefixes: Seq<PrefixRoute<E>>, prefix: Seq<char>, from: nat)
    requires
        from <= prefixes.len(),
    ensures
        ({
            let at = crate::tool_router::insertion_point(prefixes, prefix, from) as int;
            &&& from <= at <= prefixes.len()
            &&& forall|i: int|
                from <= i < at ==> byte_len((#[trigger] prefixes[i]).prefix@) >= byte_len(prefix)
            &&& at < prefixes.len() ==> byte_len(prefixes[at].prefix@) < byte_len(prefix)
        }),
    decreases prefixes.len() - from,
{
    if from < prefixes.len() && byte_len(prefixes[from as int].prefix@) >= byte_len(prefix) {
        lemma_insertion(prefixes, prefix, from + 1);
    }
}

/// Whether two entries are of one task of one tenant.
pub open spec fn of_one_task(a: AgentWakeTimerEntry, b: AgentWakeTimerEntry) -> bool {
    a.binding.spec_tenant()@ == b.binding.spec_tenant()@ && a.task@ == b.task@
}

/// Whether a delivery did not reach its controller, or was refused there.
pub open spec fn went_wrong(outcome: AgentWakeScanOutcome) -> bool {
    outcome is Failed || outcome is Rejected
}

/// Whether an earlier entry stands in the way of the one at a position: it is of
/// the same task and its delivery went wrong.
pub open spec fn stands_in_the_way(model: ScanModel, earlier: int, at: int) -> bool {
    0 <= earlier < at && earlier < model.outcomes.len() && went_wrong(model.outcomes[earlier])
        && of_one_task(model.entries[earlier], model.entries[at])
}

proof fn lemma_blocker(model: ScanModel, at: int, from: nat)
    ensures
        match crate::wake_scanner::blocker_from(model.entries, model.outcomes, at, from) {
            Some(by) => from <= by && stands_in_the_way(model, by, at) && forall|k: int|
                from <= k < by ==> !#[trigger] stands_in_the_way(model, k, at),
            None => forall|k: int| from <= k ==> !#[trigger] stands_in_the_way(model, k, at),
        },
    decreases model.outcomes.len() - from,
{
    if from < model.outcomes.len() && from < at {
        if !stands_in_the_way(model, from as int, at) {
            lemma_blocker(model, at, from + 1);
        }
    }
}

/// Whether the outcome at a position holds its entry back, for the first earlier
/// entry that stands in its way.
pub open spec fn is_held(model: ScanModel, at: int) -> bool {
    exists|by: int| #[trigger]
        stands_in_the_way(model, by, at) && model.outcomes[at] == (AgentWakeScanOutcome::HeldBack {
            wake: *model.entries[at].binding.spec_wake_id(),
            blocked_by: *model.entries[by].binding.spec_wake_id(),
        }) && forall|k: int| k < by ==> !#[trigger] stands_in_the_way(model, k, at)
}

proof fn lemma_held_back(model: ScanModel)
    requires
        model.outcomes.len() <= model.entries.len(),
    ensures
        ({
            let after = model.holding_back();
            &&& after.entries == model.entries
            &&& after.scanned_at == model.scanned_at
            &&& after.due_count == model.due_count
            &&& after.settings == model.settings
            &&& model.outcomes.len() <= after.outcomes.len() <= model.entries.len()
            &&& forall|i: int|
                0 <= i < model.outcomes.len() ==> #[trigger] after.outcomes[i] == model.outcomes[i]
            &&& forall|i: int|
                model.outcomes.len() <= i < after.outcomes.len() ==> #[trigger] is_held(after, i)
            &&& after.outcomes.len() < model.entries.len() ==> forall|k: int|
                !#[trigger] stands_in_the_way(after, k, after.outcomes.len() as int)
        }),
    decreases model.entries.len() - model.outcomes.len(),
{
    let at = model.outcomes.len() as int;
    if at < model.entries.len() {
        lemma_blocker(model, at, 0);
        match model.blocker(at) {
            None => {
                assert forall|k: int| !#[trigger] stands_in_the_way(model, k, at) by {}
            },
            Some(by) => {
                let outcome = AgentWakeScanOutcome::HeldBack {
                    wake: *model.entries[at].binding.spec_wake_id(),
                    blocked_by: *model.entries[by].binding.spec_wake_id(),
                };
                let next = model.concluding(outcome);
                lemma_held_back(next);
                let after = model.holding_back();
                assert(after == next.holding_back());
                assert forall|i: int| 0 <= i < at implies #[trigger] after.outcomes[i]
                    == model.outcomes[i] by {
                    assert(next.outcomes[i] == model.outcomes[i]);
                }
                assert(after.outcomes[at] == next.outcomes[at]);
                assert(is_held(after, at)) by {
                    assert(stands_in_the_way(after, by, at));
                    assert forall|k: int| k < by implies !#[trigger] stands_in_the_way(
                        after,
                        k,
                        at,
                    ) by {
                        if 0 <= k {
                            assert(after.outcomes[k] == model.outcomes[k]);
                            assert(!stands_in_the_way(model, k, at));
                        }
                    }
                }
                assert forall|i: int| at <= i < after.outcomes.len() implies #[trigger] is_held(
                    after,
                    i,
                ) by {
                    if i > at {
                        assert(is_held(next.holding_back(), i));
                    }
                }
            },
        }
    } else {
        assert(model.holding_back() == model);
    }
}

/// A scan hands out the next entry in whose way no earlier one of its task
/// stands, with its own task and binding; every entry it passes over on the way is
/// held back for the first one that does, and stays undelivered. It hands out
/// nothing only once every entry is concluded.
pub proof fn a_scan_never_delivers_around_what_went_wrong(
    pass: &mut AgentWakeScanPass,
    result: Result<Option<(AgentTaskScope, AgentTaskEntityCommand)>, AgentWakeScanError>,
)
    requires
        call_ensures(AgentWakeScanPass::next_delivery, (pass,), result),
        old(pass)@.outcomes.len() <= old(pass)@.entries.len(),
    ensures
        ({
            let (before, after) = (old(pass)@, final(pass)@);
            let at = after.outcomes.len() as int;
            let entry = after.entries[at];
            let tenant = entry.binding.spec_tenant()@;
            &&& after.entries == before.entries
            &&& after.scanned_at == before.scanned_at
            &&& after.due_count == before.due_count
            &&& after.settings == before.settings
            &&& before.outcomes.len() <= at <= after.entries.len()
            &&& forall|i: int|
                0 <= i < before.outcomes.len() ==> #[trigger] after.outcomes[i]
                    == before.outcomes[i]
            &&& forall|i: int| before.outcomes.len() <= i < at ==> #[trigger] is_held(after, i)
            &&& result is Ok && result->Ok_0 is None <==> at == after.entries.len()
            &&& at < after.entries.len() ==> forall|k: int|
                !#[trigger] stands_in_the_way(after, k, at)
            &&& at < after.entries.len() && tenant.len() == 0 ==> result is Err && result->Err_0
                == AgentWakeScanError::Identity(AgentIdentityError::Empty)
            &&& result is Err && tenant.len() > 0 ==> result->Err_0 is Wake && (
            entry.binding.spec_goal()@.len() == 0 || entry.binding.spec_wake_id()@.len() == 0)
            &&& result is Err ==> at < after.entries.len()
            &&& result is Ok && result->Ok_0 is Some ==> {
                let (scope, command) = result->Ok_0->Some_0;
                &&& tenant.len() > 0
                &&& scope.tenant@ == tenant
                &&& scope.task@ == entry.task@
                &&& command->AdmitWake_binding == entry.binding
                &&& command->AdmitWake_operation_id@ == operation_text(
                    AgentOperationKind::WakeAdmission,
                    seq![tenant, entry.binding.spec_goal()@, entry.binding.spec_wake_id()@],
                )
            }
        }),
{
    lemma_held_back(old(pass)@);
}

/// However a pass went, once an entry's delivery failed or was refused every later
/// entry of its task was held back: what its calls leave in order stays so.
pub proof fn a_refusal_holds_back_its_whole_task(
    pass: &mut AgentWakeScanPass,
    reply: Result<AgentTaskEntityReply, AgentExchangeDeliveryError>,
    mark: Option<(AgentWakeId, AgentWakeTimerStatus)>,
    earlier: int,
    later: int,
)
    requires
        call_ensures(AgentWakeScanPass::conclude, (pass, reply), mark),
        later < final(pass)@.outcomes.len(),
        stands_in_the_way(final(pass)@, earlier, later),
    ensures
        final(pass)@.outcomes[later] is HeldBack,
{
    let after = final(pass)@;
    lemma_blocker(after, later, 0);
    assert(after.held_rightly(later, after.outcomes[later]));
    if after.blocker(later) is None {
        assert(!stands_in_the_way(after, earlier, later));
    }
}

/// What a delivery comes to: a failed attempt failed, a refusal is a refusal, and
/// an answer of the controller is its disposition, which a repeated command tells
/// as a redelivery; only a disposition ends a timer entry, as fenced if it was
/// fenced and as fired otherwise.
pub proof fn a_delivery_comes_to_what_was_answered(
    wake: &AgentWakeId,
    reply: Result<AgentTaskEntityReply, AgentExchangeDeliveryError>,
    outcome: AgentWakeScanOutcome,
)
    requires
        call_ensures(conclude_delivery, (wake, reply), outcome),
    ensures
        reply is Err <==> outcome is Failed,
        reply is Err ==> outcome->Failed_wake == *wake && outcome->Failed_code
            == reply->Err_0.code,
        reply is Ok ==> (outcome is Dispositioned <==> reply->Ok_0 is Applied
            || reply->Ok_0 is Duplicate),
        reply is Ok && !(outcome is Dispositioned) ==> outcome is Rejected
            && outcome->Rejected_wake == *wake,
        reply is Ok && reply->Ok_0 is Rejected ==> outcome->Rejected_code
            == reply->Ok_0->Rejected_code,
        outcome is Dispositioned ==> {
            let recorded = if reply->Ok_0 is Applied {
                reply->Ok_0->Applied_wake
            } else {
                reply->Ok_0->Duplicate_wake
            };
            let known = recorded is Some && recorded->Some_0 is Disposition;
            &&& outcome->Dispositioned_wake == *wake
            &&& outcome->redelivery <==> reply->Ok_0 is Duplicate
            &&& known ==> outcome->disposition == recorded->Some_0->Disposition_0
            &&& !known ==> outcome->disposition == (AgentWakeDisposition::Duplicate { wake: *wake })
            &&& outcome->disposition is Fenced ==> outcome->marked == AgentWakeTimerStatus::Fenced
            &&& !(outcome->disposition is Fenced) ==> outcome->marked
                == AgentWakeTimerStatus::Fired
        },
{
}

/// A conclusion is that of the entry that was handed out, and comes next; it asks
/// for a mark exactly when the entry earned one.
pub proof fn a_conclusion_is_of_the_entry_handed_out(
    pass: &mut AgentWakeScanPass,
    reply: Result<AgentTaskEntityReply, AgentExchangeDeliveryError>,
    mark: Option<(AgentWakeId, AgentWakeTimerStatus)>,
    wake: &AgentWakeId,
    alone: AgentWakeScanOutcome,
)
    requires
        call_ensures(AgentWakeScanPass::conclude, (pass, reply), mark),
        old(pass)@.outcomes.len() < old(pass)@.entries.len(),
        *wake == *old(pass)@.entries[old(pass)@.outcomes.len() as int].binding.spec_wake_id(),
        call_ensures(conclude_delivery, (wake, reply), alone),
    ensures
        ({
            let (before, after) = (old(pass)@, final(pass)@);
            let outcome = after.outcomes.last();
            &&& after.entries == before.entries
            &&& after.due_count == before.due_count
            &&& after.scanned_at == before.scanned_at
            &&& after.settings == before.settings
            &&& after.outcomes.len() == before.outcomes.len() + 1
            &&& after.outcomes.drop_last() == before.outcomes
            &&& outcome is Dispositioned <==> alone is Dispositioned
            &&& outcome is Failed <==> alone is Failed
            &&& outcome is Rejected <==> alone is Rejected
            &&& outcome is Dispositioned ==> outcome == alone && mark == Some(
                (*wake, alone->marked),
            )
            &&& !(outcome is Dispositioned) ==> mark is None
        }),
{
    assert(final(pass)@.outcomes.drop_last() =~= old(pass)@.outcomes);
}

/// A scan reports what it did: its time, how much was due, the batch it was
/// bounded by, every outcome in order, and whether more was due than it took.
pub proof fn a_scan_reports_what_it_did(pass: AgentWakeScanPass, scan: AgentWakeScan)
    requires
        call_ensures(AgentWakeScanPass::finish, (pass,), scan),
    ensures
        scan.scanned_at == pass@.scanned_at,
        scan.due_count == pass@.due_count,
        scan.outcomes@ == pass@.outcomes,
        scan.max_batch_size == pass@.settings.spec_max_batch_size(),
        scan.backpressure_limited <==> scan.due_count > scan.outcomes@.len(),
{
}

} // verus!
