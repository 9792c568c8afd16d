//! What the choreography probe and the run acceptance probe promise.

use vstd::prelude::*;

use crate::exchange::{
    AgentEntityAddress, AgentExchangeDecodeError, AgentExchangeKind, AgentExchangeResult,
};
use crate::identity::{AgentOperationId, AgentTimestampMillis};
use crate::testkit_probe::{
    remembering, AgentRunAssignment, ChoreographyProbe,
    ChoreographyProbeState, DecisionModel, ExchangeCounts, ProbeAssignment, ProbeCommand,
    ProbeCreation, ProbeEnvelope, ProbeLedgerEntry, ProbeProposal, RunAcceptanceProbe,
    RunAcceptanceProbeState, RunProbeAnswer,
};
use crate::text::{decimal, signed_decimal};

verus! {

/// The balance after a change: the sum, or the nearest value there is.
pub open spec fn balance_moved(before: i64, change: int, after: i64) -> bool {
    &&& i64::MIN <= before + change <= i64::MAX ==> after == before + change
    &&& before + change > i64::MAX ==> after == 9_223_372_036_854_775_807
    &&& before + change < i64::MIN ==> after == -9_223_372_036_854_775_808
}

/// Everything but the decisions stays.
pub open spec fn only_remembers(
    before: crate::testkit_probe::ProbeModel,
    after: crate::testkit_probe::ProbeModel,
) -> bool {
    &&& after.created == before.created
    &&& after.label == before.label
    &&& after.assignment_generation == before.assignment_generation
    &&& after.balance == before.balance
}

/// A debit lowers the balance by its amount and touches nothing else.
pub proof fn a_debit_lowers_the_balance(state: &mut ChoreographyProbeState, amount: i64)
    requires
        call_ensures(ChoreographyProbeState::debit, (state, amount), ()),
    ensures
        balance_moved(old(state)@.balance, -amount, final(state)@.balance),
        final(state)@.created == old(state)@.created,
        final(state)@.label == old(state)@.label,
        final(state)@.assignment_generation == old(state)@.assignment_generation,
        final(state)@.decisions == old(state)@.decisions,
        forall|kind: AgentExchangeKind|
            {
                &&& #[trigger] final(state).spec_applied(kind) == old(state).spec_applied(kind)
                &&& final(state).spec_settled(kind) == old(state).spec_settled(kind)
            },
{
    assert(final(state).keeps_counts(*old(state)));
    assert forall|kind: AgentExchangeKind| #[trigger]
        final(state).spec_applied(kind) == old(state).spec_applied(kind)
            && final(state).spec_settled(kind) == old(state).spec_settled(kind) by {
        assert(final(state).spec_settled(kind) == old(state).spec_settled(kind));
    }
}

/// A probe is created once, under the label it is given; the second creation is
/// refused and nothing moves. What could not be decoded is refused with its own
/// code.
pub proof fn a_probe_is_created_once(
    state: &mut ChoreographyProbeState,
    command: Result<ProbeCreation, AgentExchangeDecodeError>,
    answer: AgentExchangeResult,
)
    requires
        call_ensures(ChoreographyProbeState::apply_creation, (state, command), answer),
    ensures
        ({
            let (before, after) = (old(state)@, final(state)@);
            &&& answer is Accepted <==> command is Ok && !before.created
            &&& answer is Accepted ==> {
                &&& after.created
                &&& after.label == Some(command->Ok_0.label@)
                &&& answer@.detail == "created "@ + command->Ok_0.label@
            }
            &&& answer is Rejected ==> after == before
            &&& answer@.payload_type == "rakka.agent.testkit.ProbeOutcome"@
            &&& command is Err ==> answer->code@ == command->Err_0.code@ && answer->message@
                == command->Err_0.message@
            &&& command is Ok && before.created ==> answer->code@ == "already-created"@
            &&& after.assignment_generation == before.assignment_generation
            &&& after.balance == before.balance
            &&& after.decisions == before.decisions
        }),
{
}

/// A created probe takes an assignment of a newer generation than the one it
/// holds, and no other.
pub proof fn an_assignment_is_of_a_newer_generation(
    state: &mut ChoreographyProbeState,
    command: Result<ProbeAssignment, AgentExchangeDecodeError>,
    answer: AgentExchangeResult,
)
    requires
        call_ensures(ChoreographyProbeState::apply_assignment, (state, command), answer),
    ensures
        ({
            let (before, after) = (old(state)@, final(state)@);
            &&& answer is Accepted <==> command is Ok && before.created
                && command->Ok_0.generation > before.assignment_generation
            &&& answer is Accepted ==> after.assignment_generation == command->Ok_0.generation
                && answer@.detail == "accepted generation "@ + decimal(
                command->Ok_0.generation as nat,
            )
            &&& answer is Rejected ==> after == before
            &&& command is Err ==> answer->code@ == command->Err_0.code@
            &&& command is Ok && !before.created ==> answer->code@ == "not-created"@
            &&& command is Ok && before.created && answer is Rejected ==> answer->code@
                == "stale-generation"@
            &&& after.created == before.created
            &&& after.label == before.label
            &&& after.balance == before.balance
            &&& after.decisions == before.decisions
        }),
{
}

/// A created probe accepts a proposal exactly when it is valid.
pub proof fn a_proposal_is_accepted_when_valid(
    state: &ChoreographyProbeState,
    command: Result<ProbeProposal, AgentExchangeDecodeError>,
    answer: AgentExchangeResult,
)
    requires
        call_ensures(ChoreographyProbeState::apply_proposal, (state, command), answer),
    ensures
        answer is Accepted <==> state@.created && command is Ok && command->Ok_0.valid,
        command is Err ==> answer->code@ == command->Err_0.code@,
        command is Ok && !state@.created ==> answer->code@ == "not-created"@,
        command is Ok && state@.created && !command->Ok_0.valid ==> answer->code@
            == "result-rule-violation"@,
{
}

/// A decoded ledger entry is always accepted and moves the balance by its amount
/// with the sign it is applied under; the answer tells the new balance.
pub proof fn a_ledger_entry_moves_the_balance(
    state: &mut ChoreographyProbeState,
    command: Result<ProbeLedgerEntry, AgentExchangeDecodeError>,
    sign: i64,
    answer: AgentExchangeResult,
)
    requires
        call_ensures(ChoreographyProbeState::apply_ledger, (state, command, sign), answer),
        -1 <= sign <= 1,
    ensures
        ({
            let (before, after) = (old(state)@, final(state)@);
            &&& answer is Accepted <==> command is Ok
            &&& command is Ok ==> {
                let amount = command->Ok_0.amount as int;
                &&& sign == 1 ==> balance_moved(before.balance, amount, after.balance)
                &&& sign == -1 ==> balance_moved(before.balance, -amount, after.balance)
                &&& sign == 0 ==> after.balance == before.balance
                &&& answer@.detail == "balance is now "@ + signed_decimal(after.balance as int)
            }
            &&& command is Err ==> after == before && answer->code@ == command->Err_0.code@
            &&& after.created == before.created
            &&& after.label == before.label
            &&& after.assignment_generation == before.assignment_generation
            &&& after.decisions == before.decisions
        }),
{
    if command is Ok {
        let amount = command->Ok_0.amount as int;
        assert(0 * amount == 0 && 1 * amount == amount && -1 * amount == -amount)
            by (nonlinear_arith);
    }
}

/// Allocations and returns raise the balance, a settlement lowers it, and every
/// other exchange leaves it; only a creation creates and only an assignment moves
/// the generation. Each delivery counts once, under its own kind, whatever was
/// answered.
pub proof fn a_delivery_moves_what_its_kind_is_about(
    probe: &ChoreographyProbe,
    state: &mut ChoreographyProbeState,
    kind: AgentExchangeKind,
    command: Result<ProbeCommand, AgentExchangeDecodeError>,
    answer: AgentExchangeResult,
)
    requires
        command is Ok ==> (command->Ok_0 is Creation <==> kind is Creation),
        command is Ok ==> (command->Ok_0 is Assignment <==> kind is Assignment),
        command is Ok ==> (command->Ok_0 is Proposal <==> kind is ResultProposal),
        call_ensures(ChoreographyProbe::apply, (probe, state, kind, command), answer),
    ensures
        ({
            let (before, after) = (old(state)@, final(state)@);
            &&& after.decisions == before.decisions
            &&& command is Err ==> after == before && answer is Rejected && answer->code@
                == command->Err_0.code@
            &&& command is Ok && command->Ok_0 is Ledger ==> {
                let amount = command->Ok_0->Ledger_0.amount as int;
                &&& answer is Accepted
                &&& kind is BudgetAllocation || kind is BudgetReturn ==> balance_moved(
                    before.balance,
                    amount,
                    after.balance,
                )
                &&& kind is BudgetSettlement ==> balance_moved(
                    before.balance,
                    -amount,
                    after.balance,
                )
                &&& !(kind is BudgetAllocation || kind is BudgetReturn || kind is BudgetSettlement)
                    ==> after == before
            }
            &&& command is Ok && command->Ok_0 is Creation ==> {
                &&& answer is Accepted <==> !before.created
                &&& after.created
                &&& after.label == if before.created {
                    before.label
                } else {
                    Some(command->Ok_0->Creation_0.label@)
                }
            }
            &&& command is Ok && command->Ok_0 is Assignment ==> {
                let generation = command->Ok_0->Assignment_0.generation;
                &&& answer is Accepted <==> before.created && generation
                    > before.assignment_generation
                &&& after.assignment_generation == if answer is Accepted {
                    generation
                } else {
                    before.assignment_generation
                }
            }
            &&& command is Ok && command->Ok_0 is Proposal ==> {
                &&& after == before
                &&& answer is Accepted <==> before.created && command->Ok_0->Proposal_0.valid
            }
            &&& !(kind is Creation) ==> after.created == before.created && after.label
                == before.label
            &&& !(kind is Assignment) ==> after.assignment_generation
                == before.assignment_generation
        }),
        final(state).spec_applied(kind) == old(state).spec_applied(kind) + 1,
        forall|other: AgentExchangeKind|
            other != kind ==> #[trigger] final(state).spec_applied(other) == old(
                state,
            ).spec_applied(other),
        forall|other: AgentExchangeKind| #[trigger]
            final(state).spec_settled(other) == old(state).spec_settled(other),
{
    if command is Ok && command->Ok_0 is Ledger {
        let amount = command->Ok_0->Ledger_0.amount as int;
        assert(0 * amount == 0 && 1 * amount == amount && -1 * amount == -amount)
            by (nonlinear_arith);
    }
}

/// What the newest decision of a settlement is, and which of the older ones stay:
/// the newest thirty-two.
pub open spec fn is_remembered(
    before: Seq<DecisionModel>,
    kind: AgentExchangeKind,
    result: &AgentExchangeResult,
    after: Seq<DecisionModel>,
) -> bool {
    &&& after.len() > 0
    &&& after.last().kind == kind
    &&& after.last().accepted == (result is Accepted)
    &&& result is Accepted ==> after.last().rejection_code is None
    &&& result is Rejected ==> after.last().rejection_code == Some(result->code@)
    &&& before.len() < 32 ==> after.drop_last() == before
    &&& before.len() >= 32 ==> after.len() == 32 && after.drop_last() == before.subrange(
        before.len() - 31,
        before.len() as int,
    )
}

proof fn lemma_remembered(
    before: Seq<DecisionModel>,
    kind: AgentExchangeKind,
    result: &AgentExchangeResult,
)
    ensures
        is_remembered(
            before,
            kind,
            result,
            remembering(before, crate::testkit_probe::decision_of(kind, result@)),
        ),
{
    let after = remembering(before, crate::testkit_probe::decision_of(kind, result@));
    if before.len() < 32 {
        assert(after.drop_last() =~= before);
    } else {
        assert(after.drop_last() =~= before.subrange(before.len() - 31, before.len() as int));
    }
}

/// A settled exchange is remembered with its kind and answer, is counted once, and
/// moves nothing else.
pub proof fn a_settlement_is_remembered(
    probe: &ChoreographyProbe,
    state: &mut ChoreographyProbeState,
    kind: AgentExchangeKind,
    result: &AgentExchangeResult,
)
    requires
        call_ensures(ChoreographyProbe::settle, (probe, state, kind, result), ()),
    ensures
        is_remembered(old(state)@.decisions, kind, result, final(state)@.decisions),
        only_remembers(old(state)@, final(state)@),
        final(state).spec_settled(kind) == old(state).spec_settled(kind) + 1,
        forall|other: AgentExchangeKind|
            other != kind ==> #[trigger] final(state).spec_settled(other) == old(
                state,
            ).spec_settled(other),
        forall|other: AgentExchangeKind| #[trigger]
            final(state).spec_applied(other) == old(state).spec_applied(other),
{
    lemma_remembered(old(state)@.decisions, kind, result);
}

/// A probe's first envelope of each kind carries the command of that kind, under
/// its payload type, and is correlated by its operation.
pub proof fn an_envelope_carries_the_command_of_its_kind(
    kind: AgentExchangeKind,
    operation: AgentOperationId,
    initiator: AgentEntityAddress,
    target: AgentEntityAddress,
    now: AgentTimestampMillis,
    envelope: ProbeEnvelope,
)
    requires
        call_ensures(
            ChoreographyProbe::envelope,
            (kind, operation, initiator, target, now),
            envelope,
        ),
    ensures
        envelope.kind == kind,
        envelope.operation_id@ == operation@,
        envelope.initiator == initiator,
        envelope.target == target,
        envelope.sent_at == now,
        envelope.correlation_id@ == operation@,
        kind is Creation ==> envelope.command is Creation
            && envelope.command->Creation_0.label@ == "probe"@ && envelope.payload_type@
            == "rakka.agent.testkit.ProbeCreation"@,
        kind is Assignment ==> envelope.command is Assignment
            && envelope.command->Assignment_0.generation == 1 && envelope.payload_type@
            == "rakka.agent.testkit.ProbeAssignment"@,
        kind is ResultProposal ==> envelope.command is Proposal
            && envelope.command->Proposal_0.valid && envelope.payload_type@
            == "rakka.agent.testkit.ProbeProposal"@,
        !(kind is Creation || kind is Assignment || kind is ResultProposal) ==> envelope.command
            is Ledger && envelope.command->Ledger_0.amount == 10 && envelope.payload_type@
            == "rakka.agent.testkit.ProbeLedgerEntry"@,
{
}

/// Each command's payload type tells the commands apart.
pub proof fn a_command_is_told_by_its_payload_type(
    a: &ProbeCommand,
    b: &ProbeCommand,
    of_a: &'static str,
    of_b: &'static str,
)
    requires
        call_ensures(ProbeCommand::payload_type, (a,), of_a),
        call_ensures(ProbeCommand::payload_type, (b,), of_b),
        of_a@ == of_b@,
    ensures
        a is Creation <==> b is Creation,
        a is Assignment <==> b is Assignment,
        a is Proposal <==> b is Proposal,
        a is Ledger <==> b is Ledger,
{
    reveal_strlit("rakka.agent.testkit.ProbeCreation");
    reveal_strlit("rakka.agent.testkit.ProbeAssignment");
    reveal_strlit("rakka.agent.testkit.ProbeProposal");
    reveal_strlit("rakka.agent.testkit.ProbeLedgerEntry");
    assert("rakka.agent.testkit.ProbeCreation"@[25] == 'C');
    assert("rakka.agent.testkit.ProbeProposal"@[25] == 'P');
    assert("rakka.agent.testkit.ProbeAssignment"@.len() == 35);
    assert("rakka.agent.testkit.ProbeLedgerEntry"@.len() == 36);
    assert(of_a@.len() == of_b@.len());
}

/// An exchange is counted under its kind alone.
pub proof fn a_count_is_of_its_kind(counts: &mut ExchangeCounts, kind: AgentExchangeKind)
    requires
        call_ensures(ExchangeCounts::bump, (counts, kind), ()),
    ensures
        final(counts).count(kind) == old(counts).count(kind) + 1,
        forall|other: AgentExchangeKind|
            other != kind ==> #[trigger] final(counts).count(other) == old(counts).count(other),
{
}

/// A run acceptance probe cancels when asked to, accepts a decoded assignment
/// exactly when it is an accepting one, and refuses everything else with the code
/// of its reason. Only what it accepted is added to its generations, last.
pub proof fn a_run_probe_accepts_assignments_alone(
    probe: &RunAcceptanceProbe,
    state: &mut RunAcceptanceProbeState,
    kind: AgentExchangeKind,
    assignment: Result<AgentRunAssignment, AgentExchangeDecodeError>,
    now: AgentTimestampMillis,
    answer: RunProbeAnswer,
)
    requires
        call_ensures(RunAcceptanceProbe::apply, (probe, state, kind, assignment, now), answer),
    ensures
        answer is Cancelled <==> kind is RunCancel,
        answer is Accepted <==> kind is Assignment && assignment is Ok && probe.accepts,
        kind is RunCancel && old(state).spec_address() is Run ==> answer->Cancelled_run
            == old(state).spec_address()->Run_0,
        answer is Accepted ==> {
            &&& answer->acceptance.run == assignment->Ok_0.run
            &&& answer->acceptance.generation == assignment->Ok_0.generation
            &&& answer->acceptance.accepted_at == now
            &&& final(state).generations().len() == old(state).generations().len() + 1
            &&& final(state).generations().last() == assignment->Ok_0.generation
            &&& final(state).generations().drop_last() == old(state).generations()
        },
        !(answer is Accepted) ==> final(state).generations() == old(state).generations(),
        !(kind is RunCancel) && !(kind is Assignment) ==> answer->code@
            == "unsupported-exchange"@,
        kind is Assignment && assignment is Err ==> answer->code@ == assignment->Err_0.code@
            && answer->message@ == assignment->Err_0.message@,
        kind is Assignment && assignment is Ok && !probe.accepts ==> answer->code@
            == "run-refused-assignment"@,
        final(state).spec_decisions() == old(state).spec_decisions(),
        final(state).spec_address() == old(state).spec_address(),
{
    if answer is Accepted {
        assert(final(state).generations().drop_last() =~= old(state).generations());
    }
}

/// A run acceptance probe remembers what was settled, and accepts nothing by it.
pub proof fn a_run_probe_remembers_a_settlement(
    probe: &RunAcceptanceProbe,
    state: &mut RunAcceptanceProbeState,
    kind: AgentExchangeKind,
    result: &AgentExchangeResult,
)
    requires
        call_ensures(RunAcceptanceProbe::settle, (probe, state, kind, result), ()),
    ensures
        is_remembered(old(state).spec_decisions(), kind, result, final(state).spec_decisions()),
        final(state).generations() == old(state).generations(),
        final(state).spec_address() == old(state).spec_address(),
{
    lemma_remembered(old(state).spec_decisions(), kind, result);
}

} // verus!
