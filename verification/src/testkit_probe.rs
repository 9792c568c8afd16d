//! Deterministic exchange participants, and the failure windows a delivery can
//! be driven through.

use vstd::prelude::*;
use vstd::string::*;

use crate::effect::AgentRunScope;
use crate::exchange::{
    AgentEntityAddress, AgentExchangeDecodeError, AgentExchangeKind, AgentExchangeResult,
    AnswerModel,
};
use crate::identity::{AgentOperationId, AgentTimestampMillis, Identifier};
use crate::text::{
    decimal, decimal_string, join2, join3, join4, signed_decimal, signed_decimal_string,
};
use crate::wake_state::optional_string;

verus! {

/// Payload type of a [`ProbeCreation`] command.
pub const PROBE_CREATION_TYPE: &'static str = "rakka.agent.testkit.ProbeCreation";

/// Payload type of a [`ProbeAssignment`] command.
pub const PROBE_ASSIGNMENT_TYPE: &'static str = "rakka.agent.testkit.ProbeAssignment";

/// Payload type of a [`ProbeProposal`] command.
pub const PROBE_PROPOSAL_TYPE: &'static str = "rakka.agent.testkit.ProbeProposal";

/// Payload type of a [`ProbeLedgerEntry`] command.
pub const PROBE_LEDGER_TYPE: &'static str = "rakka.agent.testkit.ProbeLedgerEntry";

/// Payload type of a [`ProbeOutcome`] result.
pub const PROBE_OUTCOME_TYPE: &'static str = "rakka.agent.testkit.ProbeOutcome";

/// How many decisions a probe remembers.
pub const PROBE_DECISION_CAPACITY: usize = 32;

/// Creation command of a creation exchange.
#[derive(Debug)]
pub struct ProbeCreation {
    /// Bounded label of the created work.
    pub label: String,
}

/// Assignment command of an assignment exchange.
#[derive(Debug, Clone, Copy, PartialEq, Eq, Structural)]
pub struct ProbeAssignment {
    /// Monotonic assignment generation; one the receiver has passed is refused.
    pub generation: u64,
}

/// Result proposal of a result exchange.
#[derive(Debug, Clone, Copy, PartialEq, Eq, Structural)]
pub struct ProbeProposal {
    /// Whether the proposal satisfies the receiver's result rule.
    pub valid: bool,
}

/// Ledger command of the budget exchanges.
#[derive(Debug, Clone, Copy, PartialEq, Eq, Structural)]
pub struct ProbeLedgerEntry {
    /// Amount to allocate, settle, or return.
    pub amount: i64,
}

/// Result payload every probe exchange returns.
#[derive(Debug)]
pub struct ProbeOutcome {
    /// Bounded description of what the receiver did.
    pub detail: String,
}

/// One decision a probe settled as an initiator.
#[derive(Debug)]
pub struct ProbeDecision {
    /// Exchange the decision resolved.
    pub kind: AgentExchangeKind,
    /// Whether the receiver accepted the exchange.
    pub accepted: bool,
    /// Rejection code, when the receiver refused.
    pub rejection_code: Option<String>,
}

/// What a probe's decision says.
pub struct DecisionModel {
    /// Exchange the decision resolved.
    pub kind: AgentExchangeKind,
    /// Whether the receiver accepted the exchange.
    pub accepted: bool,
    /// The rejection code's text.
    pub rejection_code: Option<Seq<char>>,
}

impl View for ProbeDecision {
    type V = DecisionModel;

    open spec fn view(&self) -> DecisionModel {
        DecisionModel {
            kind: self.kind,
            accepted: self.accepted,
            rejection_code: optional_string(self.rejection_code),
        }
    }
}

/// The decision an answer to an exchange amounts to.
pub open spec fn decision_of(kind: AgentExchangeKind, answer: AnswerModel) -> DecisionModel {
    DecisionModel {
        kind,
        accepted: answer.refusal is None,
        rejection_code: match answer.refusal {
            Some((code, _)) => Some(code),
            None => None,
        },
    }
}

/// What a list of decisions says.
pub open spec fn decisions_model(decisions: Seq<ProbeDecision>) -> Seq<DecisionModel> {
    decisions.map_values(|decision: ProbeDecision| decision@)
}

/// A list of decisions with one more; the oldest go beyond the capacity.
pub open spec fn remembering(decisions: Seq<DecisionModel>, decision: DecisionModel) -> Seq<
    DecisionModel,
> {
    let longer = decisions.push(decision);
    if longer.len() > PROBE_DECISION_CAPACITY {
        longer.subrange(longer.len() - PROBE_DECISION_CAPACITY, longer.len() as int)
    } else {
        longer
    }
}

/// Remembers a decision, forgetting the oldest beyond the capacity.
fn remember_decision(
    decisions: &mut Vec<ProbeDecision>,
    kind: AgentExchangeKind,
    result: &AgentExchangeResult,
)
    ensures
        decisions_model(final(decisions)@) == remembering(
            decisions_model(old(decisions)@),
            decision_of(kind, result@),
        ),
{
    let decision = ProbeDecision {
        kind,
        accepted: result.is_accepted(),
        rejection_code: match result.rejection_code() {
            Some(code) => Some(code.to_owned()),
            None => None,
        },
    };
    assert(decision@ == decision_of(kind, result@));
    decisions.push(decision);
    let ghost longer = decisions@;
    let ghost mut dropped: int = 0;
    proof {
        assert(decisions_model(longer) =~= decisions_model(old(decisions)@).push(
            decision_of(kind, result@),
        ));
        assert(longer.subrange(0, longer.len() as int) =~= longer);
    }
    while decisions.len() > PROBE_DECISION_CAPACITY
        invariant
            0 <= dropped <= longer.len(),
            decisions@ == longer.subrange(dropped, longer.len() as int),
            dropped > 0 ==> longer.len() - dropped >= PROBE_DECISION_CAPACITY,
        decreases decisions.len(),
    {
        decisions.remove(0);
        proof {
            dropped = dropped + 1;
            assert(decisions@ =~= longer.subrange(dropped, longer.len() as int));
        }
    }
    proof {
        assert(decisions_model(decisions@) =~= remembering(
            decisions_model(old(decisions)@),
            decision_of(kind, result@),
        ));
    }
}

/// How many exchanges of each kind something has seen.
#[derive(Debug)]
pub struct ExchangeCounts {
    counts: Vec<(AgentExchangeKind, u32)>,
}

/// The count of a kind in a list of counts, from a position on.
pub open spec fn count_from(
    counts: Seq<(AgentExchangeKind, u32)>,
    kind: AgentExchangeKind,
    from: nat,
) -> u32
    decreases counts.len() - from,
{
    if from >= counts.len() {
        0
    } else if counts[from as int].0 == kind {
        counts[from as int].1
    } else {
        count_from(counts, kind, from + 1)
    }
}

impl ExchangeCounts {
    /// How many exchanges of a kind were counted.
    pub closed spec fn count(&self, kind: AgentExchangeKind) -> u32 {
        count_from(self.counts@, kind, 0)
    }

    /// Nothing counted.
    pub fn new() -> (counts: Self)
        ensures
            forall|kind: AgentExchangeKind| #[trigger] counts.count(kind) == 0,
    {
        ExchangeCounts { counts: Vec::new() }
    }

    /// How many exchanges of a kind were counted.
    pub fn get(&self, kind: AgentExchangeKind) -> (count: u32)
        ensures
            count == self.count(kind),
    {
        let mut i: usize = 0;
        while i < self.counts.len()
            invariant
                i <= self.counts@.len(),
                self.count(kind) == count_from(self.counts@, kind, i as nat),
            decreases self.counts.len() - i,
        {
            if self.counts[i].0 == kind {
                return self.counts[i].1;
            }
            i = i + 1;
        }
        0
    }

    /// Counts one more exchange of a kind.
    pub fn bump(&mut self, kind: AgentExchangeKind)
        requires
            old(self).count(kind) < u32::MAX,
        ensures
            final(self).count(kind) == old(self).count(kind) + 1,
            forall|other: AgentExchangeKind|
                other != kind ==> #[trigger] final(self).count(other) == old(self).count(other),
    {
        let ghost before = self.counts@;
        let mut i: usize = 0;
        while i < self.counts.len()
            invariant
                i <= self.counts@.len(),
                self.counts@ == before,
                before == old(self).counts@,
                old(self).count(kind) < u32::MAX,
                old(self).count(kind) == count_from(before, kind, i as nat),
                forall|k: int| 0 <= k < i ==> (#[trigger] before[k]).0 != kind,
            decreases self.counts.len() - i,
        {
            if self.counts[i].0 == kind {
                let count: u32 = self.counts[i].1;
                self.counts.set(i, (kind, count + 1));
                proof {
                    let after = self.counts@;
                    lemma_counts_update(before, i as int, kind, (count + 1) as u32, 0);
                    assert forall|other: AgentExchangeKind| other != kind implies count_from(
                        after,
                        other,
                        0,
                    ) == count_from(before, other, 0) by {
                        lemma_counts_other(before, i as int, kind, (count + 1) as u32, other, 0);
                    }
                }
                return ;
            }
            i = i + 1;
        }
        self.counts.push((kind, 1));
        proof {
            lemma_counts_push(before, kind, 0);
            assert forall|other: AgentExchangeKind| other != kind implies count_from(
                self.counts@,
                other,
                0,
            ) == count_from(before, other, 0) by {
                lemma_counts_push_other(before, kind, other, 0);
            }
        }
    }
}

proof fn lemma_counts_update(
    counts: Seq<(AgentExchangeKind, u32)>,
    at: int,
    kind: AgentExchangeKind,
    count: u32,
    from: nat,
)
    requires
        from <= at < counts.len(),
        counts[at].0 == kind,
        forall|k: int| from <= k < at ==> (#[trigger] counts[k]).0 != kind,
    ensures
        count_from(counts.update(at, (kind, count)), kind, from) == count,
    decreases counts.len() - from,
{
    if from < at {
        assert(counts[from as int].0 != kind);
        lemma_counts_update(counts, at, kind, count, from + 1);
    }
}

proof fn lemma_counts_other(
    counts: Seq<(AgentExchangeKind, u32)>,
    at: int,
    kind: AgentExchangeKind,
    count: u32,
    other: AgentExchangeKind,
    from: nat,
)
    requires
        0 <= at < counts.len(),
        counts[at].0 == kind,
        other != kind,
    ensures
        count_from(counts.update(at, (kind, count)), other, from) == count_from(
            counts,
            other,
            from,
        ),
    decreases counts.len() - from,
{
    if from < counts.len() {
        lemma_counts_other(counts, at, kind, count, other, from + 1);
    }
}

proof fn lemma_counts_push(
    counts: Seq<(AgentExchangeKind, u32)>,
    kind: AgentExchangeKind,
    from: nat,
)
    requires
        from <= counts.len(),
        forall|k: int| from <= k < counts.len() ==> (#[trigger] counts[k]).0 != kind,
    ensures
        count_from(counts.push((kind, 1)), kind, from) == 1,
        count_from(counts, kind, from) == 0,
    decreases counts.len() - from,
{
    let longer = counts.push((kind, 1u32));
    if from < counts.len() {
        assert(longer[from as int] == counts[from as int]);
        lemma_counts_push(counts, kind, from + 1);
    } else {
        assert(longer[from as int] == (kind, 1u32));
    }
}

proof fn lemma_counts_push_other(
    counts: Seq<(AgentExchangeKind, u32)>,
    kind: AgentExchangeKind,
    other: AgentExchangeKind,
    from: nat,
)
    requires
        from <= counts.len(),
        other != kind,
    ensures
        count_from(counts.push((kind, 1)), other, from) == count_from(counts, other, from),
    decreases counts.len() - from,
{
    let longer = counts.push((kind, 1u32));
    if from < counts.len() {
        assert(longer[from as int] == counts[from as int]);
        lemma_counts_push_other(counts, kind, other, from + 1);
    } else {
        assert(longer[from as int] == (kind, 1u32));
        assert(count_from(longer, other, from + 1) == 0);
    }
}

/// Durable state of one [`ChoreographyProbe`]: a small domain that fences its
/// own transitions.
#[derive(Debug)]
pub struct ChoreographyProbeState {
    address: AgentEntityAddress,
    created: bool,
    label: Option<String>,
    assignment_generation: u64,
    balance: i64,
    applied: ExchangeCounts,
    settled: ExchangeCounts,
    decisions: Vec<ProbeDecision>,
}

/// What a probe's domain holds.
pub struct ProbeModel {
    /// Whether a creation exchange has been applied.
    pub created: bool,
    /// The label the creation carried.
    pub label: Option<Seq<char>>,
    /// Highest assignment generation accepted.
    pub assignment_generation: u64,
    /// Current ledger balance.
    pub balance: i64,
    /// Every decision settled, oldest first.
    pub decisions: Seq<DecisionModel>,
}

impl View for ChoreographyProbeState {
    type V = ProbeModel;

    closed spec fn view(&self) -> ProbeModel {
        ProbeModel {
            created: self.created,
            label: optional_string(self.label),
            assignment_generation: self.assignment_generation,
            balance: self.balance,
            decisions: decisions_model(self.decisions@),
        }
    }
}

/// A sum that stops at the ends of the range.
pub open spec fn saturating_balance(balance: i64, change: int) -> i64 {
    if balance + change > i64::MAX {
        i64::MAX
    } else if balance + change < i64::MIN {
        i64::MIN
    } else {
        (balance + change) as i64
    }
}

fn add_to_balance(balance: i64, change: i64) -> (sum: i64)
    ensures
        sum == saturating_balance(balance, change as int),
{
    match balance.checked_add(change) {
        Some(sum) => sum,
        None => if change > 0 {
            i64::MAX
        } else {
            i64::MIN
        },
    }
}

/// A probe's acceptance, with what it did.
pub open spec fn probe_accepts(detail: Seq<char>) -> AnswerModel {
    AnswerModel { refusal: None, payload_type: PROBE_OUTCOME_TYPE@, detail }
}

/// A probe's refusal.
pub open spec fn probe_refuses(code: Seq<char>, message: Seq<char>) -> AnswerModel {
    AnswerModel {
        refusal: Some((code, message)),
        payload_type: PROBE_OUTCOME_TYPE@,
        detail: code,
    }
}

fn accepted(detail: String) -> (answer: AgentExchangeResult)
    ensures
        answer@ == probe_accepts(detail@),
{
    AgentExchangeResult::accepted(PROBE_OUTCOME_TYPE, detail)
}

fn rejected(code: String, message: String) -> (answer: AgentExchangeResult)
    ensures
        answer@ == probe_refuses(code@, message@),
{
    let detail = code.clone();
    AgentExchangeResult::rejected(code, message, PROBE_OUTCOME_TYPE, detail)
}

impl ProbeModel {
    /// After a creation, with its answer: a probe is created once.
    pub open spec fn applying_creation(
        self,
        command: Result<ProbeCreation, AgentExchangeDecodeError>,
    ) -> (ProbeModel, AnswerModel) {
        match command {
            Err(error) => (self, probe_refuses(error.code@, error.message@)),
            Ok(command) => if self.created {
                (self, probe_refuses("already-created"@, "the probe is already created"@))
            } else {
                (
                    ProbeModel { created: true, label: Some(command.label@), ..self },
                    probe_accepts("created "@ + command.label@),
                )
            },
        }
    }

    /// After an assignment, with its answer: generations only grow.
    pub open spec fn applying_assignment(
        self,
        command: Result<ProbeAssignment, AgentExchangeDecodeError>,
    ) -> (ProbeModel, AnswerModel) {
        match command {
            Err(error) => (self, probe_refuses(error.code@, error.message@)),
            Ok(command) => if !self.created {
                (self, probe_refuses("not-created"@, "the probe is not created"@))
            } else if command.generation <= self.assignment_generation {
                (
                    self,
                    probe_refuses(
                        "stale-generation"@,
                        "generation "@ + decimal(command.generation as nat)
                            + " is not newer than the accepted generation "@ + decimal(
                            self.assignment_generation as nat,
                        ),
                    ),
                )
            } else {
                (
                    ProbeModel { assignment_generation: command.generation, ..self },
                    probe_accepts("accepted generation "@ + decimal(command.generation as nat)),
                )
            },
        }
    }

    /// The answer to a result proposal.
    pub open spec fn answering_proposal(
        self,
        command: Result<ProbeProposal, AgentExchangeDecodeError>,
    ) -> AnswerModel {
        match command {
            Err(error) => probe_refuses(error.code@, error.message@),
            Ok(command) => if !self.created {
                probe_refuses("not-created"@, "the probe is not created"@)
            } else if command.valid {
                probe_accepts("the proposed result satisfies the result rule"@)
            } else {
                probe_refuses(
                    "result-rule-violation"@,
                    "the proposed result violates the result rule"@,
                )
            },
        }
    }

    /// After a ledger movement of a sign, with its answer.
    pub open spec fn applying_ledger(
        self,
        command: Result<ProbeLedgerEntry, AgentExchangeDecodeError>,
        sign: int,
    ) -> (ProbeModel, AnswerModel) {
        match command {
            Err(error) => (self, probe_refuses(error.code@, error.message@)),
            Ok(command) => {
                let balance = saturating_balance(self.balance, sign * command.amount);
                (
                    ProbeModel { balance, ..self },
                    probe_accepts("balance is now "@ + signed_decimal(balance as int)),
                )
            },
        }
    }
}

/// The decoded command of a probe exchange.
#[derive(Debug)]
pub enum ProbeCommand {
    /// A creation.
    Creation(ProbeCreation),
    /// An assignment.
    Assignment(ProbeAssignment),
    /// A result proposal.
    Proposal(ProbeProposal),
    /// A ledger movement.
    Ledger(ProbeLedgerEntry),
}

/// How an exchange kind moves the ledger: credits, debits, or neither.
pub open spec fn ledger_sign(kind: AgentExchangeKind) -> int {
    match kind {
        AgentExchangeKind::BudgetAllocation | AgentExchangeKind::BudgetReturn => 1,
        AgentExchangeKind::BudgetSettlement => -1,
        _ => 0,
    }
}

/// Whether a command is the one an exchange kind carries.
pub open spec fn carries(kind: AgentExchangeKind, command: ProbeCommand) -> bool {
    match kind {
        AgentExchangeKind::Creation => command is Creation,
        AgentExchangeKind::Assignment => command is Assignment,
        AgentExchangeKind::ResultProposal => command is Proposal,
        _ => command is Ledger,
    }
}

impl ProbeModel {
    /// After an exchange, with its answer.
    pub open spec fn applying(
        self,
        kind: AgentExchangeKind,
        command: Result<ProbeCommand, AgentExchangeDecodeError>,
    ) -> (ProbeModel, AnswerModel) {
        match command {
            Err(error) => (self, probe_refuses(error.code@, error.message@)),
            Ok(ProbeCommand::Creation(command)) => self.applying_creation(Ok(command)),
            Ok(ProbeCommand::Assignment(command)) => self.applying_assignment(Ok(command)),
            Ok(ProbeCommand::Proposal(command)) => (self, self.answering_proposal(Ok(command))),
            Ok(ProbeCommand::Ledger(command)) => self.applying_ledger(
                Ok(command),
                ledger_sign(kind),
            ),
        }
    }
}

impl ChoreographyProbeState {
    /// The address the probe answers at.
    pub closed spec fn spec_address(&self) -> &AgentEntityAddress {
        &self.address
    }

    /// How many exchanges of a kind were applied.
    pub closed spec fn spec_applied(&self, kind: AgentExchangeKind) -> u32 {
        self.applied.count(kind)
    }

    /// How many exchanges of a kind were settled.
    pub closed spec fn spec_settled(&self, kind: AgentExchangeKind) -> u32 {
        self.settled.count(kind)
    }

    /// Whether the exchanges counted are those another state counted.
    pub open spec fn keeps_counts(&self, other: Self) -> bool {
        &&& forall|kind: AgentExchangeKind| #[trigger]
            self.spec_applied(kind) == other.spec_applied(kind)
        &&& forall|kind: AgentExchangeKind| #[trigger]
            self.spec_settled(kind) == other.spec_settled(kind)
    }

    /// Address of the probe.
    pub fn address(&self) -> (address: &AgentEntityAddress)
        ensures
            address == self.spec_address(),
    {
        &self.address
    }

    /// Whether a creation exchange has been applied.
    pub fn is_created(&self) -> (created: bool)
        ensures
            created == self@.created,
    {
        self.created
    }

    /// Label the creation exchange carried.
    pub fn label(&self) -> (label: Option<&str>)
        ensures
            match label {
                Some(label) => self@.label == Some(label@),
                None => self@.label is None,
            },
    {
        match &self.label {
            Some(label) => Some(label.as_str()),
            None => None,
        }
    }

    /// Highest assignment generation the probe has accepted.
    pub fn assignment_generation(&self) -> (generation: u64)
        ensures
            generation == self@.assignment_generation,
    {
        self.assignment_generation
    }

    /// Current ledger balance.
    pub fn balance(&self) -> (balance: i64)
        ensures
            balance == self@.balance,
    {
        self.balance
    }

    /// Debits the ledger: the escrow debit an allocation applies before it is
    /// sent.
    pub fn debit(&mut self, amount: i64)
        ensures
            final(self)@ == (ProbeModel {
                balance: saturating_balance(old(self)@.balance, -(amount as int)),
                ..old(self)@
            }),
            final(self).keeps_counts(*old(self)),
            final(self).spec_address() == old(self).spec_address(),
    {
        self.balance =
        match self.balance.checked_sub(amount) {
            Some(balance) => balance,
            None => if amount > 0 {
                i64::MIN
            } else {
                i64::MAX
            },
        };
    }

    /// How many exchanges of one kind this probe has applied as a receiver.
    pub fn applied_count(&self, kind: AgentExchangeKind) -> (count: u32)
        ensures
            count == self.spec_applied(kind),
    {
        self.applied.get(kind)
    }

    /// How many exchanges of one kind this probe has settled as an initiator.
    pub fn settled_count(&self, kind: AgentExchangeKind) -> (count: u32)
        ensures
            count == self.spec_settled(kind),
    {
        self.settled.get(kind)
    }

    /// Every decision this probe settled, oldest first.
    pub fn decisions(&self) -> (decisions: &[ProbeDecision])
        ensures
            decisions_model(decisions@) == self@.decisions,
    {
        self.decisions.as_slice()
    }

    /// Applies a creation.
    pub fn apply_creation(&mut self, command: Result<ProbeCreation, AgentExchangeDecodeError>) -> (answer:
        AgentExchangeResult)
        ensures
            (final(self)@, answer@) == old(self)@.applying_creation(command),
            final(self).keeps_counts(*old(self)),
            final(self).spec_address() == old(self).spec_address(),
    {
        match command {
            Err(error) => rejected(error.code, error.message),
            Ok(command) => {
                if self.created {
                    return rejected(
                        "already-created".to_owned(),
                        "the probe is already created".to_owned(),
                    );
                }
                self.created = true;
                let detail = join2("created ", command.label.as_str());
                self.label = Some(command.label);
                accepted(detail)
            },
        }
    }

    /// Applies an assignment.
    pub fn apply_assignment(&mut self, command: Result<ProbeAssignment, AgentExchangeDecodeError>) -> (answer:
        AgentExchangeResult)
        ensures
            (final(self)@, answer@) == old(self)@.applying_assignment(command),
            final(self).keeps_counts(*old(self)),
            final(self).spec_address() == old(self).spec_address(),
    {
        match command {
            Err(error) => rejected(error.code, error.message),
            Ok(command) => {
                if !self.created {
                    return rejected(
                        "not-created".to_owned(),
                        "the probe is not created".to_owned(),
                    );
                }
                let offered = decimal_string(command.generation);
                if command.generation <= self.assignment_generation {
                    let held = decimal_string(self.assignment_generation);
                    return rejected(
                        "stale-generation".to_owned(),
                        join4(
                            "generation ",
                            offered.as_str(),
                            " is not newer than the accepted generation ",
                            held.as_str(),
                        ),
                    );
                }
                self.assignment_generation = command.generation;
                accepted(join2("accepted generation ", offered.as_str()))
            },
        }
    }

    /// Answers a result proposal.
    pub fn apply_proposal(&self, command: Result<ProbeProposal, AgentExchangeDecodeError>) -> (answer:
        AgentExchangeResult)
        ensures
            answer@ == self@.answering_proposal(command),
    {
        match command {
            Err(error) => rejected(error.code, error.message),
            Ok(command) => {
                if !self.created {
                    return rejected(
                        "not-created".to_owned(),
                        "the probe is not created".to_owned(),
                    );
                }
                if command.valid {
                    accepted("the proposed result satisfies the result rule".to_owned())
                } else {
                    rejected(
                        "result-rule-violation".to_owned(),
                        "the proposed result violates the result rule".to_owned(),
                    )
                }
            },
        }
    }

    /// Moves the ledger by an amount, with a sign.
    pub fn apply_ledger(
        &mut self,
        command: Result<ProbeLedgerEntry, AgentExchangeDecodeError>,
        sign: i64,
    ) -> (answer: AgentExchangeResult)
        requires
            -1 <= sign <= 1,
            command is Ok ==> sign * command->Ok_0.amount <= i64::MAX,
        ensures
            (final(self)@, answer@) == old(self)@.applying_ledger(command, sign as int),
            final(self).keeps_counts(*old(self)),
            final(self).spec_address() == old(self).spec_address(),
    {
        match command {
            Err(error) => rejected(error.code, error.message),
            Ok(command) => {
                let change: i64 = if sign == 0 {
                    0
                } else if sign == 1 {
                    command.amount
                } else {
                    -command.amount
                };
                proof {
                    assert(change == sign * command.amount) by (nonlinear_arith)
                        requires
                            sign == 0 ==> change == 0,
                            sign == 1 ==> change == command.amount,
                            sign == -1 ==> change == -command.amount,
                            -1 <= sign <= 1,
                    ;
                }
                self.balance = add_to_balance(self.balance, change);
                let balance = signed_decimal_string(self.balance);
                accepted(join2("balance is now ", balance.as_str()))
            },
        }
    }
}

/// A choreography participant that records what it was asked to do. Its
/// transitions are fenced on its own state, so a replay is refused rather than
/// applied twice.
#[derive(Debug, Clone, Copy)]
pub struct ChoreographyProbe;

/// An exchange a probe sends.
#[derive(Debug)]
pub struct ProbeEnvelope {
    /// The operation the exchange replays under.
    pub operation_id: AgentOperationId,
    /// What the exchange is about.
    pub kind: AgentExchangeKind,
    /// Who sends it.
    pub initiator: AgentEntityAddress,
    /// Who receives it.
    pub target: AgentEntityAddress,
    /// The payload's type.
    pub payload_type: &'static str,
    /// The payload.
    pub command: ProbeCommand,
    /// What the exchange is correlated by: its operation.
    pub correlation_id: String,
    /// When it was sent.
    pub sent_at: AgentTimestampMillis,
}

impl ProbeCommand {
    /// The payload type of each command.
    pub open spec fn type_text(&self) -> Seq<char> {
        match self {
            ProbeCommand::Creation(_) => PROBE_CREATION_TYPE@,
            ProbeCommand::Assignment(_) => PROBE_ASSIGNMENT_TYPE@,
            ProbeCommand::Proposal(_) => PROBE_PROPOSAL_TYPE@,
            ProbeCommand::Ledger(_) => PROBE_LEDGER_TYPE@,
        }
    }

    /// The payload type of each command.
    pub fn payload_type(&self) -> (payload_type: &'static str)
        ensures
            payload_type@ == self.type_text(),
    {
        match self {
            ProbeCommand::Creation(_) => PROBE_CREATION_TYPE,
            ProbeCommand::Assignment(_) => PROBE_ASSIGNMENT_TYPE,
            ProbeCommand::Proposal(_) => PROBE_PROPOSAL_TYPE,
            ProbeCommand::Ledger(_) => PROBE_LEDGER_TYPE,
        }
    }
}

impl ChoreographyProbe {
    /// Builds the exchange envelope a probe expects for one exchange kind.
    pub fn envelope(
        kind: AgentExchangeKind,
        operation_id: AgentOperationId,
        initiator: AgentEntityAddress,
        target: AgentEntityAddress,
        now: AgentTimestampMillis,
    ) -> (envelope: ProbeEnvelope)
        ensures
            carries(kind, envelope.command),
            match envelope.command {
                ProbeCommand::Creation(command) => command.label@ == "probe"@,
                ProbeCommand::Assignment(command) => command.generation == 1,
                ProbeCommand::Proposal(command) => command.valid,
                ProbeCommand::Ledger(command) => command.amount == 10,
            },
            envelope.operation_id == operation_id,
            envelope.kind == kind,
            envelope.initiator == initiator,
            envelope.target == target,
            envelope.payload_type@ == envelope.command.type_text(),
            envelope.correlation_id@ == operation_id@,
            envelope.sent_at == now,
    {
        let command = match kind {
            AgentExchangeKind::Creation => ProbeCommand::Creation(
                ProbeCreation { label: "probe".to_owned() },
            ),
            AgentExchangeKind::Assignment => ProbeCommand::Assignment(
                ProbeAssignment { generation: 1 },
            ),
            AgentExchangeKind::ResultProposal => ProbeCommand::Proposal(
                ProbeProposal { valid: true },
            ),
            _ => ProbeCommand::Ledger(ProbeLedgerEntry { amount: 10 }),
        };
        Self::envelope_with(kind, operation_id, initiator, target, now, command)
    }

    /// Builds an envelope with an explicit payload.
    pub fn envelope_with(
        kind: AgentExchangeKind,
        operation_id: AgentOperationId,
        initiator: AgentEntityAddress,
        target: AgentEntityAddress,
        now: AgentTimestampMillis,
        command: ProbeCommand,
    ) -> (envelope: ProbeEnvelope)
        ensures
            envelope.operation_id == operation_id,
            envelope.kind == kind,
            envelope.initiator == initiator,
            envelope.target == target,
            envelope.command == command,
            envelope.payload_type@ == command.type_text(),
            envelope.correlation_id@ == operation_id@,
            envelope.sent_at == now,
    {
        let correlation_id = operation_id.as_str().to_owned();
        let payload_type = command.payload_type();
        ProbeEnvelope {
            operation_id,
            kind,
            initiator,
            target,
            payload_type,
            command,
            correlation_id,
            sent_at: now,
        }
    }

    /// A probe nothing has happened to.
    pub fn initialize(&self, address: AgentEntityAddress) -> (state: ChoreographyProbeState)
        ensures
            state@ == (ProbeModel {
                created: false,
                label: None,
                assignment_generation: 0,
                balance: 0,
                decisions: Seq::empty(),
            }),
            *state.spec_address() == address,
            forall|kind: AgentExchangeKind| #[trigger] state.spec_applied(kind) == 0,
            forall|kind: AgentExchangeKind| #[trigger] state.spec_settled(kind) == 0,
    {
        let state = ChoreographyProbeState {
            address,
            created: false,
            label: None,
            assignment_generation: 0,
            balance: 0,
            applied: ExchangeCounts::new(),
            settled: ExchangeCounts::new(),
            decisions: Vec::new(),
        };
        assert(state@.decisions =~= Seq::empty());
        state
    }

    /// Applies one exchange. Every applied exchange is a transition, whether it
    /// accepted or rejected, and counts.
    pub fn apply(
        &self,
        state: &mut ChoreographyProbeState,
        kind: AgentExchangeKind,
        command: Result<ProbeCommand, AgentExchangeDecodeError>,
    ) -> (answer: AgentExchangeResult)
        requires
            command is Ok ==> carries(kind, command->Ok_0),
            command is Ok && command->Ok_0 is Ledger ==> ledger_sign(kind)
                * command->Ok_0->Ledger_0.amount <= i64::MAX,
            old(state).spec_applied(kind) < u32::MAX,
        ensures
            (final(state)@, answer@) == old(state)@.applying(kind, command),
            final(state).spec_address() == old(state).spec_address(),
            final(state).spec_applied(kind) == old(state).spec_applied(kind) + 1,
            forall|other: AgentExchangeKind|
                other != kind ==> #[trigger] final(state).spec_applied(other) == old(
                    state,
                ).spec_applied(other),
            forall|other: AgentExchangeKind| #[trigger]
                final(state).spec_settled(other) == old(state).spec_settled(other),
    {
        let sign: i64 = match kind {
            AgentExchangeKind::BudgetAllocation | AgentExchangeKind::BudgetReturn => 1,
            AgentExchangeKind::BudgetSettlement => -1,
            _ => 0,
        };
        let answer = match command {
            Err(error) => rejected(error.code, error.message),
            Ok(ProbeCommand::Creation(command)) => state.apply_creation(Ok(command)),
            Ok(ProbeCommand::Assignment(command)) => state.apply_assignment(Ok(command)),
            Ok(ProbeCommand::Proposal(command)) => state.apply_proposal(Ok(command)),
            Ok(ProbeCommand::Ledger(command)) => state.apply_ledger(Ok(command), sign),
        };
        assert(state.keeps_counts(*old(state)));
        assert(state.spec_applied(kind) == old(state).spec_applied(kind));
        let ghost decided = *state;
        state.applied.bump(kind);
        proof {
            assert forall|other: AgentExchangeKind| other != kind implies #[trigger] state.spec_applied(
                other,
            ) == old(state).spec_applied(other) by {
                assert(decided.spec_applied(other) == old(state).spec_applied(other));
            }
            assert forall|other: AgentExchangeKind| #[trigger]
                state.spec_settled(other) == old(state).spec_settled(other) by {
                assert(decided.spec_settled(other) == old(state).spec_settled(other));
            }
        }
        answer
    }

    /// Settles one exchange this probe initiated.
    pub fn settle(
        &self,
        state: &mut ChoreographyProbeState,
        kind: AgentExchangeKind,
        result: &AgentExchangeResult,
    )
        requires
            old(state).spec_settled(kind) < u32::MAX,
        ensures
            final(state)@ == (ProbeModel {
                decisions: remembering(old(state)@.decisions, decision_of(kind, result@)),
                ..old(state)@
            }),
            final(state).spec_address() == old(state).spec_address(),
            final(state).spec_settled(kind) == old(state).spec_settled(kind) + 1,
            forall|other: AgentExchangeKind|
                other != kind ==> #[trigger] final(state).spec_settled(other) == old(
                    state,
                ).spec_settled(other),
            forall|other: AgentExchangeKind| #[trigger]
                final(state).spec_applied(other) == old(state).spec_applied(other),
    {
        state.settled.bump(kind);
        remember_decision(&mut state.decisions, kind, result);
    }
}

/// An assignment of a run.
#[derive(Debug)]
pub struct AgentRunAssignment {
    /// The run.
    pub run: AgentRunScope,
    /// The assignment's generation.
    pub generation: u64,
}

/// A run's durable acceptance of its assignment.
#[derive(Debug)]
pub struct AgentRunAcceptance {
    /// The run.
    pub run: AgentRunScope,
    /// The generation it accepted.
    pub generation: u64,
    /// When it accepted.
    pub accepted_at: AgentTimestampMillis,
}

/// How a [`RunAcceptanceProbe`] answers an exchange.
#[derive(Debug)]
#[non_exhaustive]
pub enum RunProbeAnswer {
    /// The run was cancelled; it had nothing outstanding.
    Cancelled {
        /// The run.
        run: AgentRunScope,
    },
    /// The run accepted its assignment.
    Accepted {
        /// The acceptance.
        acceptance: AgentRunAcceptance,
    },
    /// The run refused.
    Rejected {
        /// The stable code.
        code: String,
        /// The refusal in words.
        message: String,
    },
}

/// A minimal run that answers the assignment exchange and a cancellation, and
/// nothing else: it always accepts, or always refuses.
#[derive(Debug, Clone, Copy)]
pub struct RunAcceptanceProbe {
    /// Whether the run accepts its assignments.
    pub accepts: bool,
}

/// The durable state of one [`RunAcceptanceProbe`].
#[derive(Debug)]
pub struct RunAcceptanceProbeState {
    address: AgentEntityAddress,
    accepted_generations: Vec<u64>,
    decisions: Vec<ProbeDecision>,
}

impl RunAcceptanceProbeState {
    /// The address the run answers at.
    pub closed spec fn spec_address(&self) -> &AgentEntityAddress {
        &self.address
    }

    /// Every generation accepted, in order.
    pub closed spec fn generations(&self) -> Seq<u64> {
        self.accepted_generations@
    }

    /// Every decision settled, oldest first.
    pub closed spec fn spec_decisions(&self) -> Seq<DecisionModel> {
        decisions_model(self.decisions@)
    }

    /// Every assignment generation this run durably accepted, in order.
    pub fn accepted_generations(&self) -> (generations: &[u64])
        ensures
            generations@ == self.generations(),
    {
        self.accepted_generations.as_slice()
    }

    /// Every decision this run settled as an initiator, oldest first.
    pub fn decisions(&self) -> (decisions: &[ProbeDecision])
        ensures
            decisions_model(decisions@) == self.spec_decisions(),
    {
        self.decisions.as_slice()
    }
}

/// The refusal of an exchange a run does not receive.
pub open spec fn unsupported_text(kind: AgentExchangeKind) -> Seq<char> {
    "a run does not receive a "@ + kind.label_text() + " exchange"@
}

impl RunAcceptanceProbe {
    /// A run that durably accepts every assignment.
    pub fn accepting() -> (probe: Self)
        ensures
            probe.accepts,
    {
        RunAcceptanceProbe { accepts: true }
    }

    /// A run that refuses every assignment, retiring its generation.
    pub fn refusing() -> (probe: Self)
        ensures
            !probe.accepts,
    {
        RunAcceptanceProbe { accepts: false }
    }

    /// A run nothing has happened to.
    pub fn initialize(&self, address: AgentEntityAddress) -> (state: RunAcceptanceProbeState)
        ensures
            *state.spec_address() == address,
            state.generations() == Seq::<u64>::empty(),
            state.spec_decisions() == Seq::<DecisionModel>::empty(),
    {
        let state = RunAcceptanceProbeState {
            address,
            accepted_generations: Vec::new(),
            decisions: Vec::new(),
        };
        assert(state.spec_decisions() =~= Seq::<DecisionModel>::empty());
        state
    }

    /// What a run cancelled at an address reports: the run there, or a
    /// placeholder run of its tenant.
    pub open spec fn cancelled_run(address: AgentEntityAddress, run: AgentRunScope) -> bool {
        match address {
            AgentEntityAddress::Run(scope) => run == scope,
            other => {
                &&& run.tenant == other.spec_tenant()
                &&& run.agent@ == "probe"@
                &&& run.run@ == "probe"@
            },
        }
    }

    /// Whether an answer is the one this run gives an exchange.
    pub open spec fn answers(
        &self,
        address: AgentEntityAddress,
        kind: AgentExchangeKind,
        assignment: Result<AgentRunAssignment, AgentExchangeDecodeError>,
        now: AgentTimestampMillis,
        answer: RunProbeAnswer,
    ) -> bool {
        if kind is RunCancel {
            answer is Cancelled && Self::cancelled_run(address, answer->Cancelled_run)
        } else if !(kind is Assignment) {
            answer is Rejected && answer->code@ == "unsupported-exchange"@ && answer->message@
                == unsupported_text(kind)
        } else {
            match assignment {
                Err(error) => answer is Rejected && answer->code@ == error.code@
                    && answer->message@ == error.message@,
                Ok(assignment) => if !self.accepts {
                    answer is Rejected && answer->code@ == "run-refused-assignment"@
                        && answer->message@ == "the run refused its assignment"@
                } else {
                    answer == (RunProbeAnswer::Accepted {
                        acceptance: AgentRunAcceptance {
                            run: assignment.run,
                            generation: assignment.generation,
                            accepted_at: now,
                        },
                    })
                },
            }
        }
    }

    /// Answers one exchange, recording the generation of an assignment it
    /// accepts and nothing else.
    pub fn apply(
        &self,
        state: &mut RunAcceptanceProbeState,
        kind: AgentExchangeKind,
        assignment: Result<AgentRunAssignment, AgentExchangeDecodeError>,
        now: AgentTimestampMillis,
    ) -> (answer: RunProbeAnswer)
        requires
            kind is RunCancel && !(old(state).spec_address() is Run) ==> old(
                state,
            ).spec_address().spec_tenant()@.len() > 0,
        ensures
            self.answers(*old(state).spec_address(), kind, assignment, now, answer),
            final(state).generations() == (if answer is Accepted {
                old(state).generations().push(assignment->Ok_0.generation)
            } else {
                old(state).generations()
            }),
            final(state).spec_decisions() == old(state).spec_decisions(),
            final(state).spec_address() == old(state).spec_address(),
    {
        if kind == AgentExchangeKind::RunCancel {
            let run = match &state.address {
                AgentEntityAddress::Run(scope) => scope.clone(),
                other => AgentRunScope {
                    tenant: other.tenant().clone(),
                    agent: placeholder(),
                    run: placeholder(),
                },
            };
            return RunProbeAnswer::Cancelled { run };
        }
        if kind != AgentExchangeKind::Assignment {
            return RunProbeAnswer::Rejected {
                code: "unsupported-exchange".to_owned(),
                message: join3("a run does not receive a ", kind.as_label(), " exchange"),
            };
        }
        match assignment {
            Err(error) => RunProbeAnswer::Rejected { code: error.code, message: error.message },
            Ok(assignment) => {
                if !self.accepts {
                    return RunProbeAnswer::Rejected {
                        code: "run-refused-assignment".to_owned(),
                        message: "the run refused its assignment".to_owned(),
                    };
                }
                state.accepted_generations.push(assignment.generation);
                RunProbeAnswer::Accepted {
                    acceptance: AgentRunAcceptance {
                        run: assignment.run,
                        generation: assignment.generation,
                        accepted_at: now,
                    },
                }
            },
        }
    }

    /// Settles one exchange this run initiated.
    pub fn settle(
        &self,
        state: &mut RunAcceptanceProbeState,
        kind: AgentExchangeKind,
        result: &AgentExchangeResult,
    )
        ensures
            final(state).spec_decisions() == remembering(
                old(state).spec_decisions(),
                decision_of(kind, result@),
            ),
            final(state).generations() == old(state).generations(),
            final(state).spec_address() == old(state).spec_address(),
    {
        remember_decision(&mut state.decisions, kind, result);
    }
}

/// The identifier of a run that stands for none.
fn placeholder<K>() -> (id: Identifier<K>)
    ensures
        id@ == "probe"@,
{
    proof {
        reveal_strlit("probe");
    }
    Identifier::from_text("probe".to_owned())
}

impl Default for RunAcceptanceProbe {
    fn default() -> (probe: Self)
        ensures
            probe.accepts,
    {
        RunAcceptanceProbe::accepting()
    }
}

/// A probe remembers no more decisions than its capacity, and the newest is
/// always among them.
pub proof fn a_probe_remembers_its_newest_decisions(
    decisions: Seq<DecisionModel>,
    decision: DecisionModel,
)
    ensures
        remembering(decisions, decision).len() <= PROBE_DECISION_CAPACITY,
        remembering(decisions, decision).last() == decision,
{
}

/// A list of decisions after some more were settled, in order.
pub open spec fn remembering_all(
    decisions: Seq<DecisionModel>,
    settled: Seq<DecisionModel>,
) -> Seq<DecisionModel>
    decreases settled.len(),
{
    if settled.len() == 0 {
        decisions
    } else {
        remembering(remembering_all(decisions, settled.drop_last()), settled.last())
    }
}

/// The newest decisions of a list, within the capacity, oldest first.
pub open spec fn newest(decisions: Seq<DecisionModel>) -> Seq<DecisionModel> {
    if decisions.len() > PROBE_DECISION_CAPACITY {
        decisions.subrange(
            decisions.len() - PROBE_DECISION_CAPACITY,
            decisions.len() as int,
        )
    } else {
        decisions
    }
}

/// After any number of settled exchanges a probe remembers the newest of them,
/// as many as its capacity, oldest first.
pub proof fn a_probe_remembers_the_newest_of_all_it_settled(settled: Seq<DecisionModel>)
    ensures
        remembering_all(Seq::empty(), settled) == newest(settled),
    decreases settled.len(),
{
    if settled.len() == 0 {
        assert(settled =~= Seq::empty());
    } else {
        let before = settled.drop_last();
        a_probe_remembers_the_newest_of_all_it_settled(before);
        assert(before.push(settled.last()) =~= settled);
        assert(remembering(newest(before), settled.last()) =~= newest(settled));
    }
}

/// The balance moves with the ledger's payload alone, by the sign of the
/// exchange: allocations and returns credit, a settlement debits, and every
/// other exchange, every other payload and one that cannot be decoded leave it.
pub proof fn the_balance_moves_by_ledger_entries_alone(
    probe: ProbeModel,
    kind: AgentExchangeKind,
    command: Result<ProbeCommand, AgentExchangeDecodeError>,
)
    ensures
        probe.applying(kind, command).0.balance == (if command is Ok && command->Ok_0 is Ledger {
            let amount = command->Ok_0->Ledger_0.amount;
            match kind {
                AgentExchangeKind::BudgetAllocation | AgentExchangeKind::BudgetReturn =>
                saturating_balance(probe.balance, amount as int),
                AgentExchangeKind::BudgetSettlement => saturating_balance(
                    probe.balance,
                    -(amount as int),
                ),
                _ => probe.balance,
            }
        } else {
            probe.balance
        }),
{
    if command is Ok && command->Ok_0 is Ledger {
        let amount = command->Ok_0->Ledger_0.amount as int;
        assert(0 * amount == 0 && 1 * amount == amount && -1 * amount == -amount)
            by (nonlinear_arith);
    }
}

/// The assignment generation never decreases. A created probe accepts exactly
/// the newer generations, and an accepted one is refused when it is replayed.
pub proof fn a_generation_never_decreases(
    probe: ProbeModel,
    kind: AgentExchangeKind,
    command: Result<ProbeCommand, AgentExchangeDecodeError>,
)
    ensures
        probe.applying(kind, command).0.assignment_generation >= probe.assignment_generation,
        command is Ok && command->Ok_0 is Assignment ==> ({
            let generation = command->Ok_0->Assignment_0.generation;
            let (next, answer) = probe.applying(kind, command);
            &&& answer.refusal is None <==> probe.created && generation
                > probe.assignment_generation
            &&& probe.created ==> next.assignment_generation == if generation
                > probe.assignment_generation {
                generation
            } else {
                probe.assignment_generation
            }
            &&& probe.created && answer.refusal is Some ==> answer.refusal->Some_0.0
                == "stale-generation"@
            &&& !probe.created ==> next == probe && answer.refusal is Some
                && answer.refusal->Some_0.0 == "not-created"@
            &&& next.applying(kind, command).1.refusal is Some
        }),
{
}

/// A replayed creation or assignment is refused: the probe's own state fences
/// it, however late the replay comes.
pub proof fn a_replayed_transition_is_fenced(
    probe: ProbeModel,
    creation: ProbeCreation,
    assignment: ProbeAssignment,
)
    ensures
        probe.applying_creation(Ok(creation)).0.applying_creation(Ok(creation)).1.refusal is Some,
        probe.applying_assignment(Ok(assignment)).0.applying_assignment(
            Ok(assignment),
        ).1.refusal is Some,
{
}

/// An allocation and the settlement of it cancel out, wherever the balance has
/// room for both.
pub proof fn a_settlement_undoes_its_allocation(probe: ProbeModel, amount: i64)
    requires
        i64::MIN <= probe.balance + amount <= i64::MAX,
    ensures
        probe.applying_ledger(Ok(ProbeLedgerEntry { amount }), 1).0.applying_ledger(
            Ok(ProbeLedgerEntry { amount }),
            -1,
        ).0 == probe,
{
}

} // verus!
