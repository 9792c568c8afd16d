//! The exchanges of a team: those it owes its tasks, and those it has answered.
//!
//! An owed exchange stays until an answer settles it. A delivery that was answered
//! for good is answered alike when it comes again; one that was refused for now,
//! as a notice that could not be decoded, is received anew.

use vstd::prelude::*;

use crate::exchange::{
    AgentEntityAddress, AgentExchangeDecodeError, AgentExchangeKind, AgentExchangePayload,
    AgentExchangeResult, AnswerModel,
};
use crate::identity::{AgentOperationId, AgentTimestampMillis};
use crate::team::{check_bounds, size_refusal, AgentTeamOwedExchange, AgentTeamState, OwedModel, StateModel};
use crate::team_entity::{
    AgentTeamCommandAnswer, AgentTeamEntityCommand, AgentTeamEntityReply, AgentTeamStep,
};
use crate::team_error::AgentTeamError;
use crate::team_settle::{
    settles, AgentTeamExchange, AgentTeamParticipant, AgentTeamTerminalNotice,
    AgentUnsettleableRefusal,
};

verus! {

/// How many answered deliveries a team remembers.
pub const AGENT_TEAM_EXCHANGE_WINDOW: usize = 64;

/// A delivery a team has answered.
#[derive(Debug)]
pub struct AgentTeamAnsweredExchange {
    /// The delivery's operation.
    pub operation_id: AgentOperationId,
    /// The answer.
    pub answer: AgentExchangeResult,
}

/// What an answered delivery says.
pub struct AnsweredModel {
    /// The operation's text.
    pub operation_id: Seq<char>,
    /// The answer.
    pub answer: AnswerModel,
}

impl View for AgentTeamAnsweredExchange {
    type V = AnsweredModel;

    open spec fn view(&self) -> AnsweredModel {
        AnsweredModel { operation_id: self.operation_id@, answer: self.answer@ }
    }
}

/// Copies an answer.
pub fn copy_answer(answer: &AgentExchangeResult) -> (copy: AgentExchangeResult)
    ensures
        copy@ == answer@,
{
    match answer {
        AgentExchangeResult::Accepted { payload } => AgentExchangeResult::Accepted {
            payload: AgentExchangePayload {
                payload_type: payload.payload_type,
                detail: payload.detail.clone(),
            },
        },
        AgentExchangeResult::Rejected { code, message, payload } => AgentExchangeResult::Rejected {
            code: code.clone(),
            message: message.clone(),
            payload: AgentExchangePayload {
                payload_type: payload.payload_type,
                detail: payload.detail.clone(),
            },
        },
    }
}

/// The exchanges of one team.
#[derive(Debug)]
pub struct AgentTeamExchangeJournal {
    /// The exchanges the team owes its tasks, oldest first.
    pub owed: Vec<AgentTeamOwedExchange>,
    /// The deliveries it has answered, oldest first.
    pub answered: Vec<AgentTeamAnsweredExchange>,
}

/// What a journal holds.
pub struct JournalModel {
    /// The owed exchanges, oldest first.
    pub owed: Seq<OwedModel>,
    /// The answered deliveries, oldest first.
    pub answered: Seq<AnsweredModel>,
}

impl View for AgentTeamExchangeJournal {
    type V = JournalModel;

    open spec fn view(&self) -> JournalModel {
        JournalModel {
            owed: self.owed@.map_values(|owed: AgentTeamOwedExchange| owed@),
            answered: self.answered@.map_values(|answered: AgentTeamAnsweredExchange| answered@),
        }
    }
}

/// The answer first given to an operation, from a position on.
pub open spec fn answer_given(
    answered: Seq<AnsweredModel>,
    operation: Seq<char>,
    from: nat,
) -> Option<AnswerModel>
    decreases answered.len() - from,
{
    if from >= answered.len() {
        None
    } else if answered[from as int].operation_id == operation {
        Some(answered[from as int].answer)
    } else {
        answer_given(answered, operation, from + 1)
    }
}

/// The position of the first exchange owed under an operation, from a position
/// on.
pub open spec fn owed_position(owed: Seq<OwedModel>, operation: Seq<char>, from: nat) -> nat
    decreases owed.len() - from,
{
    if from >= owed.len() {
        owed.len()
    } else if owed[from as int].operation_id == operation {
        from
    } else {
        owed_position(owed, operation, from + 1)
    }
}

/// Answered deliveries with one more; the oldest go beyond the window.
pub open spec fn remembering(answered: Seq<AnsweredModel>, entry: AnsweredModel) -> Seq<
    AnsweredModel,
> {
    let longer = answered.push(entry);
    if longer.len() > AGENT_TEAM_EXCHANGE_WINDOW {
        longer.subrange(longer.len() - AGENT_TEAM_EXCHANGE_WINDOW, longer.len() as int)
    } else {
        longer
    }
}

impl AgentTeamExchangeJournal {
    /// A journal of a team that has exchanged nothing.
    pub fn new() -> (journal: Self)
        ensures
            journal@ == (JournalModel { owed: Seq::empty(), answered: Seq::empty() }),
    {
        let journal = AgentTeamExchangeJournal { owed: Vec::new(), answered: Vec::new() };
        assert(journal@.owed =~= Seq::empty());
        assert(journal@.answered =~= Seq::empty());
        journal
    }

    /// Adds an exchange the team owes.
    fn owe(&mut self, owed: AgentTeamOwedExchange)
        ensures
            final(self)@ == (JournalModel { owed: old(self)@.owed.push(owed@), ..old(self)@ }),
    {
        self.owed.push(owed);
        assert(self@.owed =~= old(self)@.owed.push(owed@));
    }

    /// The answer the team gave to an operation, if it remembers one.
    pub fn answer(&self, operation_id: &AgentOperationId) -> (answer: Option<&AgentExchangeResult>)
        ensures
            match answer {
                Some(answer) => answer_given(self@.answered, operation_id@, 0) == Some(answer@),
                None => answer_given(self@.answered, operation_id@, 0) is None,
            },
    {
        let mut i: usize = 0;
        while i < self.answered.len()
            invariant
                i <= self.answered@.len(),
                answer_given(self@.answered, operation_id@, 0) == answer_given(
                    self@.answered,
                    operation_id@,
                    i as nat,
                ),
            decreases self.answered.len() - i,
        {
            if self.answered[i].operation_id.same(operation_id) {
                return Some(&self.answered[i].answer);
            }
            i = i + 1;
        }
        None
    }

    /// Remembers the answer given to an operation, forgetting the oldest beyond
    /// the window.
    fn remember(&mut self, operation_id: &AgentOperationId, answer: AgentExchangeResult)
        ensures
            final(self)@ == (JournalModel {
                answered: remembering(
                    old(self)@.answered,
                    AnsweredModel { operation_id: operation_id@, answer: answer@ },
                ),
                ..old(self)@
            }),
    {
        let ghost entry = AnsweredModel { operation_id: operation_id@, answer: answer@ };
        self.answered.push(
            AgentTeamAnsweredExchange { operation_id: operation_id.clone(), answer },
        );
        let ghost longer = self.answered@;
        let ghost mut dropped: int = 0;
        proof {
            assert(self@.answered =~= old(self)@.answered.push(entry));
            assert(longer.subrange(0, longer.len() as int) =~= longer);
        }
        while self.answered.len() > AGENT_TEAM_EXCHANGE_WINDOW
            invariant
                0 <= dropped <= longer.len(),
                self.owed == old(self).owed,
                self.answered@ == longer.subrange(dropped, longer.len() as int),
                dropped > 0 ==> longer.len() - dropped >= AGENT_TEAM_EXCHANGE_WINDOW,
            decreases self.answered.len(),
        {
            self.answered.remove(0);
            proof {
                dropped = dropped + 1;
                assert(self.answered@ =~= longer.subrange(dropped, longer.len() as int));
            }
        }
        proof {
            assert(self@.answered =~= remembering(old(self)@.answered, entry));
        }
    }

    /// The position of the first exchange owed under an operation.
    fn find_owed(&self, operation_id: &AgentOperationId) -> (position: usize)
        ensures
            position == owed_position(self@.owed, operation_id@, 0),
            position <= self.owed@.len(),
    {
        let mut i: usize = 0;
        while i < self.owed.len()
            invariant
                i <= self.owed@.len(),
                owed_position(self@.owed, operation_id@, 0) == owed_position(
                    self@.owed,
                    operation_id@,
                    i as nat,
                ),
            decreases self.owed.len() - i,
        {
            if self.owed[i].operation_id.same(operation_id) {
                return i;
            }
            i = i + 1;
        }
        i
    }
}

/// One team entity as it is stored: its state and its exchanges, written
/// together.
#[derive(Debug)]
pub struct AgentTeamEntity {
    /// The state.
    pub state: AgentTeamState,
    /// The exchanges.
    pub journal: AgentTeamExchangeJournal,
}

/// What a team entity holds.
pub struct EntityModel {
    /// The state.
    pub state: StateModel,
    /// The exchanges.
    pub journal: JournalModel,
}

impl View for AgentTeamEntity {
    type V = EntityModel;

    open spec fn view(&self) -> EntityModel {
        EntityModel { state: self.state@, journal: self.journal@ }
    }
}

/// A reply to a command, and whether the new state must be measured before it is
/// stored.
#[derive(Debug)]
pub struct AgentTeamCommandReply {
    /// The reply.
    pub reply: AgentTeamEntityReply,
    /// Whether the state must be measured.
    pub measure: bool,
}

/// The answer to a delivery, and whether it was given before.
#[derive(Debug)]
pub struct AgentTeamDeliveryReply {
    /// The answer.
    pub answer: AgentExchangeResult,
    /// Whether the delivery came again.
    pub replayed: bool,
}

impl EntityModel {
    /// After a command: the exchange a transition owes is in the journal with it.
    pub open spec fn commanded(
        self,
        command: AgentTeamEntityCommand,
        now: AgentTimestampMillis,
    ) -> EntityModel {
        EntityModel {
            state: self.state.commanded(command, now),
            journal: if self.state.answers(command) || !self.state.accepts(command, now) {
                self.journal
            } else {
                match self.state.moving(command, now).1 {
                    Some(owed) => JournalModel {
                        owed: self.journal.owed.push(owed),
                        ..self.journal
                    },
                    None => self.journal,
                }
            },
        }
    }

    /// After a delivery, with its answer and whether it came again: one that did
    /// changes nothing. Only an answer that settles the delivery is remembered.
    pub open spec fn accepting(
        self,
        operation: Seq<char>,
        exchange: AgentTeamExchange,
        initiator: AgentEntityAddress,
        now: AgentTimestampMillis,
    ) -> (EntityModel, AnswerModel, bool) {
        match answer_given(self.journal.answered, operation, 0) {
            Some(answer) => (self, answer, true),
            None => {
                let (next, answer) = self.state.receiving(operation, exchange, initiator, now);
                (
                    EntityModel {
                        state: next,
                        journal: JournalModel {
                            answered: if settles(exchange.spec_kind(), answer) {
                                remembering(
                                    self.journal.answered,
                                    AnsweredModel { operation_id: operation, answer },
                                )
                            } else {
                                self.journal.answered
                            },
                            ..self.journal
                        },
                    },
                    answer,
                    false,
                )
            },
        }
    }

    /// Whether an exchange is owed under an operation.
    pub open spec fn owes(self, operation: Seq<char>) -> bool {
        owed_position(self.journal.owed, operation, 0) < self.journal.owed.len()
    }

    /// After an answer to an owed exchange: one that settles it moves the board
    /// and takes the exchange out of the journal; any other leaves it owed.
    pub open spec fn settling(
        self,
        operation: Seq<char>,
        answer: AnswerModel,
        now: AgentTimestampMillis,
    ) -> EntityModel {
        if !self.owes(operation) || !settles(AgentExchangeKind::TeamClaim, answer) {
            self
        } else {
            let position = owed_position(self.journal.owed, operation, 0) as int;
            let owed = self.journal.owed[position];
            EntityModel {
                state: self.state.settling_action(operation, owed.command, answer, now),
                journal: JournalModel {
                    owed: self.journal.owed.remove(position),
                    ..self.journal
                },
            }
        }
    }
}

impl AgentTeamEntity {
    /// Applies one command; the exchange its transition owes enters the journal
    /// with it.
    pub fn apply_command(&mut self, command: AgentTeamEntityCommand, now: AgentTimestampMillis) -> (result:
        Result<AgentTeamCommandReply, AgentTeamError>)
        requires
            !old(self)@.state.answers(command) ==> old(self)@.state.has_room(command),
        ensures
            final(self)@ == old(self)@.commanded(command, now),
            old(self)@.state.answers(command) ==> {
                &&& result is Ok
                &&& !result->Ok_0.measure
                &&& old(self).state.is_answer(command, result->Ok_0.reply)
            },
            !old(self)@.state.answers(command) && old(self)@.state.accepts(command, now) ==> {
                let moved = old(self)@.state.moving(command, now).0;
                &&& result is Ok
                &&& result->Ok_0.reply is Applied
                &&& result->Ok_0.reply->Applied_outcome@ == moved.outcome_for(command.touched())
                &&& result->Ok_0.measure == command.grows()
            },
            !old(self)@.state.answers(command) && !old(self)@.state.accepts(command, now) ==> {
                &&& result is Err
                &&& old(self)@.state.refuses(command, now, result->Err_0)
            },
    {
        match self.state.apply_command(command, now) {
            Err(error) => Err(error),
            Ok(AgentTeamCommandAnswer::Known { reply }) => Ok(
                AgentTeamCommandReply { reply, measure: false },
            ),
            Ok(AgentTeamCommandAnswer::Stepped { step }) => {
                let AgentTeamStep { outcome, owed, measure } = step;
                if let Some(owed) = owed {
                    self.journal.owe(owed);
                }
                Ok(
                    AgentTeamCommandReply {
                        reply: AgentTeamEntityReply::Applied { outcome },
                        measure,
                    },
                )
            },
        }
    }

    /// Accepts one delivered exchange. One that was answered for good is answered
    /// alike when it comes again, and changes nothing; one that was not is
    /// received anew.
    pub fn accept(
        &mut self,
        operation_id: &AgentOperationId,
        exchange: AgentTeamExchange,
        initiator: &AgentEntityAddress,
        now: AgentTimestampMillis,
    ) -> (reply: AgentTeamDeliveryReply)
        requires
            answer_given(old(self)@.journal.answered, operation_id@, 0) is None && old(
                self,
            )@.state.receiving(operation_id@, exchange, *initiator, now).0 != old(self)@.state
                ==> old(self)@.state.next_sequence < u64::MAX,
        ensures
            (final(self)@, reply.answer@, reply.replayed) == old(self)@.accepting(
                operation_id@,
                exchange,
                *initiator,
                now,
            ),
    {
        if let Some(answer) = self.journal.answer(operation_id) {
            return AgentTeamDeliveryReply { answer: copy_answer(answer), replayed: true };
        }
        let kind = exchange.kind();
        let answer = AgentTeamParticipant.apply(
            &mut self.state,
            operation_id,
            exchange,
            initiator,
            now,
        );
        if AgentTeamParticipant.check_settle(kind, &answer).is_ok() {
            self.journal.remember(operation_id, copy_answer(&answer));
        }
        AgentTeamDeliveryReply { answer, replayed: false }
    }

    /// Settles an owed exchange with its task's answer, returning whether one was
    /// owed; an answer that is not for good leaves it owed.
    pub fn settle(
        &mut self,
        operation_id: &AgentOperationId,
        answer: &AgentExchangeResult,
        now: AgentTimestampMillis,
    ) -> (result: Result<bool, AgentUnsettleableRefusal>)
        requires
            old(self)@.settling(operation_id@, answer@, now).state != old(self)@.state ==> old(
                self,
            )@.state.next_sequence < u64::MAX,
        ensures
            final(self)@ == old(self)@.settling(operation_id@, answer@, now),
            result is Ok <==> !old(self)@.owes(operation_id@) || settles(
                AgentExchangeKind::TeamClaim,
                answer@,
            ),
            result is Ok ==> result->Ok_0 == old(self)@.owes(operation_id@),
            result is Err ==> result->Err_0.kind == AgentExchangeKind::TeamClaim
                && result->Err_0.code@ == answer@.refusal->Some_0.0,
    {
        let position: usize = self.journal.find_owed(operation_id);
        if position >= self.journal.owed.len() {
            return Ok(false);
        }
        match AgentTeamParticipant.check_settle(AgentExchangeKind::TeamClaim, answer) {
            Err(refusal) => Err(refusal),
            Ok(_) => {
                let owed = self.journal.owed.remove(position);
                proof {
                    assert(self.journal@.owed =~= old(self)@.journal.owed.remove(position as int));
                }
                self.state.settle_claim_action(operation_id, &owed.command, answer, now);
                Ok(true)
            },
        }
    }
}

/// Concludes a command by the size its team would be stored with.
///
/// `before` is the entity before the command, `after` and `reply` are what
/// [`AgentTeamEntity::apply_command`] made of it, and `bytes` is the size of the
/// team in `after`. A command that must be measured and whose team exceeds the
/// bound is refused, and the entity is the one before it: no state, log, history
/// or exchange of the command is left. Any other stands.
pub fn conclude_command(
    before: AgentTeamEntity,
    after: AgentTeamEntity,
    reply: AgentTeamCommandReply,
    bytes: usize,
) -> (concluded: (AgentTeamEntity, Result<AgentTeamEntityReply, AgentTeamError>))
    ensures
        concluded == (match size_refusal(bytes) {
            Some(error) if reply.measure => (
                before,
                Err::<AgentTeamEntityReply, AgentTeamError>(error),
            ),
            _ => (after, Ok(reply.reply)),
        }),
        forall|command: AgentTeamEntityCommand, now: AgentTimestampMillis|
            after@ == #[trigger] before@.commanded(command, now) && reply.measure == (
            !before@.state.answers(command) && command.grows()) ==> concluded.0@
                == before@.commanded_within(command, now, bytes),
{
    if reply.measure {
        if let Err(error) = check_bounds(bytes) {
            return (before, Err(error));
        }
    }
    (after, Ok(reply.reply))
}

impl EntityModel {
    /// After a command whose team would be stored with a size: a command that
    /// grows the team beyond the bound leaves the entity as it was.
    pub open spec fn commanded_within(
        self,
        command: AgentTeamEntityCommand,
        now: AgentTimestampMillis,
        bytes: usize,
    ) -> EntityModel {
        if command.grows() && size_refusal(bytes) is Some {
            self
        } else {
            self.commanded(command, now)
        }
    }
}

/// A command that would grow its team beyond the bound leaves no trace: state,
/// log, owed history and exchanges are as before, and its operation is not
/// taken for resolved.
pub proof fn an_oversized_command_leaves_no_trace(
    entity: EntityModel,
    command: AgentTeamEntityCommand,
    now: AgentTimestampMillis,
    bytes: usize,
)
    requires
        command.grows(),
        size_refusal(bytes) is Some,
        !entity.state.answers(command),
    ensures
        entity.commanded_within(command, now, bytes) == entity,
        !entity.commanded_within(command, now, bytes).state.answers(command),
{
}

/// Whether answered deliveries hold an entry as the first of its operation, with
/// as many behind it.
spec fn holds(answered: Seq<AnsweredModel>, entry: AnsweredModel, newer: nat) -> bool {
    let position = answered.len() - 1 - newer;
    &&& position >= 0
    &&& answered[position] == entry
    &&& forall|i: int|
        0 <= i < position ==> (#[trigger] answered[i]).operation_id != entry.operation_id
}

proof fn lemma_holds(answered: Seq<AnsweredModel>, entry: AnsweredModel, newer: nat, from: nat)
    requires
        holds(answered, entry, newer),
        from <= answered.len() - 1 - newer,
    ensures
        answer_given(answered, entry.operation_id, from) == Some(entry.answer),
    decreases answered.len() - from,
{
    if from < answered.len() - 1 - newer {
        lemma_holds(answered, entry, newer, from + 1);
    }
}

proof fn lemma_not_given(answered: Seq<AnsweredModel>, operation: Seq<char>, from: nat)
    requires
        answer_given(answered, operation, from) is None,
    ensures
        forall|i: int| from <= i < answered.len() ==> (#[trigger] answered[i]).operation_id
            != operation,
    decreases answered.len() - from,
{
    if from < answered.len() {
        lemma_not_given(answered, operation, from + 1);
    }
}

/// Answered deliveries after more were remembered, in order.
pub open spec fn remembering_all(
    answered: Seq<AnsweredModel>,
    entries: Seq<AnsweredModel>,
) -> Seq<AnsweredModel>
    decreases entries.len(),
{
    if entries.len() == 0 {
        answered
    } else {
        remembering_all(remembering(answered, entries[0]), entries.drop_first())
    }
}

proof fn lemma_still_held(
    answered: Seq<AnsweredModel>,
    entry: AnsweredModel,
    newer: nat,
    entries: Seq<AnsweredModel>,
)
    requires
        holds(answered, entry, newer),
        newer + entries.len() < AGENT_TEAM_EXCHANGE_WINDOW,
    ensures
        answer_given(remembering_all(answered, entries), entry.operation_id, 0) == Some(
            entry.answer,
        ),
    decreases entries.len(),
{
    if entries.len() == 0 {
        lemma_holds(answered, entry, newer, 0);
    } else {
        let longer = answered.push(entries[0]);
        let next = remembering(answered, entries[0]);
        let dropped = longer.len() - next.len();
        assert forall|i: int| 0 <= i < next.len() implies #[trigger] next[i] == longer[i
            + dropped] by {}
        assert(holds(next, entry, newer + 1));
        lemma_still_held(next, entry, newer + 1, entries.drop_first());
    }
}

/// A delivery that was answered for good is answered alike when it comes again and
/// changes nothing, whatever became of the team in between, as long as fewer
/// deliveries than the window holds were remembered since.
pub proof fn a_delivery_is_accepted_once(
    entity: EntityModel,
    operation: Seq<char>,
    exchange: AgentTeamExchange,
    initiator: AgentEntityAddress,
    now: AgentTimestampMillis,
    later: EntityModel,
    since: Seq<AnsweredModel>,
    again: AgentTeamExchange,
    again_from: AgentEntityAddress,
    again_at: AgentTimestampMillis,
)
    requires
        answer_given(entity.journal.answered, operation, 0) is None,
        settles(
            exchange.spec_kind(),
            entity.accepting(operation, exchange, initiator, now).1,
        ),
        since.len() < AGENT_TEAM_EXCHANGE_WINDOW,
        later.journal.answered == remembering_all(
            entity.accepting(operation, exchange, initiator, now).0.journal.answered,
            since,
        ),
    ensures
        later.accepting(operation, again, again_from, again_at) == (
            later,
            entity.accepting(operation, exchange, initiator, now).1,
            true,
        ),
{
    let answer = entity.accepting(operation, exchange, initiator, now).1;
    let entry = AnsweredModel { operation_id: operation, answer };
    let answered = entity.journal.answered;
    let longer = answered.push(entry);
    let next = remembering(answered, entry);
    let dropped = longer.len() - next.len();
    lemma_not_given(answered, operation, 0);
    assert forall|i: int| 0 <= i < next.len() implies #[trigger] next[i] == longer[i
        + dropped] by {}
    assert(holds(next, entry, 0));
    lemma_still_held(next, entry, 0, since);
}

/// A delivery that was not answered for good leaves the journal as it was, so the
/// next delivery of its operation is received anew, whatever it then holds.
pub proof fn a_delivery_refused_for_now_is_received_anew(
    entity: EntityModel,
    operation: Seq<char>,
    exchange: AgentTeamExchange,
    initiator: AgentEntityAddress,
    now: AgentTimestampMillis,
    again: AgentTeamExchange,
    again_from: AgentEntityAddress,
    again_at: AgentTimestampMillis,
)
    requires
        answer_given(entity.journal.answered, operation, 0) is None,
        !settles(
            exchange.spec_kind(),
            entity.accepting(operation, exchange, initiator, now).1,
        ),
    ensures
        ({
            let refused = entity.accepting(operation, exchange, initiator, now).0;
            let (next, answer, replayed) = refused.accepting(
                operation,
                again,
                again_from,
                again_at,
            );
            &&& refused == entity
            &&& !replayed
            &&& (next.state, answer) == entity.state.receiving(
                operation,
                again,
                again_from,
                again_at,
            )
        }),
{
    let (next, answer) = entity.state.receiving(operation, exchange, initiator, now);
    assert(answer.refusal is Some);
    assert(next == entity.state);
}

/// A terminal notice that could not be decoded is not answered for good, and
/// closes its entry once a delivery of it can be.
pub proof fn an_undecodable_notice_closes_once_it_is_decoded(
    entity: EntityModel,
    operation: Seq<char>,
    error: AgentExchangeDecodeError,
    initiator: AgentEntityAddress,
    now: AgentTimestampMillis,
    notice: AgentTeamTerminalNotice,
    later: AgentTimestampMillis,
)
    requires
        answer_given(entity.journal.answered, operation, 0) is None,
        entity.state.team is Some,
        initiator.is_task(&notice.task),
    ensures
        ({
            let (first, answer, _) = entity.accepting(
                operation,
                AgentTeamExchange::TerminalNotice(Err(error)),
                initiator,
                now,
            );
            let (second, accepted, replayed) = first.accepting(
                operation,
                AgentTeamExchange::TerminalNotice(Ok(notice)),
                initiator,
                later,
            );
            &&& answer.refusal is Some
            &&& first == entity
            &&& accepted.refusal is None
            &&& !replayed
            &&& second.state == entity.state.closing(
                operation,
                notice.task.task@,
                notice.terminal_reason@,
                later,
            )
        }),
{
    reveal_strlit("team-terminal-notice-undecodable");
    reveal_strlit("team-terminal-notice-forged");
    reveal_strlit("team-not-found");
    assert("team-terminal-notice-undecodable"@.len() != "team-terminal-notice-forged"@.len());
    assert("team-terminal-notice-undecodable"@.len() != "team-not-found"@.len());
}

/// An owed exchange is lost by nothing but its own settlement: a command only
/// adds to what is owed, a delivery leaves it alone, and an answer takes out the
/// one exchange it settles.
pub proof fn an_owed_exchange_stays_until_it_is_settled(
    entity: EntityModel,
    command: AgentTeamEntityCommand,
    operation: Seq<char>,
    exchange: AgentTeamExchange,
    initiator: AgentEntityAddress,
    answer: AnswerModel,
    now: AgentTimestampMillis,
)
    ensures
        entity.journal.owed.is_prefix_of(entity.commanded(command, now).journal.owed),
        entity.accepting(operation, exchange, initiator, now).0.journal.owed
            == entity.journal.owed,
        !settles(AgentExchangeKind::TeamClaim, answer) ==> entity.settling(
            operation,
            answer,
            now,
        ) == entity,
        forall|owed: OwedModel| #[trigger]
            entity.journal.owed.contains(owed) && owed.operation_id != operation
                ==> entity.settling(operation, answer, now).journal.owed.contains(owed),
{
    if entity.owes(operation) {
        let position = owed_position(entity.journal.owed, operation, 0) as int;
        lemma_position_names(entity.journal.owed, operation, 0);
        let left = entity.journal.owed.remove(position);
        assert forall|owed: OwedModel| #[trigger]
            entity.journal.owed.contains(owed) && owed.operation_id
                != operation implies left.contains(owed) by {
            let i = entity.journal.owed.index_of(owed);
            if i < position {
                assert(left[i] == owed);
            } else {
                assert(left[i - 1] == owed);
            }
        }
    }
}

proof fn lemma_position_names(owed: Seq<OwedModel>, operation: Seq<char>, from: nat)
    ensures
        owed_position(owed, operation, from) < owed.len() ==> owed[owed_position(
            owed,
            operation,
            from,
        ) as int].operation_id == operation,
    decreases owed.len() - from,
{
    if from < owed.len() {
        lemma_position_names(owed, operation, from + 1);
    }
}

} // verus!
