//! What every team transition keeps.

use vstd::prelude::*;

use crate::exchange::AnswerModel;
use crate::identity::{AgentId, AgentTaskId, AgentTimestampMillis};
use crate::team::{
    first_unaccepted, logged_outcome, logging, ClaimCommandModel, LogModel, StateModel,
    AGENT_TEAM_OPERATION_LOG_CAPACITY, CURRENT_AGENT_TEAM_STATE_SCHEMA_VERSION,
};
use crate::team_board::{AgentTeamBoardEntryStatus, AgentTeamStatus, TeamModel};
use crate::team_commands::{board_for_post, entry_in_flight, first_members, ringed, without_done};
use crate::team_entity::AgentTeamEntityCommand;
use crate::team_history::{
    detail_text, HistoryModel, CURRENT_AGENT_TEAM_HISTORY_SCHEMA_VERSION,
};
use crate::team_settle::AgentTeamClaimResultNotice;

verus! {

/// A log finds an operation it has just remembered, if it did not know it.
proof fn lemma_logged(log: Seq<LogModel>, entry: LogModel, from: nat)
    requires
        from <= log.len(),
        forall|i: int|
            from <= i < log.len() ==> (#[trigger] log[i]).operation_id != entry.operation_id,
    ensures
        logged_outcome(log.push(entry), entry.operation_id, from) == Some(entry.outcome),
    decreases log.len() - from,
{
    let longer = log.push(entry);
    if from < log.len() {
        assert(longer[from as int] == log[from as int]);
        lemma_logged(log, entry, from + 1);
    } else {
        assert(longer[from as int] == entry);
    }
}

proof fn lemma_not_logged(log: Seq<LogModel>, operation: Seq<char>, from: nat)
    requires
        logged_outcome(log, operation, from) is None,
    ensures
        forall|i: int| from <= i < log.len() ==> (#[trigger] log[i]).operation_id != operation,
    decreases log.len() - from,
{
    if from < log.len() {
        lemma_not_logged(log, operation, from + 1);
    }
}

/// A replay converges on one decision: once a command applied, the state
/// answers its operation with the original outcome.
pub proof fn a_resolved_operation_is_remembered(
    state: StateModel,
    command: AgentTeamEntityCommand,
    now: AgentTimestampMillis,
)
    requires
        !(command is Describe),
        logged_outcome(state.log, command.spec_operation_id()->Some_0@, 0) is None,
        state.log.len() <= AGENT_TEAM_OPERATION_LOG_CAPACITY,
    ensures
        logged_outcome(
            state.applying(command, now).log,
            command.spec_operation_id()->Some_0@,
            0,
        ) == Some(state.moving(command, now).0.outcome_for(command.touched())),
        state.applying(command, now).log.len() <= AGENT_TEAM_OPERATION_LOG_CAPACITY,
{
    let moved = state.moving(command, now).0;
    let operation = command.spec_operation_id()->Some_0@;
    assert(moved.log == state.log);
    let entry = LogModel { operation_id: operation, outcome: moved.outcome_for(command.touched()) };
    lemma_not_logged(state.log, operation, 0);
    let next = logging(state.log, entry);
    if state.log.len() < AGENT_TEAM_OPERATION_LOG_CAPACITY {
        lemma_logged(state.log, entry, 0);
    } else {
        let shorter = state.log.drop_first();
        assert(next =~= shorter.push(entry));
        assert forall|i: int| 0 <= i < shorter.len() implies (#[trigger] shorter[i]).operation_id
            != operation by {
            assert(shorter[i] == state.log[i + 1]);
        }
        lemma_logged(shorter, entry, 0);
    }
}

/// One thing that befalls a team.
pub enum TeamEvent {
    /// A command arrives.
    Command {
        /// The command.
        command: AgentTeamEntityCommand,
        /// When.
        now: AgentTimestampMillis,
    },
    /// A passed expiry horizon is observed.
    Expiry {
        /// When.
        now: AgentTimestampMillis,
    },
    /// The answer to a claim action the team owed its task arrives.
    Settlement {
        /// The exchange's operation.
        operation: Seq<char>,
        /// The claim action.
        action: ClaimCommandModel,
        /// The task's answer.
        answer: AnswerModel,
        /// When.
        now: AgentTimestampMillis,
    },
    /// A claim's result arrives.
    ClaimResult {
        /// The exchange's operation.
        operation: Seq<char>,
        /// The notice.
        notice: AgentTeamClaimResultNotice,
        /// When.
        now: AgentTimestampMillis,
    },
    /// A task's terminal notice arrives.
    Closing {
        /// The exchange's operation.
        operation: Seq<char>,
        /// The task.
        task: Seq<char>,
        /// Why it ended.
        reason: Seq<char>,
        /// When.
        now: AgentTimestampMillis,
    },
    /// Flushed history is forgotten.
    Flush {
        /// The history that is still owed.
        owed: Seq<HistoryModel>,
    },
}

/// A state after an event.
pub open spec fn after_event(state: StateModel, event: TeamEvent) -> StateModel {
    match event {
        TeamEvent::Command { command, now } => state.commanded(command, now),
        TeamEvent::Expiry { now } => if state.would_expire(now) {
            state.expiring(now)
        } else {
            state
        },
        TeamEvent::Settlement { operation, action, answer, now } => state.settling_action(
            operation,
            action,
            answer,
            now,
        ),
        TeamEvent::ClaimResult { operation, notice, now } => state.settling_result(
            operation,
            notice,
            now,
        ),
        TeamEvent::Closing { operation, task, reason, now } => state.closing(
            operation,
            task,
            reason,
            now,
        ),
        TeamEvent::Flush { owed } => StateModel { pending_history: owed, ..state },
    }
}

/// A state after events, in order.
pub open spec fn after_events(state: StateModel, events: Seq<TeamEvent>) -> StateModel
    decreases events.len(),
{
    if events.len() == 0 {
        state
    } else {
        after_events(after_event(state, events[0]), events.drop_first())
    }
}

/// How many of the events are commands.
pub open spec fn commands_among(events: Seq<TeamEvent>) -> nat
    decreases events.len(),
{
    if events.len() == 0 {
        0
    } else {
        commands_among(events.drop_first()) + if events[0] is Command {
            1nat
        } else {
            0nat
        }
    }
}

/// Whether a state, and all the history it owes, is written under the current
/// schema versions.
pub open spec fn is_current(state: StateModel) -> bool {
    state.schema_refusal(
        seq![CURRENT_AGENT_TEAM_STATE_SCHEMA_VERSION],
        seq![CURRENT_AGENT_TEAM_HISTORY_SCHEMA_VERSION],
    ) is None
}

proof fn lemma_all_accepted(entries: Seq<HistoryModel>, accepted: Seq<u32>, from: nat)
    ensures
        first_unaccepted(entries, accepted, from) is None <==> forall|i: int|
            from <= i < entries.len() ==> accepted.contains(
                (#[trigger] entries[i]).schema_version,
            ),
    decreases entries.len() - from,
{
    if from < entries.len() {
        lemma_all_accepted(entries, accepted, from + 1);
    }
}

/// A state passes the schema check exactly when its own version and that of every
/// history entry it owes are accepted.
pub proof fn a_state_is_accepted_by_its_versions(
    state: StateModel,
    states: Seq<u32>,
    histories: Seq<u32>,
)
    ensures
        state.schema_refusal(states, histories) is None <==> states.contains(
            state.schema_version,
        ) && forall|i: int|
            0 <= i < state.pending_history.len() ==> histories.contains(
                (#[trigger] state.pending_history[i]).schema_version,
            ),
{
    lemma_all_accepted(state.pending_history, histories, 0);
}

/// A current state stays current whatever befalls the team: no event changes the
/// state's version, and every history entry it adds carries the current one.
pub proof fn a_current_state_stays_current(state: StateModel, event: TeamEvent)
    requires
        is_current(state),
        event is Flush ==> forall|i: int|
            0 <= i < event->owed.len() ==> state.pending_history.contains(
                #[trigger] event->owed[i],
            ),
    ensures
        is_current(after_event(state, event)),
{
    let states = seq![CURRENT_AGENT_TEAM_STATE_SCHEMA_VERSION];
    let histories = seq![CURRENT_AGENT_TEAM_HISTORY_SCHEMA_VERSION];
    let next = after_event(state, event);
    a_state_is_accepted_by_its_versions(state, states, histories);
    a_state_is_accepted_by_its_versions(next, states, histories);
    assert(histories[0] == CURRENT_AGENT_TEAM_HISTORY_SCHEMA_VERSION);
    assert(next.schema_version == state.schema_version);
    if event is Flush {
        assert forall|i: int| 0 <= i < next.pending_history.len() implies histories.contains(
            (#[trigger] next.pending_history[i]).schema_version,
        ) by {
            let k = state.pending_history.index_of(event->owed[i]);
            assert(state.pending_history[k] == event->owed[i]);
        }
    } else {
        assert forall|i: int|
            state.pending_history.len() <= i < next.pending_history.len() implies (
        #[trigger] next.pending_history[i]).schema_version
            == CURRENT_AGENT_TEAM_HISTORY_SCHEMA_VERSION by {}
        assert forall|i: int| 0 <= i < state.pending_history.len() implies (
        #[trigger] next.pending_history[i]) == state.pending_history[i] by {}
    }
}

/// Whether a log remembers an outcome as the first of its operation, with as
/// many operations behind it.
spec fn recalls(log: Seq<LogModel>, entry: LogModel, newer: nat) -> bool {
    let position = log.len() - 1 - newer;
    &&& position >= 0
    &&& log[position] == entry
    &&& forall|i: int|
        0 <= i < position ==> (#[trigger] log[i]).operation_id != entry.operation_id
}

proof fn lemma_recalled(log: Seq<LogModel>, entry: LogModel, newer: nat, from: nat)
    requires
        recalls(log, entry, newer),
        from <= log.len() - 1 - newer,
    ensures
        logged_outcome(log, entry.operation_id, from) == Some(entry.outcome),
    decreases log.len() - from,
{
    if from < log.len() - 1 - newer {
        lemma_recalled(log, entry, newer, from + 1);
    }
}

proof fn lemma_recalled_after_one(
    log: Seq<LogModel>,
    entry: LogModel,
    newer: nat,
    added: LogModel,
)
    requires
        recalls(log, entry, newer),
        newer + 1 < AGENT_TEAM_OPERATION_LOG_CAPACITY,
    ensures
        recalls(logging(log, added), entry, newer + 1),
{
    let longer = log.push(added);
    let next = logging(log, added);
    let dropped = longer.len() - next.len();
    assert forall|i: int| 0 <= i < next.len() implies #[trigger] next[i] == longer[i + dropped] by {
    }
}

proof fn lemma_recalled_after_events(
    state: StateModel,
    entry: LogModel,
    newer: nat,
    events: Seq<TeamEvent>,
)
    requires
        recalls(state.log, entry, newer),
        newer + commands_among(events) < AGENT_TEAM_OPERATION_LOG_CAPACITY,
    ensures
        logged_outcome(after_events(state, events).log, entry.operation_id, 0) == Some(
            entry.outcome,
        ),
    decreases events.len(),
{
    if events.len() == 0 {
        lemma_recalled(state.log, entry, newer, 0);
    } else {
        let next = after_event(state, events[0]);
        let rest = events.drop_first();
        match events[0] {
            TeamEvent::Command { command, now } => {
                if next.log == state.log {
                    lemma_recalled_after_events(next, entry, newer, rest);
                } else {
                    let moved = state.moving(command, now).0;
                    assert(moved.log == state.log);
                    lemma_recalled_after_one(
                        state.log,
                        entry,
                        newer,
                        LogModel {
                            operation_id: command.spec_operation_id()->Some_0@,
                            outcome: moved.outcome_for(command.touched()),
                        },
                    );
                    lemma_recalled_after_events(next, entry, newer + 1, rest);
                }
            },
            _ => {
                assert(next.log == state.log);
                lemma_recalled_after_events(next, entry, newer, rest);
            },
        }
    }
}

/// A replay is answered with the original outcome and changes nothing, whatever
/// befell the team since, its disbanding and its expiry not excepted: among the
/// events that followed the command there may be any number that are no commands,
/// and one command fewer than the log has places.
pub proof fn a_replay_is_answered_as_the_first_time(
    state: StateModel,
    command: AgentTeamEntityCommand,
    now: AgentTimestampMillis,
    events: Seq<TeamEvent>,
    later: AgentTimestampMillis,
)
    requires
        !state.answers(command),
        state.accepts(command, now),
        commands_among(events) < AGENT_TEAM_OPERATION_LOG_CAPACITY,
    ensures
        ({
            let then = after_events(state.commanded(command, now), events);
            &&& then.answers(command)
            &&& logged_outcome(then.log, command.spec_operation_id()->Some_0@, 0) == Some(
                state.moving(command, now).0.outcome_for(command.touched()),
            )
            &&& then.commanded(command, later) == then
        }),
{
    let moved = state.moving(command, now).0;
    let operation = command.spec_operation_id()->Some_0@;
    assert(moved.log == state.log);
    let entry = LogModel { operation_id: operation, outcome: moved.outcome_for(command.touched()) };
    lemma_not_logged(state.log, operation, 0);
    let longer = state.log.push(entry);
    let next = logging(state.log, entry);
    let dropped = longer.len() - next.len();
    assert forall|i: int| 0 <= i < next.len() implies #[trigger] next[i] == longer[i + dropped] by {
    }
    assert(recalls(next, entry, 0));
    lemma_recalled_after_events(state.commanded(command, now), entry, 0, events);
}

/// A team that is not active accepts no command, and stays as it is.
pub proof fn a_terminal_team_accepts_nothing(
    state: StateModel,
    command: AgentTeamEntityCommand,
    now: AgentTimestampMillis,
)
    requires
        state.team is Some,
        state.team->Some_0.status != AgentTeamStatus::Active,
    ensures
        !state.accepts(command, now),
        !state.would_expire(now),
{
}

/// A passed horizon refuses before it is observed: no command is accepted from
/// then on.
pub proof fn a_passed_horizon_refuses(
    state: StateModel,
    command: AgentTeamEntityCommand,
    now: AgentTimestampMillis,
)
    requires
        state.team is Some,
        state.team->Some_0.expired_at(now),
    ensures
        !state.accepts(command, now),
{
}

/// Every accepted command records exactly one history entry, under the next
/// sequence: history has no holes.
pub proof fn history_is_dense(
    state: StateModel,
    command: AgentTeamEntityCommand,
    now: AgentTimestampMillis,
)
    requires
        !(command is Describe),
        state.next_sequence < u64::MAX,
    ensures
        ({
            let next = state.applying(command, now);
            &&& next.next_sequence == state.next_sequence + 1
            &&& next.pending_history.len() == state.pending_history.len() + 1
            &&& next.pending_history.drop_last() == state.pending_history
            &&& next.pending_history.last().sequence == state.next_sequence
            &&& next.pending_history.last().operation_id
                == command.spec_operation_id()->Some_0@
        }),
{
    let next = state.applying(command, now);
    assert(next.pending_history.drop_last() =~= state.pending_history);
}

/// Whether the leader is a member, and the membership and the board keep within
/// their ceilings, as far as they are finite.
pub open spec fn is_sound_team(team: TeamModel) -> bool {
    &&& team.members.dom().contains(team.leader@)
    &&& team.members.dom().finite()
    &&& team.board.dom().finite()
    &&& team.members.len() <= team.policy.max_members
    &&& team.board.len() <= team.policy.max_board_entries
}

/// Every command keeps the leader a member, and the membership and the board
/// within their ceilings.
pub proof fn commands_keep_a_team_sound(
    state: StateModel,
    command: AgentTeamEntityCommand,
    now: AgentTimestampMillis,
)
    requires
        state.accepts(command, now),
        state.team is Some ==> is_sound_team(state.team->Some_0),
        command is Create ==> command->creation.members@.dom().finite(),
    ensures
        state.applying(command, now).team is Some,
        is_sound_team(state.applying(command, now).team->Some_0),
{
    match command {
        AgentTeamEntityCommand::Create { creation, .. } => {
            let members = first_members(creation, now);
            assert(members.dom() =~= creation.members@.dom().insert(creation.leader@));
        },
        AgentTeamEntityCommand::PostTask { task, .. } => {
            let team = state.team->Some_0;
            let board = board_for_post(team);
            assert(without_done(team.board).dom().subset_of(team.board.dom()));
            vstd::set_lib::lemma_set_subset_finite(team.board.dom(), without_done(team.board).dom());
            vstd::set_lib::lemma_len_subset(without_done(team.board).dom(), team.board.dom());
        },
        AgentTeamEntityCommand::Claim { task, .. } => {
            let team = state.team->Some_0;
            assert(state.applying(command, now).team->Some_0.board.dom() =~= team.board.dom());
        },
        AgentTeamEntityCommand::Release { task, .. } => {
            let team = state.team->Some_0;
            assert(state.applying(command, now).team->Some_0.board.dom() =~= team.board.dom());
        },
        AgentTeamEntityCommand::Transfer { task, .. } => {
            let team = state.team->Some_0;
            assert(state.applying(command, now).team->Some_0.board.dom() =~= team.board.dom());
        },
        _ => {},
    }
}

/// The lifecycle revision never goes back, and a membership change or disband
/// that was accepted fences its own replay.
pub proof fn a_lifecycle_command_fences_its_replay(
    state: StateModel,
    command: AgentTeamEntityCommand,
    now: AgentTimestampMillis,
    later: AgentTimestampMillis,
)
    requires
        command is AddMember || command is RemoveMember || command is Disband,
        state.accepts(command, now),
        state.team->Some_0.lifecycle_revision.number < u64::MAX,
    ensures
        state.applying(command, now).team->Some_0.lifecycle_revision.number
            == state.team->Some_0.lifecycle_revision.number + 1,
        !state.applying(command, now).accepts(command, later),
{
}

/// The task a board decision is over.
pub open spec fn decided_task(command: AgentTeamEntityCommand) -> Option<Seq<char>> {
    match command {
        AgentTeamEntityCommand::Claim { task, .. } => Some(task@),
        AgentTeamEntityCommand::Release { task, .. } => Some(task@),
        AgentTeamEntityCommand::Transfer { task, .. } => Some(task@),
        _ => None,
    }
}

/// Every board decision bumps its entry's claim epoch by one, touches no other
/// entry, and fences its own replay: two members racing on one epoch get one
/// decision.
pub proof fn a_board_decision_fences_its_replay(
    state: StateModel,
    command: AgentTeamEntityCommand,
    rival: AgentTeamEntityCommand,
    now: AgentTimestampMillis,
    later: AgentTimestampMillis,
)
    requires
        decided_task(command) is Some,
        decided_task(rival) == decided_task(command),
        state.accepts(command, now),
        state.accepts(rival, now),
        state.team->Some_0.board[decided_task(command)->Some_0].claim_epoch < u64::MAX,
    ensures
        ({
            let task = decided_task(command)->Some_0;
            let before = state.team->Some_0.board;
            let after = state.applying(command, now).team->Some_0.board;
            &&& after.dom() == before.dom()
            &&& after[task].claim_epoch == before[task].claim_epoch + 1
            &&& forall|other: Seq<char>|
                other != task ==> #[trigger] after[other] == before[other]
            &&& !state.applying(command, now).accepts(rival, later)
        }),
{
    let before = state.team->Some_0.board;
    let after = state.applying(command, now).team->Some_0.board;
    assert(after.dom() =~= before.dom());
}

/// Ownership leaves the board with an activation, and a closed entry takes no
/// claim: neither can be claimed, released or transferred.
pub proof fn an_owned_or_closed_entry_takes_no_decision(
    state: StateModel,
    command: AgentTeamEntityCommand,
    now: AgentTimestampMillis,
)
    requires
        decided_task(command) is Some,
        state.team is Some,
        state.team->Some_0.board.dom().contains(decided_task(command)->Some_0),
        ({
            let status = state.team->Some_0.board[decided_task(command)->Some_0].status;
            status == AgentTeamBoardEntryStatus::Active || status
                == AgentTeamBoardEntryStatus::Done
        }),
    ensures
        !state.accepts(command, now),
{
}

/// A transfer is a superseding claim: what it leaves on the board is what a
/// claim by the target would.
pub proof fn a_transfer_is_a_superseding_claim(
    state: StateModel,
    operation: Seq<char>,
    task: AgentTaskId,
    target: AgentId,
    now: AgentTimestampMillis,
)
    ensures
        state.transferring(operation, task, target, now).0.team == state.claiming(
            operation,
            task,
            target,
            now,
        ).0.team,
        state.transferring(operation, task, target, now).1 == state.claiming(
            operation,
            task,
            target,
            now,
        ).1,
{
}

/// A disbanded team strands no arbitration: no claim is in flight on its board.
pub proof fn a_disband_strands_no_claim(
    state: StateModel,
    command: AgentTeamEntityCommand,
    now: AgentTimestampMillis,
    task: Seq<char>,
)
    requires
        command is Disband,
        state.accepts(command, now),
    ensures
        !entry_in_flight(state.applying(command, now).team->Some_0.board, task),
{
    assert(!entry_in_flight(state.team->Some_0.board, task));
}

/// A closed entry absorbs every stale reply: once a terminal notice closed it,
/// the entry is done, holds no claim, is one epoch on and names the reason, and
/// one history entry was added; the reply to any decision the board had made
/// then changes nothing, and neither does a late claim result.
pub proof fn a_closed_entry_absorbs_stale_replies(
    state: StateModel,
    operation: Seq<char>,
    task: Seq<char>,
    reason: Seq<char>,
    closed_at: AgentTimestampMillis,
    command: ClaimCommandModel,
    answer: AnswerModel,
    notice: AgentTeamClaimResultNotice,
    now: AgentTimestampMillis,
)
    requires
        state.team is Some,
        state.team->Some_0.board.dom().contains(task),
        state.team->Some_0.board[task].status != AgentTeamBoardEntryStatus::Done,
        state.team->Some_0.board[task].claim_epoch < u64::MAX,
        command.task@ == task,
        command.epoch <= state.team->Some_0.board[task].claim_epoch,
        notice.task.task@ == task,
    ensures
        ({
            let closed = state.closing(operation, task, reason, closed_at);
            let entry = closed.team->Some_0.board[task];
            &&& entry.status == AgentTeamBoardEntryStatus::Done
            &&& entry.claim is None
            &&& entry.claim_epoch == state.team->Some_0.board[task].claim_epoch + 1
            &&& entry.last_code == Some(detail_text(reason))
            &&& closed.pending_history.len() == state.pending_history.len() + 1
            &&& closed.settling_action(operation, command, answer, now) == closed
            &&& closed.settling_result(operation, notice, now) == closed
        }),
{
}

/// Closing is idempotent: a second terminal notice changes nothing.
pub proof fn closing_again_changes_nothing(
    state: StateModel,
    operation: Seq<char>,
    again: Seq<char>,
    task: Seq<char>,
    reason: Seq<char>,
    now: AgentTimestampMillis,
    later: AgentTimestampMillis,
)
    requires
        state.team is Some,
    ensures
        ({
            let closed = state.closing(operation, task, reason, now);
            closed.closing(again, task, reason, later) == closed
        }),
{
}

/// A reply settles only the decision it answers: the reply to a superseded
/// decision changes nothing.
pub proof fn a_superseded_reply_changes_nothing(
    state: StateModel,
    operation: Seq<char>,
    command: ClaimCommandModel,
    answer: AnswerModel,
    now: AgentTimestampMillis,
)
    requires
        state.team is Some,
        state.team->Some_0.board.dom().contains(command.task@),
        state.team->Some_0.board[command.task@].claim_epoch != command.epoch,
    ensures
        state.settling_action(operation, command, answer, now) == state,
{
}

/// An activation reaches its entry whichever delivery comes first: unless the
/// board closed the entry or already shows an owner, the entry ends up owned.
pub proof fn an_activation_fills_its_entry(
    state: StateModel,
    operation: Seq<char>,
    notice: AgentTeamClaimResultNotice,
    now: AgentTimestampMillis,
)
    requires
        state.team is Some,
        state.team->Some_0.board.dom().contains(notice.task.task@),
        notice.outcome is Activated,
        !crate::team_settle::absorbs_activation(state.team->Some_0.board[notice.task.task@]),
    ensures
        ({
            let entry = state.settling_result(operation, notice, now).team->Some_0.board[
                notice.task.task@
            ];
            &&& entry.status == AgentTeamBoardEntryStatus::Active
            &&& entry.claim is Some
            &&& entry.claim->Some_0.claim == notice.claim@
            &&& entry.claim->Some_0.generation_echo == Some(notice.outcome->generation)
        }),
{
}

/// The message ring accounts for every message: those it holds and those it
/// dropped make up all that were ever appended.
pub open spec fn ring_accounts(team: TeamModel) -> bool {
    team.messages_dropped + team.messages.len() + 1 == team.next_message_sequence
}

/// Appending keeps the ring's account and size, and keeps the newest messages.
pub proof fn the_ring_loses_nothing_silently(
    state: StateModel,
    command: AgentTeamEntityCommand,
    now: AgentTimestampMillis,
)
    requires
        state.accepts(command, now),
        state.has_room(command),
        state.team is Some ==> ring_accounts(state.team->Some_0),
    ensures
        ring_accounts(state.applying(command, now).team->Some_0),
        command is AppendMessage ==> ({
            let team = state.applying(command, now).team->Some_0;
            &&& team.messages.len() <= team.policy.max_messages
            &&& team.policy.max_messages > 0 ==> team.messages.last().body == command->body
        }),
{
    if command is AppendMessage {
        let team = state.team->Some_0;
        let next = state.applying(command, now).team->Some_0;
        assert(ringed(next.messages, team.policy.max_messages as nat) == next.messages);
    }
}

} // verus!
