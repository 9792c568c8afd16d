//! What reading a team promises: its snapshot and outcome, its operation log, its
//! schema versions, its bounds and the codes of its refusals.

use vstd::prelude::*;
use vstd::utf8::encode_utf8;

use crate::digest::sha256_hex;
use crate::exchange::{AgentEntityAddress, AgentExchangeKind, AgentExchangeResult, AgentTeamScope};
use crate::identity::{
    canonical_segments, AgentId, AgentOperationId, AgentTaskId, AgentTeamClaimId,
    AgentTimestampMillis,
};
use crate::team::{
    check_bounds, first_unaccepted, logged_outcome, team_claim_id_for, AgentTeamOperationLog,
    AgentTeamOutcome, AgentTeamSchemaError, AgentTeamSchemaPolicy, AgentTeamState, LogModel,
};
use crate::team_board::{AgentTeam, AgentTeamBoardEntryStatus, AgentTeamStatus, TeamModel};
use crate::team_entity::{AgentTeamEntityCommand, AgentTeamEntityReply, AgentTeamSnapshot};
use crate::team_error::AgentTeamError;
use crate::team_history::{AgentTeamHistorySequence, HistoryModel};
use crate::team_settle::{AgentTeamExchange, AgentTeamParticipant};
use crate::text::decimal;

verus! {

/// Flushed entries leave the backlog, all others stay in their order, and nothing
/// else of the team moves.
pub proof fn a_flush_clears_what_it_wrote(
    state: &mut AgentTeamState,
    flushed: &[AgentTeamHistorySequence],
)
    requires
        call_ensures(AgentTeamState::clear_flushed_history, (state, flushed), ()),
    ensures
        ({
            let (before, after) = (old(state)@, final(state)@);
            &&& after.pending_history == before.pending_history.filter(
                |entry: HistoryModel|
                    forall|i: int|
                        0 <= i < flushed@.len() ==> (#[trigger] flushed@[i]).number()
                            != entry.sequence,
            )
            &&& after.team == before.team
            &&& after.log == before.log
            &&& after.scope == before.scope
            &&& after.next_sequence == before.next_sequence
            &&& after.updated_at == before.updated_at
            &&& after.schema_version == before.schema_version
        }),
{
    lemma_same_filter(
        old(state)@.pending_history,
        |entry: HistoryModel| !crate::team::is_flushed(flushed@, entry.sequence),
        |entry: HistoryModel|
            forall|i: int|
                0 <= i < flushed@.len() ==> (#[trigger] flushed@[i]).number() != entry.sequence,
    );
}

proof fn lemma_same_filter(
    entries: Seq<HistoryModel>,
    a: spec_fn(HistoryModel) -> bool,
    b: spec_fn(HistoryModel) -> bool,
)
    requires
        forall|entry: HistoryModel| #[trigger] a(entry) == b(entry),
    ensures
        entries.filter(a) == entries.filter(b),
    decreases entries.len(),
{
    reveal(Seq::filter);
    if entries.len() > 0 {
        lemma_same_filter(entries.drop_last(), a, b);
    }
}

/// A team's outcome tells its status, revision and sizes, and the named entry
/// where it is posted; a team that was never created is active, first and empty.
pub proof fn an_outcome_tells_what_the_team_is(
    state: &AgentTeamState,
    task: &AgentTaskId,
    outcome: AgentTeamOutcome,
    plain: AgentTeamOutcome,
)
    requires
        call_ensures(AgentTeamState::outcome_for, (state, Some(task)), outcome),
        call_ensures(AgentTeamState::outcome, (state,), plain),
    ensures
        plain@.entry is None,
        plain@.status == outcome@.status,
        plain@.lifecycle_revision == outcome@.lifecycle_revision,
        plain@.members == outcome@.members,
        plain@.board_entries == outcome@.board_entries,
        plain@.messages == outcome@.messages,
        state@.team is None ==> {
            &&& outcome@.status is Active
            &&& outcome@.lifecycle_revision.number == 1
            &&& outcome@.members == 0
            &&& outcome@.board_entries == 0
            &&& outcome@.messages == 0
            &&& outcome@.entry is None
        },
        state@.team is Some ==> {
            let team = state@.team->Some_0;
            &&& outcome@.status == team.status
            &&& outcome@.lifecycle_revision == team.lifecycle_revision
            &&& outcome@.members == team.members.len()
            &&& outcome@.board_entries == team.board.len()
            &&& outcome@.messages == team.messages.len()
            &&& outcome@.entry is Some <==> team.board.dom().contains(task@)
            &&& outcome@.entry is Some ==> outcome@.entry->Some_0 == team.board[task@]
        },
{
}

/// A team comes back exactly when its own version and the version of every entry
/// in its backlog are accepted; a refusal names the state's version first.
pub proof fn a_team_is_read_in_accepted_versions(
    state: &AgentTeamState,
    policy: &AgentTeamSchemaPolicy,
    result: Result<(), AgentTeamSchemaError>,
)
    requires
        call_ensures(AgentTeamState::check_schema, (state, policy), result),
    ensures
        result is Ok <==> policy.states@.contains(state@.schema_version) && forall|i: int|
            0 <= i < state@.pending_history.len() ==> policy.histories@.contains(
                (#[trigger] state@.pending_history[i]).schema_version,
            ),
        !policy.states@.contains(state@.schema_version) ==> result->Err_0.kind is State
            && result->Err_0.version == state@.schema_version,
        result is Err && policy.states@.contains(state@.schema_version) ==> {
            &&& result->Err_0.kind is History
            &&& !policy.histories@.contains(result->Err_0.version)
        },
{
    lemma_unaccepted(state@.pending_history, policy.histories@, 0);
}

proof fn lemma_unaccepted(entries: Seq<HistoryModel>, accepted: Seq<u32>, from: nat)
    ensures
        first_unaccepted(entries, accepted, from) is None <==> (forall|i: int|
            from <= i < entries.len() ==> accepted.contains(
                (#[trigger] entries[i]).schema_version,
            )),
        first_unaccepted(entries, accepted, from) is Some ==> !accepted.contains(
            first_unaccepted(entries, accepted, from)->Some_0,
        ),
    decreases entries.len() - from,
{
    if from < entries.len() {
        lemma_unaccepted(entries, accepted, from + 1);
    }
}

/// The current versions are the first ones.
pub proof fn the_current_versions_are_the_first(policy: AgentTeamSchemaPolicy)
    requires
        call_ensures(AgentTeamSchemaPolicy::current, (), policy),
    ensures
        forall|version: u32| #[trigger] policy.states@.contains(version) <==> version == 1,
        forall|version: u32| #[trigger] policy.histories@.contains(version) <==> version == 1,
{
    assert(policy.states@[0] == 1 && policy.histories@[0] == 1);
}

/// The operation log keeps the newest sixty-four operations in their order.
pub proof fn a_log_keeps_its_newest_operations(
    log: &mut AgentTeamOperationLog,
    operation: AgentOperationId,
    outcome: AgentTeamOutcome,
)
    requires
        call_ensures(AgentTeamOperationLog::record, (log, operation, outcome), ()),
    ensures
        ({
            let (before, after) = (old(log)@, final(log)@);
            &&& after.len() > 0
            &&& after.last().operation_id == operation@
            &&& after.last().outcome == outcome@
            &&& before.len() < 64 ==> after.drop_last() == before
            &&& before.len() >= 64 ==> after.len() == 64 && after.drop_last() == before.subrange(
                before.len() - 63,
                before.len() as int,
            )
        }),
{
    let (before, after) = (old(log)@, final(log)@);
    if before.len() < 64 {
        assert(after.drop_last() =~= before);
    } else {
        assert(after.drop_last() =~= before.subrange(before.len() - 63, before.len() as int));
    }
}

/// An operation's outcome is the one logged for it, the oldest where there are
/// several; what was never logged has none.
pub proof fn a_log_answers_for_what_it_holds(
    log: &AgentTeamOperationLog,
    operation: &AgentOperationId,
    outcome: Option<&AgentTeamOutcome>,
)
    requires
        call_ensures(AgentTeamOperationLog::outcome, (log, operation), outcome),
    ensures
        outcome is None <==> (forall|i: int|
            0 <= i < log@.len() ==> (#[trigger] log@[i]).operation_id != operation@),
        outcome is Some ==> exists|i: int|
            {
                &&& 0 <= i < log@.len()
                &&& (#[trigger] log@[i]).operation_id == operation@
                &&& log@[i].outcome == outcome->Some_0@
                &&& forall|k: int| 0 <= k < i ==> (#[trigger] log@[k]).operation_id != operation@
            },
{
    lemma_logged(log@, operation@, 0);
}

proof fn lemma_logged(log: Seq<LogModel>, operation: Seq<char>, from: nat)
    ensures
        logged_outcome(log, operation, from) is None <==> (forall|i: int|
            from <= i < log.len() ==> (#[trigger] log[i]).operation_id != operation),
        logged_outcome(log, operation, from) is Some ==> exists|i: int|
            {
                &&& from <= i < log.len()
                &&& (#[trigger] log[i]).operation_id == operation
                &&& Some(log[i].outcome) == logged_outcome(log, operation, from)
                &&& forall|k: int| from <= k < i ==> (#[trigger] log[k]).operation_id != operation
            },
    decreases log.len() - from,
{
    if from < log.len() {
        lemma_logged(log, operation, from + 1);
        if log[from as int].operation_id == operation {
            assert(Some(log[from as int].outcome) == logged_outcome(log, operation, from));
        } else if logged_outcome(log, operation, from) is Some {
            let i = choose|i: int|
                {
                    &&& from + 1 <= i < log.len()
                    &&& (#[trigger] log[i]).operation_id == operation
                    &&& Some(log[i].outcome) == logged_outcome(log, operation, from + 1)
                    &&& forall|k: int|
                        from + 1 <= k < i ==> (#[trigger] log[k]).operation_id != operation
                };
            assert(forall|k: int| from <= k < i ==> (#[trigger] log[k]).operation_id != operation);
            assert(log[i].operation_id == operation);
        }
    }
}

/// A claim is named by its team, task, claimant and epoch.
pub proof fn a_claim_is_named_by_what_it_is_of(
    scope: &AgentTeamScope,
    task: &AgentTaskId,
    claimant: &AgentId,
    epoch: u64,
    claim: AgentTeamClaimId,
)
    requires
        call_ensures(team_claim_id_for, (scope, task, claimant, epoch), claim),
    ensures
        claim@ == "claim-"@ + sha256_hex(
            encode_utf8(
                canonical_segments(
                    seq![scope.tenant@, scope.team@, task@, claimant@, decimal(epoch as nat)],
                ),
            ),
        ),
{
}

/// A new team entity holds no team, no operation and no history, and owes its
/// first history entry the first number.
pub proof fn a_new_entity_is_empty(
    scope: AgentTeamScope,
    now: AgentTimestampMillis,
    state: AgentTeamState,
)
    requires
        call_ensures(AgentTeamState::uncreated, (scope, now), state),
    ensures
        state@.team is None,
        state@.log.len() == 0,
        state@.pending_history.len() == 0,
        state@.next_sequence == 1,
        state@.updated_at == now,
        state@.scope == scope,
        state@.schema_version == 1,
{
}

/// A participant's entity is of the team that is addressed.
pub proof fn a_participant_starts_the_addressed_team(
    participant: &AgentTeamParticipant,
    scope: AgentTeamScope,
    now: AgentTimestampMillis,
    state: AgentTeamState,
)
    requires
        call_ensures(
            AgentTeamParticipant::initialize,
            (participant, &AgentEntityAddress::Team(scope), now),
            state,
        ),
    ensures
        state@.team is None,
        state@.log.len() == 0,
        state@.pending_history.len() == 0,
        state@.next_sequence == 1,
        state@.scope == scope,
        state@.updated_at == now,
{
}

/// A transition needs room for four entries among the thirty-two of the backlog.
pub proof fn a_transition_needs_room_in_the_backlog(
    state: &AgentTeamState,
    headroom: usize,
    result: Result<(), AgentTeamError>,
)
    requires
        call_ensures(AgentTeamState::history_headroom, (state,), headroom),
        call_ensures(AgentTeamState::require_history_headroom, (state,), result),
    ensures
        state@.pending_history.len() <= 32 ==> headroom == 32 - state@.pending_history.len(),
        state@.pending_history.len() > 32 ==> headroom == 0,
        result is Ok <==> state@.pending_history.len() <= 28,
        result is Err && state@.pending_history.len() <= usize::MAX ==> result->Err_0 == (
        AgentTeamError::HistoryBacklog {
            pending: state@.pending_history.len() as usize,
            maximum: 32,
        }),
{
}

/// A serialized team stays four kibibytes under its thirty-two.
pub proof fn a_team_leaves_room_to_grow(bytes: usize, result: Result<(), AgentTeamError>)
    requires
        call_ensures(check_bounds, (bytes,), result),
    ensures
        result is Ok <==> bytes + 4_096 <= 32_768,
        result is Err ==> result->Err_0 == (AgentTeamError::StateBounds {
            bytes,
            maximum: 28_672,
        }),
{
}

/// Whether an entry that is shown is on the board.
pub open spec fn is_posted(shown: AgentTeamSnapshot, team: TeamModel, i: int) -> bool {
    exists|task: Seq<char>| #[trigger]
        team.board.dom().contains(task) && shown.board@[i]@ == team.board[task]
}

/// Whether a task's entry is among those that are shown.
pub open spec fn is_on_show(shown: AgentTeamSnapshot, team: TeamModel, task: Seq<char>) -> bool {
    exists|i: int|
        0 <= i < shown.board@.len() && (#[trigger] shown.board@[i])@ == team.board[task]
}

/// A snapshot shows the team that the entity holds, entry by entry; there is none
/// of a team that was never created.
pub proof fn a_snapshot_shows_the_team(state: &AgentTeamState, snapshot: Option<AgentTeamSnapshot>)
    requires
        call_ensures(AgentTeamState::snapshot, (state,), snapshot),
    ensures
        snapshot is Some <==> state@.team is Some,
        snapshot is Some ==> {
            let (shown, team) = (snapshot->Some_0, state@.team->Some_0);
            &&& shown.scope == state@.scope
            &&& shown.status == team.status
            &&& shown.leader@ == team.leader@
            &&& shown.root_goal@ == team.root_goal@
            &&& shown.policy_revision == team.policy.revision
            &&& shown.lifecycle_revision == team.lifecycle_revision
            &&& shown.members@.dom() == team.members.dom()
            &&& forall|i: int| 0 <= i < shown.board@.len() ==> #[trigger] is_posted(shown, team, i)
            &&& forall|task: Seq<char>| #[trigger]
                team.board.dom().contains(task) ==> is_on_show(shown, team, task)
            &&& shown.messages@ == team.messages
            &&& shown.messages_dropped == team.messages_dropped
            &&& shown.created_at == team.created_at
            &&& shown.expires_at == team.expires_at
            &&& state@.next_sequence > 0 ==> shown.history_entries == state@.next_sequence - 1
            &&& shown.owed_history == state@.pending_history.len()
            &&& shown.updated_at == state@.updated_at
        },
{
    if snapshot is Some {
        let (shown, team) = (snapshot->Some_0, state@.team->Some_0);
        let tasks = state.team->Some_0.board.spec_keys();
        assert(shown.members@.dom() =~= team.members.dom());
        assert forall|i: int| 0 <= i < shown.board@.len() implies #[trigger] is_posted(
            shown,
            team,
            i,
        ) by {
            assert(tasks.to_set().contains(tasks[i]));
            assert(shown.board@[i]@ == team.board[tasks[i]]);
        }
        assert forall|task: Seq<char>| #[trigger]
            team.board.dom().contains(task) implies is_on_show(shown, team, task) by {
            assert(tasks.to_set().contains(task));
            let i = choose|i: int| 0 <= i < tasks.len() && tasks[i] == task;
            assert(shown.board@[i]@ == team.board[task]);
        }
    }
}

/// A command that was logged is answered with what it came to then; a description
/// is always answered, and what is new is not.
pub proof fn a_known_command_is_answered_from_the_log(
    state: &AgentTeamState,
    command: &AgentTeamEntityCommand,
    operation: Option<&AgentOperationId>,
    reply: Option<AgentTeamEntityReply>,
)
    requires
        call_ensures(AgentTeamState::answer_known, (state, command), reply),
        call_ensures(AgentTeamEntityCommand::operation_id, (command,), operation),
    ensures
        operation is None <==> command is Describe,
        command is Describe ==> reply is Some && reply->Some_0 is Snapshot,
        operation is Some ==> {
            &&& reply is Some <==> exists|i: int|
                0 <= i < state@.log.len() && (#[trigger] state@.log[i]).operation_id
                    == operation->Some_0@
            &&& reply is Some ==> reply->Some_0 is Duplicate && exists|i: int|
                {
                    &&& 0 <= i < state@.log.len()
                    &&& (#[trigger] state@.log[i]).operation_id == operation->Some_0@
                    &&& state@.log[i].outcome == reply->Some_0->Duplicate_outcome@
                }
        },
{
    if operation is Some {
        lemma_logged(state@.log, operation->Some_0@, 0);
    }
}

/// A team is expired at its horizon and after it; without one it never is.
pub proof fn a_team_expires_at_its_horizon(team: &AgentTeam, now: AgentTimestampMillis, over: bool)
    requires
        call_ensures(AgentTeam::is_expired_at, (team, now), over),
    ensures
        over <==> team@.expires_at is Some && now.millis >= team@.expires_at->Some_0.millis,
{
}

/// A disbanded and an expired team are over; an entry is in flight while a claim
/// or a release of it is undecided.
pub proof fn a_status_is_over_or_in_flight(
    status: AgentTeamStatus,
    entry: AgentTeamBoardEntryStatus,
    over: bool,
    in_flight: bool,
)
    requires
        call_ensures(AgentTeamStatus::is_terminal, (status,), over),
        call_ensures(AgentTeamBoardEntryStatus::is_in_flight, (entry,), in_flight),
    ensures
        over <==> status is Disbanded || status is Expired,
        in_flight <==> entry is Pending || entry is Releasing,
{
}

/// A rule of the team refuses a command for good; a malformed identity, an
/// unreadable record, a failed exchange, a lost lease or an expired window do not.
pub proof fn a_domain_refusal_is_of_the_team(error: &AgentTeamError, refusal: bool)
    requires
        call_ensures(AgentTeamError::is_domain_refusal, (error,), refusal),
    ensures
        error is Identity || error is Schema || error is Choreography || error is Coordination
            || error is HistoryWindowExpired ==> !refusal,
        error is NotCreated || error is AlreadyCreated || error is Disbanded || error is Expired
            || error is StaleLifecycleRevision || error is NotMember || error is AlreadyMember
            || error is LeaderImmovable || error is MemberClaimPending
            || error is MembersExhausted || error is BoardExhausted || error is TaskAlreadyPosted
            || error is TaskNotPosted || error is StaleClaimEpoch || error is EntryBusy
            || error is EntryOwned || error is EntryDone || error is ClaimNotStealable
            || error is NotClaimHolder || error is MessageTooLarge
            || error is DisbandClaimPending || error is HistoryConflict || error is HistoryBacklog
            || error is StateBounds ==> refusal,
{
}

/// A refusal reaches the caller under its own code and message.
pub proof fn a_refusal_keeps_its_code(
    error: &AgentTeamError,
    code: &'static str,
    message: String,
    reply: AgentTeamEntityReply,
)
    requires
        call_ensures(AgentTeamError::code, (error,), code),
        call_ensures(AgentTeamError::message, (error,), message),
        call_ensures(AgentTeamEntityReply::rejected, (error,), reply),
    ensures
        reply is Rejected,
        reply->code@ == code@,
        reply->message@ == message@,
        error is NotCreated ==> code@ == "team-not-found"@,
        error is AlreadyCreated ==> code@ == "team-already-created"@,
        error is Disbanded ==> code@ == "team-disbanded"@,
        error is Expired ==> code@ == "team-expired"@,
        error is StaleLifecycleRevision ==> code@ == "team-stale-lifecycle-revision"@,
        error is NotMember ==> code@ == "team-not-member"@,
        error is AlreadyMember ==> code@ == "team-already-member"@,
        error is LeaderImmovable ==> code@ == "team-leader-immovable"@,
        error is MemberClaimPending ==> code@ == "team-member-claim-pending"@,
        error is MembersExhausted ==> code@ == "team-members-exhausted"@,
        error is BoardExhausted ==> code@ == "team-board-exhausted"@,
        error is TaskAlreadyPosted ==> code@ == "team-task-already-posted"@,
        error is TaskNotPosted ==> code@ == "team-task-not-posted"@,
        error is StaleClaimEpoch ==> code@ == "team-claim-stale-epoch"@,
        error is EntryBusy ==> code@ == "team-board-entry-busy"@,
        error is EntryOwned ==> code@ == "team-claim-already-owned"@,
        error is EntryDone ==> code@ == "team-board-entry-done"@,
        error is ClaimNotStealable ==> code@ == "team-claim-not-stealable"@,
        error is NotClaimHolder ==> code@ == "team-release-not-holder"@,
        error is MessageTooLarge ==> code@ == "team-message-too-large"@,
        error is DisbandClaimPending ==> code@ == "team-disband-claim-pending"@,
        error is HistoryConflict ==> code@ == "team-history-conflict"@,
        error is HistoryWindowExpired ==> code@ == "team-history-window-expired"@,
        error is HistoryBacklog ==> code@ == "team-history-backlog"@,
        error is StateBounds ==> code@ == "team-state-too-large"@,
        error is Identity ==> code@ == "team-identity"@,
{
}

/// Any kind of exchange that a team does not receive is refused as unsupported.
pub proof fn an_unreceived_kind_is_unsupported(
    participant: &AgentTeamParticipant,
    kind: AgentExchangeKind,
    answer: AgentExchangeResult,
)
    requires
        call_ensures(AgentTeamParticipant::refuse_kind, (participant, kind), answer),
    ensures
        answer is Rejected,
        answer->code@ == "unsupported-exchange"@,
{
}

/// An exchange is of the kind that it carries.
pub proof fn an_exchange_is_of_its_kind(exchange: &AgentTeamExchange, kind: AgentExchangeKind)
    requires
        call_ensures(AgentTeamExchange::kind, (exchange,), kind),
    ensures
        exchange is ClaimResult ==> kind is TeamClaimResult,
        exchange is TerminalNotice ==> kind is TeamTerminalNotice,
        exchange is Other ==> kind == exchange->Other_0,
{
}

} // verus!
