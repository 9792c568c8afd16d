//! What the answers and notices of tasks promise a team's board, and what a
//! replayed or oversized command leaves behind.

use vstd::prelude::*;

use crate::exchange::{
    AgentEntityAddress, AgentExchangeDecodeError, AgentExchangeKind, AgentExchangeResult,
};
use crate::identity::{operation_text, AgentOperationId, AgentOperationKind, AgentTimestampMillis};
use crate::team::{logged_outcome, AgentTeamClaimCommand, AgentTeamState, StateModel};
use crate::team_board::{AgentTeamBoardEntryStatus, AgentTeamStatus, EntryModel};
use crate::team_command_laws::{a_detail_keeps_what_fits, recorded_as, same_but_board};
use crate::team_entity::{
    AgentTeamCommandAnswer, AgentTeamEntityCommand, AgentTeamEntityReply, AgentTeamStep,
};
use crate::team_error::AgentTeamError;
use crate::team_history::AgentTeamHistoryKind;
use crate::team_journal::{
    conclude_command, AgentTeamCommandReply, AgentTeamDeliveryReply, AgentTeamEntity,
};
use crate::team_settle::{
    claim_refusal_of, AgentTeamClaimResultNotice, AgentTeamExchange, AgentTeamParticipant,
    AgentTeamTerminalNotice, AgentUnsettleableRefusal, ClaimRefusal,
};

verus! {

/// Each definitive code names its own answer, and no other text names one.
pub proof fn each_refusal_code_names_its_answer(code: Seq<char>)
    ensures
        claim_refusal_of(code) == Some(ClaimRefusal::StaleEpoch) <==> code
            == "team-claim-stale-epoch"@,
        claim_refusal_of(code) == Some(ClaimRefusal::AlreadyOwned) <==> code
            == "team-claim-already-owned"@,
        claim_refusal_of(code) == Some(ClaimRefusal::ClaimInFlight) <==> code
            == "team-claim-assignment-inflight"@,
        claim_refusal_of(code) == Some(ClaimRefusal::TaskTerminal) <==> code
            == "team-claim-task-terminal"@,
        claim_refusal_of(code) == Some(ClaimRefusal::TaskUnknown) <==> code
            == "team-claim-task-unknown"@,
        claim_refusal_of(code) == Some(ClaimRefusal::WrongTeam) <==> code
            == "team-claim-wrong-team"@,
        claim_refusal_of(code) == Some(ClaimRefusal::Cancelling) <==> code
            == "team-claim-task-cancelling"@,
        claim_refusal_of(code) == Some(ClaimRefusal::HandoffPending) <==> code
            == "team-claim-handoff-pending"@,
        claim_refusal_of(code) == Some(ClaimRefusal::LimitExceeded) <==> code
            == "team-claim-limit-exceeded"@,
        claim_refusal_of(code) == Some(ClaimRefusal::StateTooLarge) <==> code
            == "task-state-too-large"@,
        claim_refusal_of(code) == Some(ClaimRefusal::ReleaseInFlight) <==> code
            == "team-release-assignment-inflight"@,
        claim_refusal_of(code) == Some(ClaimRefusal::ReleaseUnknown) <==> code
            == "team-release-unknown"@,
{
    reveal_strlit("team-claim-stale-epoch");
    reveal_strlit("team-claim-already-owned");
    reveal_strlit("team-claim-assignment-inflight");
    reveal_strlit("team-claim-task-terminal");
    reveal_strlit("team-claim-task-unknown");
    reveal_strlit("team-claim-wrong-team");
    reveal_strlit("team-claim-task-cancelling");
    reveal_strlit("team-claim-handoff-pending");
    reveal_strlit("team-claim-limit-exceeded");
    reveal_strlit("task-state-too-large");
    reveal_strlit("team-release-assignment-inflight");
    reveal_strlit("team-release-unknown");
    assert("team-claim-stale-epoch"@.len() != "team-claim-already-owned"@.len());
    assert("team-claim-stale-epoch"@.len() != "team-claim-assignment-inflight"@.len());
    assert("team-claim-already-owned"@.len() != "team-claim-assignment-inflight"@.len());
    assert("team-claim-stale-epoch"@.len() != "team-claim-task-terminal"@.len());
    assert("team-claim-already-owned"@[11] != "team-claim-task-terminal"@[11]);
    assert("team-claim-assignment-inflight"@.len() != "team-claim-task-terminal"@.len());
    assert("team-claim-stale-epoch"@.len() != "team-claim-task-unknown"@.len());
    assert("team-claim-already-owned"@.len() != "team-claim-task-unknown"@.len());
    assert("team-claim-assignment-inflight"@.len() != "team-claim-task-unknown"@.len());
    assert("team-claim-task-terminal"@.len() != "team-claim-task-unknown"@.len());
    assert("team-claim-stale-epoch"@.len() != "team-claim-wrong-team"@.len());
    assert("team-claim-already-owned"@.len() != "team-claim-wrong-team"@.len());
    assert("team-claim-assignment-inflight"@.len() != "team-claim-wrong-team"@.len());
    assert("team-claim-task-terminal"@.len() != "team-claim-wrong-team"@.len());
    assert("team-claim-task-unknown"@.len() != "team-claim-wrong-team"@.len());
    assert("team-claim-stale-epoch"@.len() != "team-claim-task-cancelling"@.len());
    assert("team-claim-already-owned"@.len() != "team-claim-task-cancelling"@.len());
    assert("team-claim-assignment-inflight"@.len() != "team-claim-task-cancelling"@.len());
    assert("team-claim-task-terminal"@.len() != "team-claim-task-cancelling"@.len());
    assert("team-claim-task-unknown"@.len() != "team-claim-task-cancelling"@.len());
    assert("team-claim-wrong-team"@.len() != "team-claim-task-cancelling"@.len());
    assert("team-claim-stale-epoch"@.len() != "team-claim-handoff-pending"@.len());
    assert("team-claim-already-owned"@.len() != "team-claim-handoff-pending"@.len());
    assert("team-claim-assignment-inflight"@.len() != "team-claim-handoff-pending"@.len());
    assert("team-claim-task-terminal"@.len() != "team-claim-handoff-pending"@.len());
    assert("team-claim-task-unknown"@.len() != "team-claim-handoff-pending"@.len());
    assert("team-claim-wrong-team"@.len() != "team-claim-handoff-pending"@.len());
    assert("team-claim-task-cancelling"@[11] != "team-claim-handoff-pending"@[11]);
    assert("team-claim-stale-epoch"@.len() != "team-claim-limit-exceeded"@.len());
    assert("team-claim-already-owned"@.len() != "team-claim-limit-exceeded"@.len());
    assert("team-claim-assignment-inflight"@.len() != "team-claim-limit-exceeded"@.len());
    assert("team-claim-task-terminal"@.len() != "team-claim-limit-exceeded"@.len());
    assert("team-claim-task-unknown"@.len() != "team-claim-limit-exceeded"@.len());
    assert("team-claim-wrong-team"@.len() != "team-claim-limit-exceeded"@.len());
    assert("team-claim-task-cancelling"@.len() != "team-claim-limit-exceeded"@.len());
    assert("team-claim-handoff-pending"@.len() != "team-claim-limit-exceeded"@.len());
    assert("team-claim-stale-epoch"@.len() != "task-state-too-large"@.len());
    assert("team-claim-already-owned"@.len() != "task-state-too-large"@.len());
    assert("team-claim-assignment-inflight"@.len() != "task-state-too-large"@.len());
    assert("team-claim-task-terminal"@.len() != "task-state-too-large"@.len());
    assert("team-claim-task-unknown"@.len() != "task-state-too-large"@.len());
    assert("team-claim-wrong-team"@.len() != "task-state-too-large"@.len());
    assert("team-claim-task-cancelling"@.len() != "task-state-too-large"@.len());
    assert("team-claim-handoff-pending"@.len() != "task-state-too-large"@.len());
    assert("team-claim-limit-exceeded"@.len() != "task-state-too-large"@.len());
    assert("team-claim-stale-epoch"@.len() != "team-release-assignment-inflight"@.len());
    assert("team-claim-already-owned"@.len() != "team-release-assignment-inflight"@.len());
    assert("team-claim-assignment-inflight"@.len() != "team-release-assignment-inflight"@.len());
    assert("team-claim-task-terminal"@.len() != "team-release-assignment-inflight"@.len());
    assert("team-claim-task-unknown"@.len() != "team-release-assignment-inflight"@.len());
    assert("team-claim-wrong-team"@.len() != "team-release-assignment-inflight"@.len());
    assert("team-claim-task-cancelling"@.len() != "team-release-assignment-inflight"@.len());
    assert("team-claim-handoff-pending"@.len() != "team-release-assignment-inflight"@.len());
    assert("team-claim-limit-exceeded"@.len() != "team-release-assignment-inflight"@.len());
    assert("task-state-too-large"@.len() != "team-release-assignment-inflight"@.len());
    assert("team-claim-stale-epoch"@.len() != "team-release-unknown"@.len());
    assert("team-claim-already-owned"@.len() != "team-release-unknown"@.len());
    assert("team-claim-assignment-inflight"@.len() != "team-release-unknown"@.len());
    assert("team-claim-task-terminal"@.len() != "team-release-unknown"@.len());
    assert("team-claim-task-unknown"@.len() != "team-release-unknown"@.len());
    assert("team-claim-wrong-team"@.len() != "team-release-unknown"@.len());
    assert("team-claim-task-cancelling"@.len() != "team-release-unknown"@.len());
    assert("team-claim-handoff-pending"@.len() != "team-release-unknown"@.len());
    assert("team-claim-limit-exceeded"@.len() != "team-release-unknown"@.len());
    assert("task-state-too-large"@[1] != "team-release-unknown"@[1]);
    assert("team-release-assignment-inflight"@.len() != "team-release-unknown"@.len());
}

/// Whether an address is that of a task of a tenant.
pub open spec fn is_that_task(
    address: AgentEntityAddress,
    tenant: Seq<char>,
    task: Seq<char>,
) -> bool {
    match address {
        AgentEntityAddress::Task(scope) => scope.tenant@ == tenant && scope.task@ == task,
        _ => false,
    }
}

/// Whether one state differs from another in one entry of its board, and in one
/// more history entry of a kind about that task.
pub open spec fn only_entry_moved(
    before: StateModel,
    after: StateModel,
    task: Seq<char>,
    operation: Seq<char>,
    kind: AgentTeamHistoryKind,
    now: AgentTimestampMillis,
) -> bool {
    let recorded = after.pending_history.last();
    &&& after.team is Some
    &&& same_but_board(before.team->Some_0, after.team->Some_0)
    &&& after.team->Some_0.board.dom() == before.team->Some_0.board.dom()
    &&& forall|other: Seq<char>|
        other != task ==> #[trigger] after.team->Some_0.board[other]
            == before.team->Some_0.board[other]
    &&& after.scope == before.scope
    &&& after.schema_version == before.schema_version
    &&& after.log == before.log
    &&& after.updated_at == before.updated_at
    &&& before.next_sequence < u64::MAX ==> after.next_sequence == before.next_sequence + 1
    &&& after.pending_history.len() == before.pending_history.len() + 1
    &&& after.pending_history.drop_last() == before.pending_history
    &&& recorded.sequence == before.next_sequence
    &&& recorded.kind == kind
    &&& recorded.task == Some(task)
    &&& recorded.operation_id == operation
    &&& recorded.at == now
}

/// Whether an entry is posted as another was, at the same epoch.
pub open spec fn posted_alike(a: EntryModel, b: EntryModel) -> bool {
    a.task == b.task && a.posted_by == b.posted_by && a.posted_at == b.posted_at && a.claim_epoch
        == b.claim_epoch
}

/// A claim result is heeded exactly when it can be read, comes from the very task
/// it resolves, and that task is on the board of a team; a refused one changes
/// nothing and names what is wrong.
pub proof fn a_claim_result_is_heeded_from_its_task_alone(
    state: &mut AgentTeamState,
    operation: &AgentOperationId,
    notice: Result<AgentTeamClaimResultNotice, AgentExchangeDecodeError>,
    initiator: &AgentEntityAddress,
    now: AgentTimestampMillis,
    answer: AgentExchangeResult,
)
    requires
        call_ensures(
            AgentTeamState::apply_claim_result,
            (state, operation, notice, initiator, now),
            answer,
        ),
    ensures
        ({
            let before = old(state)@;
            let named = notice->Ok_0.task;
            let own = is_that_task(*initiator, named.tenant@, named.task@);
            let posted = before.team->Some_0.board.dom().contains(named.task@);
            &&& answer@.refusal is None <==> notice is Ok && own && before.team is Some && posted
            &&& answer@.refusal is Some ==> final(state)@ == before
            &&& notice is Err ==> answer@.refusal == Some(
                (notice->Err_0.code@, notice->Err_0.message@),
            )
            &&& notice is Ok && !own ==> answer@.refusal->Some_0.0 == "team-claim-forged"@
            &&& answer@.payload_type == "rakka.agent.TeamClaimResultReceipt"@
            &&& notice is Ok && own && before.team is None ==> answer@.refusal->Some_0.0
                == "team-not-found"@
            &&& notice is Ok && own && before.team is Some && !posted
                ==> answer@.refusal->Some_0.0 == "team-claim-unknown"@
        }),
{
}

/// An activation of the claim an entry records makes it active and leaves the
/// claim there with the run that serves it; one of another claim fills an entry
/// that no activation reached, and leaves a closed or served one alone.
pub proof fn an_activation_names_who_serves_the_task(
    state: &mut AgentTeamState,
    operation: &AgentOperationId,
    notice: Result<AgentTeamClaimResultNotice, AgentExchangeDecodeError>,
    initiator: &AgentEntityAddress,
    now: AgentTimestampMillis,
    answer: AgentExchangeResult,
)
    requires
        call_ensures(
            AgentTeamState::apply_claim_result,
            (state, operation, notice, initiator, now),
            answer,
        ),
        answer@.refusal is None,
        notice->Ok_0.outcome is Activated,
    ensures
        ({
            let (before, after) = (old(state)@, final(state)@);
            let task = notice->Ok_0.task.task@;
            let outcome = notice->Ok_0.outcome;
            let (earlier, entry) = (
                before.team->Some_0.board[task],
                after.team->Some_0.board[task],
            );
            let claim = entry.claim->Some_0;
            let current = earlier.claim is Some && earlier.claim->Some_0.claim
                == notice->Ok_0.claim@;
            let served = earlier.status == AgentTeamBoardEntryStatus::Done || (earlier.claim is Some
                && earlier.claim->Some_0.generation_echo is Some);
            &&& !current && served ==> after == before
            &&& current || !served ==> {
                &&& only_entry_moved(
                    before,
                    after,
                    task,
                    operation@,
                    AgentTeamHistoryKind::ClaimSettled,
                    now,
                )
                &&& posted_alike(earlier, entry)
                &&& entry.status == AgentTeamBoardEntryStatus::Active
                &&& entry.last_code is None
                &&& entry.claim is Some
                &&& claim.claim == notice->Ok_0.claim@
                &&& claim.generation_echo == Some(outcome->generation)
                &&& claim.run_echo == Some(outcome->run)
                &&& after.pending_history.last().claim == Some(notice->Ok_0.claim@)
                &&& after.pending_history.last().member == Some(outcome->member@)
            }
            &&& current ==> {
                &&& claim.member == earlier.claim->Some_0.member
                &&& claim.lease_expires_at == earlier.claim->Some_0.lease_expires_at
                &&& claim.claimed_at == earlier.claim->Some_0.claimed_at
            }
            &&& !current && !served ==> {
                &&& claim.member == outcome->member
                &&& claim.lease_expires_at == now
                &&& claim.claimed_at == now
            }
        }),
{
    let (before, after) = (old(state)@, final(state)@);
    if after != before {
        assert(after.team->Some_0.board.dom() =~= before.team->Some_0.board.dom());
        assert(after.pending_history.drop_last() =~= before.pending_history);
    }
}

/// A refused claim reopens its entry while it is the entry's own and in flight,
/// and says why; otherwise nothing changes.
pub proof fn a_refused_claim_reopens_its_own_entry_alone(
    state: &mut AgentTeamState,
    operation: &AgentOperationId,
    notice: Result<AgentTeamClaimResultNotice, AgentExchangeDecodeError>,
    initiator: &AgentEntityAddress,
    now: AgentTimestampMillis,
    answer: AgentExchangeResult,
)
    requires
        call_ensures(
            AgentTeamState::apply_claim_result,
            (state, operation, notice, initiator, now),
            answer,
        ),
        answer@.refusal is None,
        notice->Ok_0.outcome is Refused,
    ensures
        ({
            let (before, after) = (old(state)@, final(state)@);
            let task = notice->Ok_0.task.task@;
            let code = notice->Ok_0.outcome->code@;
            let (earlier, entry) = (
                before.team->Some_0.board[task],
                after.team->Some_0.board[task],
            );
            let recorded = after.pending_history.last();
            let reopens = earlier.claim is Some && earlier.claim->Some_0.claim
                == notice->Ok_0.claim@ && (earlier.status == AgentTeamBoardEntryStatus::Pending
                || earlier.status == AgentTeamBoardEntryStatus::Releasing);
            &&& !reopens ==> after == before
            &&& reopens ==> {
                &&& only_entry_moved(
                    before,
                    after,
                    task,
                    operation@,
                    AgentTeamHistoryKind::ClaimSettled,
                    now,
                )
                &&& posted_alike(earlier, entry)
                &&& entry.status == AgentTeamBoardEntryStatus::Open
                &&& entry.claim is None
                &&& entry.last_code is Some
                &&& recorded_as(entry.last_code->Some_0, code)
                &&& recorded_as(recorded.detail, code)
                &&& recorded.claim == Some(notice->Ok_0.claim@)
                &&& recorded.member == Some(earlier.claim->Some_0.member@)
            }
        }),
{
    let (before, after) = (old(state)@, final(state)@);
    a_detail_keeps_what_fits(notice->Ok_0.outcome->code@);
    if after != before {
        assert(after.team->Some_0.board.dom() =~= before.team->Some_0.board.dom());
        assert(after.pending_history.drop_last() =~= before.pending_history);
    }
}

/// A terminal notice is heeded from the very task that ended; it closes an entry
/// that is not closed yet, one epoch on and without a claim, under the reason.
pub proof fn a_terminal_notice_closes_its_tasks_entry(
    state: &mut AgentTeamState,
    operation: &AgentOperationId,
    notice: Result<AgentTeamTerminalNotice, AgentExchangeDecodeError>,
    initiator: &AgentEntityAddress,
    now: AgentTimestampMillis,
    answer: AgentExchangeResult,
)
    requires
        call_ensures(
            AgentTeamState::apply_team_terminal,
            (state, operation, notice, initiator, now),
            answer,
        ),
    ensures
        ({
            let (before, after) = (old(state)@, final(state)@);
            let named = notice->Ok_0.task;
            let task = named.task@;
            let own = is_that_task(*initiator, named.tenant@, task);
            let (earlier, entry) = (
                before.team->Some_0.board[task],
                after.team->Some_0.board[task],
            );
            let recorded = after.pending_history.last();
            let closes = answer@.refusal is None && before.team->Some_0.board.dom().contains(task)
                && earlier.status != AgentTeamBoardEntryStatus::Done;
            &&& answer@.refusal is None <==> notice is Ok && own && before.team is Some
            &&& notice is Err ==> answer@.refusal == Some(
                ("team-terminal-notice-undecodable"@, notice->Err_0.message@),
            )
            &&& notice is Ok && !own ==> answer@.refusal->Some_0.0
                == "team-terminal-notice-forged"@
            &&& notice is Ok && own && before.team is None ==> answer@.refusal->Some_0.0
                == "team-not-found"@
            &&& answer@.payload_type == "rakka.agent.TeamTerminalReceipt"@
            &&& !closes ==> after == before
            &&& closes ==> {
                &&& only_entry_moved(
                    before,
                    after,
                    task,
                    operation@,
                    AgentTeamHistoryKind::TaskClosed,
                    now,
                )
                &&& entry.task == earlier.task
                &&& entry.posted_by == earlier.posted_by
                &&& entry.posted_at == earlier.posted_at
                &&& earlier.claim_epoch < u64::MAX ==> entry.claim_epoch == earlier.claim_epoch + 1
                &&& earlier.claim_epoch == u64::MAX ==> entry.claim_epoch == u64::MAX
                &&& entry.status == AgentTeamBoardEntryStatus::Done
                &&& entry.claim is None
                &&& entry.last_code is Some
                &&& recorded_as(entry.last_code->Some_0, notice->Ok_0.terminal_reason@)
                &&& recorded_as(recorded.detail, notice->Ok_0.terminal_reason@)
                &&& recorded.claim is None
                &&& recorded.member is Some <==> earlier.claim is Some
                &&& earlier.claim is Some ==> recorded.member == Some(
                    earlier.claim->Some_0.member@,
                )
            }
        }),
{
    let (before, after) = (old(state)@, final(state)@);
    a_detail_keeps_what_fits(notice->Ok_0.terminal_reason@);
    if after != before {
        assert(after.team->Some_0.board.dom() =~= before.team->Some_0.board.dom());
        assert(after.pending_history.drop_last() =~= before.pending_history);
    }
}

/// What the answer to a claim action makes of the board: only the answer to the
/// decision the entry stands at counts; an accepted release reopens; a task that
/// is gone closes; an owned task leaves the board; a release that came too early
/// puts the claim back; and every other definitive refusal of the entry's own
/// claim reopens it. Nothing else moves.
pub proof fn an_answer_settles_the_decision_it_is_for(
    state: &mut AgentTeamState,
    operation: &AgentOperationId,
    command: &AgentTeamClaimCommand,
    answer: &AgentExchangeResult,
    now: AgentTimestampMillis,
)
    requires
        call_ensures(
            AgentTeamState::settle_claim_action,
            (state, operation, command, answer, now),
            (),
        ),
    ensures
        ({
            let (before, after) = (old(state)@, final(state)@);
            let task = command.task@;
            let (earlier, entry) = (
                before.team->Some_0.board[task],
                after.team->Some_0.board[task],
            );
            let stands = before.team is Some && before.team->Some_0.board.dom().contains(task)
                && earlier.claim_epoch == command.epoch;
            let own = earlier.claim is Some && earlier.claim->Some_0.claim == command.claim@;
            let releases = command.action is Release;
            let code = answer@.refusal->Some_0.0;
            let refused = stands && answer@.refusal is Some;
            let gone = refused && (code == "team-claim-task-terminal"@ || code
                == "team-claim-task-unknown"@ || code == "team-claim-wrong-team"@);
            let owned = refused && code == "team-claim-already-owned"@ && (releases || own);
            let early = refused && releases && own && (code == "team-release-assignment-inflight"@
                || code == "team-release-unknown"@);
            let reopened = refused && own && (code == "team-claim-task-cancelling"@ || code
                == "team-claim-handoff-pending"@ || code == "team-claim-limit-exceeded"@ || code
                == "task-state-too-large"@ || (!releases && code
                == "team-claim-assignment-inflight"@));
            let released = stands && answer@.refusal is None && releases && earlier.status
                == AgentTeamBoardEntryStatus::Releasing;
            let recorded = after.pending_history.last();
            &&& !(gone || owned || early || reopened || released) ==> after == before
            &&& gone || owned || early || reopened || released ==> {
                &&& only_entry_moved(
                    before,
                    after,
                    task,
                    operation@,
                    AgentTeamHistoryKind::ClaimSettled,
                    now,
                )
                &&& posted_alike(earlier, entry)
                &&& entry.last_code is Some
                &&& recorded.claim == Some(command.claim@)
                &&& earlier.claim is Some ==> recorded.member == Some(
                    earlier.claim->Some_0.member@,
                )
                &&& earlier.claim is None ==> recorded.member is None
            }
            &&& gone ==> entry.status == AgentTeamBoardEntryStatus::Done && entry.claim is None
            &&& owned ==> entry.status == AgentTeamBoardEntryStatus::Active
            &&& owned && releases ==> entry.claim == earlier.claim
            &&& owned && !releases ==> entry.claim is None
            &&& early ==> entry.status == AgentTeamBoardEntryStatus::Pending && entry.claim
                == earlier.claim
            &&& reopened || released ==> entry.status == AgentTeamBoardEntryStatus::Open
                && entry.claim is None
            &&& released ==> entry.last_code == Some("released"@)
            &&& gone || owned || early || reopened ==> recorded_as(entry.last_code->Some_0, code)
        }),
{
    let (before, after) = (old(state)@, final(state)@);
    let code = answer@.refusal->Some_0.0;
    each_refusal_code_names_its_answer(code);
    a_detail_keeps_what_fits(code);
    if after != before {
        assert(after.team->Some_0.board.dom() =~= before.team->Some_0.board.dom());
        assert(after.pending_history.drop_last() =~= before.pending_history);
    }
}

/// An acceptance settles every exchange. A refused claim action settles under the
/// task's own definitive answers alone, a refused terminal notice only as forged
/// or without a team, and any other refusal always.
pub proof fn a_refusal_settles_only_when_it_is_definitive(
    participant: &AgentTeamParticipant,
    kind: AgentExchangeKind,
    answer: &AgentExchangeResult,
    checked: Result<(), AgentUnsettleableRefusal>,
)
    requires
        call_ensures(AgentTeamParticipant::check_settle, (participant, kind, answer), checked),
    ensures
        answer@.refusal is None ==> checked is Ok,
        answer@.refusal is Some && kind != AgentExchangeKind::TeamClaim && kind
            != AgentExchangeKind::TeamTerminalNotice ==> checked is Ok,
        answer@.refusal is Some && kind == AgentExchangeKind::TeamTerminalNotice ==> (checked is Ok
            <==> answer@.refusal->Some_0.0 == "team-terminal-notice-forged"@
            || answer@.refusal->Some_0.0 == "team-not-found"@),
        answer@.refusal is Some && kind == AgentExchangeKind::TeamClaim ==> (checked is Ok <==> {
            let code = answer@.refusal->Some_0.0;
            ||| code == "team-claim-stale-epoch"@
            ||| code == "team-claim-already-owned"@
            ||| code == "team-claim-assignment-inflight"@
            ||| code == "team-claim-task-terminal"@
            ||| code == "team-claim-task-unknown"@
            ||| code == "team-claim-wrong-team"@
            ||| code == "team-claim-task-cancelling"@
            ||| code == "team-claim-handoff-pending"@
            ||| code == "team-claim-limit-exceeded"@
            ||| code == "task-state-too-large"@
            ||| code == "team-release-assignment-inflight"@
            ||| code == "team-release-unknown"@
        }),
        checked is Err ==> checked->Err_0.kind == kind && checked->Err_0.code@
            == answer@.refusal->Some_0.0,
{
    each_refusal_code_names_its_answer(answer@.refusal->Some_0.0);
}

/// An active team past its horizon is flipped to expired, once, and nothing else
/// of it moves; any other is left alone.
pub proof fn a_horizon_is_observed_once(
    state: &mut AgentTeamState,
    now: AgentTimestampMillis,
    result: Result<bool, AgentTeamError>,
)
    requires
        call_ensures(AgentTeamState::observe_expiry, (state, now), result),
    ensures
        ({
            let (before, after) = (old(state)@, final(state)@);
            let (team, next) = (before.team->Some_0, after.team->Some_0);
            let due = before.team is Some && team.status == AgentTeamStatus::Active
                && team.expires_at is Some && team.expires_at->Some_0.millis <= now.millis;
            let recorded = after.pending_history.last();
            &&& result is Ok <==> !due || before.scope.tenant@.len() > 0
            &&& result is Ok ==> result->Ok_0 == due
            &&& !due || result is Err ==> after == before
            &&& due && result is Ok ==> {
                &&& after.team is Some
                &&& next.status == AgentTeamStatus::Expired
                &&& next.leader == team.leader
                &&& next.root_goal == team.root_goal
                &&& next.policy == team.policy
                &&& next.lifecycle_revision == team.lifecycle_revision
                &&& next.members == team.members
                &&& next.board == team.board
                &&& next.messages == team.messages
                &&& next.messages_dropped == team.messages_dropped
                &&& next.next_message_sequence == team.next_message_sequence
                &&& next.created_at == team.created_at
                &&& next.expires_at == team.expires_at
                &&& after.scope == before.scope
                &&& after.schema_version == before.schema_version
                &&& after.log == before.log
                &&& after.updated_at == now
                &&& before.next_sequence < u64::MAX ==> after.next_sequence == before.next_sequence
                    + 1
                &&& after.pending_history.drop_last() == before.pending_history
                &&& after.pending_history.len() == before.pending_history.len() + 1
                &&& recorded.kind == AgentTeamHistoryKind::Expired
                &&& recorded.sequence == before.next_sequence
                &&& recorded.at == now
                &&& recorded.operation_id == operation_text(
                    AgentOperationKind::TeamOperation,
                    seq![before.scope.tenant@, before.scope.team@, "expiry"@],
                )
            }
        }),
{
    let (before, after) = (old(state)@, final(state)@);
    if after != before {
        assert(after.pending_history.drop_last() =~= before.pending_history);
    }
}

/// A command whose operation the log holds is answered from the log, at once and
/// without a change; a read is answered with the projection; and any other does
/// what its transition does.
pub proof fn a_command_transitions_once(
    state: &mut AgentTeamState,
    command: AgentTeamEntityCommand,
    now: AgentTimestampMillis,
    result: Result<AgentTeamCommandAnswer, AgentTeamError>,
    plain: &mut AgentTeamState,
    step: Result<AgentTeamStep, AgentTeamError>,
)
    requires
        call_ensures(AgentTeamState::apply_command, (state, command, now), result),
        command is Describe || call_ensures(
            AgentTeamState::apply_transition,
            (plain, command, now),
            step,
        ),
        old(plain)@ == old(state)@,
    ensures
        ({
            let log = old(state)@.log;
            let operation = command.spec_operation_id()->Some_0@;
            let known = !(command is Describe) && exists|i: int|
                0 <= i < log.len() && (#[trigger] log[i]).operation_id == operation;
            &&& command is Describe ==> {
                &&& final(state)@ == old(state)@
                &&& result is Ok && result->Ok_0 is Known && result->Ok_0->reply is Snapshot
                &&& result->Ok_0->reply->Snapshot_0 is Some <==> old(state)@.team is Some
            }
            &&& known ==> {
                let reply = result->Ok_0->reply;
                &&& final(state)@ == old(state)@
                &&& result is Ok && result->Ok_0 is Known && reply is Duplicate
                &&& exists|i: int|
                    0 <= i < log.len() && (#[trigger] log[i]).operation_id == operation
                        && log[i].outcome == reply->Duplicate_outcome@
            }
            &&& !(command is Describe) && !known ==> {
                &&& final(state)@ == final(plain)@
                &&& result is Ok <==> step is Ok
                &&& result is Ok ==> result->Ok_0 is Stepped
                &&& result is Ok ==> result->Ok_0->step.outcome@ == step->Ok_0.outcome@
                &&& result is Ok ==> result->Ok_0->step.measure == step->Ok_0.measure
                &&& result is Ok ==> (result->Ok_0->step.owed is Some <==> step->Ok_0.owed is Some)
                &&& result is Ok && step->Ok_0.owed is Some
                    ==> result->Ok_0->step.owed->Some_0@ == step->Ok_0.owed->Some_0@
            }
        }),
{
    if !(command is Describe) {
        lemma_logged_or_not(old(state)@.log, command.spec_operation_id()->Some_0@, 0);
    }
}

proof fn lemma_logged_or_not(log: Seq<crate::team::LogModel>, operation: Seq<char>, from: nat)
    ensures
        match logged_outcome(log, operation, from) {
            Some(outcome) => exists|i: int|
                from <= i < log.len() && (#[trigger] log[i]).operation_id == operation
                    && log[i].outcome == outcome,
            None => forall|i: int|
                from <= i < log.len() ==> (#[trigger] log[i]).operation_id != operation,
        },
    decreases log.len() - from,
{
    if from < log.len() {
        if log[from as int].operation_id == operation {
            assert(log[from as int].operation_id == operation);
        } else {
            lemma_logged_or_not(log, operation, from + 1);
        }
    }
}

/// An entity's command does to its state what the state's own does, and its
/// journal gains exactly the exchange the transition owes, last.
pub proof fn an_entity_owes_what_its_command_owes(
    entity: &mut AgentTeamEntity,
    command: AgentTeamEntityCommand,
    now: AgentTimestampMillis,
    result: Result<AgentTeamCommandReply, AgentTeamError>,
    plain: &mut AgentTeamState,
    alone: Result<AgentTeamCommandAnswer, AgentTeamError>,
)
    requires
        call_ensures(AgentTeamEntity::apply_command, (entity, command, now), result),
        call_ensures(AgentTeamState::apply_command, (plain, command, now), alone),
        old(plain)@ == old(entity)@.state,
    ensures
        ({
            let (before, after) = (old(entity)@.journal, final(entity)@.journal);
            let stepped = alone is Ok && alone->Ok_0 is Stepped;
            let owed = alone->Ok_0->step.owed;
            &&& final(entity)@.state == final(plain)@
            &&& after.answered == before.answered
            &&& result is Ok <==> alone is Ok
            &&& stepped && owed is Some ==> after.owed == before.owed.push(owed->Some_0@)
            &&& !(stepped && owed is Some) ==> after.owed == before.owed
            &&& stepped ==> result->Ok_0.reply is Applied
                && result->Ok_0.reply->Applied_outcome@ == alone->Ok_0->step.outcome@
                && result->Ok_0.measure == alone->Ok_0->step.measure
            &&& alone is Ok && !stepped ==> !result->Ok_0.measure && !(result->Ok_0.reply is Applied)
        }),
{
}

/// A delivery under an operation the journal holds is answered from the journal,
/// without a change. Any other is received by the team; it is remembered, as the
/// newest, exactly when its answer is for good.
pub proof fn a_delivery_is_received_once(
    entity: &mut AgentTeamEntity,
    operation: &AgentOperationId,
    exchange: AgentTeamExchange,
    initiator: &AgentEntityAddress,
    now: AgentTimestampMillis,
    reply: AgentTeamDeliveryReply,
    plain: &mut AgentTeamState,
    participant: &AgentTeamParticipant,
    alone: AgentExchangeResult,
    kind: AgentExchangeKind,
    checked: Result<(), AgentUnsettleableRefusal>,
)
    requires
        call_ensures(
            AgentTeamEntity::accept,
            (entity, operation, exchange, initiator, now),
            reply,
        ),
        call_ensures(
            AgentTeamParticipant::apply,
            (participant, plain, operation, exchange, initiator, now),
            alone,
        ),
        call_ensures(AgentTeamParticipant::check_settle, (participant, kind, &alone), checked),
        old(plain)@ == old(entity)@.state,
        exchange is ClaimResult ==> kind == AgentExchangeKind::TeamClaimResult,
        exchange is TerminalNotice ==> kind == AgentExchangeKind::TeamTerminalNotice,
        exchange is Other ==> kind == exchange->Other_0,
    ensures
        ({
            let (before, after) = (old(entity)@.journal, final(entity)@.journal);
            let known = exists|i: int|
                0 <= i < before.answered.len() && (#[trigger] before.answered[i]).operation_id
                    == operation@;
            &&& reply.replayed <==> known
            &&& after.owed == before.owed
            &&& known ==> final(entity)@ == old(entity)@ && exists|i: int|
                0 <= i < before.answered.len() && (#[trigger] before.answered[i]).operation_id
                    == operation@ && before.answered[i].answer == reply.answer@
            &&& !known ==> final(entity)@.state == final(plain)@ && reply.answer@ == alone@
            &&& !known && checked is Err ==> after == before
            &&& !known && checked is Ok ==> {
                &&& after.answered.len() > 0
                &&& after.answered.last().operation_id == operation@
                &&& after.answered.last().answer == reply.answer@
                &&& after.answered.len() <= 64
                &&& before.answered.len() < 64 ==> after.answered.drop_last() == before.answered
                &&& before.answered.len() == 64 ==> after.answered.drop_last()
                    == before.answered.drop_first()
            }
        }),
{
    let (before, after) = (old(entity)@.journal, final(entity)@.journal);
    lemma_answered_or_not(before.answered, operation@, 0);
    if !reply.replayed && checked is Ok {
        if before.answered.len() < 64 {
            assert(after.answered.drop_last() =~= before.answered);
        } else if before.answered.len() == 64 {
            assert(after.answered.drop_last() =~= before.answered.drop_first());
        }
    }
}

proof fn lemma_answered_or_not(
    answered: Seq<crate::team_journal::AnsweredModel>,
    operation: Seq<char>,
    from: nat,
)
    ensures
        match crate::team_journal::answer_given(answered, operation, from) {
            Some(answer) => exists|i: int|
                from <= i < answered.len() && (#[trigger] answered[i]).operation_id == operation
                    && answered[i].answer == answer,
            None => forall|i: int|
                from <= i < answered.len() ==> (#[trigger] answered[i]).operation_id != operation,
        },
    decreases answered.len() - from,
{
    if from < answered.len() {
        if answered[from as int].operation_id == operation {
            assert(answered[from as int].operation_id == operation);
        } else {
            lemma_answered_or_not(answered, operation, from + 1);
        }
    }
}

/// A team receives claim results and terminal notices, as it does alone, and
/// refuses every other kind of exchange.
pub proof fn a_team_receives_two_kinds_of_exchange(
    participant: &AgentTeamParticipant,
    state: &mut AgentTeamState,
    operation: &AgentOperationId,
    exchange: AgentTeamExchange,
    initiator: &AgentEntityAddress,
    now: AgentTimestampMillis,
    answer: AgentExchangeResult,
    plain: &mut AgentTeamState,
    alone: AgentExchangeResult,
)
    requires
        call_ensures(
            AgentTeamParticipant::apply,
            (participant, state, operation, exchange, initiator, now),
            answer,
        ),
        old(plain)@ == old(state)@,
        exchange is ClaimResult ==> call_ensures(
            AgentTeamState::apply_claim_result,
            (plain, operation, exchange->ClaimResult_0, initiator, now),
            alone,
        ),
        exchange is TerminalNotice ==> call_ensures(
            AgentTeamState::apply_team_terminal,
            (plain, operation, exchange->TerminalNotice_0, initiator, now),
            alone,
        ),
    ensures
        exchange is Other ==> final(state)@ == old(state)@ && answer@.refusal is Some
            && answer@.refusal->Some_0.0 == "unsupported-exchange"@,
        !(exchange is Other) ==> final(state)@ == final(plain)@ && answer@ == alone@,
{
}

/// An answer that settles takes its own exchange, and no other, out of what is
/// owed and moves the board as the team does alone; any other answer, and one to
/// nothing owed, changes nothing.
pub proof fn a_settled_exchange_is_owed_no_more(
    entity: &mut AgentTeamEntity,
    operation: &AgentOperationId,
    answer: &AgentExchangeResult,
    now: AgentTimestampMillis,
    result: Result<bool, AgentUnsettleableRefusal>,
    participant: &AgentTeamParticipant,
    checked: Result<(), AgentUnsettleableRefusal>,
)
    requires
        call_ensures(AgentTeamEntity::settle, (entity, operation, answer, now), result),
        call_ensures(
            AgentTeamParticipant::check_settle,
            (participant, AgentExchangeKind::TeamClaim, answer),
            checked,
        ),
    ensures
        ({
            let (before, after) = (old(entity)@.journal, final(entity)@.journal);
            let owes = exists|i: int|
                0 <= i < before.owed.len() && (#[trigger] before.owed[i]).operation_id
                    == operation@;
            &&& result is Ok <==> !owes || checked is Ok
            &&& result is Ok ==> result->Ok_0 == owes
            &&& result is Err || !owes ==> final(entity)@ == old(entity)@
            &&& after.answered == before.answered
            &&& owes && result is Ok ==> exists|i: int|
                0 <= i < before.owed.len() && (#[trigger] before.owed[i]).operation_id
                    == operation@ && after.owed == before.owed.remove(i) && final(entity)@.state
                    == old(entity)@.state.settling_action(
                    operation@,
                    before.owed[i].command,
                    answer@,
                    now,
                )
        }),
{
    let before = old(entity)@.journal;
    lemma_owed_or_not(before.owed, operation@, 0);
    let at = crate::team_journal::owed_position(before.owed, operation@, 0) as int;
    if at < before.owed.len() {
        assert(before.owed[at].operation_id == operation@);
    }
}

proof fn lemma_owed_or_not(owed: Seq<crate::team::OwedModel>, operation: Seq<char>, from: nat)
    requires
        from <= owed.len(),
    ensures
        ({
            let at = crate::team_journal::owed_position(owed, operation, from);
            &&& from <= at <= owed.len()
            &&& at < owed.len() ==> owed[at as int].operation_id == operation
            &&& at == owed.len() ==> forall|i: int|
                from <= i < owed.len() ==> (#[trigger] owed[i]).operation_id != operation
        }),
    decreases owed.len() - from,
{
    if from < owed.len() {
        lemma_owed_or_not(owed, operation, from + 1);
    }
}

/// A command that must be measured stands exactly when its team is stored in no
/// more than 28 KiB; a larger one is refused with its size, and the entity is the
/// one before it.
pub proof fn a_measured_command_stands_within_the_bound(
    before: AgentTeamEntity,
    after: AgentTeamEntity,
    reply: AgentTeamCommandReply,
    bytes: usize,
    concluded: (AgentTeamEntity, Result<AgentTeamEntityReply, AgentTeamError>),
)
    requires
        call_ensures(conclude_command, (before, after, reply, bytes), concluded),
    ensures
        concluded.1 is Ok <==> !reply.measure || bytes <= 28 * 1024,
        concluded.1 is Ok ==> concluded.0 == after && concluded.1->Ok_0 == reply.reply,
        concluded.1 is Err ==> concluded.0 == before && concluded.1->Err_0 == (
        AgentTeamError::StateBounds { bytes, maximum: 28_672 }),
{
}

} // verus!
