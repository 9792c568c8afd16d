//! What the commands of a team promise their callers: who may decide what, and
//! what every decision does to the board, the membership and the message ring.
//!
//! Each law speaks of a call: of the state it found, of the command it was given,
//! of the state it left and of what it returned.

use vstd::prelude::*;

use crate::collections::text_before;
use crate::identity::{operation_text, AgentIdentityError, AgentOperationKind, AgentTimestampMillis};
use crate::team::{
    claim_text, AgentTeamClaimAction, AgentTeamState, OwedModel, StateModel,
};
use crate::team_board::{AgentTeamBoardEntryStatus, AgentTeamStatus, EntryModel, TeamModel};
use crate::team_entity::{AgentTeamEntityCommand, AgentTeamStep};
use crate::team_error::AgentTeamError;
use crate::team_commands::entry_in_flight;
use crate::team_history::{detail_text, AgentTeamHistoryKind};
use crate::text::{bounded_text, byte_len, decimal};

verus! {

/// Whether a team exists, is active and has not passed its horizon.
pub open spec fn acts(state: StateModel, now: AgentTimestampMillis) -> bool {
    match state.team {
        Some(team) => {
            &&& team.status == AgentTeamStatus::Active
            &&& match team.expires_at {
                Some(horizon) => now.millis < horizon.millis,
                None => true,
            }
        },
        None => false,
    }
}

/// Whether a task is on the board.
pub open spec fn is_posted(state: StateModel, task: Seq<char>) -> bool {
    state.team->Some_0.board.dom().contains(task)
}

/// Whether an agent is a member.
pub open spec fn is_member(state: StateModel, agent: Seq<char>) -> bool {
    state.team->Some_0.members.dom().contains(agent)
}

/// Whether an entry holds a pending claim of a member, or is led by it.
pub open spec fn may_move(team: TeamModel, entry: EntryModel, requester: Seq<char>) -> bool {
    match entry.claim {
        Some(claim) => entry.status == AgentTeamBoardEntryStatus::Pending && (claim.member@
            == requester || team.leader@ == requester),
        None => false,
    }
}

/// A refused command leaves no trace, and a refusal is what a team that does not
/// act answers to everything but its creation.
pub proof fn a_refusal_leaves_no_trace(
    state: &mut AgentTeamState,
    command: AgentTeamEntityCommand,
    now: AgentTimestampMillis,
    result: Result<AgentTeamStep, AgentTeamError>,
)
    requires
        call_ensures(AgentTeamState::apply_transition, (state, command, now), result),
        !(command is Describe),
    ensures
        result is Err ==> final(state)@ == old(state)@,
        !(command is Create) && !acts(old(state)@, now) ==> result is Err && result->Err_0 == (
        match old(state)@.team {
            None => AgentTeamError::NotCreated { scope: old(state)@.scope },
            Some(team) => if team.status == AgentTeamStatus::Disbanded {
                AgentTeamError::Disbanded
            } else {
                AgentTeamError::Expired
            },
        }),
{
}

/// Only the holder of a pending claim, or the leader, has it transferred, and
/// only to a member, at the epoch the requester saw.
pub proof fn only_the_holder_or_the_leader_transfers(
    state: &mut AgentTeamState,
    command: AgentTeamEntityCommand,
    now: AgentTimestampMillis,
    result: Result<AgentTeamStep, AgentTeamError>,
)
    requires
        call_ensures(AgentTeamState::apply_transition, (state, command, now), result),
        command is Transfer,
        acts(old(state)@, now),
    ensures
        ({
            let before = old(state)@;
            let team = before.team->Some_0;
            let task = command->Transfer_task;
            let entry = team.board[task@];
            let targeted = is_member(before, command->Transfer_target@);
            let posted = is_posted(before, task@);
            let seen = entry.claim_epoch == command->Transfer_expected_epoch;
            let pending = entry.status == AgentTeamBoardEntryStatus::Pending && entry.claim is Some;
            let entitled = may_move(team, entry, command->Transfer_member@);
            &&& result is Ok <==> targeted && posted && seen && entitled
                && before.scope.tenant@.len() > 0
            &&& !targeted ==> result->Err_0 == (AgentTeamError::NotMember {
                member: command->Transfer_target,
            })
            &&& targeted && !posted ==> result->Err_0 == (AgentTeamError::TaskNotPosted { task })
            &&& targeted && posted && !seen ==> result->Err_0 == (AgentTeamError::StaleClaimEpoch {
                expected: command->Transfer_expected_epoch,
                actual: entry.claim_epoch,
            })
            &&& targeted && posted && seen && entry.status == AgentTeamBoardEntryStatus::Active
                ==> result->Err_0 == AgentTeamError::EntryOwned
            &&& targeted && posted && seen && entry.status != AgentTeamBoardEntryStatus::Active
                && !pending ==> result->Err_0 == (AgentTeamError::EntryBusy {
                status: entry.status,
            })
            &&& targeted && posted && seen && pending && !entitled ==> result->Err_0 == (
            AgentTeamError::NotClaimHolder { member: command->Transfer_member })
        }),
{
}

/// Only the holder of a pending claim, or the leader, has it released, at the
/// epoch the requester saw.
pub proof fn only_the_holder_or_the_leader_releases(
    state: &mut AgentTeamState,
    command: AgentTeamEntityCommand,
    now: AgentTimestampMillis,
    result: Result<AgentTeamStep, AgentTeamError>,
)
    requires
        call_ensures(AgentTeamState::apply_transition, (state, command, now), result),
        command is Release,
        acts(old(state)@, now),
    ensures
        ({
            let before = old(state)@;
            let team = before.team->Some_0;
            let task = command->Release_task;
            let entry = team.board[task@];
            let posted = is_posted(before, task@);
            let seen = entry.claim_epoch == command->Release_expected_epoch;
            let pending = entry.status == AgentTeamBoardEntryStatus::Pending && entry.claim is Some;
            let entitled = may_move(team, entry, command->Release_member@);
            &&& result is Ok <==> posted && seen && entitled && before.scope.tenant@.len() > 0
            &&& !posted ==> result->Err_0 == (AgentTeamError::TaskNotPosted { task })
            &&& posted && !seen ==> result->Err_0 == (AgentTeamError::StaleClaimEpoch {
                expected: command->Release_expected_epoch,
                actual: entry.claim_epoch,
            })
            &&& posted && seen && entry.status == AgentTeamBoardEntryStatus::Active
                ==> result->Err_0 == AgentTeamError::EntryOwned
            &&& posted && seen && entry.status != AgentTeamBoardEntryStatus::Active && !pending
                ==> result->Err_0 == (AgentTeamError::EntryBusy { status: entry.status })
            &&& posted && seen && pending && !entitled ==> result->Err_0 == (
            AgentTeamError::NotClaimHolder { member: command->Release_member })
        }),
{
}

/// A member claims an open entry, or steals a pending one whose lease has lapsed,
/// at the epoch it saw; nothing else is claimable.
pub proof fn a_claim_takes_an_open_entry_or_a_lapsed_one(
    state: &mut AgentTeamState,
    command: AgentTeamEntityCommand,
    now: AgentTimestampMillis,
    result: Result<AgentTeamStep, AgentTeamError>,
)
    requires
        call_ensures(AgentTeamState::apply_transition, (state, command, now), result),
        command is Claim,
        acts(old(state)@, now),
    ensures
        ({
            let before = old(state)@;
            let task = command->Claim_task;
            let entry = before.team->Some_0.board[task@];
            let joined = is_member(before, command->Claim_member@);
            let posted = is_posted(before, task@);
            let seen = entry.claim_epoch == command->Claim_expected_epoch;
            let lapsed = entry.claim is Some && entry.claim->Some_0.lease_expires_at.millis
                <= now.millis;
            let claimable = entry.status == AgentTeamBoardEntryStatus::Open || (entry.status
                == AgentTeamBoardEntryStatus::Pending && lapsed);
            &&& result is Ok <==> joined && posted && seen && claimable
                && before.scope.tenant@.len() > 0
            &&& !joined ==> result->Err_0 == (AgentTeamError::NotMember {
                member: command->Claim_member,
            })
            &&& joined && !posted ==> result->Err_0 == (AgentTeamError::TaskNotPosted { task })
            &&& joined && posted && !seen ==> result->Err_0 == (AgentTeamError::StaleClaimEpoch {
                expected: command->Claim_expected_epoch,
                actual: entry.claim_epoch,
            })
            &&& joined && posted && seen && entry.status == AgentTeamBoardEntryStatus::Pending
                && !lapsed ==> result->Err_0 == AgentTeamError::ClaimNotStealable
            &&& joined && posted && seen && entry.status == AgentTeamBoardEntryStatus::Releasing
                ==> result->Err_0 == (AgentTeamError::EntryBusy { status: entry.status })
            &&& joined && posted && seen && entry.status == AgentTeamBoardEntryStatus::Active
                ==> result->Err_0 == AgentTeamError::EntryOwned
            &&& joined && posted && seen && entry.status == AgentTeamBoardEntryStatus::Done
                ==> result->Err_0 == AgentTeamError::EntryDone
            &&& joined && posted && seen && claimable && before.scope.tenant@.len() == 0
                ==> result->Err_0 == AgentTeamError::Identity(AgentIdentityError::Empty)
        }),
{
}

/// What every accepted command leaves alone, whatever it is about: the scope, the
/// schema version and the earlier history stay, one history entry is added under
/// the next sequence with the command's operation and time, and the outcome is
/// remembered under that operation.
pub proof fn an_accepted_command_is_recorded_once(
    state: &mut AgentTeamState,
    command: AgentTeamEntityCommand,
    now: AgentTimestampMillis,
    result: Result<AgentTeamStep, AgentTeamError>,
)
    requires
        call_ensures(AgentTeamState::apply_transition, (state, command, now), result),
        !(command is Describe),
        result is Ok,
        old(state)@.next_sequence < u64::MAX,
    ensures
        ({
            let (before, after) = (old(state)@, final(state)@);
            let operation = command.spec_operation_id()->Some_0@;
            let entry = after.pending_history.last();
            let outcome = result->Ok_0.outcome@;
            let team = after.team->Some_0;
            &&& after.scope == before.scope
            &&& after.schema_version == before.schema_version
            &&& after.updated_at == now
            &&& after.team is Some
            &&& after.pending_history.len() == before.pending_history.len() + 1
            &&& after.pending_history.drop_last() == before.pending_history
            &&& after.next_sequence == before.next_sequence + 1
            &&& entry.sequence == before.next_sequence
            &&& entry.operation_id == operation
            &&& entry.at == now
            &&& entry.schema_version == 1
            &&& after.log.len() > 0
            &&& after.log.last().operation_id == operation
            &&& after.log.last().outcome == outcome
            &&& after.log.len() <= 64
            &&& before.log.len() < 64 ==> after.log.drop_last() == before.log
            &&& before.log.len() == 64 ==> after.log.drop_last() == before.log.drop_first()
            &&& outcome.status == team.status
            &&& outcome.lifecycle_revision == team.lifecycle_revision
            &&& outcome.members == team.members.len()
            &&& outcome.board_entries == team.board.len()
            &&& outcome.messages == team.messages.len()
        }),
{
    let (before, after) = (old(state)@, final(state)@);
    assert(after.pending_history.drop_last() =~= before.pending_history);
    if before.log.len() < 64 {
        assert(after.log.drop_last() =~= before.log);
    } else if before.log.len() == 64 {
        assert(after.log.drop_last() =~= before.log.drop_first());
    }
}

/// The outcome of a board decision or a post names the entry it touched, as the
/// board now has it, and no other outcome names one; only what can make the
/// record larger has to be measured; and only a board decision owes an exchange.
pub proof fn a_step_names_what_it_touched(
    state: &mut AgentTeamState,
    command: AgentTeamEntityCommand,
    now: AgentTimestampMillis,
    result: Result<AgentTeamStep, AgentTeamError>,
)
    requires
        call_ensures(AgentTeamState::apply_transition, (state, command, now), result),
        !(command is Describe),
        result is Ok,
    ensures
        ({
            let board = final(state)@.team->Some_0.board;
            let step = result->Ok_0;
            &&& command is Claim ==> step.outcome@.entry == Some(board[command->Claim_task@])
            &&& command is Release ==> step.outcome@.entry == Some(board[command->Release_task@])
            &&& command is Transfer ==> step.outcome@.entry == Some(
                board[command->Transfer_task@],
            )
            &&& command is PostTask ==> step.outcome@.entry == Some(
                board[command->PostTask_task@],
            )
            &&& step.outcome@.entry is Some <==> command is Claim || command is Release
                || command is Transfer || command is PostTask
            &&& step.measure <==> command is Create || command is AddMember || command is PostTask
                || command is AppendMessage
            &&& step.owed is Some <==> command is Claim || command is Release || command is Transfer
        }),
{
}

/// Whether nothing of a team but its board differs.
pub open spec fn same_but_board(a: TeamModel, b: TeamModel) -> bool {
    &&& a.status == b.status
    &&& a.leader == b.leader
    &&& a.root_goal == b.root_goal
    &&& a.policy == b.policy
    &&& a.lifecycle_revision == b.lifecycle_revision
    &&& a.members == b.members
    &&& a.messages == b.messages
    &&& a.messages_dropped == b.messages_dropped
    &&& a.next_message_sequence == b.next_message_sequence
    &&& a.created_at == b.created_at
    &&& a.expires_at == b.expires_at
}

/// Whether an entry is one that a claimant was just given: pending, one epoch on,
/// under a fresh lease and a claim of its own, posted as before.
pub open spec fn freshly_claimed(
    state: StateModel,
    task: Seq<char>,
    claimant: Seq<char>,
    now: AgentTimestampMillis,
    entry: EntryModel,
) -> bool {
    let earlier = state.team->Some_0.board[task];
    let claim = entry.claim->Some_0;
    &&& entry.status == AgentTeamBoardEntryStatus::Pending
    &&& entry.claim_epoch == earlier.claim_epoch + 1
    &&& entry.task == earlier.task
    &&& entry.posted_by == earlier.posted_by
    &&& entry.posted_at == earlier.posted_at
    &&& entry.last_code is None
    &&& entry.claim is Some
    &&& claim.member@ == claimant
    &&& claim.claimed_at == now
    &&& claim.lease_expires_at.millis == if now.millis + state.team->Some_0.policy.claim_lease_ms
        <= u64::MAX {
        now.millis + state.team->Some_0.policy.claim_lease_ms
    } else {
        u64::MAX as int
    }
    &&& claim.generation_echo is None
    &&& claim.run_echo is None
    &&& claim.claim == claim_text(state.scope, task, claimant, entry.claim_epoch)
}

/// Whether an exchange asks a task to honor the claim an entry records.
pub open spec fn asks_for(
    state: StateModel,
    task: Seq<char>,
    entry: EntryModel,
    now: AgentTimestampMillis,
    owed: OwedModel,
) -> bool {
    let claim = entry.claim->Some_0;
    &&& owed.tenant == state.scope.tenant
    &&& owed.task@ == task
    &&& owed.at == now
    &&& owed.operation_id == operation_text(
        AgentOperationKind::TeamClaim,
        seq![state.scope.tenant@, claim.claim],
    )
    &&& owed.command.team == state.scope
    &&& owed.command.task@ == task
    &&& owed.command.claim == claim.claim
    &&& owed.command.epoch == entry.claim_epoch
    &&& owed.command.policy_revision == state.team->Some_0.policy.revision
    &&& owed.command.lease_expires_at == claim.lease_expires_at
    &&& owed.command.action == (AgentTeamClaimAction::Claim { member: claim.member })
}

/// A claim leaves its entry pending for the claimant, one epoch on and under a
/// fresh lease, owes the task exactly that claim, tells a steal from a claim in
/// the history, and touches nothing else of the team.
pub proof fn a_claim_mints_its_claimants_claim(
    state: &mut AgentTeamState,
    command: AgentTeamEntityCommand,
    now: AgentTimestampMillis,
    result: Result<AgentTeamStep, AgentTeamError>,
)
    requires
        call_ensures(AgentTeamState::apply_transition, (state, command, now), result),
        command is Claim,
        result is Ok,
        old(state)@.team->Some_0.board[command->Claim_task@].claim_epoch < u64::MAX,
    ensures
        ({
            let (before, after) = (old(state)@, final(state)@);
            let task = command->Claim_task@;
            let entry = after.team->Some_0.board[task];
            let recorded = after.pending_history.last();
            &&& same_but_board(before.team->Some_0, after.team->Some_0)
            &&& after.team->Some_0.board.dom() == before.team->Some_0.board.dom()
            &&& forall|other: Seq<char>|
                other != task ==> #[trigger] after.team->Some_0.board[other]
                    == before.team->Some_0.board[other]
            &&& freshly_claimed(before, task, command->Claim_member@, now, entry)
            &&& asks_for(before, task, entry, now, result->Ok_0.owed->Some_0@)
            &&& recorded.kind == AgentTeamHistoryKind::ClaimRecorded
            &&& recorded.member == Some(command->Claim_member@)
            &&& recorded.task == Some(task)
            &&& recorded.claim == Some(entry.claim->Some_0.claim)
            &&& before.team->Some_0.board[task].status == AgentTeamBoardEntryStatus::Open
                ==> recorded.detail == "claim"@
            &&& before.team->Some_0.board[task].status == AgentTeamBoardEntryStatus::Pending
                ==> recorded.detail == "steal"@
        }),
{
    let (before, after) = (old(state)@, final(state)@);
    assert(after.team->Some_0.board.dom() =~= before.team->Some_0.board.dom());
    lemma_short_details();
}

/// A transfer leaves its entry pending for the target, one epoch on and under a
/// fresh lease, owes the task exactly that claim, and touches nothing else of
/// the team.
pub proof fn a_transfer_mints_its_targets_claim(
    state: &mut AgentTeamState,
    command: AgentTeamEntityCommand,
    now: AgentTimestampMillis,
    result: Result<AgentTeamStep, AgentTeamError>,
)
    requires
        call_ensures(AgentTeamState::apply_transition, (state, command, now), result),
        command is Transfer,
        result is Ok,
        old(state)@.team->Some_0.board[command->Transfer_task@].claim_epoch < u64::MAX,
    ensures
        ({
            let (before, after) = (old(state)@, final(state)@);
            let task = command->Transfer_task@;
            let entry = after.team->Some_0.board[task];
            let recorded = after.pending_history.last();
            &&& same_but_board(before.team->Some_0, after.team->Some_0)
            &&& after.team->Some_0.board.dom() == before.team->Some_0.board.dom()
            &&& forall|other: Seq<char>|
                other != task ==> #[trigger] after.team->Some_0.board[other]
                    == before.team->Some_0.board[other]
            &&& freshly_claimed(before, task, command->Transfer_target@, now, entry)
            &&& asks_for(before, task, entry, now, result->Ok_0.owed->Some_0@)
            &&& recorded.kind == AgentTeamHistoryKind::TransferRecorded
            &&& recorded.member == Some(command->Transfer_target@)
            &&& recorded.task == Some(task)
            &&& recorded.claim == Some(entry.claim->Some_0.claim)
        }),
{
    let (before, after) = (old(state)@, final(state)@);
    assert(after.team->Some_0.board.dom() =~= before.team->Some_0.board.dom());
}

/// A release leaves its entry releasing, one epoch on and with its claim, asks the
/// task to let that claim go, and touches nothing else of the team.
pub proof fn a_release_keeps_the_claim_until_it_settles(
    state: &mut AgentTeamState,
    command: AgentTeamEntityCommand,
    now: AgentTimestampMillis,
    result: Result<AgentTeamStep, AgentTeamError>,
)
    requires
        call_ensures(AgentTeamState::apply_transition, (state, command, now), result),
        command is Release,
        result is Ok,
        old(state)@.team->Some_0.board[command->Release_task@].claim_epoch < u64::MAX,
    ensures
        ({
            let (before, after) = (old(state)@, final(state)@);
            let task = command->Release_task@;
            let earlier = before.team->Some_0.board[task];
            let entry = after.team->Some_0.board[task];
            let claim = earlier.claim->Some_0;
            let owed = result->Ok_0.owed->Some_0@;
            let recorded = after.pending_history.last();
            &&& same_but_board(before.team->Some_0, after.team->Some_0)
            &&& after.team->Some_0.board.dom() == before.team->Some_0.board.dom()
            &&& forall|other: Seq<char>|
                other != task ==> #[trigger] after.team->Some_0.board[other]
                    == before.team->Some_0.board[other]
            &&& entry.status == AgentTeamBoardEntryStatus::Releasing
            &&& entry.claim_epoch == earlier.claim_epoch + 1
            &&& entry.claim == earlier.claim
            &&& entry.task == earlier.task
            &&& entry.posted_by == earlier.posted_by
            &&& entry.posted_at == earlier.posted_at
            &&& entry.last_code == earlier.last_code
            &&& owed.tenant == before.scope.tenant
            &&& owed.task@ == task
            &&& owed.at == now
            &&& owed.operation_id == operation_text(
                AgentOperationKind::TeamClaimRelease,
                seq![before.scope.tenant@, claim.claim, decimal(entry.claim_epoch as nat)],
            )
            &&& owed.command.team == before.scope
            &&& owed.command.task@ == task
            &&& owed.command.claim == claim.claim
            &&& owed.command.epoch == entry.claim_epoch
            &&& owed.command.policy_revision == before.team->Some_0.policy.revision
            &&& owed.command.lease_expires_at == claim.lease_expires_at
            &&& owed.command.action == AgentTeamClaimAction::Release
            &&& recorded.kind == AgentTeamHistoryKind::ClaimReleaseRequested
            &&& recorded.member == Some(command->Release_member@)
            &&& recorded.task == Some(task)
            &&& recorded.claim == Some(claim.claim)
        }),
{
    let (before, after) = (old(state)@, final(state)@);
    assert(after.team->Some_0.board.dom() =~= before.team->Some_0.board.dom());
}

/// Whether a text is recorded as a detail: whole where it fits, and else its
/// longest prefix that does.
pub open spec fn recorded_as(detail: Seq<char>, text: Seq<char>) -> bool {
    &&& detail.len() <= text.len()
    &&& detail == text.subrange(0, detail.len() as int)
    &&& byte_len(detail) <= 512
    &&& byte_len(text) <= 512 ==> detail == text
    &&& forall|longer: int|
        detail.len() < longer <= text.len() ==> byte_len(#[trigger] text.subrange(0, longer)) > 512
}

/// A detail keeps as much of its text as fits.
pub proof fn a_detail_keeps_what_fits(text: Seq<char>)
    ensures
        recorded_as(detail_text(text), text),
{
    let kept = detail_text(text);
    crate::text::lemma_bounded_text_fits(text, 512);
    lemma_nothing_longer_fits(text, 512);
    assert forall|longer: int| kept.len() < longer <= text.len() implies byte_len(
        #[trigger] text.subrange(0, longer),
    ) > 512 by {
        crate::text::lemma_prefix_bytes(text, kept.len() as int + 1, longer);
    }
}

pub(crate) proof fn lemma_nothing_longer_fits(text: Seq<char>, limit: nat)
    ensures
        ({
            let kept = bounded_text(text, limit);
            kept.len() < text.len() ==> byte_len(text.subrange(0, kept.len() as int + 1)) > limit
        }),
    decreases text.len(),
{
    let kept = bounded_text(text, limit);
    if text.len() > 0 && byte_len(text) > limit {
        let shorter = text.drop_last();
        lemma_nothing_longer_fits(shorter, limit);
        crate::text::lemma_bounded_text_fits(shorter, limit);
        if kept.len() < shorter.len() {
            assert(shorter.subrange(0, kept.len() as int + 1) =~= text.subrange(
                0,
                kept.len() as int + 1,
            ));
        } else {
            assert(text.subrange(0, kept.len() as int + 1) =~= text);
        }
    }
}

/// A character takes at most four bytes.
proof fn lemma_four_bytes_each(text: Seq<char>)
    ensures
        byte_len(text) <= 4 * text.len(),
    decreases text.len(),
{
    if text.len() > 0 {
        lemma_four_bytes_each(text.drop_first());
    }
}

proof fn lemma_short_details()
    ensures
        detail_text("claim"@) == "claim"@,
        detail_text("steal"@) == "steal"@,
        detail_text("released"@) == "released"@,
        detail_text("activated"@) == "activated"@,
        detail_text("expired"@) == "expired"@,
{
    reveal_strlit("claim");
    reveal_strlit("steal");
    reveal_strlit("released");
    reveal_strlit("activated");
    reveal_strlit("expired");
    lemma_four_bytes_each("claim"@);
    lemma_four_bytes_each("steal"@);
    lemma_four_bytes_each("released"@);
    lemma_four_bytes_each("activated"@);
    lemma_four_bytes_each("expired"@);
}

/// A creation makes an active team of those it lists and its leader, under its
/// policy, with an empty board and ring; only once, and only within the policy's
/// membership.
pub proof fn a_creation_makes_the_team_it_lists(
    state: &mut AgentTeamState,
    command: AgentTeamEntityCommand,
    now: AgentTimestampMillis,
    result: Result<AgentTeamStep, AgentTeamError>,
)
    requires
        call_ensures(AgentTeamState::apply_transition, (state, command, now), result),
        command is Create,
    ensures
        ({
            let (before, after) = (old(state)@, final(state)@);
            let creation = command->creation;
            let listed = creation.members@.dom().insert(creation.leader@);
            let team = after.team->Some_0;
            let recorded = after.pending_history.last();
            &&& result is Ok <==> before.team is None && listed.len()
                <= creation.policy.max_members
            &&& before.team is Some ==> result->Err_0 == (AgentTeamError::AlreadyCreated {
                scope: before.scope,
            })
            &&& before.team is None && listed.len() > creation.policy.max_members
                ==> result->Err_0 == (AgentTeamError::MembersExhausted {
                maximum: creation.policy.max_members as usize,
            })
            &&& result is Ok ==> {
                &&& team.status == AgentTeamStatus::Active
                &&& team.leader == creation.leader
                &&& team.root_goal == creation.root_goal
                &&& team.policy == creation.policy
                &&& team.lifecycle_revision.number == 1
                &&& team.members.dom() == listed
                &&& team.board.dom() == Set::<Seq<char>>::empty()
                &&& team.messages.len() == 0
                &&& team.messages_dropped == 0
                &&& team.next_message_sequence == 1
                &&& team.created_at == now
                &&& team.expires_at is Some <==> creation.policy.expires_after_ms is Some
                &&& creation.policy.expires_after_ms is Some
                    ==> team.expires_at->Some_0.millis == if now.millis
                    + creation.policy.expires_after_ms->Some_0 <= u64::MAX {
                    now.millis + creation.policy.expires_after_ms->Some_0
                } else {
                    u64::MAX as int
                }
                &&& forall|agent: Seq<char>|
                    #![trigger team.members[agent]]
                    listed.contains(agent) ==> {
                        &&& team.members[agent].joined_at == now
                        &&& team.members[agent].revision.number == 1
                        &&& team.members[agent].capability_scopes
                            == if creation.members@.dom().contains(agent) {
                            creation.members@[agent]@
                        } else {
                            Set::empty()
                        }
                    }
                &&& recorded.kind == AgentTeamHistoryKind::Created
                &&& recorded.member == Some(creation.leader@)
            }
        }),
{
    let creation = command->creation;
    let listed = creation.members@.dom().insert(creation.leader@);
    assert(crate::team_commands::first_members(creation, now).dom() =~= listed);
    assert(Map::<Seq<char>, EntryModel>::empty().dom() =~= Set::empty());
}

/// Whether nothing of a team but its membership and its lifecycle revision
/// differs.
pub open spec fn same_but_members(a: TeamModel, b: TeamModel) -> bool {
    &&& a.status == b.status
    &&& a.leader == b.leader
    &&& a.root_goal == b.root_goal
    &&& a.policy == b.policy
    &&& a.board == b.board
    &&& a.messages == b.messages
    &&& a.messages_dropped == b.messages_dropped
    &&& a.next_message_sequence == b.next_message_sequence
    &&& a.created_at == b.created_at
    &&& a.expires_at == b.expires_at
}

/// A joiner is no member yet, fits the membership, and comes at the lifecycle
/// revision the requester saw; it joins with its own scopes, and nobody else is
/// touched.
pub proof fn a_join_adds_one_member(
    state: &mut AgentTeamState,
    command: AgentTeamEntityCommand,
    now: AgentTimestampMillis,
    result: Result<AgentTeamStep, AgentTeamError>,
)
    requires
        call_ensures(AgentTeamState::apply_transition, (state, command, now), result),
        command is AddMember,
        acts(old(state)@, now),
        old(state)@.team->Some_0.lifecycle_revision.number < u64::MAX,
    ensures
        ({
            let (before, after) = (old(state)@, final(state)@);
            let (team, next) = (before.team->Some_0, after.team->Some_0);
            let member = command->AddMember_member;
            let seen = team.lifecycle_revision == command->AddMember_expected_lifecycle_revision;
            let joined = team.members.dom().contains(member@);
            let recorded = after.pending_history.last();
            &&& result is Ok <==> seen && !joined && team.members.len() < team.policy.max_members
            &&& !seen ==> result->Err_0 == (AgentTeamError::StaleLifecycleRevision {
                expected: command->AddMember_expected_lifecycle_revision,
                actual: team.lifecycle_revision,
            })
            &&& seen && joined ==> result->Err_0 == (AgentTeamError::AlreadyMember { member })
            &&& seen && !joined && team.members.len() >= team.policy.max_members
                ==> result->Err_0 == (AgentTeamError::MembersExhausted {
                maximum: team.policy.max_members as usize,
            })
            &&& result is Ok ==> {
                &&& same_but_members(team, next)
                &&& next.lifecycle_revision.number == team.lifecycle_revision.number + 1
                &&& next.members.dom() == team.members.dom().insert(member@)
                &&& next.members[member@].capability_scopes
                    == command->AddMember_capability_scopes@
                &&& next.members[member@].joined_at == now
                &&& next.members[member@].revision == next.lifecycle_revision
                &&& forall|other: Seq<char>|
                    other != member@ ==> #[trigger] next.members[other] == team.members[other]
                &&& recorded.kind == AgentTeamHistoryKind::MemberJoined
                &&& recorded.member == Some(member@)
                &&& recorded_as(
                    recorded.detail,
                    command->AddMember_provenance.principal.principal_id@,
                )
            }
        }),
{
    let (team, next) = (old(state)@.team->Some_0, final(state)@.team->Some_0);
    if result is Ok {
        assert(next.members.dom() =~= team.members.dom().insert(command->AddMember_member@));
        a_detail_keeps_what_fits(command->AddMember_provenance.principal.principal_id@);
    }
}

/// A leaver is a member that neither leads nor holds a claim in flight, and goes
/// at the lifecycle revision the requester saw; nobody else is touched.
pub proof fn a_leave_removes_one_member(
    state: &mut AgentTeamState,
    command: AgentTeamEntityCommand,
    now: AgentTimestampMillis,
    result: Result<AgentTeamStep, AgentTeamError>,
)
    requires
        call_ensures(AgentTeamState::apply_transition, (state, command, now), result),
        command is RemoveMember,
        acts(old(state)@, now),
        old(state)@.team->Some_0.lifecycle_revision.number < u64::MAX,
    ensures
        ({
            let (before, after) = (old(state)@, final(state)@);
            let (team, next) = (before.team->Some_0, after.team->Some_0);
            let member = command->RemoveMember_member;
            let seen = team.lifecycle_revision
                == command->RemoveMember_expected_lifecycle_revision;
            let joined = team.members.dom().contains(member@);
            let leads = team.leader@ == member@;
            let holding = exists|task: Seq<char>|
                #![trigger team.board[task]]
                team.board.dom().contains(task) && team.board[task].claim is Some
                    && team.board[task].claim->Some_0.member@ == member@ && (team.board[task].status
                    == AgentTeamBoardEntryStatus::Pending || team.board[task].status
                    == AgentTeamBoardEntryStatus::Releasing);
            let recorded = after.pending_history.last();
            &&& result is Ok <==> seen && joined && !leads && !holding
            &&& !seen ==> result->Err_0 == (AgentTeamError::StaleLifecycleRevision {
                expected: command->RemoveMember_expected_lifecycle_revision,
                actual: team.lifecycle_revision,
            })
            &&& seen && !joined ==> result->Err_0 == (AgentTeamError::NotMember { member })
            &&& seen && joined && leads ==> result->Err_0 == AgentTeamError::LeaderImmovable
            &&& seen && joined && !leads && holding ==> result->Err_0 == (
            AgentTeamError::MemberClaimPending { member })
            &&& result is Ok ==> {
                &&& same_but_members(team, next)
                &&& next.lifecycle_revision.number == team.lifecycle_revision.number + 1
                &&& next.members.dom() == team.members.dom().remove(member@)
                &&& forall|other: Seq<char>|
                    other != member@ && team.members.dom().contains(other)
                        ==> #[trigger] next.members[other] == team.members[other]
                &&& recorded.kind == AgentTeamHistoryKind::MemberLeft
                &&& recorded.member == Some(member@)
                &&& recorded_as(
                    recorded.detail,
                    command->RemoveMember_provenance.principal.principal_id@,
                )
            }
        }),
{
    let (team, next) = (old(state)@.team->Some_0, final(state)@.team->Some_0);
    let member = command->RemoveMember_member@;
    if exists|task: Seq<char>| #[trigger]
        entry_in_flight(team.board, task) && team.board[task].claim is Some
            && team.board[task].claim->Some_0.member@ == member {
        let task = choose|task: Seq<char>| #[trigger]
            entry_in_flight(team.board, task) && team.board[task].claim is Some
                && team.board[task].claim->Some_0.member@ == member;
        assert(team.board[task].claim is Some);
    } else {
        assert forall|task: Seq<char>|
            #![trigger team.board[task]]
            team.board.dom().contains(task) && team.board[task].claim is Some
                && team.board[task].claim->Some_0.member@ == member implies !(
        team.board[task].status == AgentTeamBoardEntryStatus::Pending || team.board[task].status
            == AgentTeamBoardEntryStatus::Releasing) by {
            assert(!entry_in_flight(team.board, task));
        }
    }
    if result is Ok {
        assert(next.members.dom() =~= team.members.dom().remove(member));
        a_detail_keeps_what_fits(command->RemoveMember_provenance.principal.principal_id@);
    }
}

/// The tasks of a board that are not closed.
pub open spec fn unfinished(board: Map<Seq<char>, EntryModel>) -> Set<Seq<char>> {
    board.dom().filter(
        |task: Seq<char>| board[task].status != AgentTeamBoardEntryStatus::Done,
    )
}

/// A member posts a task that is not on the board, as an open entry at epoch
/// zero; the board's ceiling counts, once it is reached, unfinished entries
/// alone, and then only closed entries leave.
pub proof fn a_post_evicts_only_what_is_closed(
    state: &mut AgentTeamState,
    command: AgentTeamEntityCommand,
    now: AgentTimestampMillis,
    result: Result<AgentTeamStep, AgentTeamError>,
)
    requires
        call_ensures(AgentTeamState::apply_transition, (state, command, now), result),
        command is PostTask,
        acts(old(state)@, now),
    ensures
        ({
            let (before, after) = (old(state)@, final(state)@);
            let (team, next) = (before.team->Some_0, after.team->Some_0);
            let task = command->PostTask_task;
            let joined = is_member(before, command->PostTask_posted_by@);
            let posted = is_posted(before, task@);
            let full = team.board.len() >= team.policy.max_board_entries;
            let room = !full || unfinished(team.board).len() < team.policy.max_board_entries;
            let entry = next.board[task@];
            let recorded = after.pending_history.last();
            &&& result is Ok <==> joined && !posted && room
            &&& !joined ==> result->Err_0 == (AgentTeamError::NotMember {
                member: command->PostTask_posted_by,
            })
            &&& joined && posted ==> result->Err_0 == (AgentTeamError::TaskAlreadyPosted { task })
            &&& joined && !posted && !room ==> result->Err_0 == (AgentTeamError::BoardExhausted {
                maximum: team.policy.max_board_entries as usize,
            })
            &&& result is Ok ==> {
                &&& same_but_board(team, next)
                &&& next.board.dom().contains(task@)
                &&& entry.task == task
                &&& entry.posted_by == command->PostTask_posted_by
                &&& entry.posted_at == now
                &&& entry.claim_epoch == 0
                &&& entry.status == AgentTeamBoardEntryStatus::Open
                &&& entry.claim is None
                &&& entry.last_code is None
                &&& forall|other: Seq<char>|
                    other != task@ ==> (#[trigger] next.board.dom().contains(other)
                        <==> team.board.dom().contains(other) && (full ==> team.board[other].status
                        != AgentTeamBoardEntryStatus::Done))
                &&& forall|other: Seq<char>|
                    other != task@ && next.board.dom().contains(other)
                        ==> #[trigger] next.board[other] == team.board[other]
                &&& recorded.kind == AgentTeamHistoryKind::TaskPosted
                &&& recorded.member == Some(command->PostTask_posted_by@)
                &&& recorded.task == Some(task@)
            }
        }),
{
    let team = old(state)@.team->Some_0;
    assert(crate::team_commands::without_done(team.board).dom() =~= unfinished(team.board));
}

/// A member's message, to everyone or to a member, of a size within the policy,
/// is appended under the next number; beyond the ring's size the oldest go, and
/// are counted.
pub proof fn a_message_is_appended_to_the_ring(
    state: &mut AgentTeamState,
    command: AgentTeamEntityCommand,
    now: AgentTimestampMillis,
    result: Result<AgentTeamStep, AgentTeamError>,
)
    requires
        call_ensures(AgentTeamState::apply_transition, (state, command, now), result),
        command is AppendMessage,
        acts(old(state)@, now),
        old(state)@.has_room(command),
    ensures
        ({
            let (before, after) = (old(state)@, final(state)@);
            let (team, next) = (before.team->Some_0, after.team->Some_0);
            let sends = is_member(before, command->from@);
            let receives = command->to is Some ==> is_member(before, command->to->Some_0@);
            let fits = byte_len(command->body@) <= team.policy.max_message_bytes;
            let recorded = after.pending_history.last();
            &&& result is Ok <==> sends && receives && fits
            &&& !sends ==> result->Err_0 == (AgentTeamError::NotMember { member: command->from })
            &&& sends && !receives ==> result->Err_0 == (AgentTeamError::NotMember {
                member: command->to->Some_0,
            })
            &&& sends && receives && !fits ==> result->Err_0 is MessageTooLarge
                && result->Err_0->MessageTooLarge_maximum == team.policy.max_message_bytes
            &&& result is Ok ==> {
                let size = team.policy.max_messages as nat;
                let sent = next.messages.last();
                &&& next.status == team.status
                &&& next.leader == team.leader
                &&& next.root_goal == team.root_goal
                &&& next.policy == team.policy
                &&& next.lifecycle_revision == team.lifecycle_revision
                &&& next.members == team.members
                &&& next.board == team.board
                &&& next.created_at == team.created_at
                &&& next.expires_at == team.expires_at
                &&& next.next_message_sequence == team.next_message_sequence + 1
                &&& next.messages.len() == if team.messages.len() + 1 <= size {
                    team.messages.len() + 1
                } else {
                    size
                }
                &&& next.messages_dropped + next.messages.len() == team.messages_dropped
                    + team.messages.len() + 1
                &&& size > 0 ==> {
                    &&& sent.sequence == team.next_message_sequence
                    &&& sent.from == command->from
                    &&& sent.to == command->to
                    &&& sent.body == command->body
                    &&& sent.at == now
                    &&& forall|i: int|
                        0 <= i < next.messages.len() - 1 ==> #[trigger] next.messages[i]
                            == team.messages[team.messages.len() + 1 - next.messages.len() + i]
                }
                &&& recorded.kind == AgentTeamHistoryKind::MessageAppended
                &&& recorded.member == Some(command->from@)
                &&& recorded.task is None
                &&& recorded.claim is None
            }
        }),
{
}

/// A disband comes at the lifecycle revision the requester saw, strands no claim
/// in flight, and ends the team for good, whose members, board and messages stay
/// as they were; it names a task whose claim is in flight.
pub proof fn a_disband_ends_a_settled_team(
    state: &mut AgentTeamState,
    command: AgentTeamEntityCommand,
    now: AgentTimestampMillis,
    result: Result<AgentTeamStep, AgentTeamError>,
)
    requires
        call_ensures(AgentTeamState::apply_transition, (state, command, now), result),
        command is Disband,
        acts(old(state)@, now),
        old(state)@.team->Some_0.lifecycle_revision.number < u64::MAX,
    ensures
        ({
            let (before, after) = (old(state)@, final(state)@);
            let (team, next) = (before.team->Some_0, after.team->Some_0);
            let seen = team.lifecycle_revision == command->Disband_expected_lifecycle_revision;
            let settled = forall|task: Seq<char>|
                #![trigger team.board[task]]
                team.board.dom().contains(task) ==> team.board[task].status
                    != AgentTeamBoardEntryStatus::Pending && team.board[task].status
                    != AgentTeamBoardEntryStatus::Releasing;
            let recorded = after.pending_history.last();
            let reason = command->reason@;
            &&& result is Ok <==> seen && settled
            &&& !seen ==> result->Err_0 == (AgentTeamError::StaleLifecycleRevision {
                expected: command->Disband_expected_lifecycle_revision,
                actual: team.lifecycle_revision,
            })
            &&& seen && !settled ==> result->Err_0 is DisbandClaimPending
            &&& result is Ok ==> {
                &&& next.status == AgentTeamStatus::Disbanded
                &&& next.lifecycle_revision.number == team.lifecycle_revision.number + 1
                &&& next.leader == team.leader
                &&& next.policy == team.policy
                &&& next.root_goal == team.root_goal
                &&& next.members == team.members
                &&& next.board == team.board
                &&& next.messages == team.messages
                &&& next.messages_dropped == team.messages_dropped
                &&& next.next_message_sequence == team.next_message_sequence
                &&& next.created_at == team.created_at
                &&& next.expires_at == team.expires_at
                &&& recorded.kind == AgentTeamHistoryKind::Disbanded
                &&& recorded_as(
                    recorded.detail,
                    if reason.len() == 0 {
                        command->Disband_provenance.principal.principal_id@
                    } else {
                        reason
                    },
                )
            }
        }),
{
    let team = old(state)@.team->Some_0;
    if forall|task: Seq<char>| !#[trigger] entry_in_flight(team.board, task) {
        assert forall|task: Seq<char>|
            #![trigger team.board[task]]
            team.board.dom().contains(task) implies team.board[task].status
            != AgentTeamBoardEntryStatus::Pending && team.board[task].status
            != AgentTeamBoardEntryStatus::Releasing by {
            assert(!entry_in_flight(team.board, task));
        }
    } else {
        let task = choose|task: Seq<char>| #[trigger] entry_in_flight(team.board, task);
        assert(team.board.dom().contains(task));
        assert(team.board[task].status == AgentTeamBoardEntryStatus::Pending
            || team.board[task].status == AgentTeamBoardEntryStatus::Releasing);
    }
    a_detail_keeps_what_fits(command->reason@);
    a_detail_keeps_what_fits(command->Disband_provenance.principal.principal_id@);
}

/// A refused disband names the first task, in order, whose claim is in flight.
pub proof fn a_refused_disband_names_a_claim_in_flight(
    state: &mut AgentTeamState,
    command: AgentTeamEntityCommand,
    now: AgentTimestampMillis,
    result: Result<AgentTeamStep, AgentTeamError>,
)
    requires
        call_ensures(AgentTeamState::apply_transition, (state, command, now), result),
        command is Disband,
        acts(old(state)@, now),
        result is Err,
        result->Err_0 is DisbandClaimPending,
    ensures
        ({
            let board = old(state)@.team->Some_0.board;
            exists|key: Seq<char>|
                #![trigger board[key]]
                board.dom().contains(key) && board[key].task
                    == result->Err_0->DisbandClaimPending_task && (board[key].status
                    == AgentTeamBoardEntryStatus::Pending || board[key].status
                    == AgentTeamBoardEntryStatus::Releasing) && forall|other: Seq<char>|
                    #![trigger board[other]]
                    board.dom().contains(other) && (board[other].status
                        == AgentTeamBoardEntryStatus::Pending || board[other].status
                        == AgentTeamBoardEntryStatus::Releasing) ==> other == key || text_before(
                        key,
                        other,
                    )
        }),
{
    let board = old(state)@.team->Some_0.board;
    let error = result->Err_0;
    let key = choose|task: Seq<char>| #[trigger]
        crate::team_commands::is_first_in_flight(board, task) && error == (
        AgentTeamError::DisbandClaimPending { task: board[task].task });
    assert(board.dom().contains(key));
    assert forall|other: Seq<char>|
        #![trigger board[other]]
        board.dom().contains(other) && (board[other].status == AgentTeamBoardEntryStatus::Pending
            || board[other].status == AgentTeamBoardEntryStatus::Releasing) implies other == key
        || text_before(key, other) by {
        assert(entry_in_flight(board, other));
    }
}

} // verus!
