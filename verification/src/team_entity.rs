//! The team entity's command surface: deduplication, dispatch and replies.

use vstd::prelude::*;
use vstd::string::*;

use crate::collections::{IdMap, IdSet};
use crate::exchange::AgentTeamScope;
use crate::identity::{
    derive_operation_id, operation_text, texts, AgentGoalId, AgentId, AgentIdentityError,
    AgentOperationId, AgentOperationKind, AgentRevisionNumber, AgentRevisionProvenance, AgentTag,
    AgentTaskId, AgentTimestampMillis, CapabilityTag,
};
use crate::team::{
    logged_outcome, AgentTeamOutcome, AgentTeamOwedExchange, AgentTeamState, OwedModel, StateModel,
};
use crate::team_board::{
    members_model, AgentTeamBoardEntry, AgentTeamCreation, AgentTeamMember, AgentTeamMessage,
    AgentTeamStatus, TeamModel,
};
use crate::team_commands::epoch_has_room;
use crate::team_error::AgentTeamError;
use crate::team_history::{
    detail_text, AgentTeamHistoryEntry, AgentTeamHistoryKind, AgentTeamHistorySequence,
    HistoryModel,
};

verus! {

/// One durable, deduplicated command over a team entity.
#[derive(Debug)]
#[non_exhaustive]
pub enum AgentTeamEntityCommand {
    /// Reads the bounded projection.
    Describe,
    /// Creates the team from trusted application data.
    Create {
        /// Stable dedup identity of this creation.
        operation_id: AgentOperationId,
        /// The trusted creation record.
        creation: AgentTeamCreation,
    },
    /// Adds a member, fenced on the lifecycle revision.
    AddMember {
        /// Stable dedup identity of this membership change.
        operation_id: AgentOperationId,
        /// The joining member.
        member: AgentId,
        /// The member's admitted capability scopes.
        capability_scopes: IdSet<CapabilityTag>,
        /// The lifecycle revision this change expects to succeed.
        expected_lifecycle_revision: AgentRevisionNumber,
        /// Who accepted the change, and when.
        provenance: AgentRevisionProvenance,
    },
    /// Removes a member, fenced on the lifecycle revision.
    RemoveMember {
        /// Stable dedup identity of this membership change.
        operation_id: AgentOperationId,
        /// The leaving member.
        member: AgentId,
        /// The lifecycle revision this change expects to succeed.
        expected_lifecycle_revision: AgentRevisionNumber,
        /// Who accepted the change, and when.
        provenance: AgentRevisionProvenance,
    },
    /// Posts an existing task to the shared board.
    PostTask {
        /// Stable dedup identity of this post.
        operation_id: AgentOperationId,
        /// The task to post.
        task: AgentTaskId,
        /// The posting member.
        posted_by: AgentId,
    },
    /// Claims a board entry for one member.
    Claim {
        /// Stable dedup identity of this claim command.
        operation_id: AgentOperationId,
        /// The board task.
        task: AgentTaskId,
        /// The claiming member.
        member: AgentId,
        /// The entry's claim epoch this command observed.
        expected_epoch: u64,
    },
    /// Releases a pending claim before its assignment accepted.
    Release {
        /// Stable dedup identity of this release command.
        operation_id: AgentOperationId,
        /// The board task.
        task: AgentTaskId,
        /// The requesting member: the holder, or the leader.
        member: AgentId,
        /// The entry's claim epoch this command observed.
        expected_epoch: u64,
    },
    /// Transfers a pending claim to another member in one board decision.
    Transfer {
        /// Stable dedup identity of this transfer command.
        operation_id: AgentOperationId,
        /// The board task.
        task: AgentTaskId,
        /// The requesting member: the holder, or the leader.
        member: AgentId,
        /// The member receiving the claim.
        target: AgentId,
        /// The entry's claim epoch this command observed.
        expected_epoch: u64,
    },
    /// Appends a mediated peer message to the durable ring.
    AppendMessage {
        /// Stable dedup identity of this append.
        operation_id: AgentOperationId,
        /// The sending member.
        from: AgentId,
        /// The addressed member; `None` broadcasts.
        to: Option<AgentId>,
        /// The bounded body.
        body: String,
    },
    /// Disbands the team, fenced on the lifecycle revision.
    Disband {
        /// Stable dedup identity of this disband.
        operation_id: AgentOperationId,
        /// The lifecycle revision this change expects to succeed.
        expected_lifecycle_revision: AgentRevisionNumber,
        /// Who accepted the disband, and when.
        provenance: AgentRevisionProvenance,
        /// Bounded reason recorded in history.
        reason: String,
    },
}

impl AgentTeamEntityCommand {
    /// The stable operation id of a mutating command.
    pub open spec fn spec_operation_id(&self) -> Option<AgentOperationId> {
        match self {
            AgentTeamEntityCommand::Describe => None,
            AgentTeamEntityCommand::Create { operation_id, .. } => Some(*operation_id),
            AgentTeamEntityCommand::AddMember { operation_id, .. } => Some(*operation_id),
            AgentTeamEntityCommand::RemoveMember { operation_id, .. } => Some(*operation_id),
            AgentTeamEntityCommand::PostTask { operation_id, .. } => Some(*operation_id),
            AgentTeamEntityCommand::Claim { operation_id, .. } => Some(*operation_id),
            AgentTeamEntityCommand::Release { operation_id, .. } => Some(*operation_id),
            AgentTeamEntityCommand::Transfer { operation_id, .. } => Some(*operation_id),
            AgentTeamEntityCommand::AppendMessage { operation_id, .. } => Some(*operation_id),
            AgentTeamEntityCommand::Disband { operation_id, .. } => Some(*operation_id),
        }
    }

    /// The stable operation id of a mutating command.
    pub fn operation_id(&self) -> (operation: Option<&AgentOperationId>)
        ensures
            match operation {
                Some(operation) => self.spec_operation_id() == Some(*operation),
                None => self.spec_operation_id() is None,
            },
    {
        match self {
            AgentTeamEntityCommand::Describe => None,
            AgentTeamEntityCommand::Create { operation_id, .. } => Some(operation_id),
            AgentTeamEntityCommand::AddMember { operation_id, .. } => Some(operation_id),
            AgentTeamEntityCommand::RemoveMember { operation_id, .. } => Some(operation_id),
            AgentTeamEntityCommand::PostTask { operation_id, .. } => Some(operation_id),
            AgentTeamEntityCommand::Claim { operation_id, .. } => Some(operation_id),
            AgentTeamEntityCommand::Release { operation_id, .. } => Some(operation_id),
            AgentTeamEntityCommand::Transfer { operation_id, .. } => Some(operation_id),
            AgentTeamEntityCommand::AppendMessage { operation_id, .. } => Some(operation_id),
            AgentTeamEntityCommand::Disband { operation_id, .. } => Some(operation_id),
        }
    }

    /// The bounded operation label the team-operations counter records.
    pub fn operation_label(&self) -> (label: &'static str)
        ensures
            label@ == self.label_text(),
    {
        match self {
            AgentTeamEntityCommand::Describe => "describe",
            AgentTeamEntityCommand::Create { .. } => "create",
            AgentTeamEntityCommand::AddMember { .. } => "join",
            AgentTeamEntityCommand::RemoveMember { .. } => "leave",
            AgentTeamEntityCommand::PostTask { .. } => "post",
            AgentTeamEntityCommand::Claim { .. } => "claim",
            AgentTeamEntityCommand::Release { .. } => "release",
            AgentTeamEntityCommand::Transfer { .. } => "transfer",
            AgentTeamEntityCommand::AppendMessage { .. } => "message",
            AgentTeamEntityCommand::Disband { .. } => "disband",
        }
    }

    /// The label of each command.
    pub open spec fn label_text(&self) -> Seq<char> {
        match self {
            AgentTeamEntityCommand::Describe => "describe"@,
            AgentTeamEntityCommand::Create { .. } => "create"@,
            AgentTeamEntityCommand::AddMember { .. } => "join"@,
            AgentTeamEntityCommand::RemoveMember { .. } => "leave"@,
            AgentTeamEntityCommand::PostTask { .. } => "post"@,
            AgentTeamEntityCommand::Claim { .. } => "claim"@,
            AgentTeamEntityCommand::Release { .. } => "release"@,
            AgentTeamEntityCommand::Transfer { .. } => "transfer"@,
            AgentTeamEntityCommand::AppendMessage { .. } => "message"@,
            AgentTeamEntityCommand::Disband { .. } => "disband"@,
        }
    }

    /// The board task a command touches.
    pub open spec fn touched(&self) -> Option<Seq<char>> {
        match self {
            AgentTeamEntityCommand::PostTask { task, .. } => Some(task@),
            AgentTeamEntityCommand::Claim { task, .. } => Some(task@),
            AgentTeamEntityCommand::Release { task, .. } => Some(task@),
            AgentTeamEntityCommand::Transfer { task, .. } => Some(task@),
            _ => None,
        }
    }

    /// Whether the command can make the team's record larger, so that the new
    /// record must be measured before it is committed.
    pub open spec fn grows(&self) -> bool {
        self is Create || self is AddMember || self is PostTask || self is AppendMessage
    }
}

impl StateModel {
    /// Whether a command is refused with an error.
    pub open spec fn refuses(
        self,
        command: AgentTeamEntityCommand,
        now: AgentTimestampMillis,
        error: AgentTeamError,
    ) -> bool {
        match command {
            AgentTeamEntityCommand::Describe => false,
            AgentTeamEntityCommand::Create { creation, .. } => self.creation_refusal(creation, now)
                == Some(error),
            AgentTeamEntityCommand::AddMember { member, expected_lifecycle_revision, .. } =>
            self.join_refusal(member, expected_lifecycle_revision, now) == Some(error),
            AgentTeamEntityCommand::RemoveMember { member, expected_lifecycle_revision, .. } =>
            self.leave_refusal(member, expected_lifecycle_revision, now) == Some(error),
            AgentTeamEntityCommand::PostTask { task, posted_by, .. } => self.post_refusal(
                task,
                posted_by,
                now,
            ) == Some(error),
            AgentTeamEntityCommand::Claim { task, member, expected_epoch, .. } =>
            self.claim_refusal(task, member, expected_epoch, now) == Some(error),
            AgentTeamEntityCommand::Release { task, member, expected_epoch, .. } =>
            self.release_refusal(task, member, expected_epoch, now) == Some(error),
            AgentTeamEntityCommand::Transfer { task, member, target, expected_epoch, .. } =>
            self.transfer_refusal(task, member, target, expected_epoch, now) == Some(error),
            AgentTeamEntityCommand::AppendMessage { from, to, body, .. } => self.message_refusal(
                from,
                to,
                body@,
                now,
            ) == Some(error),
            AgentTeamEntityCommand::Disband { expected_lifecycle_revision, .. } =>
            self.refuses_disband(expected_lifecycle_revision, now, error),
        }
    }

    /// Whether a command is accepted.
    pub open spec fn accepts(
        self,
        command: AgentTeamEntityCommand,
        now: AgentTimestampMillis,
    ) -> bool {
        match command {
            AgentTeamEntityCommand::Describe => false,
            AgentTeamEntityCommand::Create { creation, .. } => self.creation_refusal(
                creation,
                now,
            ) is None,
            AgentTeamEntityCommand::AddMember { member, expected_lifecycle_revision, .. } =>
            self.join_refusal(member, expected_lifecycle_revision, now) is None,
            AgentTeamEntityCommand::RemoveMember { member, expected_lifecycle_revision, .. } =>
            self.leave_refusal(member, expected_lifecycle_revision, now) is None,
            AgentTeamEntityCommand::PostTask { task, posted_by, .. } => self.post_refusal(
                task,
                posted_by,
                now,
            ) is None,
            AgentTeamEntityCommand::Claim { task, member, expected_epoch, .. } =>
            self.claim_refusal(task, member, expected_epoch, now) is None,
            AgentTeamEntityCommand::Release { task, member, expected_epoch, .. } =>
            self.release_refusal(task, member, expected_epoch, now) is None,
            AgentTeamEntityCommand::Transfer { task, member, target, expected_epoch, .. } =>
            self.transfer_refusal(task, member, target, expected_epoch, now) is None,
            AgentTeamEntityCommand::AppendMessage { from, to, body, .. } => self.message_refusal(
                from,
                to,
                body@,
                now,
            ) is None,
            AgentTeamEntityCommand::Disband { expected_lifecycle_revision, .. } =>
            self.accepts_disband(expected_lifecycle_revision, now),
        }
    }

    /// The state an accepted command leaves, before its operation is logged,
    /// and the exchange it owes.
    pub open spec fn moving(
        self,
        command: AgentTeamEntityCommand,
        now: AgentTimestampMillis,
    ) -> (StateModel, Option<OwedModel>) {
        match command {
            AgentTeamEntityCommand::Describe => (self, None),
            AgentTeamEntityCommand::Create { operation_id, creation } => (
                self.creating(operation_id@, creation, now),
                None,
            ),
            AgentTeamEntityCommand::AddMember {
                operation_id,
                member,
                capability_scopes,
                provenance,
                ..
            } => (
                self.joining(
                    operation_id@,
                    member,
                    capability_scopes@,
                    provenance.principal.principal_id@,
                    now,
                ),
                None,
            ),
            AgentTeamEntityCommand::RemoveMember { operation_id, member, provenance, .. } => (
                self.leaving(operation_id@, member, provenance.principal.principal_id@, now),
                None,
            ),
            AgentTeamEntityCommand::PostTask { operation_id, task, posted_by } => (
                self.posting(operation_id@, task, posted_by, now),
                None,
            ),
            AgentTeamEntityCommand::Claim { operation_id, task, member, .. } => {
                let (next, owed) = self.claiming(operation_id@, task, member, now);
                (next, Some(owed))
            },
            AgentTeamEntityCommand::Release { operation_id, task, member, .. } => {
                let (next, owed) = self.releasing(operation_id@, task, member, now);
                (next, Some(owed))
            },
            AgentTeamEntityCommand::Transfer { operation_id, task, target, .. } => {
                let (next, owed) = self.transferring(operation_id@, task, target, now);
                (next, Some(owed))
            },
            AgentTeamEntityCommand::AppendMessage { operation_id, from, to, body } => (
                self.messaging(operation_id@, from, to, body, now),
                None,
            ),
            AgentTeamEntityCommand::Disband { operation_id, provenance, reason, .. } => (
                self.disbanding(operation_id@, provenance.principal.principal_id@, reason@, now),
                None,
            ),
        }
    }

    /// The state an accepted command leaves.
    pub open spec fn applying(
        self,
        command: AgentTeamEntityCommand,
        now: AgentTimestampMillis,
    ) -> StateModel {
        self.moving(command, now).0.resolving(
            command.spec_operation_id()->Some_0@,
            command.touched(),
            now,
        )
    }

    /// Whether every counter that a command moves can move once more.
    pub open spec fn has_room(self, command: AgentTeamEntityCommand) -> bool {
        &&& self.next_sequence < u64::MAX
        &&& match command {
            AgentTeamEntityCommand::Claim { task, .. } => epoch_has_room(self, task@),
            AgentTeamEntityCommand::Release { task, .. } => epoch_has_room(self, task@),
            AgentTeamEntityCommand::Transfer { task, .. } => epoch_has_room(self, task@),
            AgentTeamEntityCommand::AppendMessage { .. } => self.team is Some ==> {
                let team = self.team->Some_0;
                &&& team.next_message_sequence < u64::MAX
                &&& team.messages_dropped + team.messages.len() < u64::MAX
            },
            _ => true,
        }
    }

    /// Whether the state answers a command without a transition: it resolved the
    /// command's operation, or the command is a read.
    pub open spec fn answers(self, command: AgentTeamEntityCommand) -> bool {
        match command.spec_operation_id() {
            Some(operation) => logged_outcome(self.log, operation@, 0) is Some,
            None => true,
        }
    }

    /// The state after a command: as it was where the state already has the
    /// answer or refuses, and the transition's state otherwise.
    pub open spec fn commanded(
        self,
        command: AgentTeamEntityCommand,
        now: AgentTimestampMillis,
    ) -> StateModel {
        if self.answers(command) || !self.accepts(command, now) {
            self
        } else {
            self.applying(command, now)
        }
    }
}

/// What one accepted command produced.
#[derive(Debug)]
pub struct AgentTeamStep {
    /// The transition's compact outcome.
    pub outcome: AgentTeamOutcome,
    /// The exchange the transition owes, when it owes one.
    pub owed: Option<AgentTeamOwedExchange>,
    /// Whether the new record must be measured before it is committed.
    pub measure: bool,
}

/// What an optional owed exchange says.
pub open spec fn optional_owed(owed: Option<AgentTeamOwedExchange>) -> Option<OwedModel> {
    match owed {
        Some(owed) => Some(owed@),
        None => None,
    }
}

/// A bounded, credential-free projection of one team.
#[derive(Debug)]
#[non_exhaustive]
pub struct AgentTeamSnapshot {
    /// The team's scope.
    pub scope: AgentTeamScope,
    /// Lifecycle.
    pub status: AgentTeamStatus,
    /// The leader.
    pub leader: AgentId,
    /// The root goal.
    pub root_goal: AgentGoalId,
    /// The policy revision in force.
    pub policy_revision: AgentRevisionNumber,
    /// The lifecycle revision.
    pub lifecycle_revision: AgentRevisionNumber,
    /// The bounded membership.
    pub members: IdMap<AgentTag, AgentTeamMember>,
    /// The board entries, in task order.
    pub board: Vec<AgentTeamBoardEntry>,
    /// The message ring, oldest first.
    pub messages: Vec<AgentTeamMessage>,
    /// Messages the bounded ring dropped.
    pub messages_dropped: u64,
    /// When the team was created.
    pub created_at: AgentTimestampMillis,
    /// When the team expires, when its policy sets a horizon.
    pub expires_at: Option<AgentTimestampMillis>,
    /// How many history entries the team has recorded.
    pub history_entries: u64,
    /// History entries recorded but not yet flushed to the history sink.
    pub owed_history: usize,
    /// The time of the last accepted transition.
    pub updated_at: AgentTimestampMillis,
}

impl AgentTeamSnapshot {
    /// Whether the projection shows a team of a state, whose board tasks are
    /// `tasks`, in order.
    pub open spec fn shows(
        &self,
        state: StateModel,
        team: TeamModel,
        tasks: Seq<Seq<char>>,
    ) -> bool {
        &&& self.scope == state.scope
        &&& self.status == team.status
        &&& self.leader == team.leader
        &&& self.root_goal == team.root_goal
        &&& self.policy_revision == team.policy.revision
        &&& self.lifecycle_revision == team.lifecycle_revision
        &&& members_model(self.members@) == team.members
        &&& crate::collections::keys_in_order(tasks)
        &&& tasks.to_set() == team.board.dom()
        &&& self.board@.len() == tasks.len()
        &&& forall|i: int|
            0 <= i < tasks.len() ==> (#[trigger] self.board@[i])@ == team.board[tasks[i]]
        &&& self.messages@ == team.messages
        &&& self.messages_dropped == team.messages_dropped
        &&& self.created_at == team.created_at
        &&& self.expires_at == team.expires_at
        &&& self.history_entries == if state.next_sequence == 0 {
            0
        } else {
            state.next_sequence - 1
        }
        &&& self.owed_history == state.pending_history.len()
        &&& self.updated_at == state.updated_at
    }
}

/// What one team settle pass accomplished.
#[derive(Debug, Clone, Copy, PartialEq, Eq, Structural)]
pub struct AgentTeamProgress {
    /// History entries durably flushed to the sink.
    pub history_flushed: usize,
    /// Whether a passed expiry horizon was durably observed.
    pub expiry_observed: bool,
    /// Exchanges settled by the drive.
    pub settled: usize,
    /// Deliveries that failed and stay outstanding.
    pub failed: usize,
    /// How many of those were refusals no re-drive can settle.
    pub unsettleable: usize,
    /// Exchanges still outstanding after the drive.
    pub outstanding: usize,
}

/// The reply of one team entity operation.
#[derive(Debug)]
#[non_exhaustive]
pub enum AgentTeamEntityReply {
    /// The command applied.
    Applied {
        /// The transition's compact outcome.
        outcome: AgentTeamOutcome,
    },
    /// The command already ran; this is its original outcome.
    Duplicate {
        /// The recorded outcome.
        outcome: AgentTeamOutcome,
    },
    /// The bounded projection, `None` while the team is uncreated.
    Snapshot(Option<AgentTeamSnapshot>),
    /// What a settle pass accomplished.
    Progressed {
        /// The settle pass report.
        progress: AgentTeamProgress,
    },
    /// The command was refused under a stable code.
    Rejected {
        /// Stable machine-readable reason code.
        code: String,
        /// Human-readable detail.
        message: String,
    },
}

/// What a team state made of one command.
#[derive(Debug)]
pub enum AgentTeamCommandAnswer {
    /// The state had the answer; nothing changed.
    Known {
        /// The reply.
        reply: AgentTeamEntityReply,
    },
    /// The command's transition ran.
    Stepped {
        /// What it produced.
        step: AgentTeamStep,
    },
}

impl AgentTeamEntityReply {
    /// The reply to a refused command.
    pub fn rejected(error: &AgentTeamError) -> (reply: Self)
        ensures
            reply is Rejected,
            reply->code@ == error.code_text(),
            reply->message@ == error.message_text(),
    {
        AgentTeamEntityReply::Rejected {
            code: error.code().to_owned(),
            message: error.message(),
        }
    }
}

/// Copies a membership.
fn copy_members(members: &IdMap<AgentTag, AgentTeamMember>) -> (copy: IdMap<
    AgentTag,
    AgentTeamMember,
>)
    ensures
        members_model(copy@) == members_model(members@),
{
    let count: usize = members.len();
    let ghost keys = members.spec_keys();
    let mut copy: IdMap<AgentTag, AgentTeamMember> = IdMap::new();
    let mut i: usize = 0;
    while i < count
        invariant
            i <= count,
            count == keys.len(),
            keys == members.spec_keys(),
            forall|key: Seq<char>| #[trigger]
                copy@.dom().contains(key) <==> exists|k: int| 0 <= k < i && keys[k] == key,
            forall|key: Seq<char>| #[trigger]
                copy@.dom().contains(key) ==> copy@[key]@ == members@[key]@,
        decreases count - i,
    {
        let agent = members.key_at(i);
        let ghost before = copy@;
        copy.insert(agent.clone(), members.value_at(i).clone());
        proof {
            assert forall|key: Seq<char>| #[trigger] copy@.dom().contains(key) implies exists|
                k: int,
            | 0 <= k < i + 1 && keys[k] == key by {
                if key == agent@ {
                    assert(keys[i as int] == key);
                } else {
                    assert(before.dom().contains(key));
                }
            }
            assert forall|key: Seq<char>|
                (exists|k: int| 0 <= k < i + 1 && keys[k] == key) implies
                #[trigger] copy@.dom().contains(key) by {
                let k = choose|k: int| 0 <= k < i + 1 && keys[k] == key;
                if k < i {
                    assert(before.dom().contains(key));
                }
            }
        }
        i = i + 1;
    }
    proof {
        assert(members_model(copy@) =~= members_model(members@)) by {
            assert forall|key: Seq<char>| #[trigger]
                members_model(copy@).dom().contains(key) == members_model(
                    members@,
                ).dom().contains(key) by {
                if members@.dom().contains(key) {
                    assert(keys.to_set().contains(key));
                    let k = keys.index_of(key);
                    assert(keys[k] == key);
                }
                if copy@.dom().contains(key) {
                    let k = choose|k: int| 0 <= k < count && keys[k] == key;
                    assert(keys.to_set().contains(key));
                }
            }
        }
    }
    copy
}

impl AgentTeamState {
    /// A bounded, credential-free projection of this state.
    pub fn snapshot(&self) -> (snapshot: Option<AgentTeamSnapshot>)
        ensures
            match snapshot {
                Some(snapshot) => self.team is Some && snapshot.shows(
                    self@,
                    self.team->Some_0@,
                    self.team->Some_0.board.spec_keys(),
                ),
                None => self@.team is None,
            },
    {
        match &self.team {
            None => None,
            Some(team) => {
                let count: usize = team.board.len();
                let ghost keys = team.board.spec_keys();
                let mut board: Vec<AgentTeamBoardEntry> = Vec::new();
                let mut i: usize = 0;
                while i < count
                    invariant
                        i <= count,
                        count == keys.len(),
                        keys == team.board.spec_keys(),
                        board@.len() == i,
                        forall|k: int|
                            0 <= k < i ==> (#[trigger] board@[k])@ == team@.board[keys[k]],
                    decreases count - i,
                {
                    board.push(team.board.value_at(i).clone());
                    i = i + 1;
                }
                let mut messages: Vec<AgentTeamMessage> = Vec::new();
                let mut j: usize = 0;
                while j < team.messages.len()
                    invariant
                        j <= team.messages@.len(),
                        messages@ == team.messages@.subrange(0, j as int),
                    decreases team.messages.len() - j,
                {
                    messages.push(team.messages[j].clone());
                    j = j + 1;
                    assert(messages@ =~= team.messages@.subrange(0, j as int));
                }
                proof {
                    assert(messages@ =~= team.messages@);
                    assert(keys.to_set() =~= team@.board.dom());
                }
                Some(
                    AgentTeamSnapshot {
                        scope: self.scope.clone(),
                        status: team.status,
                        leader: team.leader.clone(),
                        root_goal: team.root_goal.clone(),
                        policy_revision: team.policy.revision,
                        lifecycle_revision: team.lifecycle_revision,
                        members: copy_members(&team.members),
                        board,
                        messages,
                        messages_dropped: team.messages_dropped,
                        created_at: team.created_at,
                        expires_at: team.expires_at,
                        history_entries: self.next_history_sequence.get().saturating_sub(1),
                        owed_history: self.pending_history.len(),
                        updated_at: self.updated_at,
                    },
                )
            },
        }
    }

    /// Whether a reply is what the state answers to a command without a
    /// transition: the original outcome as a duplicate, or to a read the
    /// projection, if there is a team.
    pub open spec fn is_answer(
        &self,
        command: AgentTeamEntityCommand,
        reply: AgentTeamEntityReply,
    ) -> bool {
        match command.spec_operation_id() {
            Some(operation) => {
                &&& reply is Duplicate
                &&& Some(reply->Duplicate_outcome@) == logged_outcome(self@.log, operation@, 0)
            },
            None => {
                &&& reply is Snapshot
                &&& reply->Snapshot_0 is Some <==> self@.team is Some
                &&& self@.team is Some ==> reply->Snapshot_0->Some_0.shows(
                    self@,
                    self.team->Some_0@,
                    self.team->Some_0.board.spec_keys(),
                )
            },
        }
    }

    /// Applies one command. An operation the state resolved is answered with its
    /// original outcome and a read with the projection, and neither changes
    /// anything; any other command runs its transition.
    pub fn apply_command(&mut self, command: AgentTeamEntityCommand, now: AgentTimestampMillis) -> (result:
        Result<AgentTeamCommandAnswer, AgentTeamError>)
        requires
            !old(self)@.answers(command) ==> old(self)@.has_room(command),
        ensures
            final(self)@ == old(self)@.commanded(command, now),
            old(self)@.answers(command) ==> {
                &&& *final(self) == *old(self)
                &&& result is Ok
                &&& result->Ok_0 is Known
                &&& old(self).is_answer(command, result->Ok_0->reply)
            },
            !old(self)@.answers(command) && old(self)@.accepts(command, now) ==> {
                let (moved, owed) = old(self)@.moving(command, now);
                &&& result is Ok
                &&& result->Ok_0 is Stepped
                &&& result->Ok_0->step.outcome@ == moved.outcome_for(command.touched())
                &&& optional_owed(result->Ok_0->step.owed) == owed
                &&& result->Ok_0->step.measure == command.grows()
            },
            !old(self)@.answers(command) && !old(self)@.accepts(command, now) ==> {
                &&& result is Err
                &&& old(self)@.refuses(command, now, result->Err_0)
            },
    {
        match self.answer_known(&command) {
            Some(reply) => Ok(AgentTeamCommandAnswer::Known { reply }),
            None => match self.apply_transition(command, now) {
                Ok(step) => Ok(AgentTeamCommandAnswer::Stepped { step }),
                Err(error) => Err(error),
            },
        }
    }

    /// What the state answers without a transition: the original outcome of an
    /// operation it resolved, or the projection a read asks for.
    pub fn answer_known(&self, command: &AgentTeamEntityCommand) -> (reply: Option<
        AgentTeamEntityReply,
    >)
        ensures
            reply is Some <==> self@.answers(*command),
            reply is Some ==> self.is_answer(*command, reply->Some_0),
    {
        match command.operation_id() {
            Some(operation) => match self.applied_operations.outcome(operation) {
                Some(outcome) => Some(
                    AgentTeamEntityReply::Duplicate { outcome: outcome.clone() },
                ),
                None => None,
            },
            None => Some(AgentTeamEntityReply::Snapshot(self.snapshot())),
        }
    }

    /// Runs one bounded command transition and logs its resolved operation. A
    /// refused command leaves no trace.
    pub fn apply_transition(&mut self, command: AgentTeamEntityCommand, now: AgentTimestampMillis) -> (result:
        Result<AgentTeamStep, AgentTeamError>)
        requires
            !(command is Describe),
            old(self)@.has_room(command),
        ensures
            result is Ok <==> old(self)@.accepts(command, now),
            result is Ok ==> ({
                let (moved, owed) = old(self)@.moving(command, now);
                &&& final(self)@ == old(self)@.applying(command, now)
                &&& result->Ok_0.outcome@ == moved.outcome_for(command.touched())
                &&& optional_owed(result->Ok_0.owed) == owed
                &&& result->Ok_0.measure == command.grows()
            }),
            result is Err ==> final(self)@ == old(self)@ && old(self)@.refuses(
                command,
                now,
                result->Err_0,
            ),
    {
        match command {
            AgentTeamEntityCommand::Describe => Err(AgentTeamError::Disbanded),
            AgentTeamEntityCommand::Create { operation_id, creation } => {
                match self.create_team(&operation_id, creation, now) {
                    Err(error) => Err(error),
                    Ok(_) => Ok(self.resolve(operation_id, None, None, true, now)),
                }
            },
            AgentTeamEntityCommand::AddMember {
                operation_id,
                member,
                capability_scopes,
                expected_lifecycle_revision,
                provenance,
            } => {
                match self.add_member(
                    &operation_id,
                    member,
                    capability_scopes,
                    expected_lifecycle_revision,
                    &provenance,
                    now,
                ) {
                    Err(error) => Err(error),
                    Ok(_) => Ok(self.resolve(operation_id, None, None, true, now)),
                }
            },
            AgentTeamEntityCommand::RemoveMember {
                operation_id,
                member,
                expected_lifecycle_revision,
                provenance,
            } => {
                match self.remove_member(
                    &operation_id,
                    &member,
                    expected_lifecycle_revision,
                    &provenance,
                    now,
                ) {
                    Err(error) => Err(error),
                    Ok(_) => Ok(self.resolve(operation_id, None, None, false, now)),
                }
            },
            AgentTeamEntityCommand::PostTask { operation_id, task, posted_by } => {
                let touched = task.clone();
                match self.post_task(&operation_id, task, posted_by, now) {
                    Err(error) => Err(error),
                    Ok(_) => Ok(self.resolve(operation_id, Some(touched), None, true, now)),
                }
            },
            AgentTeamEntityCommand::Claim { operation_id, task, member, expected_epoch } => {
                let touched = task.clone();
                match self.claim_entry(&operation_id, task, member, expected_epoch, now) {
                    Err(error) => Err(error),
                    Ok(owed) => Ok(
                        self.resolve(operation_id, Some(touched), Some(owed), false, now),
                    ),
                }
            },
            AgentTeamEntityCommand::Release { operation_id, task, member, expected_epoch } => {
                let touched = task.clone();
                match self.release_entry(&operation_id, task, &member, expected_epoch, now) {
                    Err(error) => Err(error),
                    Ok(owed) => Ok(
                        self.resolve(operation_id, Some(touched), Some(owed), false, now),
                    ),
                }
            },
            AgentTeamEntityCommand::Transfer {
                operation_id,
                task,
                member,
                target,
                expected_epoch,
            } => {
                let touched = task.clone();
                match self.transfer_entry(
                    &operation_id,
                    task,
                    &member,
                    target,
                    expected_epoch,
                    now,
                ) {
                    Err(error) => Err(error),
                    Ok(owed) => Ok(
                        self.resolve(operation_id, Some(touched), Some(owed), false, now),
                    ),
                }
            },
            AgentTeamEntityCommand::AppendMessage { operation_id, from, to, body } => {
                match self.append_message(&operation_id, from, to, body, now) {
                    Err(error) => Err(error),
                    Ok(_) => Ok(self.resolve(operation_id, None, None, true, now)),
                }
            },
            AgentTeamEntityCommand::Disband {
                operation_id,
                expected_lifecycle_revision,
                provenance,
                reason,
            } => {
                match self.disband_team(
                    &operation_id,
                    expected_lifecycle_revision,
                    &provenance,
                    reason,
                    now,
                ) {
                    Err(error) => Err(error),
                    Ok(_) => Ok(self.resolve(operation_id, None, None, false, now)),
                }
            },
        }
    }

    /// Logs a resolved operation with its outcome.
    fn resolve(
        &mut self,
        operation_id: AgentOperationId,
        touched: Option<AgentTaskId>,
        owed: Option<AgentTeamOwedExchange>,
        measure: bool,
        now: AgentTimestampMillis,
    ) -> (step: AgentTeamStep)
        ensures
            final(self)@ == old(self)@.resolving(
                operation_id@,
                crate::identity::optional_text(touched),
                now,
            ),
            step.outcome@ == old(self)@.outcome_for(crate::identity::optional_text(touched)),
            step.owed == owed,
            step.measure == measure,
    {
        let outcome = self.outcome_for(touched.as_ref());
        self.applied_operations.record(operation_id, outcome.clone());
        self.updated_at = now;
        AgentTeamStep { outcome, owed, measure }
    }

    /// Durably flips an active team whose expiry horizon has passed, returning
    /// whether it did.
    pub fn observe_expiry(&mut self, now: AgentTimestampMillis) -> (result: Result<
        bool,
        AgentTeamError,
    >)
        requires
            old(self)@.would_expire(now) && old(self)@.scope.tenant@.len() > 0 ==> old(
                self,
            )@.next_sequence < u64::MAX,
        ensures
            if !old(self)@.would_expire(now) {
                result == Ok::<bool, AgentTeamError>(false) && final(self)@ == old(self)@
            } else if old(self)@.scope.tenant@.len() == 0 {
                result == Err::<bool, _>(AgentTeamError::Identity(AgentIdentityError::Empty))
                    && final(self)@ == old(self)@
            } else {
                result == Ok::<bool, AgentTeamError>(true) && final(self)@ == old(self)@.expiring(
                    now,
                )
            },
    {
        let would_expire = match &self.team {
            Some(team) => team.status == AgentTeamStatus::Active && team.is_expired_at(now),
            None => false,
        };
        if !would_expire {
            return Ok(false);
        }
        let segments: [&str; 3] = [
            self.scope.tenant.as_str(),
            self.scope.team.as_str(),
            "expiry",
        ];
        proof {
            reveal_strlit("expiry");
            assert(texts(segments@) =~= seq![self.scope.tenant@, self.scope.team@, "expiry"@]);
            assert(segments@[0]@ == self.scope.tenant@ && segments@[1]@ == self.scope.team@
                && segments@[2]@ == "expiry"@);
        }
        let operation_id = match derive_operation_id(
            AgentOperationKind::TeamOperation,
            &segments,
        ) {
            Err(error) => {
                return Err(AgentTeamError::Identity(error));
            },
            Ok(operation) => operation,
        };
        if let Some(team) = &mut self.team {
            team.status = AgentTeamStatus::Expired;
        }
        let entry = AgentTeamHistoryEntry::new(
            AgentTeamHistorySequence::first(),
            AgentTeamHistoryKind::Expired,
            operation_id,
            now,
        ).with_detail("expired".to_owned());
        self.record_history(entry);
        self.updated_at = now;
        Ok(true)
    }
}

impl StateModel {
    /// Whether the team is active past its expiry horizon.
    pub open spec fn would_expire(self, now: AgentTimestampMillis) -> bool {
        self.team is Some && self.team->Some_0.status == AgentTeamStatus::Active
            && self.team->Some_0.expired_at(now)
    }

    /// After the expiry was observed.
    pub open spec fn expiring(self, now: AgentTimestampMillis) -> StateModel {
        StateModel {
            updated_at: now,
            ..self.with_team(
                TeamModel { status: AgentTeamStatus::Expired, ..self.team->Some_0 },
            ).recording(
                HistoryModel {
                    detail: detail_text("expired"@),
                    ..HistoryModel::bare(
                        0,
                        AgentTeamHistoryKind::Expired,
                        operation_text(
                            AgentOperationKind::TeamOperation,
                            seq![self.scope.tenant@, self.scope.team@, "expiry"@],
                        ),
                        now,
                    )
                },
            )
        }
    }
}

} // verus!
