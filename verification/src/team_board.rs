//! Teams: membership, the shared task board, and the message ring.

use vstd::prelude::*;
use vstd::string::*;

use crate::collections::{IdMap, IdSet};
use crate::identity::{
    copy_optional, AgentGoalId, AgentId, AgentRevisionNumber, AgentRunId, AgentTag, AgentTaskId,
    AgentTeamClaimId, AgentTimestampMillis, CapabilityTag, TaskTag,
};
use crate::wake_state::optional_string;

verus! {

/// Lifecycle of one team.
#[derive(Debug, Clone, Copy, PartialEq, Eq, Structural)]
#[non_exhaustive]
pub enum AgentTeamStatus {
    /// The team accepts board and membership operations.
    Active,
    /// The team was disbanded by an authorized command.
    Disbanded,
    /// The team's creation policy expired it.
    Expired,
}

impl AgentTeamStatus {
    /// Whether no further board or membership operation is accepted.
    pub fn is_terminal(self) -> (result: bool)
        ensures
            result == (self != AgentTeamStatus::Active),
    {
        matches!(self, AgentTeamStatus::Disbanded | AgentTeamStatus::Expired)
    }

    /// Stable kebab-case label.
    pub fn as_label(self) -> (label: &'static str)
        ensures
            label@ == self.label_text(),
    {
        match self {
            AgentTeamStatus::Active => "active",
            AgentTeamStatus::Disbanded => "disbanded",
            AgentTeamStatus::Expired => "expired",
        }
    }

    /// The label of each status.
    pub open spec fn label_text(self) -> Seq<char> {
        match self {
            AgentTeamStatus::Active => "active"@,
            AgentTeamStatus::Disbanded => "disbanded"@,
            AgentTeamStatus::Expired => "expired"@,
        }
    }
}

/// One bounded team member record.
#[derive(Debug)]
pub struct AgentTeamMember {
    /// The capability scopes this member was admitted under.
    pub capability_scopes: IdSet<CapabilityTag>,
    /// When the member joined.
    pub joined_at: AgentTimestampMillis,
    /// The lifecycle revision the membership change committed under.
    pub revision: AgentRevisionNumber,
}

/// What a member record says.
pub struct MemberModel {
    /// The capability scopes.
    pub capability_scopes: Set<Seq<char>>,
    /// When the member joined.
    pub joined_at: AgentTimestampMillis,
    /// The revision the member joined under.
    pub revision: AgentRevisionNumber,
}

impl View for AgentTeamMember {
    type V = MemberModel;

    open spec fn view(&self) -> MemberModel {
        MemberModel {
            capability_scopes: self.capability_scopes@,
            joined_at: self.joined_at,
            revision: self.revision,
        }
    }
}

impl Clone for AgentTeamMember {
    fn clone(&self) -> (copy: Self)
        ensures
            copy@ == self@,
    {
        AgentTeamMember {
            capability_scopes: self.capability_scopes.clone(),
            joined_at: self.joined_at,
            revision: self.revision,
        }
    }
}

/// Status of one shared task-board entry.
#[derive(Debug, Clone, Copy, PartialEq, Eq, Structural)]
#[non_exhaustive]
pub enum AgentTeamBoardEntryStatus {
    /// Posted and claimable.
    Open,
    /// A claim is recorded and its assignment outcome is pending.
    Pending,
    /// A release was requested and its outcome is pending.
    Releasing,
    /// The claimant's assignment durably accepted.
    Active,
    /// The task reported a state that closes the entry.
    Done,
}

impl AgentTeamBoardEntryStatus {
    /// Stable kebab-case label.
    pub fn as_label(self) -> (label: &'static str)
        ensures
            label@ == self.label_text(),
    {
        match self {
            AgentTeamBoardEntryStatus::Open => "open",
            AgentTeamBoardEntryStatus::Pending => "pending",
            AgentTeamBoardEntryStatus::Releasing => "releasing",
            AgentTeamBoardEntryStatus::Active => "active",
            AgentTeamBoardEntryStatus::Done => "done",
        }
    }

    /// The label of each status.
    pub open spec fn label_text(self) -> Seq<char> {
        match self {
            AgentTeamBoardEntryStatus::Open => "open"@,
            AgentTeamBoardEntryStatus::Pending => "pending"@,
            AgentTeamBoardEntryStatus::Releasing => "releasing"@,
            AgentTeamBoardEntryStatus::Active => "active"@,
            AgentTeamBoardEntryStatus::Done => "done"@,
        }
    }

    /// Whether a claim decision is in flight.
    pub open spec fn in_flight(self) -> bool {
        self == AgentTeamBoardEntryStatus::Pending || self == AgentTeamBoardEntryStatus::Releasing
    }

    /// Whether a claim decision is in flight.
    pub fn is_in_flight(self) -> (result: bool)
        ensures
            result == self.in_flight(),
    {
        matches!(self, AgentTeamBoardEntryStatus::Pending | AgentTeamBoardEntryStatus::Releasing)
    }
}

/// The claim one board entry currently records.
#[derive(Debug)]
pub struct AgentTeamBoardClaim {
    /// The derived claim identity.
    pub claim: AgentTeamClaimId,
    /// The claiming member.
    pub member: AgentId,
    /// When the claim's pending window lapses and the entry becomes stealable.
    pub lease_expires_at: AgentTimestampMillis,
    /// When the claim was recorded.
    pub claimed_at: AgentTimestampMillis,
    /// The accepted assignment generation, echoed by the task.
    pub generation_echo: Option<u64>,
    /// The run serving the accepted generation, echoed by the task.
    pub run_echo: Option<AgentRunId>,
}

/// What a board claim says.
pub struct ClaimModel {
    /// The claim's text.
    pub claim: Seq<char>,
    /// The claiming member.
    pub member: AgentId,
    /// When the entry becomes stealable.
    pub lease_expires_at: AgentTimestampMillis,
    /// When the claim was recorded.
    pub claimed_at: AgentTimestampMillis,
    /// The accepted assignment generation.
    pub generation_echo: Option<u64>,
    /// The run serving it.
    pub run_echo: Option<AgentRunId>,
}

impl View for AgentTeamBoardClaim {
    type V = ClaimModel;

    open spec fn view(&self) -> ClaimModel {
        ClaimModel {
            claim: self.claim@,
            member: self.member,
            lease_expires_at: self.lease_expires_at,
            claimed_at: self.claimed_at,
            generation_echo: self.generation_echo,
            run_echo: self.run_echo,
        }
    }
}

impl Clone for AgentTeamBoardClaim {
    fn clone(&self) -> (copy: Self)
        ensures
            copy == *self,
    {
        AgentTeamBoardClaim {
            claim: self.claim.clone(),
            member: self.member.clone(),
            lease_expires_at: self.lease_expires_at,
            claimed_at: self.claimed_at,
            generation_echo: self.generation_echo,
            run_echo: copy_optional(&self.run_echo),
        }
    }
}

/// One shared task-board entry.
#[derive(Debug)]
pub struct AgentTeamBoardEntry {
    /// The posted task.
    pub task: AgentTaskId,
    /// The member that posted it.
    pub posted_by: AgentId,
    /// When it was posted.
    pub posted_at: AgentTimestampMillis,
    /// The entry's claim epoch: every board decision over the entry bumps it,
    /// and a command carrying an older expectation fails closed.
    pub claim_epoch: u64,
    /// Where the entry stands.
    pub status: AgentTeamBoardEntryStatus,
    /// The recorded claim, while one stands.
    pub claim: Option<AgentTeamBoardClaim>,
    /// The bounded code of the last refusal or terminal echo that touched it.
    pub last_code: Option<String>,
}

/// What a board entry says.
pub struct EntryModel {
    /// The posted task.
    pub task: AgentTaskId,
    /// The member that posted it.
    pub posted_by: AgentId,
    /// When it was posted.
    pub posted_at: AgentTimestampMillis,
    /// The claim epoch.
    pub claim_epoch: u64,
    /// Where the entry stands.
    pub status: AgentTeamBoardEntryStatus,
    /// The recorded claim.
    pub claim: Option<ClaimModel>,
    /// The last code's text.
    pub last_code: Option<Seq<char>>,
}

/// What an optional claim says.
pub open spec fn optional_claim(claim: Option<AgentTeamBoardClaim>) -> Option<ClaimModel> {
    match claim {
        Some(claim) => Some(claim@),
        None => None,
    }
}

impl View for AgentTeamBoardEntry {
    type V = EntryModel;

    open spec fn view(&self) -> EntryModel {
        EntryModel {
            task: self.task,
            posted_by: self.posted_by,
            posted_at: self.posted_at,
            claim_epoch: self.claim_epoch,
            status: self.status,
            claim: optional_claim(self.claim),
            last_code: optional_string(self.last_code),
        }
    }
}

impl Clone for AgentTeamBoardEntry {
    fn clone(&self) -> (copy: Self)
        ensures
            copy == *self,
    {
        AgentTeamBoardEntry {
            task: self.task.clone(),
            posted_by: self.posted_by.clone(),
            posted_at: self.posted_at,
            claim_epoch: self.claim_epoch,
            status: self.status,
            claim: match &self.claim {
                Some(claim) => Some(claim.clone()),
                None => None,
            },
            last_code: match &self.last_code {
                Some(code) => Some(code.clone()),
                None => None,
            },
        }
    }
}

impl EntryModel {
    /// The member that holds the entry's claim, if one does.
    pub open spec fn holder(self) -> Option<AgentId> {
        match self.claim {
            Some(claim) => Some(claim.member),
            None => None,
        }
    }
}

/// One bounded mediated peer message on the team's durable ring.
#[derive(Debug)]
pub struct AgentTeamMessage {
    /// Monotonic sequence within the team.
    pub sequence: u64,
    /// The sending member.
    pub from: AgentId,
    /// The addressed member; `None` is a broadcast to the team.
    pub to: Option<AgentId>,
    /// The bounded message body.
    pub body: String,
    /// When it was appended.
    pub at: AgentTimestampMillis,
}

impl Clone for AgentTeamMessage {
    fn clone(&self) -> (copy: Self)
        ensures
            copy == *self,
    {
        AgentTeamMessage {
            sequence: self.sequence,
            from: self.from.clone(),
            to: copy_optional(&self.to),
            body: self.body.clone(),
            at: self.at,
        }
    }
}

/// The trusted policy of one team.
#[derive(Debug, Clone, Copy, PartialEq, Eq, Structural)]
pub struct AgentTeamPolicy {
    /// The policy's revision.
    pub revision: AgentRevisionNumber,
    /// Most members the team may have.
    pub max_members: u32,
    /// Most entries the board may hold.
    pub max_board_entries: u32,
    /// Most messages the ring holds.
    pub max_messages: u32,
    /// Largest message body, in bytes.
    pub max_message_bytes: usize,
    /// How long a pending claim keeps others off, in milliseconds.
    pub claim_lease_ms: u64,
    /// How long the team lives, in milliseconds, when it expires.
    pub expires_after_ms: Option<u64>,
}

/// The materialized team: membership, board, and message ring.
#[derive(Debug)]
pub struct AgentTeam {
    /// Lifecycle of the team.
    pub status: AgentTeamStatus,
    /// The team leader. A member; may release or transfer any pending claim.
    pub leader: AgentId,
    /// The root goal this team works toward.
    pub root_goal: AgentGoalId,
    /// The trusted policy in force, embedded at creation.
    pub policy: AgentTeamPolicy,
    /// Fences membership and disband commands.
    pub lifecycle_revision: AgentRevisionNumber,
    /// The bounded membership.
    pub members: IdMap<AgentTag, AgentTeamMember>,
    /// The shared task board.
    pub board: IdMap<TaskTag, AgentTeamBoardEntry>,
    /// The bounded message ring, oldest first.
    pub messages: Vec<AgentTeamMessage>,
    /// Messages the bounded ring has dropped.
    pub messages_dropped: u64,
    /// The sequence the next message takes.
    pub next_message_sequence: u64,
    /// When the team was created.
    pub created_at: AgentTimestampMillis,
    /// When the team expires, when its policy sets a horizon.
    pub expires_at: Option<AgentTimestampMillis>,
}

/// What a team is.
pub struct TeamModel {
    /// Lifecycle of the team.
    pub status: AgentTeamStatus,
    /// The team leader.
    pub leader: AgentId,
    /// The root goal.
    pub root_goal: AgentGoalId,
    /// The policy in force.
    pub policy: AgentTeamPolicy,
    /// The lifecycle revision.
    pub lifecycle_revision: AgentRevisionNumber,
    /// The members, by the texts of their ids.
    pub members: Map<Seq<char>, MemberModel>,
    /// The board entries, by the texts of their tasks.
    pub board: Map<Seq<char>, EntryModel>,
    /// The message ring, oldest first.
    pub messages: Seq<AgentTeamMessage>,
    /// Messages dropped so far.
    pub messages_dropped: u64,
    /// The sequence the next message takes.
    pub next_message_sequence: u64,
    /// When the team was created.
    pub created_at: AgentTimestampMillis,
    /// When the team expires.
    pub expires_at: Option<AgentTimestampMillis>,
}

/// What a map of members says.
pub open spec fn members_model(members: Map<Seq<char>, AgentTeamMember>) -> Map<
    Seq<char>,
    MemberModel,
> {
    Map::new(|key: Seq<char>| members.dom().contains(key), |key: Seq<char>| members[key]@)
}

/// What a map of board entries says.
pub open spec fn board_model(board: Map<Seq<char>, AgentTeamBoardEntry>) -> Map<
    Seq<char>,
    EntryModel,
> {
    Map::new(|key: Seq<char>| board.dom().contains(key), |key: Seq<char>| board[key]@)
}

impl View for AgentTeam {
    type V = TeamModel;

    open spec fn view(&self) -> TeamModel {
        TeamModel {
            status: self.status,
            leader: self.leader,
            root_goal: self.root_goal,
            policy: self.policy,
            lifecycle_revision: self.lifecycle_revision,
            members: members_model(self.members@),
            board: board_model(self.board@),
            messages: self.messages@,
            messages_dropped: self.messages_dropped,
            next_message_sequence: self.next_message_sequence,
            created_at: self.created_at,
            expires_at: self.expires_at,
        }
    }
}

/// Setting a member record is setting what it says.
pub broadcast proof fn lemma_members_insert(
    members: Map<Seq<char>, AgentTeamMember>,
    key: Seq<char>,
    member: AgentTeamMember,
)
    ensures
        #[trigger] members_model(members.insert(key, member)) == members_model(members).insert(
            key,
            member@,
        ),
{
    assert(members_model(members.insert(key, member)) =~= members_model(members).insert(
        key,
        member@,
    ));
}

/// Taking a member record out is taking out what it says.
pub broadcast proof fn lemma_members_remove(
    members: Map<Seq<char>, AgentTeamMember>,
    key: Seq<char>,
)
    ensures
        #[trigger] members_model(members.remove(key)) == members_model(members).remove(key),
{
    assert(members_model(members.remove(key)) =~= members_model(members).remove(key));
}

/// Setting a board entry is setting what it says.
pub broadcast proof fn lemma_board_insert(
    board: Map<Seq<char>, AgentTeamBoardEntry>,
    key: Seq<char>,
    entry: AgentTeamBoardEntry,
)
    ensures
        #[trigger] board_model(board.insert(key, entry)) == board_model(board).insert(key, entry@),
{
    assert(board_model(board.insert(key, entry)) =~= board_model(board).insert(key, entry@));
}

impl TeamModel {
    /// Whether the team's expiry horizon has passed.
    pub open spec fn expired_at(self, now: AgentTimestampMillis) -> bool {
        self.expires_at is Some && now.millis >= self.expires_at->Some_0.millis
    }
}

impl AgentTeam {
    /// The bounded membership.
    pub fn members(&self) -> (members: &IdMap<AgentTag, AgentTeamMember>)
        ensures
            *members == self.members,
    {
        &self.members
    }

    /// The shared task board.
    pub fn board(&self) -> (board: &IdMap<TaskTag, AgentTeamBoardEntry>)
        ensures
            *board == self.board,
    {
        &self.board
    }

    /// The bounded message ring, oldest first.
    pub fn messages(&self) -> (messages: &[AgentTeamMessage])
        ensures
            messages@ == self@.messages,
    {
        self.messages.as_slice()
    }

    /// Whether one agent is a member.
    pub fn is_member(&self, agent: &AgentId) -> (result: bool)
        ensures
            result == self@.members.dom().contains(agent@),
    {
        self.members.contains_key(agent)
    }

    /// Whether the team's expiry horizon has passed.
    pub fn is_expired_at(&self, now: AgentTimestampMillis) -> (result: bool)
        ensures
            result == self@.expired_at(now),
    {
        match self.expires_at {
            Some(expires) => now.millis >= expires.millis,
            None => false,
        }
    }
}

/// The trusted creation record of one team.
#[derive(Debug)]
pub struct AgentTeamCreation {
    /// The team leader; always a member.
    pub leader: AgentId,
    /// The root goal the team works toward.
    pub root_goal: AgentGoalId,
    /// The policy in force for the team's lifetime.
    pub policy: AgentTeamPolicy,
    /// Initial members and their capability scopes. The leader joins whether
    /// or not it is listed.
    pub members: IdMap<AgentTag, IdSet<CapabilityTag>>,
}

} // verus!
