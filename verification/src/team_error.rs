//! The rejections of team operations.

use vstd::prelude::*;
use vstd::string::*;

use crate::exchange::AgentTeamScope;
use crate::identity::{AgentId, AgentIdentityError, AgentRevisionNumber, AgentTaskId};
use crate::team_board::AgentTeamBoardEntryStatus;
use crate::team_history::AgentTeamHistorySequence;
use crate::text::{decimal, decimal_string, join2, join3, join4, join5};

verus! {

/// A fault of the substrate under a team.
#[derive(Debug)]
pub struct AgentTeamFault {
    /// The stable code.
    pub code: &'static str,
    /// The fault in words.
    pub message: String,
}

/// The rejection of a team entity operation.
#[allow(inconsistent_fields)]
#[derive(Debug)]
#[non_exhaustive]
pub enum AgentTeamError {
    /// An identifier or scope key was malformed.
    Identity(AgentIdentityError),
    /// A persisted record carried an unsupported schema version.
    Schema(AgentTeamFault),
    /// The choreography substrate rejected an exchange.
    Choreography(AgentTeamFault),
    /// A coordination derivation failed.
    Coordination(AgentTeamFault),
    /// No team exists under this scope.
    NotCreated {
        /// The addressed scope.
        scope: AgentTeamScope,
    },
    /// A team already exists under this scope.
    AlreadyCreated {
        /// The addressed scope.
        scope: AgentTeamScope,
    },
    /// The team was disbanded.
    Disbanded,
    /// The team's expiry horizon has passed.
    Expired,
    /// A lifecycle command expected a revision the team has moved past.
    StaleLifecycleRevision {
        /// The revision the command expected.
        expected: AgentRevisionNumber,
        /// The revision in force.
        actual: AgentRevisionNumber,
    },
    /// The named agent is not a member.
    NotMember {
        /// The agent.
        member: AgentId,
    },
    /// The named agent is already a member.
    AlreadyMember {
        /// The agent.
        member: AgentId,
    },
    /// The leader cannot be removed.
    LeaderImmovable,
    /// The member holds an unresolved claim and cannot leave.
    MemberClaimPending {
        /// The member.
        member: AgentId,
    },
    /// The membership ceiling is reached.
    MembersExhausted {
        /// The effective ceiling.
        maximum: usize,
    },
    /// The board ceiling is reached.
    BoardExhausted {
        /// The effective ceiling.
        maximum: usize,
    },
    /// The task is already on the board.
    TaskAlreadyPosted {
        /// The task.
        task: AgentTaskId,
    },
    /// The task is not on the board.
    TaskNotPosted {
        /// The task.
        task: AgentTaskId,
    },
    /// The command observed a claim epoch the entry has moved past.
    StaleClaimEpoch {
        /// The epoch the command expected.
        expected: u64,
        /// The epoch in force.
        actual: u64,
    },
    /// The entry is mid-decision and cannot take this command.
    EntryBusy {
        /// The entry's status.
        status: AgentTeamBoardEntryStatus,
    },
    /// The entry's claim activated; ownership left the board.
    EntryOwned,
    /// The entry is closed.
    EntryDone,
    /// The recorded claim's lease has not lapsed.
    ClaimNotStealable,
    /// The requester neither holds the claim nor leads the team.
    NotClaimHolder {
        /// The requester.
        member: AgentId,
    },
    /// The message body exceeds the bounded ceiling.
    MessageTooLarge {
        /// The body size.
        bytes: usize,
        /// The effective ceiling.
        maximum: usize,
    },
    /// A claim arbitration is in flight; disband would strand it.
    DisbandClaimPending {
        /// The entry whose claim is unresolved.
        task: AgentTaskId,
    },
    /// A history append found a different entry at the sequence.
    HistoryConflict {
        /// The conflicting sequence.
        sequence: AgentTeamHistorySequence,
    },
    /// The read cursor precedes the history the backend still retains.
    HistoryWindowExpired {
        /// The floor to resume from, when anything is retained there.
        oldest_retained: Option<AgentTeamHistorySequence>,
    },
    /// The history outbox cannot hold what the next transition may record.
    HistoryBacklog {
        /// Entries pending flush.
        pending: usize,
        /// The outbox capacity.
        maximum: usize,
    },
    /// The materialized state would exceed its bound.
    StateBounds {
        /// The serialized size.
        bytes: usize,
        /// The effective maximum.
        maximum: usize,
    },
}

impl AgentTeamError {
    /// Stable machine-readable code.
    pub fn code(&self) -> (code: &'static str)
        ensures
            code@ == self.code_text(),
    {
        match self {
            AgentTeamError::Identity(_) => "team-identity",
            AgentTeamError::Schema(error) => error.code,
            AgentTeamError::Choreography(error) => error.code,
            AgentTeamError::Coordination(error) => error.code,
            AgentTeamError::NotCreated { .. } => "team-not-found",
            AgentTeamError::AlreadyCreated { .. } => "team-already-created",
            AgentTeamError::Disbanded => "team-disbanded",
            AgentTeamError::Expired => "team-expired",
            AgentTeamError::StaleLifecycleRevision { .. } => "team-stale-lifecycle-revision",
            AgentTeamError::NotMember { .. } => "team-not-member",
            AgentTeamError::AlreadyMember { .. } => "team-already-member",
            AgentTeamError::LeaderImmovable => "team-leader-immovable",
            AgentTeamError::MemberClaimPending { .. } => "team-member-claim-pending",
            AgentTeamError::MembersExhausted { .. } => "team-members-exhausted",
            AgentTeamError::BoardExhausted { .. } => "team-board-exhausted",
            AgentTeamError::TaskAlreadyPosted { .. } => "team-task-already-posted",
            AgentTeamError::TaskNotPosted { .. } => "team-task-not-posted",
            AgentTeamError::StaleClaimEpoch { .. } => "team-claim-stale-epoch",
            AgentTeamError::EntryBusy { .. } => "team-board-entry-busy",
            AgentTeamError::EntryOwned => "team-claim-already-owned",
            AgentTeamError::EntryDone => "team-board-entry-done",
            AgentTeamError::ClaimNotStealable => "team-claim-not-stealable",
            AgentTeamError::NotClaimHolder { .. } => "team-release-not-holder",
            AgentTeamError::MessageTooLarge { .. } => "team-message-too-large",
            AgentTeamError::DisbandClaimPending { .. } => "team-disband-claim-pending",
            AgentTeamError::HistoryConflict { .. } => "team-history-conflict",
            AgentTeamError::HistoryWindowExpired { .. } => "team-history-window-expired",
            AgentTeamError::HistoryBacklog { .. } => "team-history-backlog",
            AgentTeamError::StateBounds { .. } => "team-state-too-large",
        }
    }

    /// The code of each rejection.
    pub open spec fn code_text(&self) -> Seq<char> {
        match self {
            AgentTeamError::Identity(_) => "team-identity"@,
            AgentTeamError::Schema(error) => error.code@,
            AgentTeamError::Choreography(error) => error.code@,
            AgentTeamError::Coordination(error) => error.code@,
            AgentTeamError::NotCreated { .. } => "team-not-found"@,
            AgentTeamError::AlreadyCreated { .. } => "team-already-created"@,
            AgentTeamError::Disbanded => "team-disbanded"@,
            AgentTeamError::Expired => "team-expired"@,
            AgentTeamError::StaleLifecycleRevision { .. } => "team-stale-lifecycle-revision"@,
            AgentTeamError::NotMember { .. } => "team-not-member"@,
            AgentTeamError::AlreadyMember { .. } => "team-already-member"@,
            AgentTeamError::LeaderImmovable => "team-leader-immovable"@,
            AgentTeamError::MemberClaimPending { .. } => "team-member-claim-pending"@,
            AgentTeamError::MembersExhausted { .. } => "team-members-exhausted"@,
            AgentTeamError::BoardExhausted { .. } => "team-board-exhausted"@,
            AgentTeamError::TaskAlreadyPosted { .. } => "team-task-already-posted"@,
            AgentTeamError::TaskNotPosted { .. } => "team-task-not-posted"@,
            AgentTeamError::StaleClaimEpoch { .. } => "team-claim-stale-epoch"@,
            AgentTeamError::EntryBusy { .. } => "team-board-entry-busy"@,
            AgentTeamError::EntryOwned => "team-claim-already-owned"@,
            AgentTeamError::EntryDone => "team-board-entry-done"@,
            AgentTeamError::ClaimNotStealable => "team-claim-not-stealable"@,
            AgentTeamError::NotClaimHolder { .. } => "team-release-not-holder"@,
            AgentTeamError::MessageTooLarge { .. } => "team-message-too-large"@,
            AgentTeamError::DisbandClaimPending { .. } => "team-disband-claim-pending"@,
            AgentTeamError::HistoryConflict { .. } => "team-history-conflict"@,
            AgentTeamError::HistoryWindowExpired { .. } => "team-history-window-expired"@,
            AgentTeamError::HistoryBacklog { .. } => "team-history-backlog"@,
            AgentTeamError::StateBounds { .. } => "team-state-too-large"@,
        }
    }

    /// Whether the rejection is a decision a command reached, which a caller
    /// rebases on, rather than a fault or the answer of a read.
    pub open spec fn refuses_command(&self) -> bool {
        !(self is Identity || self is Schema || self is Choreography || self is Coordination
            || self is HistoryWindowExpired)
    }

    /// Whether the rejection is a domain refusal.
    pub fn is_domain_refusal(&self) -> (result: bool)
        ensures
            result == self.refuses_command(),
    {
        !matches!(
            self,
            AgentTeamError::Identity(_) | AgentTeamError::Schema(_) | AgentTeamError::Choreography(
                _,
            ) | AgentTeamError::Coordination(_) | AgentTeamError::HistoryWindowExpired { .. }
        )
    }

    /// The rejection in words.
    pub fn message(&self) -> (text: String)
        ensures
            text@ == self.message_text(),
    {
        match self {
            AgentTeamError::Identity(error) => error.message(),
            AgentTeamError::Schema(error) => error.message.clone(),
            AgentTeamError::Choreography(error) => error.message.clone(),
            AgentTeamError::Coordination(error) => error.message.clone(),
            AgentTeamError::NotCreated { scope } => {
                let text_scope = scope.describe();
                join2(
                    "no team exists under scope ",
                    text_scope.as_str(),
                )
            },
            AgentTeamError::AlreadyCreated { scope } => {
                let text_scope = scope.describe();
                join2(
                    "a team already exists under scope ",
                    text_scope.as_str(),
                )
            },
            AgentTeamError::Disbanded => "the team was disbanded".to_owned(),
            AgentTeamError::Expired => "the team's expiry horizon has passed".to_owned(),
            AgentTeamError::StaleLifecycleRevision { expected, actual } => {
                let text_expected = decimal_string(expected.number);
                let text_actual = decimal_string(actual.number);
                join5(
                    "the command expected lifecycle revision ",
                    text_expected.as_str(),
                    " but ",
                    text_actual.as_str(),
                    " is in force",
                )
            },
            AgentTeamError::NotMember { member } => {
                join2(
                    member.as_str(),
                    " is not a member of this team",
                )
            },
            AgentTeamError::AlreadyMember { member } => {
                join2(
                    member.as_str(),
                    " is already a member of this team",
                )
            },
            AgentTeamError::LeaderImmovable => "the team leader cannot be removed".to_owned(),
            AgentTeamError::MemberClaimPending { member } => {
                join2(
                    member.as_str(),
                    " holds an unresolved board claim and cannot leave",
                )
            },
            AgentTeamError::MembersExhausted { maximum } => {
                let text_maximum = decimal_string(*maximum as u64);
                join3(
                    "the team already has its maximum of ",
                    text_maximum.as_str(),
                    " members",
                )
            },
            AgentTeamError::BoardExhausted { maximum } => {
                let text_maximum = decimal_string(*maximum as u64);
                join3(
                    "the board already holds its maximum of ",
                    text_maximum.as_str(),
                    " entries",
                )
            },
            AgentTeamError::TaskAlreadyPosted { task } => {
                join3(
                    "task ",
                    task.as_str(),
                    " is already on the board",
                )
            },
            AgentTeamError::TaskNotPosted { task } => {
                join3(
                    "task ",
                    task.as_str(),
                    " is not on the board",
                )
            },
            AgentTeamError::StaleClaimEpoch { expected, actual } => {
                let text_expected = decimal_string(*expected);
                let text_actual = decimal_string(*actual);
                join5(
                    "the command expected claim epoch ",
                    text_expected.as_str(),
                    " but ",
                    text_actual.as_str(),
                    " is in force",
                )
            },
            AgentTeamError::EntryBusy { status } => {
                join3(
                    "the board entry is ",
                    status.as_label(),
                    " and cannot take this command",
                )
            },
            AgentTeamError::EntryOwned => "the entry's claim activated; ownership left the board".to_owned(),
            AgentTeamError::EntryDone => "the board entry is closed".to_owned(),
            AgentTeamError::ClaimNotStealable => "the recorded claim's lease has not lapsed".to_owned(),
            AgentTeamError::NotClaimHolder { member } => {
                join2(
                    member.as_str(),
                    " neither holds the claim nor leads the team",
                )
            },
            AgentTeamError::MessageTooLarge { bytes, maximum } => {
                let text_bytes = decimal_string(*bytes as u64);
                let text_maximum = decimal_string(*maximum as u64);
                join4(
                    "the message body is ",
                    text_bytes.as_str(),
                    " bytes; the ceiling is ",
                    text_maximum.as_str(),
                )
            },
            AgentTeamError::DisbandClaimPending { task } => {
                join3(
                    "task ",
                    task.as_str(),
                    " has an unresolved claim; disband would strand it",
                )
            },
            AgentTeamError::HistoryConflict { sequence } => {
                let text_sequence = decimal_string(sequence.get());
                join2(
                    "a different history entry already occupies sequence ",
                    text_sequence.as_str(),
                )
            },
            AgentTeamError::HistoryWindowExpired { oldest_retained } => match oldest_retained {
                Some(oldest) => {
                    let floor = decimal_string(oldest.get());
                    join3(
                        "the history cursor precedes the retained window, which starts at sequence ",
                        floor.as_str(),
                        "; resynchronize from authoritative state",
                    )
                },
                None => "the history cursor precedes the retained window, which holds nothing; resynchronize from authoritative state".to_owned(),
            },
            AgentTeamError::HistoryBacklog { pending, maximum } => {
                let text_pending = decimal_string(*pending as u64);
                let text_maximum = decimal_string(*maximum as u64);
                join5(
                    "the history outbox holds ",
                    text_pending.as_str(),
                    " of ",
                    text_maximum.as_str(),
                    " entries and cannot accept more",
                )
            },
            AgentTeamError::StateBounds { bytes, maximum } => {
                let text_bytes = decimal_string(*bytes as u64);
                let text_maximum = decimal_string(*maximum as u64);
                join4(
                    "the materialized team is ",
                    text_bytes.as_str(),
                    " bytes; the bound is ",
                    text_maximum.as_str(),
                )
            },
        }
    }

    /// The words of each rejection.
    pub open spec fn message_text(&self) -> Seq<char> {
        match self {
            AgentTeamError::Identity(error) => error.message_text(),
            AgentTeamError::Schema(error) => error.message@,
            AgentTeamError::Choreography(error) => error.message@,
            AgentTeamError::Coordination(error) => error.message@,
            AgentTeamError::NotCreated { scope } => "no team exists under scope "@
                + scope.text(),
            AgentTeamError::AlreadyCreated { scope } => "a team already exists under scope "@
                + scope.text(),
            AgentTeamError::Disbanded => "the team was disbanded"@,
            AgentTeamError::Expired => "the team's expiry horizon has passed"@,
            AgentTeamError::StaleLifecycleRevision { expected, actual } => "the command expected lifecycle revision "@
                + decimal(expected.number as nat)
                + " but "@
                + decimal(actual.number as nat)
                + " is in force"@,
            AgentTeamError::NotMember { member } => member@
                + " is not a member of this team"@,
            AgentTeamError::AlreadyMember { member } => member@
                + " is already a member of this team"@,
            AgentTeamError::LeaderImmovable => "the team leader cannot be removed"@,
            AgentTeamError::MemberClaimPending { member } => member@
                + " holds an unresolved board claim and cannot leave"@,
            AgentTeamError::MembersExhausted { maximum } => "the team already has its maximum of "@
                + decimal(*maximum as nat)
                + " members"@,
            AgentTeamError::BoardExhausted { maximum } => "the board already holds its maximum of "@
                + decimal(*maximum as nat)
                + " entries"@,
            AgentTeamError::TaskAlreadyPosted { task } => "task "@
                + task@
                + " is already on the board"@,
            AgentTeamError::TaskNotPosted { task } => "task "@
                + task@
                + " is not on the board"@,
            AgentTeamError::StaleClaimEpoch { expected, actual } => "the command expected claim epoch "@
                + decimal(*expected as nat)
                + " but "@
                + decimal(*actual as nat)
                + " is in force"@,
            AgentTeamError::EntryBusy { status } => "the board entry is "@
                + status.label_text()
                + " and cannot take this command"@,
            AgentTeamError::EntryOwned => "the entry's claim activated; ownership left the board"@,
            AgentTeamError::EntryDone => "the board entry is closed"@,
            AgentTeamError::ClaimNotStealable => "the recorded claim's lease has not lapsed"@,
            AgentTeamError::NotClaimHolder { member } => member@
                + " neither holds the claim nor leads the team"@,
            AgentTeamError::MessageTooLarge { bytes, maximum } => "the message body is "@
                + decimal(*bytes as nat)
                + " bytes; the ceiling is "@
                + decimal(*maximum as nat),
            AgentTeamError::DisbandClaimPending { task } => "task "@
                + task@
                + " has an unresolved claim; disband would strand it"@,
            AgentTeamError::HistoryConflict { sequence } => "a different history entry already occupies sequence "@
                + decimal(sequence.number() as nat),
            AgentTeamError::HistoryWindowExpired { oldest_retained } => match oldest_retained {
                Some(oldest) =>
                "the history cursor precedes the retained window, which starts at sequence "@
                    + decimal(oldest.number() as nat)
                    + "; resynchronize from authoritative state"@,
                None =>
                "the history cursor precedes the retained window, which holds nothing; resynchronize from authoritative state"@,
            },
            AgentTeamError::HistoryBacklog { pending, maximum } => "the history outbox holds "@
                + decimal(*pending as nat)
                + " of "@
                + decimal(*maximum as nat)
                + " entries and cannot accept more"@,
            AgentTeamError::StateBounds { bytes, maximum } => "the materialized team is "@
                + decimal(*bytes as nat)
                + " bytes; the bound is "@
                + decimal(*maximum as nat),
        }
    }
}

} // verus!
