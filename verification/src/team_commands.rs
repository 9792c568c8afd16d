//! The commands over a team: what each refuses, and what it changes.

use vstd::prelude::*;
use vstd::string::*;

use crate::budget::saturating_sum;
use crate::collections::{keys_in_order, text_before, IdMap, IdSet};
use crate::identity::{
    derive_operation_id, operation_text, texts, AgentId, AgentIdentityError, AgentOperationId,
    AgentOperationKind, AgentRevisionNumber, AgentRevisionProvenance, AgentTag, AgentTaskId,
    AgentTeamClaimId, AgentTimestampMillis, CapabilityTag, TaskTag,
};
use crate::exchange::AgentTeamScope;
use crate::team::{
    claim_text, lemma_board_len, lemma_members_len, team_claim_id_for, AgentTeamClaimAction,
    AgentTeamClaimCommand, AgentTeamOwedExchange, AgentTeamState, ClaimCommandModel, OwedModel,
    StateModel,
};
use crate::team_board::{
    board_model, lemma_board_insert, lemma_members_insert, lemma_members_remove, members_model,
    AgentTeam, AgentTeamBoardClaim, AgentTeamBoardEntry, AgentTeamBoardEntryStatus,
    AgentTeamCreation, AgentTeamMember, AgentTeamMessage, AgentTeamPolicy, AgentTeamStatus,
    ClaimModel, EntryModel, MemberModel, TeamModel,
};
use crate::team_error::AgentTeamError;
use crate::team_history::{
    detail_text, AgentTeamHistoryEntry, AgentTeamHistoryKind, AgentTeamHistorySequence,
    HistoryModel,
};
use crate::text::{byte_len, decimal, decimal_string, join2, join4, text_bytes};
use crate::wake_scanner::AgentTaskScope;

verus! {

/// The members a team starts with: those listed, and the leader in any case.
pub open spec fn first_members(creation: AgentTeamCreation, now: AgentTimestampMillis) -> Map<
    Seq<char>,
    MemberModel,
> {
    Map::new(
        |key: Seq<char>| creation.members@.dom().contains(key) || key == creation.leader@,
        |key: Seq<char>|
            MemberModel {
                capability_scopes: if creation.members@.dom().contains(key) {
                    creation.members@[key]@
                } else {
                    Set::empty()
                },
                joined_at: now,
                revision: AgentRevisionNumber { number: 1 },
            },
    )
}

/// The team a creation record makes.
pub open spec fn created_team(creation: AgentTeamCreation, now: AgentTimestampMillis) -> TeamModel {
    TeamModel {
        status: AgentTeamStatus::Active,
        leader: creation.leader,
        root_goal: creation.root_goal,
        policy: creation.policy,
        lifecycle_revision: AgentRevisionNumber { number: 1 },
        members: first_members(creation, now),
        board: Map::empty(),
        messages: Seq::empty(),
        messages_dropped: 0,
        next_message_sequence: 1,
        created_at: now,
        expires_at: match creation.policy.expires_after_ms {
            Some(after) => Some(AgentTimestampMillis { millis: saturating_sum(now.millis, after) }),
            None => None,
        },
    }
}

/// A board without its closed entries.
pub open spec fn without_done(board: Map<Seq<char>, EntryModel>) -> Map<Seq<char>, EntryModel> {
    board.restrict(
        Set::new(
            |key: Seq<char>|
                board.dom().contains(key) && board[key].status != AgentTeamBoardEntryStatus::Done,
        ),
    )
}

/// The board a post finds: under ceiling pressure closed entries are evicted.
pub open spec fn board_for_post(team: TeamModel) -> Map<Seq<char>, EntryModel> {
    if team.board.len() >= team.policy.max_board_entries {
        without_done(team.board)
    } else {
        team.board
    }
}

/// Whether a board entry's claim is in flight.
pub open spec fn entry_in_flight(board: Map<Seq<char>, EntryModel>, task: Seq<char>) -> bool {
    board.dom().contains(task) && board[task].status.in_flight()
}

/// Whether a task is the first, in order, whose claim is in flight.
pub open spec fn is_first_in_flight(board: Map<Seq<char>, EntryModel>, task: Seq<char>) -> bool {
    &&& entry_in_flight(board, task)
    &&& forall|other: Seq<char>| #[trigger]
        entry_in_flight(board, other) ==> other == task || text_before(task, other)
}

/// Whether a member holds a claim that is in flight.
pub open spec fn holds_claim_in_flight(
    board: Map<Seq<char>, EntryModel>,
    member: Seq<char>,
) -> bool {
    exists|task: Seq<char>| #[trigger]
        entry_in_flight(board, task) && board[task].claim is Some
            && board[task].claim->Some_0.member@ == member
}

/// The entry a board decision leaves behind when it mints a claim.
pub open spec fn minted_entry(
    scope: AgentTeamScope,
    entry: EntryModel,
    task: Seq<char>,
    claimant: AgentId,
    lease_ms: u64,
    now: AgentTimestampMillis,
) -> EntryModel {
    let epoch = (entry.claim_epoch + 1) as u64;
    EntryModel {
        claim_epoch: epoch,
        status: AgentTeamBoardEntryStatus::Pending,
        claim: Some(
            ClaimModel {
                claim: claim_text(scope, task, claimant@, epoch),
                member: claimant,
                lease_expires_at: AgentTimestampMillis {
                    millis: saturating_sum(now.millis, lease_ms),
                },
                claimed_at: now,
                generation_echo: None,
                run_echo: None,
            },
        ),
        last_code: None,
        ..entry
    }
}

/// The exchange a minted claim owes its task.
pub open spec fn minted_exchange(
    scope: AgentTeamScope,
    minted: EntryModel,
    task: AgentTaskId,
    policy: AgentTeamPolicy,
    now: AgentTimestampMillis,
) -> OwedModel {
    let claim = minted.claim->Some_0;
    OwedModel {
        operation_id: operation_text(
            AgentOperationKind::TeamClaim,
            seq![scope.tenant@, claim.claim],
        ),
        tenant: scope.tenant,
        task,
        command: ClaimCommandModel {
            team: scope,
            claim: claim.claim,
            task,
            epoch: minted.claim_epoch,
            action: AgentTeamClaimAction::Claim { member: claim.member },
            policy_revision: policy.revision,
            lease_expires_at: claim.lease_expires_at,
        },
        at: now,
    }
}

/// The exchange a release owes its task.
pub open spec fn release_exchange(
    scope: AgentTeamScope,
    released: EntryModel,
    task: AgentTaskId,
    policy: AgentTeamPolicy,
    now: AgentTimestampMillis,
) -> OwedModel {
    let claim = released.claim->Some_0;
    OwedModel {
        operation_id: operation_text(
            AgentOperationKind::TeamClaimRelease,
            seq![scope.tenant@, claim.claim, decimal(released.claim_epoch as nat)],
        ),
        tenant: scope.tenant,
        task,
        command: ClaimCommandModel {
            team: scope,
            claim: claim.claim,
            task,
            epoch: released.claim_epoch,
            action: AgentTeamClaimAction::Release,
            policy_revision: policy.revision,
            lease_expires_at: claim.lease_expires_at,
        },
        at: now,
    }
}

/// The message ring with one more message, cut to its size from the oldest on.
pub open spec fn ringed(messages: Seq<AgentTeamMessage>, size: nat) -> Seq<AgentTeamMessage> {
    if messages.len() > size {
        messages.subrange(messages.len() - size, messages.len() as int)
    } else {
        messages
    }
}

impl StateModel {
    /// Why a creation is refused.
    pub open spec fn creation_refusal(
        self,
        creation: AgentTeamCreation,
        now: AgentTimestampMillis,
    ) -> Option<AgentTeamError> {
        if self.team is Some {
            Some(AgentTeamError::AlreadyCreated { scope: self.scope })
        } else if first_members(creation, now).len() > creation.policy.max_members {
            Some(
                AgentTeamError::MembersExhausted { maximum: creation.policy.max_members as usize },
            )
        } else {
            None
        }
    }

    /// After a creation.
    pub open spec fn creating(
        self,
        operation: Seq<char>,
        creation: AgentTeamCreation,
        now: AgentTimestampMillis,
    ) -> StateModel {
        self.with_team(created_team(creation, now)).recording(
            HistoryModel {
                member: Some(creation.leader@),
                detail: detail_text(
                    "members="@ + decimal(first_members(creation, now).len()),
                ),
                ..HistoryModel::bare(0, AgentTeamHistoryKind::Created, operation, now)
            },
        )
    }

    /// Why a member may not join.
    pub open spec fn join_refusal(
        self,
        member: AgentId,
        expected: AgentRevisionNumber,
        now: AgentTimestampMillis,
    ) -> Option<AgentTeamError> {
        if self.fence_refusal(expected, now) is Some {
            self.fence_refusal(expected, now)
        } else {
            let team = self.team->Some_0;
            if team.members.dom().contains(member@) {
                Some(AgentTeamError::AlreadyMember { member })
            } else if team.members.len() >= team.policy.max_members {
                Some(
                    AgentTeamError::MembersExhausted { maximum: team.policy.max_members as usize },
                )
            } else {
                None
            }
        }
    }

    /// After a member joined.
    pub open spec fn joining(
        self,
        operation: Seq<char>,
        member: AgentId,
        scopes: Set<Seq<char>>,
        principal: Seq<char>,
        now: AgentTimestampMillis,
    ) -> StateModel {
        let team = self.team->Some_0;
        let revision = team.lifecycle_revision.successor();
        self.with_team(
            TeamModel {
                lifecycle_revision: revision,
                members: team.members.insert(
                    member@,
                    MemberModel { capability_scopes: scopes, joined_at: now, revision },
                ),
                ..team
            },
        ).recording(
            HistoryModel {
                member: Some(member@),
                detail: detail_text(principal),
                ..HistoryModel::bare(0, AgentTeamHistoryKind::MemberJoined, operation, now)
            },
        )
    }

    /// Why a member may not leave.
    pub open spec fn leave_refusal(
        self,
        member: AgentId,
        expected: AgentRevisionNumber,
        now: AgentTimestampMillis,
    ) -> Option<AgentTeamError> {
        if self.fence_refusal(expected, now) is Some {
            self.fence_refusal(expected, now)
        } else {
            let team = self.team->Some_0;
            if !team.members.dom().contains(member@) {
                Some(AgentTeamError::NotMember { member })
            } else if member@ == team.leader@ {
                Some(AgentTeamError::LeaderImmovable)
            } else if holds_claim_in_flight(team.board, member@) {
                Some(AgentTeamError::MemberClaimPending { member })
            } else {
                None
            }
        }
    }

    /// After a member left.
    pub open spec fn leaving(
        self,
        operation: Seq<char>,
        member: AgentId,
        principal: Seq<char>,
        now: AgentTimestampMillis,
    ) -> StateModel {
        let team = self.team->Some_0;
        self.with_team(
            TeamModel {
                lifecycle_revision: team.lifecycle_revision.successor(),
                members: team.members.remove(member@),
                ..team
            },
        ).recording(
            HistoryModel {
                member: Some(member@),
                detail: detail_text(principal),
                ..HistoryModel::bare(0, AgentTeamHistoryKind::MemberLeft, operation, now)
            },
        )
    }

    /// Why a task may not be posted.
    pub open spec fn post_refusal(
        self,
        task: AgentTaskId,
        posted_by: AgentId,
        now: AgentTimestampMillis,
    ) -> Option<AgentTeamError> {
        if self.activity_refusal(now) is Some {
            self.activity_refusal(now)
        } else {
            let team = self.team->Some_0;
            if !team.members.dom().contains(posted_by@) {
                Some(AgentTeamError::NotMember { member: posted_by })
            } else if team.board.dom().contains(task@) {
                Some(AgentTeamError::TaskAlreadyPosted { task })
            } else if board_for_post(team).len() >= team.policy.max_board_entries {
                Some(
                    AgentTeamError::BoardExhausted {
                        maximum: team.policy.max_board_entries as usize,
                    },
                )
            } else {
                None
            }
        }
    }

    /// After a task was posted.
    pub open spec fn posting(
        self,
        operation: Seq<char>,
        task: AgentTaskId,
        posted_by: AgentId,
        now: AgentTimestampMillis,
    ) -> StateModel {
        let team = self.team->Some_0;
        self.with_team(
            TeamModel {
                board: board_for_post(team).insert(
                    task@,
                    EntryModel {
                        task,
                        posted_by,
                        posted_at: now,
                        claim_epoch: 0,
                        status: AgentTeamBoardEntryStatus::Open,
                        claim: None,
                        last_code: None,
                    },
                ),
                ..team
            },
        ).recording(
            HistoryModel {
                member: Some(posted_by@),
                task: Some(task@),
                ..HistoryModel::bare(0, AgentTeamHistoryKind::TaskPosted, operation, now)
            },
        )
    }

    /// Why an entry takes no decision a caller observed it under: it must be
    /// posted, at the epoch the caller expects.
    pub open spec fn entry_refusal(self, task: AgentTaskId, expected_epoch: u64) -> Option<
        AgentTeamError,
    > {
        let board = self.team->Some_0.board;
        if !board.dom().contains(task@) {
            Some(AgentTeamError::TaskNotPosted { task })
        } else if board[task@].claim_epoch != expected_epoch {
            Some(
                AgentTeamError::StaleClaimEpoch {
                    expected: expected_epoch,
                    actual: board[task@].claim_epoch,
                },
            )
        } else {
            None
        }
    }

    /// Why an entry is not claimable.
    pub open spec fn claimable_refusal(entry: EntryModel, now: AgentTimestampMillis) -> Option<
        AgentTeamError,
    > {
        match entry.status {
            AgentTeamBoardEntryStatus::Open => None,
            AgentTeamBoardEntryStatus::Pending => if entry.claim is Some && now.millis
                >= entry.claim->Some_0.lease_expires_at.millis {
                None
            } else {
                Some(AgentTeamError::ClaimNotStealable)
            },
            AgentTeamBoardEntryStatus::Releasing => Some(
                AgentTeamError::EntryBusy { status: entry.status },
            ),
            AgentTeamBoardEntryStatus::Active => Some(AgentTeamError::EntryOwned),
            AgentTeamBoardEntryStatus::Done => Some(AgentTeamError::EntryDone),
        }
    }

    /// Why a scope derives no claim: its tenant must key durable state.
    pub open spec fn derivation_refusal(self) -> Option<AgentTeamError> {
        if self.scope.tenant@.len() == 0 {
            Some(AgentTeamError::Identity(AgentIdentityError::Empty))
        } else {
            None
        }
    }

    /// Why a claim is refused.
    pub open spec fn claim_refusal(
        self,
        task: AgentTaskId,
        member: AgentId,
        expected_epoch: u64,
        now: AgentTimestampMillis,
    ) -> Option<AgentTeamError> {
        if self.activity_refusal(now) is Some {
            self.activity_refusal(now)
        } else if !self.team->Some_0.members.dom().contains(member@) {
            Some(AgentTeamError::NotMember { member })
        } else if self.entry_refusal(task, expected_epoch) is Some {
            self.entry_refusal(task, expected_epoch)
        } else if Self::claimable_refusal(self.team->Some_0.board[task@], now) is Some {
            Self::claimable_refusal(self.team->Some_0.board[task@], now)
        } else {
            self.derivation_refusal()
        }
    }

    /// The state with another board entry for a task.
    pub open spec fn with_entry(self, task: Seq<char>, entry: EntryModel) -> StateModel {
        let team = self.team->Some_0;
        self.with_team(TeamModel { board: team.board.insert(task, entry), ..team })
    }

    /// The entry a claim of a task mints.
    pub open spec fn minting(
        self,
        task: AgentTaskId,
        claimant: AgentId,
        now: AgentTimestampMillis,
    ) -> EntryModel {
        let team = self.team->Some_0;
        minted_entry(
            self.scope,
            team.board[task@],
            task@,
            claimant,
            team.policy.claim_lease_ms,
            now,
        )
    }

    /// After a claim, and the exchange it owes.
    pub open spec fn claiming(
        self,
        operation: Seq<char>,
        task: AgentTaskId,
        member: AgentId,
        now: AgentTimestampMillis,
    ) -> (StateModel, OwedModel) {
        let team = self.team->Some_0;
        let stealing = team.board[task@].status == AgentTeamBoardEntryStatus::Pending;
        let minted = self.minting(task, member, now);
        (
            self.with_entry(task@, minted).recording(
                HistoryModel {
                    member: Some(member@),
                    task: Some(task@),
                    claim: Some(minted.claim->Some_0.claim),
                    detail: detail_text(
                        if stealing {
                            "steal"@
                        } else {
                            "claim"@
                        },
                    ),
                    ..HistoryModel::bare(0, AgentTeamHistoryKind::ClaimRecorded, operation, now)
                },
            ),
            minted_exchange(self.scope, minted, task, team.policy, now),
        )
    }

    /// Why a pending claim may not be moved by a requester: only its holder or
    /// the leader may, and only while it is pending.
    pub open spec fn pending_refusal(self, task: AgentTaskId, member: AgentId) -> Option<
        AgentTeamError,
    > {
        let team = self.team->Some_0;
        let entry = team.board[task@];
        if entry.status == AgentTeamBoardEntryStatus::Active {
            Some(AgentTeamError::EntryOwned)
        } else if entry.status != AgentTeamBoardEntryStatus::Pending || entry.claim is None {
            Some(AgentTeamError::EntryBusy { status: entry.status })
        } else if entry.claim->Some_0.member@ != member@ && member@ != team.leader@ {
            Some(AgentTeamError::NotClaimHolder { member })
        } else {
            None
        }
    }

    /// Why a release is refused.
    pub open spec fn release_refusal(
        self,
        task: AgentTaskId,
        member: AgentId,
        expected_epoch: u64,
        now: AgentTimestampMillis,
    ) -> Option<AgentTeamError> {
        if self.activity_refusal(now) is Some {
            self.activity_refusal(now)
        } else if self.entry_refusal(task, expected_epoch) is Some {
            self.entry_refusal(task, expected_epoch)
        } else if self.pending_refusal(task, member) is Some {
            self.pending_refusal(task, member)
        } else {
            self.derivation_refusal()
        }
    }

    /// After a release was requested, and the exchange it owes.
    pub open spec fn releasing(
        self,
        operation: Seq<char>,
        task: AgentTaskId,
        member: AgentId,
        now: AgentTimestampMillis,
    ) -> (StateModel, OwedModel) {
        let team = self.team->Some_0;
        let entry = team.board[task@];
        let released = EntryModel {
            claim_epoch: (entry.claim_epoch + 1) as u64,
            status: AgentTeamBoardEntryStatus::Releasing,
            ..entry
        };
        (
            self.with_entry(task@, released).recording(
                HistoryModel {
                    member: Some(member@),
                    task: Some(task@),
                    claim: Some(entry.claim->Some_0.claim),
                    ..HistoryModel::bare(
                        0,
                        AgentTeamHistoryKind::ClaimReleaseRequested,
                        operation,
                        now,
                    )
                },
            ),
            release_exchange(self.scope, released, task, team.policy, now),
        )
    }

    /// Why a transfer is refused.
    pub open spec fn transfer_refusal(
        self,
        task: AgentTaskId,
        member: AgentId,
        target: AgentId,
        expected_epoch: u64,
        now: AgentTimestampMillis,
    ) -> Option<AgentTeamError> {
        if self.activity_refusal(now) is Some {
            self.activity_refusal(now)
        } else if !self.team->Some_0.members.dom().contains(target@) {
            Some(AgentTeamError::NotMember { member: target })
        } else if self.entry_refusal(task, expected_epoch) is Some {
            self.entry_refusal(task, expected_epoch)
        } else if self.pending_refusal(task, member) is Some {
            self.pending_refusal(task, member)
        } else {
            self.derivation_refusal()
        }
    }

    /// After a transfer, and the exchange it owes. At the task a transfer is a
    /// superseding claim.
    pub open spec fn transferring(
        self,
        operation: Seq<char>,
        task: AgentTaskId,
        target: AgentId,
        now: AgentTimestampMillis,
    ) -> (StateModel, OwedModel) {
        let team = self.team->Some_0;
        let prior = team.board[task@].claim->Some_0.member@;
        let minted = self.minting(task, target, now);
        (
            self.with_entry(task@, minted).recording(
                HistoryModel {
                    member: Some(target@),
                    task: Some(task@),
                    claim: Some(minted.claim->Some_0.claim),
                    detail: detail_text("from="@ + prior),
                    ..HistoryModel::bare(
                        0,
                        AgentTeamHistoryKind::TransferRecorded,
                        operation,
                        now,
                    )
                },
            ),
            minted_exchange(self.scope, minted, task, team.policy, now),
        )
    }

    /// Why a message is refused.
    pub open spec fn message_refusal(
        self,
        from: AgentId,
        to: Option<AgentId>,
        body: Seq<char>,
        now: AgentTimestampMillis,
    ) -> Option<AgentTeamError> {
        if self.activity_refusal(now) is Some {
            self.activity_refusal(now)
        } else {
            let team = self.team->Some_0;
            if !team.members.dom().contains(from@) {
                Some(AgentTeamError::NotMember { member: from })
            } else if to is Some && !team.members.dom().contains(to->Some_0@) {
                Some(AgentTeamError::NotMember { member: to->Some_0 })
            } else if byte_len(body) > team.policy.max_message_bytes {
                Some(
                    AgentTeamError::MessageTooLarge {
                        bytes: byte_len(body) as usize,
                        maximum: team.policy.max_message_bytes,
                    },
                )
            } else {
                None
            }
        }
    }

    /// After a message was appended to the ring.
    pub open spec fn messaging(
        self,
        operation: Seq<char>,
        from: AgentId,
        to: Option<AgentId>,
        body: String,
        now: AgentTimestampMillis,
    ) -> StateModel {
        let team = self.team->Some_0;
        let sequence = team.next_message_sequence;
        let longer = team.messages.push(AgentTeamMessage { sequence, from, to, body, at: now });
        let kept = ringed(longer, team.policy.max_messages as nat);
        self.with_team(
            TeamModel {
                messages: kept,
                messages_dropped: (team.messages_dropped + (longer.len() - kept.len())) as u64,
                next_message_sequence: (sequence + 1) as u64,
                ..team
            },
        ).recording(
            HistoryModel {
                member: Some(from@),
                detail: detail_text(
                    match to {
                        Some(to) => "sequence="@ + decimal(sequence as nat) + " to="@ + to@,
                        None => "sequence="@ + decimal(sequence as nat),
                    },
                ),
                ..HistoryModel::bare(0, AgentTeamHistoryKind::MessageAppended, operation, now)
            },
        )
    }

    /// Whether a disband is refused with an error: the fence, or the first
    /// entry, in order, whose claim is in flight.
    pub open spec fn refuses_disband(
        self,
        expected: AgentRevisionNumber,
        now: AgentTimestampMillis,
        error: AgentTeamError,
    ) -> bool {
        if self.fence_refusal(expected, now) is Some {
            self.fence_refusal(expected, now) == Some(error)
        } else {
            let board = self.team->Some_0.board;
            exists|task: Seq<char>| #[trigger]
                is_first_in_flight(board, task) && error == (AgentTeamError::DisbandClaimPending {
                    task: board[task].task,
                })
        }
    }

    /// Whether a disband is accepted.
    pub open spec fn accepts_disband(
        self,
        expected: AgentRevisionNumber,
        now: AgentTimestampMillis,
    ) -> bool {
        &&& self.fence_refusal(expected, now) is None
        &&& forall|task: Seq<char>| !#[trigger] entry_in_flight(self.team->Some_0.board, task)
    }

    /// After a disband.
    pub open spec fn disbanding(
        self,
        operation: Seq<char>,
        principal: Seq<char>,
        reason: Seq<char>,
        now: AgentTimestampMillis,
    ) -> StateModel {
        let team = self.team->Some_0;
        self.with_team(
            TeamModel {
                lifecycle_revision: team.lifecycle_revision.successor(),
                status: AgentTeamStatus::Disbanded,
                ..team
            },
        ).recording(
            HistoryModel {
                detail: detail_text(
                    if reason.len() == 0 {
                        principal
                    } else {
                        reason
                    },
                ),
                ..HistoryModel::bare(0, AgentTeamHistoryKind::Disbanded, operation, now)
            },
        )
    }
}

/// Puts the listed members, and the leader, in a team's first membership.
fn first_membership(creation: &AgentTeamCreation, now: AgentTimestampMillis) -> (members: IdMap<
    AgentTag,
    AgentTeamMember,
>)
    ensures
        members_model(members@) == first_members(*creation, now),
{
    let count: usize = creation.members.len();
    let ghost keys = creation.members.spec_keys();
    let mut members: IdMap<AgentTag, AgentTeamMember> = IdMap::new();
    let mut i: usize = 0;
    while i < count
        invariant
            i <= count,
            count == keys.len(),
            keys == creation.members.spec_keys(),
            keys.to_set() == creation.members@.dom(),
            forall|key: Seq<char>| #[trigger]
                members@.dom().contains(key) <==> exists|k: int| 0 <= k < i && keys[k] == key,
            forall|key: Seq<char>| #[trigger]
                members@.dom().contains(key) ==> members@[key]@ == (MemberModel {
                    capability_scopes: creation.members@[key]@,
                    joined_at: now,
                    revision: AgentRevisionNumber { number: 1 },
                }),
        decreases count - i,
    {
        let agent = creation.members.key_at(i);
        let scopes = creation.members.value_at(i);
        let ghost before = members@;
        members.insert(
            agent.clone(),
            AgentTeamMember {
                capability_scopes: scopes.clone(),
                joined_at: now,
                revision: AgentRevisionNumber::initial(),
            },
        );
        proof {
            assert forall|key: Seq<char>| #[trigger] members@.dom().contains(key) implies exists|
                k: int,
            | 0 <= k < i + 1 && keys[k] == key by {
                if key == agent@ {
                    assert(keys[i as int] == key);
                } else {
                    assert(before.dom().contains(key));
                }
            }
            assert forall|key: Seq<char>|
                (exists|k: int| 0 <= k < i + 1 && keys[k] == key) implies
                #[trigger] members@.dom().contains(key) by {
                let k = choose|k: int| 0 <= k < i + 1 && keys[k] == key;
                if k < i {
                    assert(before.dom().contains(key));
                }
            }
        }
        i = i + 1;
    }
    proof {
        assert forall|key: Seq<char>| #[trigger] creation.members@.dom().contains(key) implies
            members@.dom().contains(key) by {
            assert(keys.contains(key));
            let k = keys.index_of(key);
            assert(keys[k] == key);
        }
        assert forall|key: Seq<char>| #[trigger] members@.dom().contains(key) implies
            creation.members@.dom().contains(key) by {
            let k = choose|k: int| 0 <= k < count && keys[k] == key;
            assert(keys.contains(key));
        }
    }
    if !members.contains_key(&creation.leader) {
        members.insert(
            creation.leader.clone(),
            AgentTeamMember {
                capability_scopes: IdSet::new(),
                joined_at: now,
                revision: AgentRevisionNumber::initial(),
            },
        );
    }
    proof {
        assert(members_model(members@) =~= first_members(*creation, now));
    }
    members
}

impl AgentTeamState {
    /// Creates the team from trusted application data.
    pub fn create_team(
        &mut self,
        operation_id: &AgentOperationId,
        creation: AgentTeamCreation,
        now: AgentTimestampMillis,
    ) -> (result: Result<(), AgentTeamError>)
        requires
            old(self)@.next_sequence < u64::MAX,
        ensures
            match old(self)@.creation_refusal(creation, now) {
                Some(error) => final(self)@ == old(self)@ && result == Err::<(), _>(error),
                None => result is Ok && final(self)@ == old(self)@.creating(
                    operation_id@,
                    creation,
                    now,
                ),
            },
    {
        if self.team.is_some() {
            return Err(AgentTeamError::AlreadyCreated { scope: self.scope.clone() });
        }
        let members = first_membership(&creation, now);
        let maximum: usize = creation.policy.max_members as usize;
        let member_count: usize = members.len();
        proof {
            lemma_members_len(members@);
        }
        if member_count > maximum {
            return Err(AgentTeamError::MembersExhausted { maximum });
        }
        let expires_at = match creation.policy.expires_after_ms {
            Some(after) => Some(AgentTimestampMillis::new(now.millis.saturating_add(after))),
            None => None,
        };
        let leader = creation.leader.clone();
        let team = AgentTeam {
            status: AgentTeamStatus::Active,
            leader: creation.leader,
            root_goal: creation.root_goal,
            policy: creation.policy,
            lifecycle_revision: AgentRevisionNumber::initial(),
            members,
            board: IdMap::new(),
            messages: Vec::new(),
            messages_dropped: 0,
            next_message_sequence: 1,
            created_at: now,
            expires_at,
        };
        proof {
            assert(team@.board =~= Map::<Seq<char>, EntryModel>::empty());
            assert(team@.messages =~= Seq::<AgentTeamMessage>::empty());
            assert(team@ == created_team(creation, now));
        }
        self.team = Some(team);
        let count = decimal_string(member_count as u64);
        let entry = AgentTeamHistoryEntry::new(
            AgentTeamHistorySequence::first(),
            AgentTeamHistoryKind::Created,
            operation_id.clone(),
            now,
        ).with_member(leader).with_detail(join2("members=", count.as_str()));
        self.record_history(entry);
        proof {
            assert(self@.pending_history =~= old(self)@.creating(
                operation_id@,
                creation,
                now,
            ).pending_history);
        }
        Ok(())
    }

    /// Adds a member, fenced on the lifecycle revision.
    pub fn add_member(
        &mut self,
        operation_id: &AgentOperationId,
        member: AgentId,
        capability_scopes: IdSet<CapabilityTag>,
        expected_lifecycle_revision: AgentRevisionNumber,
        provenance: &AgentRevisionProvenance,
        now: AgentTimestampMillis,
    ) -> (result: Result<(), AgentTeamError>)
        requires
            old(self)@.next_sequence < u64::MAX,
        ensures
            match old(self)@.join_refusal(member, expected_lifecycle_revision, now) {
                Some(error) => final(self)@ == old(self)@ && result == Err::<(), _>(error),
                None => result is Ok && final(self)@ == old(self)@.joining(
                    operation_id@,
                    member,
                    capability_scopes@,
                    provenance.principal.principal_id@,
                    now,
                ),
            },
    {
        broadcast use lemma_members_insert;

        match self.require_revision(expected_lifecycle_revision, now) {
            Err(error) => {
                return Err(error);
            },
            Ok(team) => {
                proof {
                    lemma_members_len(team.members@);
                }
                if team.members.contains_key(&member) {
                    return Err(AgentTeamError::AlreadyMember { member });
                }
                let maximum: usize = team.policy.max_members as usize;
                if team.members.len() >= maximum {
                    return Err(AgentTeamError::MembersExhausted { maximum });
                }
            },
        }
        if let Some(team) = &mut self.team {
            let revision = team.lifecycle_revision.next();
            team.lifecycle_revision = revision;
            team.members.insert(
                member.clone(),
                AgentTeamMember { capability_scopes, joined_at: now, revision },
            );
        }
        let entry = AgentTeamHistoryEntry::new(
            AgentTeamHistorySequence::first(),
            AgentTeamHistoryKind::MemberJoined,
            operation_id.clone(),
            now,
        ).with_member(member).with_detail(provenance.principal.principal_id.clone());
        self.record_history(entry);
        Ok(())
    }
}

/// Whether a member holds a claim that is in flight.
fn member_holds_claim(board: &IdMap<TaskTag, AgentTeamBoardEntry>, member: &AgentId) -> (result: bool)
    ensures
        result == holds_claim_in_flight(board_model(board@), member@),
{
    let ghost model = board_model(board@);
    let count: usize = board.len();
    let ghost keys = board.spec_keys();
    let mut i: usize = 0;
    while i < count
        invariant
            i <= count,
            count == keys.len(),
            keys == board.spec_keys(),
            model == board_model(board@),
            forall|k: int|
                0 <= k < i ==> !(entry_in_flight(model, #[trigger] keys[k])
                    && model[keys[k]].claim is Some && model[keys[k]].claim->Some_0.member@
                    == member@),
        decreases count - i,
    {
        let entry = board.value_at(i);
        let holds = match &entry.claim {
            Some(claim) => entry.status.is_in_flight() && claim.member.same(member),
            None => false,
        };
        if holds {
            assert(entry_in_flight(model, keys[i as int]));
            return true;
        }
        i = i + 1;
    }
    proof {
        if holds_claim_in_flight(model, member@) {
            let task = choose|task: Seq<char>| #[trigger]
                entry_in_flight(model, task) && model[task].claim is Some
                    && model[task].claim->Some_0.member@ == member@;
            assert(keys.to_set().contains(task));
            let k = keys.index_of(task);
            assert(keys[k] == task);
        }
    }
    false
}

/// Finds the first entry, in order, whose claim is in flight.
fn find_in_flight(board: &IdMap<TaskTag, AgentTeamBoardEntry>) -> (found: Option<AgentTaskId>)
    ensures
        match found {
            Some(task) => exists|key: Seq<char>| #[trigger]
                is_first_in_flight(board_model(board@), key) && board_model(board@)[key].task
                    == task,
            None => forall|task: Seq<char>| !#[trigger] entry_in_flight(board_model(board@), task),
        },
{
    let ghost model = board_model(board@);
    let count: usize = board.len();
    let ghost keys = board.spec_keys();
    let mut i: usize = 0;
    while i < count
        invariant
            i <= count,
            count == keys.len(),
            keys == board.spec_keys(),
            keys_in_order(keys),
            keys.to_set() == board@.dom(),
            model == board_model(board@),
            forall|k: int| 0 <= k < i ==> !entry_in_flight(model, #[trigger] keys[k]),
        decreases count - i,
    {
        let entry = board.value_at(i);
        if entry.status.is_in_flight() {
            proof {
                let key = keys[i as int];
                assert(entry_in_flight(model, key));
                assert forall|other: Seq<char>| #[trigger] entry_in_flight(model, other) implies
                    other == key || text_before(key, other) by {
                    assert(keys.to_set().contains(other));
                    let k = keys.index_of(other);
                    assert(keys[k] == other);
                    if k > i {
                        assert(text_before(keys[i as int], keys[k]));
                    }
                }
                assert(is_first_in_flight(model, key));
            }
            return Some(entry.task.clone());
        }
        i = i + 1;
    }
    proof {
        assert forall|task: Seq<char>| !#[trigger] entry_in_flight(model, task) by {
            if entry_in_flight(model, task) {
                assert(keys.to_set().contains(task));
                let k = keys.index_of(task);
                assert(keys[k] == task);
            }
        }
    }
    None
}

/// Counts the entries of a board that are not closed.
fn count_unfinished(board: &IdMap<TaskTag, AgentTeamBoardEntry>) -> (unfinished: usize)
    ensures
        unfinished == without_done(board_model(board@)).len(),
{
    let ghost model = board_model(board@);
    let count: usize = board.len();
    let ghost keys = board.spec_keys();
    let ghost mut kept: Seq<Seq<char>> = Seq::empty();
    let mut unfinished: usize = 0;
    let mut i: usize = 0;
    while i < count
        invariant
            i <= count,
            count == keys.len(),
            keys == board.spec_keys(),
            keys.no_duplicates(),
            unfinished == kept.len(),
            unfinished <= i,
            kept.no_duplicates(),
            model == board_model(board@),
            forall|n: int|
                0 <= n < kept.len() ==> without_done(model).dom().contains(#[trigger] kept[n])
                    && exists|k: int| 0 <= k < i && keys[k] == kept[n],
            forall|k: int|
                0 <= k < i && without_done(model).dom().contains(#[trigger] keys[k])
                    ==> kept.contains(keys[k]),
        decreases count - i,
    {
        if board.value_at(i).status != AgentTeamBoardEntryStatus::Done {
            proof {
                let before = kept;
                kept = kept.push(keys[i as int]);
                assert forall|n: int| 0 <= n < before.len() implies before[n] != keys[i as int] by {
                    let k = choose|k: int| 0 <= k < i && keys[k] == before[n];
                }
                assert forall|k: int|
                    0 <= k < i + 1 && without_done(model).dom().contains(
                        #[trigger] keys[k],
                    ) implies kept.contains(keys[k]) by {
                    if k < i {
                        let n = before.index_of(keys[k]);
                        assert(kept[n] == keys[k]);
                    } else {
                        assert(kept[before.len() as int] == keys[k]);
                    }
                }
            }
            unfinished = unfinished + 1;
        }
        i = i + 1;
    }
    proof {
        assert(kept.to_set() =~= without_done(model).dom()) by {
            assert forall|key: Seq<char>| #[trigger]
                without_done(model).dom().contains(key) implies kept.to_set().contains(key) by {
                assert(keys.to_set().contains(key));
                let k = keys.index_of(key);
                assert(keys[k] == key);
            }
        }
        kept.unique_seq_to_set();
    }
    unfinished
}

/// Takes every closed entry off a board.
fn evict_done(board: &mut IdMap<TaskTag, AgentTeamBoardEntry>)
    ensures
        board_model(final(board)@) == without_done(board_model(old(board)@)),
{
    let ghost before = board@;
    let ghost model = board_model(before);
    let count: usize = board.len();
    let ghost keys = board.spec_keys();
    let mut done: Vec<AgentTaskId> = Vec::new();
    let mut i: usize = 0;
    while i < count
        invariant
            i <= count,
            count == keys.len(),
            keys == board.spec_keys(),
            board@ == before,
            forall|k: int|
                0 <= k < i && before[#[trigger] keys[k]].status == AgentTeamBoardEntryStatus::Done
                    ==> exists|d: int| 0 <= d < done@.len() && (#[trigger] done@[d])@ == keys[k],
            forall|d: int|
                0 <= d < done@.len() ==> before.dom().contains((#[trigger] done@[d])@)
                    && before[done@[d]@].status == AgentTeamBoardEntryStatus::Done,
        decreases count - i,
    {
        let ghost held = done@;
        if board.value_at(i).status == AgentTeamBoardEntryStatus::Done {
            done.push(board.key_at(i).clone());
            proof {
                assert(done@[held.len() as int]@ == keys[i as int]);
                assert forall|k: int|
                    0 <= k < i + 1 && before[#[trigger] keys[k]].status
                        == AgentTeamBoardEntryStatus::Done implies exists|d: int|
                    0 <= d < done@.len() && (#[trigger] done@[d])@ == keys[k] by {
                    if k < i {
                        let d = choose|d: int|
                            0 <= d < held.len() && (#[trigger] held[d])@ == keys[k];
                        assert(done@[d]@ == keys[k]);
                    }
                }
            }
        }
        i = i + 1;
    }
    let mut j: usize = 0;
    while j < done.len()
        invariant
            j <= done@.len(),
            forall|key: Seq<char>| #[trigger]
                board@.dom().contains(key) <==> before.dom().contains(key) && !(exists|d: int|
                    0 <= d < j && (#[trigger] done@[d])@ == key),
            forall|key: Seq<char>| #[trigger]
                board@.dom().contains(key) ==> board@[key] == before[key],
        decreases done.len() - j,
    {
        let ghost held = board@;
        board.remove(&done[j]);
        proof {
            assert forall|key: Seq<char>| #[trigger]
                board@.dom().contains(key) == (before.dom().contains(key) && !(exists|d: int|
                    0 <= d < j + 1 && (#[trigger] done@[d])@ == key)) by {
                if board@.dom().contains(key) {
                    assert(held.dom().contains(key));
                    if exists|d: int| 0 <= d < j + 1 && (#[trigger] done@[d])@ == key {
                        let d = choose|d: int| 0 <= d < j + 1 && (#[trigger] done@[d])@ == key;
                        assert(d < j);
                    }
                }
                if before.dom().contains(key) && !(exists|d: int|
                    0 <= d < j + 1 && (#[trigger] done@[d])@ == key) {
                    assert(done@[j as int]@ != key);
                    assert(held.dom().contains(key));
                }
            }
        }
        j = j + 1;
    }
    proof {
        assert(board_model(board@) =~= without_done(model)) by {
            assert forall|key: Seq<char>| #[trigger]
                board_model(board@).dom().contains(key) == without_done(model).dom().contains(
                    key,
                ) by {
                if before.dom().contains(key) {
                    assert(keys.to_set().contains(key));
                    let k = keys.index_of(key);
                    assert(keys[k] == key);
                    if before[key].status == AgentTeamBoardEntryStatus::Done {
                        let d = choose|d: int|
                            0 <= d < done@.len() && (#[trigger] done@[d])@ == keys[k];
                        assert(done@[d]@ == key);
                        assert(!board@.dom().contains(key));
                    } else if !board@.dom().contains(key) {
                        let d = choose|d: int|
                            0 <= d < done@.len() && (#[trigger] done@[d])@ == key;
                        assert(before[done@[d]@].status == AgentTeamBoardEntryStatus::Done);
                    }
                }
            }
        }
    }
}

impl AgentTeamState {
    /// Removes a member, fenced on the lifecycle revision. The leader stays,
    /// and so does a member whose claim is in flight.
    pub fn remove_member(
        &mut self,
        operation_id: &AgentOperationId,
        member: &AgentId,
        expected_lifecycle_revision: AgentRevisionNumber,
        provenance: &AgentRevisionProvenance,
        now: AgentTimestampMillis,
    ) -> (result: Result<(), AgentTeamError>)
        requires
            old(self)@.next_sequence < u64::MAX,
        ensures
            match old(self)@.leave_refusal(*member, expected_lifecycle_revision, now) {
                Some(error) => final(self)@ == old(self)@ && result == Err::<(), _>(error),
                None => result is Ok && final(self)@ == old(self)@.leaving(
                    operation_id@,
                    *member,
                    provenance.principal.principal_id@,
                    now,
                ),
            },
    {
        broadcast use lemma_members_remove;

        match self.require_revision(expected_lifecycle_revision, now) {
            Err(error) => {
                return Err(error);
            },
            Ok(team) => {
                if !team.members.contains_key(member) {
                    return Err(AgentTeamError::NotMember { member: member.clone() });
                }
                if member.same(&team.leader) {
                    return Err(AgentTeamError::LeaderImmovable);
                }
                if member_holds_claim(&team.board, member) {
                    return Err(AgentTeamError::MemberClaimPending { member: member.clone() });
                }
            },
        }
        if let Some(team) = &mut self.team {
            team.lifecycle_revision = team.lifecycle_revision.next();
            team.members.remove(member);
        }
        let entry = AgentTeamHistoryEntry::new(
            AgentTeamHistorySequence::first(),
            AgentTeamHistoryKind::MemberLeft,
            operation_id.clone(),
            now,
        ).with_member(member.clone()).with_detail(provenance.principal.principal_id.clone());
        self.record_history(entry);
        Ok(())
    }

    /// Posts an existing task to the shared board. Under ceiling pressure
    /// closed entries make room.
    pub fn post_task(
        &mut self,
        operation_id: &AgentOperationId,
        task: AgentTaskId,
        posted_by: AgentId,
        now: AgentTimestampMillis,
    ) -> (result: Result<(), AgentTeamError>)
        requires
            old(self)@.next_sequence < u64::MAX,
        ensures
            match old(self)@.post_refusal(task, posted_by, now) {
                Some(error) => final(self)@ == old(self)@ && result == Err::<(), _>(error),
                None => result is Ok && final(self)@ == old(self)@.posting(
                    operation_id@,
                    task,
                    posted_by,
                    now,
                ),
            },
    {
        broadcast use lemma_board_insert;

        match self.require_active(now) {
            Err(error) => {
                return Err(error);
            },
            Ok(team) => {
                if !team.members.contains_key(&posted_by) {
                    return Err(AgentTeamError::NotMember { member: posted_by });
                }
                if team.board.contains_key(&task) {
                    return Err(AgentTeamError::TaskAlreadyPosted { task });
                }
                proof {
                    lemma_board_len(team.board@);
                }
                let maximum: usize = team.policy.max_board_entries as usize;
                if team.board.len() >= maximum && count_unfinished(&team.board) >= maximum {
                    return Err(AgentTeamError::BoardExhausted { maximum });
                }
            },
        }
        if let Some(team) = &mut self.team {
            proof {
                lemma_board_len(team.board@);
            }
            if team.board.len() >= team.policy.max_board_entries as usize {
                evict_done(&mut team.board);
            }
            team.board.insert(
                task.clone(),
                AgentTeamBoardEntry {
                    task: task.clone(),
                    posted_by: posted_by.clone(),
                    posted_at: now,
                    claim_epoch: 0,
                    status: AgentTeamBoardEntryStatus::Open,
                    claim: None,
                    last_code: None,
                },
            );
        }
        let entry = AgentTeamHistoryEntry::new(
            AgentTeamHistorySequence::first(),
            AgentTeamHistoryKind::TaskPosted,
            operation_id.clone(),
            now,
        ).with_member(posted_by).with_task(task);
        self.record_history(entry);
        Ok(())
    }
}

/// Builds the claim exchange one board decision owes its task.
fn owed_claim_exchange(
    scope: &AgentTeamScope,
    operation_id: AgentOperationId,
    command: AgentTeamClaimCommand,
    now: AgentTimestampMillis,
) -> (owed: AgentTeamOwedExchange)
    ensures
        owed@ == (OwedModel {
            operation_id: operation_id@,
            tenant: scope.tenant,
            task: command.task,
            command: command@,
            at: now,
        }),
{
    AgentTeamOwedExchange {
        operation_id,
        target: AgentTaskScope { tenant: scope.tenant.clone(), task: command.task.clone() },
        command,
        at: now,
    }
}

/// Derives the operation a claim's exchange deduplicates on.
fn team_claim_operation_id(scope: &AgentTeamScope, claim: &AgentTeamClaimId) -> (result: Result<
    AgentOperationId,
    AgentIdentityError,
>)
    ensures
        scope.tenant@.len() > 0 ==> result is Ok && result->Ok_0@ == operation_text(
            AgentOperationKind::TeamClaim,
            seq![scope.tenant@, claim@],
        ),
        scope.tenant@.len() == 0 ==> result == Err::<AgentOperationId, _>(
            AgentIdentityError::Empty,
        ),
{
    let segments: [&str; 2] = [scope.tenant.as_str(), claim.as_str()];
    proof {
        assert(texts(segments@) =~= seq![scope.tenant@, claim@]);
        assert(segments@[0]@ == scope.tenant@ && segments@[1]@ == claim@);
    }
    derive_operation_id(AgentOperationKind::TeamClaim, &segments)
}

/// Derives the operation a release's exchange deduplicates on.
fn team_claim_release_operation_id(scope: &AgentTeamScope, claim: &AgentTeamClaimId, epoch: u64) -> (result:
    Result<AgentOperationId, AgentIdentityError>)
    ensures
        scope.tenant@.len() > 0 ==> result is Ok && result->Ok_0@ == operation_text(
            AgentOperationKind::TeamClaimRelease,
            seq![scope.tenant@, claim@, decimal(epoch as nat)],
        ),
        scope.tenant@.len() == 0 ==> result == Err::<AgentOperationId, _>(
            AgentIdentityError::Empty,
        ),
{
    let epoch_text = decimal_string(epoch);
    let segments: [&str; 3] = [scope.tenant.as_str(), claim.as_str(), epoch_text.as_str()];
    proof {
        crate::text::lemma_decimal_digits(epoch as nat);
        assert(texts(segments@) =~= seq![scope.tenant@, claim@, decimal(epoch as nat)]);
        assert(segments@[0]@ == scope.tenant@ && segments@[1]@ == claim@ && segments@[2]@
            == decimal(epoch as nat));
    }
    derive_operation_id(AgentOperationKind::TeamClaimRelease, &segments)
}

/// Mints one superseding claim decision over a board entry: bumps the claim
/// epoch, rewrites the entry to its pending shape toward the claimant, and
/// builds the claim command the task is owed. A transfer's minted claim is
/// shaped as a fresh one.
fn mint_entry_claim(
    scope: &AgentTeamScope,
    entry: &AgentTeamBoardEntry,
    task: &AgentTaskId,
    claimant: &AgentId,
    policy: &AgentTeamPolicy,
    now: AgentTimestampMillis,
) -> (minted: (AgentTeamBoardEntry, AgentTeamClaimCommand))
    requires
        entry.claim_epoch < u64::MAX,
    ensures
        minted.0@ == minted_entry(
            *scope,
            entry@,
            task@,
            *claimant,
            policy.claim_lease_ms,
            now,
        ),
        minted.1@ == minted_exchange(*scope, minted.0@, *task, *policy, now).command,
        minted.1.claim == minted.0.claim->Some_0.claim,
{
    let epoch: u64 = entry.claim_epoch + 1;
    let claim = team_claim_id_for(scope, task, claimant, epoch);
    let lease_expires_at = AgentTimestampMillis::new(
        now.millis.saturating_add(policy.claim_lease_ms),
    );
    let minted = AgentTeamBoardEntry {
        task: entry.task.clone(),
        posted_by: entry.posted_by.clone(),
        posted_at: entry.posted_at,
        claim_epoch: epoch,
        status: AgentTeamBoardEntryStatus::Pending,
        claim: Some(
            AgentTeamBoardClaim {
                claim: claim.clone(),
                member: claimant.clone(),
                lease_expires_at,
                claimed_at: now,
                generation_echo: None,
                run_echo: None,
            },
        ),
        last_code: None,
    };
    let command = AgentTeamClaimCommand {
        team: scope.clone(),
        claim,
        task: task.clone(),
        epoch,
        action: AgentTeamClaimAction::Claim { member: claimant.clone() },
        policy_revision: policy.revision,
        lease_expires_at,
    };
    (minted, command)
}

/// Whether a task's board entry, if it has one, can take one more decision.
pub open spec fn epoch_has_room(state: StateModel, task: Seq<char>) -> bool {
    state.team is Some && state.team->Some_0.board.dom().contains(task)
        ==> state.team->Some_0.board[task].claim_epoch < u64::MAX
}

impl AgentTeamState {
    /// Replaces one board entry.
    pub(crate) fn replace_entry(&mut self, task: &AgentTaskId, entry: AgentTeamBoardEntry)
        requires
            old(self)@.team is Some,
        ensures
            final(self)@ == old(self)@.with_entry(task@, entry@),
    {
        broadcast use lemma_board_insert;

        if let Some(team) = &mut self.team {
            team.board.insert(task.clone(), entry);
        }
    }

    /// Finds the board entry a caller observed at an epoch.
    fn observed_entry<'a>(team: &'a AgentTeam, task: &AgentTaskId, expected_epoch: u64) -> (result: Result<
        &'a AgentTeamBoardEntry,
        AgentTeamError,
    >)
        ensures
            forall|state: StateModel|
                state.team == Some(team@) ==> match #[trigger] state.entry_refusal(
                    *task,
                    expected_epoch,
                ) {
                    Some(error) => result == Err::<&AgentTeamBoardEntry, _>(error),
                    None => result is Ok && team@.board.dom().contains(task@)
                        && team@.board[task@] == result->Ok_0@ && result->Ok_0.claim_epoch
                        == expected_epoch,
                },
    {
        match team.board.get(task) {
            None => Err(AgentTeamError::TaskNotPosted { task: task.clone() }),
            Some(entry) => {
                if entry.claim_epoch != expected_epoch {
                    Err(
                        AgentTeamError::StaleClaimEpoch {
                            expected: expected_epoch,
                            actual: entry.claim_epoch,
                        },
                    )
                } else {
                    Ok(entry)
                }
            },
        }
    }

    /// Claims a board entry for one member: an open one, or one whose pending
    /// claim's lease has lapsed. Hands out the exchange the claim owes its task.
    pub fn claim_entry(
        &mut self,
        operation_id: &AgentOperationId,
        task: AgentTaskId,
        member: AgentId,
        expected_epoch: u64,
        now: AgentTimestampMillis,
    ) -> (result: Result<AgentTeamOwedExchange, AgentTeamError>)
        requires
            old(self)@.next_sequence < u64::MAX,
            epoch_has_room(old(self)@, task@),
        ensures
            match old(self)@.claim_refusal(task, member, expected_epoch, now) {
                Some(error) => final(self)@ == old(self)@ && result == Err::<
                    AgentTeamOwedExchange,
                    _,
                >(error),
                None => result is Ok && (final(self)@, result->Ok_0@) == old(self)@.claiming(
                    operation_id@,
                    task,
                    member,
                    now,
                ),
            },
    {
        let team = match self.require_active(now) {
            Err(error) => {
                return Err(error);
            },
            Ok(team) => team,
        };
        if !team.members.contains_key(&member) {
            return Err(AgentTeamError::NotMember { member });
        }
        let entry = match Self::observed_entry(team, &task, expected_epoch) {
            Err(error) => {
                return Err(error);
            },
            Ok(entry) => entry,
        };
        let stealing = match entry.status {
            AgentTeamBoardEntryStatus::Open => false,
            AgentTeamBoardEntryStatus::Pending => {
                let expired = match &entry.claim {
                    Some(claim) => now.millis >= claim.lease_expires_at.millis,
                    None => false,
                };
                if !expired {
                    return Err(AgentTeamError::ClaimNotStealable);
                }
                true
            },
            AgentTeamBoardEntryStatus::Releasing => {
                return Err(AgentTeamError::EntryBusy { status: entry.status });
            },
            AgentTeamBoardEntryStatus::Active => {
                return Err(AgentTeamError::EntryOwned);
            },
            AgentTeamBoardEntryStatus::Done => {
                return Err(AgentTeamError::EntryDone);
            },
        };
        let (minted, command) = mint_entry_claim(
            &self.scope,
            entry,
            &task,
            &member,
            &team.policy,
            now,
        );
        let claim = command.claim.clone();
        let exchange_operation = match team_claim_operation_id(&self.scope, &claim) {
            Err(error) => {
                return Err(AgentTeamError::Identity(error));
            },
            Ok(operation) => operation,
        };
        let owed = owed_claim_exchange(&self.scope, exchange_operation, command, now);
        self.replace_entry(&task, minted);
        let detail = if stealing {
            "steal"
        } else {
            "claim"
        };
        let history = AgentTeamHistoryEntry::new(
            AgentTeamHistorySequence::first(),
            AgentTeamHistoryKind::ClaimRecorded,
            operation_id.clone(),
            now,
        ).with_member(member).with_task(task).with_claim(claim).with_detail(detail.to_owned());
        self.record_history(history);
        Ok(owed)
    }

    /// Checks that a requester may move a pending claim.
    fn movable_claim<'a>(
        team: &AgentTeam,
        entry: &'a AgentTeamBoardEntry,
        member: &AgentId,
        task: Ghost<AgentTaskId>,
    ) -> (result: Result<&'a AgentTeamBoardClaim, AgentTeamError>)
        requires
            team@.board[task@@] == entry@,
        ensures
            forall|state: StateModel|
                state.team == Some(team@) ==> match #[trigger] state.pending_refusal(
                    task@,
                    *member,
                ) {
                    Some(error) => result == Err::<&AgentTeamBoardClaim, _>(error),
                    None => result is Ok && entry.claim == Some(*result->Ok_0),
                },
    {
        if entry.status == AgentTeamBoardEntryStatus::Active {
            return Err(AgentTeamError::EntryOwned);
        }
        if entry.status != AgentTeamBoardEntryStatus::Pending {
            return Err(AgentTeamError::EntryBusy { status: entry.status });
        }
        match &entry.claim {
            None => Err(AgentTeamError::EntryBusy { status: entry.status }),
            Some(claim) => {
                if !claim.member.same(member) && !member.same(&team.leader) {
                    Err(AgentTeamError::NotClaimHolder { member: member.clone() })
                } else {
                    Ok(claim)
                }
            },
        }
    }

    /// Releases a pending claim before its assignment accepted. The holder or
    /// the leader may ask. Hands out the exchange the release owes the task.
    pub fn release_entry(
        &mut self,
        operation_id: &AgentOperationId,
        task: AgentTaskId,
        member: &AgentId,
        expected_epoch: u64,
        now: AgentTimestampMillis,
    ) -> (result: Result<AgentTeamOwedExchange, AgentTeamError>)
        requires
            old(self)@.next_sequence < u64::MAX,
            epoch_has_room(old(self)@, task@),
        ensures
            match old(self)@.release_refusal(task, *member, expected_epoch, now) {
                Some(error) => final(self)@ == old(self)@ && result == Err::<
                    AgentTeamOwedExchange,
                    _,
                >(error),
                None => result is Ok && (final(self)@, result->Ok_0@) == old(self)@.releasing(
                    operation_id@,
                    task,
                    *member,
                    now,
                ),
            },
    {
        let team = match self.require_active(now) {
            Err(error) => {
                return Err(error);
            },
            Ok(team) => team,
        };
        let entry = match Self::observed_entry(team, &task, expected_epoch) {
            Err(error) => {
                return Err(error);
            },
            Ok(entry) => entry,
        };
        let claim = match Self::movable_claim(team, entry, member, Ghost(task)) {
            Err(error) => {
                return Err(error);
            },
            Ok(claim) => claim,
        };
        let epoch: u64 = entry.claim_epoch + 1;
        let exchange_operation = match team_claim_release_operation_id(
            &self.scope,
            &claim.claim,
            epoch,
        ) {
            Err(error) => {
                return Err(AgentTeamError::Identity(error));
            },
            Ok(operation) => operation,
        };
        let claim_id = claim.claim.clone();
        let command = AgentTeamClaimCommand {
            team: self.scope.clone(),
            claim: claim.claim.clone(),
            task: task.clone(),
            epoch,
            action: AgentTeamClaimAction::Release,
            policy_revision: team.policy.revision,
            lease_expires_at: claim.lease_expires_at,
        };
        let owed = owed_claim_exchange(&self.scope, exchange_operation, command, now);
        let mut released = entry.clone();
        released.claim_epoch = epoch;
        released.status = AgentTeamBoardEntryStatus::Releasing;
        self.replace_entry(&task, released);
        let history = AgentTeamHistoryEntry::new(
            AgentTeamHistorySequence::first(),
            AgentTeamHistoryKind::ClaimReleaseRequested,
            operation_id.clone(),
            now,
        ).with_member(member.clone()).with_task(task).with_claim(claim_id);
        self.record_history(history);
        Ok(owed)
    }

    /// Transfers a pending claim to another member in one board decision. The
    /// holder or the leader may ask. Hands out the exchange the superseding
    /// claim owes the task.
    pub fn transfer_entry(
        &mut self,
        operation_id: &AgentOperationId,
        task: AgentTaskId,
        member: &AgentId,
        target: AgentId,
        expected_epoch: u64,
        now: AgentTimestampMillis,
    ) -> (result: Result<AgentTeamOwedExchange, AgentTeamError>)
        requires
            old(self)@.next_sequence < u64::MAX,
            epoch_has_room(old(self)@, task@),
        ensures
            match old(self)@.transfer_refusal(task, *member, target, expected_epoch, now) {
                Some(error) => final(self)@ == old(self)@ && result == Err::<
                    AgentTeamOwedExchange,
                    _,
                >(error),
                None => result is Ok && (final(self)@, result->Ok_0@) == old(self)@.transferring(
                    operation_id@,
                    task,
                    target,
                    now,
                ),
            },
    {
        let team = match self.require_active(now) {
            Err(error) => {
                return Err(error);
            },
            Ok(team) => team,
        };
        if !team.members.contains_key(&target) {
            return Err(AgentTeamError::NotMember { member: target });
        }
        let entry = match Self::observed_entry(team, &task, expected_epoch) {
            Err(error) => {
                return Err(error);
            },
            Ok(entry) => entry,
        };
        let prior = match Self::movable_claim(team, entry, member, Ghost(task)) {
            Err(error) => {
                return Err(error);
            },
            Ok(claim) => claim,
        };
        let detail = join2("from=", prior.member.as_str());
        let (minted, command) = mint_entry_claim(
            &self.scope,
            entry,
            &task,
            &target,
            &team.policy,
            now,
        );
        let claim = command.claim.clone();
        let exchange_operation = match team_claim_operation_id(&self.scope, &claim) {
            Err(error) => {
                return Err(AgentTeamError::Identity(error));
            },
            Ok(operation) => operation,
        };
        let owed = owed_claim_exchange(&self.scope, exchange_operation, command, now);
        self.replace_entry(&task, minted);
        let history = AgentTeamHistoryEntry::new(
            AgentTeamHistorySequence::first(),
            AgentTeamHistoryKind::TransferRecorded,
            operation_id.clone(),
            now,
        ).with_member(target).with_task(task).with_claim(claim).with_detail(detail);
        self.record_history(history);
        Ok(owed)
    }

    /// Appends a mediated peer message to the durable ring, which drops its
    /// oldest message when full and counts the drop.
    pub fn append_message(
        &mut self,
        operation_id: &AgentOperationId,
        from: AgentId,
        to: Option<AgentId>,
        body: String,
        now: AgentTimestampMillis,
    ) -> (result: Result<(), AgentTeamError>)
        requires
            old(self)@.next_sequence < u64::MAX,
            old(self)@.team is Some ==> old(self)@.team->Some_0.next_message_sequence < u64::MAX
                && old(self)@.team->Some_0.messages_dropped + old(self)@.team->Some_0.messages.len()
                < u64::MAX,
        ensures
            match old(self)@.message_refusal(from, to, body@, now) {
                Some(error) => final(self)@ == old(self)@ && result == Err::<(), _>(error),
                None => result is Ok && final(self)@ == old(self)@.messaging(
                    operation_id@,
                    from,
                    to,
                    body,
                    now,
                ),
            },
    {
        let sequence: u64 = match self.require_active(now) {
            Err(error) => {
                return Err(error);
            },
            Ok(team) => {
                if !team.members.contains_key(&from) {
                    return Err(AgentTeamError::NotMember { member: from });
                }
                if let Some(to) = &to {
                    if !team.members.contains_key(to) {
                        return Err(AgentTeamError::NotMember { member: to.clone() });
                    }
                }
                let maximum: usize = team.policy.max_message_bytes;
                let bytes: usize = text_bytes(body.as_str());
                if bytes > maximum {
                    return Err(AgentTeamError::MessageTooLarge { bytes, maximum });
                }
                team.next_message_sequence
            },
        };
        let number = decimal_string(sequence);
        let detail = match &to {
            Some(to) => join4("sequence=", number.as_str(), " to=", to.as_str()),
            None => join2("sequence=", number.as_str()),
        };
        let sender = from.clone();
        if let Some(team) = &mut self.team {
            let ghost before = team@;
            let message = AgentTeamMessage { sequence, from, to, body, at: now };
            let ghost longer = team.messages@.push(message);
            team.next_message_sequence = sequence + 1;
            let mut messages: Vec<AgentTeamMessage> = Vec::new();
            std::mem::swap(&mut messages, &mut team.messages);
            messages.push(message);
            let ring: usize = team.policy.max_messages as usize;
            let mut dropped: u64 = 0;
            assert(longer.subrange(0, longer.len() as int) =~= longer);
            while messages.len() > ring
                invariant
                    dropped <= longer.len(),
                    longer.len() <= u64::MAX,
                    messages@ == longer.subrange(dropped as int, longer.len() as int),
                    dropped > 0 ==> longer.len() - dropped >= ring,
                decreases messages.len(),
            {
                messages.remove(0);
                dropped = dropped + 1;
                assert(messages@ =~= longer.subrange(dropped as int, longer.len() as int));
            }
            team.messages = messages;
            team.messages_dropped = team.messages_dropped + dropped;
            assert(team.messages@ =~= ringed(longer, before.policy.max_messages as nat));
        }
        let entry = AgentTeamHistoryEntry::new(
            AgentTeamHistorySequence::first(),
            AgentTeamHistoryKind::MessageAppended,
            operation_id.clone(),
            now,
        ).with_member(sender).with_detail(detail);
        self.record_history(entry);
        Ok(())
    }

    /// Disbands the team, fenced on the lifecycle revision. A claim in flight
    /// keeps it from disbanding: the arbitration must not be stranded.
    pub fn disband_team(
        &mut self,
        operation_id: &AgentOperationId,
        expected_lifecycle_revision: AgentRevisionNumber,
        provenance: &AgentRevisionProvenance,
        reason: String,
        now: AgentTimestampMillis,
    ) -> (result: Result<(), AgentTeamError>)
        requires
            old(self)@.next_sequence < u64::MAX,
        ensures
            result is Ok <==> old(self)@.accepts_disband(expected_lifecycle_revision, now),
            result is Ok ==> final(self)@ == old(self)@.disbanding(
                operation_id@,
                provenance.principal.principal_id@,
                reason@,
                now,
            ),
            result is Err ==> final(self)@ == old(self)@ && old(self)@.refuses_disband(
                expected_lifecycle_revision,
                now,
                result->Err_0,
            ),
    {
        match self.require_revision(expected_lifecycle_revision, now) {
            Err(error) => {
                return Err(error);
            },
            Ok(team) => {
                if let Some(task) = find_in_flight(&team.board) {
                    proof {
                        let key = choose|key: Seq<char>| #[trigger]
                            is_first_in_flight(board_model(team.board@), key) && board_model(
                                team.board@,
                            )[key].task == task;
                        assert(entry_in_flight(self@.team->Some_0.board, key));
                    }
                    return Err(AgentTeamError::DisbandClaimPending { task });
                }
            },
        }
        if let Some(team) = &mut self.team {
            team.lifecycle_revision = team.lifecycle_revision.next();
            team.status = AgentTeamStatus::Disbanded;
        }
        let detail = if reason.as_str().is_empty() {
            provenance.principal.principal_id.clone()
        } else {
            reason
        };
        let entry = AgentTeamHistoryEntry::new(
            AgentTeamHistorySequence::first(),
            AgentTeamHistoryKind::Disbanded,
            operation_id.clone(),
            now,
        ).with_detail(detail);
        self.record_history(entry);
        Ok(())
    }
}

} // verus!
