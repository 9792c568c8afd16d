//! The team entity: durable state, and the commands that move it.

use vstd::prelude::*;
use vstd::string::*;
use vstd::utf8::encode_utf8;

use crate::digest::{sha256_hex, sha256_hex_of_text};
use crate::exchange::AgentTeamScope;
use crate::identity::{
    canonical_segments, canonical_text, texts, AgentId, AgentOperationId, AgentRevisionNumber,
    AgentTaskId, AgentTeamClaimId, AgentTimestampMillis, Identifier, TenantId,
};
use crate::team_board::{
    board_model, members_model, AgentTeam, AgentTeamBoardEntry, AgentTeamMember, AgentTeamStatus,
    EntryModel, TeamModel,
};
use crate::team_error::AgentTeamError;
use crate::team_history::{
    entries_model, AgentTeamHistoryEntry, AgentTeamHistorySequence, HistoryModel,
    CURRENT_AGENT_TEAM_HISTORY_SCHEMA_VERSION,
};
use crate::text::{decimal, decimal_string, join2};
use crate::wake_scanner::AgentTaskScope;

verus! {

/// The default sharded entity type of team entities.
pub const DEFAULT_AGENT_TEAM_ENTITY_TYPE: &'static str = "RakkaAgentTeam";

/// Maximum serialized bytes of one team's materialized state.
pub const AGENT_TEAM_MATERIALIZED_MAX_BYTES: usize = 32_768;

/// Bytes held back from the materialized bound, so that a settle transition
/// never finds the record too large to write.
pub const AGENT_TEAM_STATE_GROWTH_RESERVE_BYTES: usize = 4_096;

/// Bounded window of resolved operations a team remembers for deduplication.
pub const AGENT_TEAM_OPERATION_LOG_CAPACITY: usize = 64;

/// Bounded outbox of history entries a team may owe its sink.
pub const AGENT_TEAM_PENDING_HISTORY_CAPACITY: usize = 32;

/// The most history entries one team transition records.
pub const AGENT_TEAM_MAX_HISTORY_PER_TRANSITION: usize = 4;

/// What a team asks a task to do with a claim.
#[derive(Debug)]
#[non_exhaustive]
pub enum AgentTeamClaimAction {
    /// Honor a claim for a member.
    Claim {
        /// The claiming member.
        member: AgentId,
    },
    /// Let a claim go.
    Release,
}

/// The claim action one board decision owes its task.
#[derive(Debug)]
pub struct AgentTeamClaimCommand {
    /// The team that decided.
    pub team: AgentTeamScope,
    /// The claim.
    pub claim: AgentTeamClaimId,
    /// The board task.
    pub task: AgentTaskId,
    /// The claim epoch of the decision.
    pub epoch: u64,
    /// What the task is asked to do.
    pub action: AgentTeamClaimAction,
    /// The team policy's revision.
    pub policy_revision: AgentRevisionNumber,
    /// When the claim's pending window lapses.
    pub lease_expires_at: AgentTimestampMillis,
}

/// What a claim command says.
pub struct ClaimCommandModel {
    /// The team that decided.
    pub team: AgentTeamScope,
    /// The claim's text.
    pub claim: Seq<char>,
    /// The board task.
    pub task: AgentTaskId,
    /// The claim epoch of the decision.
    pub epoch: u64,
    /// What the task is asked to do.
    pub action: AgentTeamClaimAction,
    /// The team policy's revision.
    pub policy_revision: AgentRevisionNumber,
    /// When the claim's pending window lapses.
    pub lease_expires_at: AgentTimestampMillis,
}

impl View for AgentTeamClaimCommand {
    type V = ClaimCommandModel;

    open spec fn view(&self) -> ClaimCommandModel {
        ClaimCommandModel {
            team: self.team,
            claim: self.claim@,
            task: self.task,
            epoch: self.epoch,
            action: self.action,
            policy_revision: self.policy_revision,
            lease_expires_at: self.lease_expires_at,
        }
    }
}

/// The exchange a board decision owes: the claim command, addressed to its
/// task under a derived operation.
#[derive(Debug)]
pub struct AgentTeamOwedExchange {
    /// The operation the exchange deduplicates on.
    pub operation_id: AgentOperationId,
    /// The task the command is for.
    pub target: AgentTaskScope,
    /// The command.
    pub command: AgentTeamClaimCommand,
    /// When the decision was made.
    pub at: AgentTimestampMillis,
}

/// What an owed exchange says.
pub struct OwedModel {
    /// The operation's text.
    pub operation_id: Seq<char>,
    /// The tenant of the task.
    pub tenant: TenantId,
    /// The task.
    pub task: AgentTaskId,
    /// The command.
    pub command: ClaimCommandModel,
    /// When the decision was made.
    pub at: AgentTimestampMillis,
}

impl View for AgentTeamOwedExchange {
    type V = OwedModel;

    open spec fn view(&self) -> OwedModel {
        OwedModel {
            operation_id: self.operation_id@,
            tenant: self.target.tenant,
            task: self.target.task,
            command: self.command@,
            at: self.at,
        }
    }
}

/// The text of a derived claim identity: a digest of the team, the task, the
/// claimant and the claim epoch.
pub open spec fn claim_text(
    scope: AgentTeamScope,
    task: Seq<char>,
    claimant: Seq<char>,
    epoch: u64,
) -> Seq<char> {
    "claim-"@ + sha256_hex(
        encode_utf8(
            canonical_segments(
                seq![scope.tenant@, scope.team@, task, claimant, decimal(epoch as nat)],
            ),
        ),
    )
}

/// Derives the identity of the claim one board decision mints.
pub fn team_claim_id_for(
    scope: &AgentTeamScope,
    task: &AgentTaskId,
    claimant: &AgentId,
    epoch: u64,
) -> (claim: AgentTeamClaimId)
    ensures
        claim@ == claim_text(*scope, task@, claimant@, epoch),
        claim@.len() > 0,
{
    let epoch_text = decimal_string(epoch);
    let segments: [&str; 5] = [
        scope.tenant.as_str(),
        scope.team.as_str(),
        task.as_str(),
        claimant.as_str(),
        epoch_text.as_str(),
    ];
    proof {
        assert(texts(segments@) =~= seq![
            scope.tenant@,
            scope.team@,
            task@,
            claimant@,
            decimal(epoch as nat),
        ]);
    }
    let canonical = canonical_text(&segments);
    let digest = sha256_hex_of_text(canonical.as_str());
    let text = join2("claim-", digest.as_str());
    Identifier::from_text(text)
}

/// The compact result of one accepted team transition. A replayed operation
/// returns this again rather than transitioning twice.
#[derive(Debug)]
pub struct AgentTeamOutcome {
    /// Lifecycle after the transition.
    pub status: AgentTeamStatus,
    /// The lifecycle revision after the transition.
    pub lifecycle_revision: AgentRevisionNumber,
    /// Membership size after the transition.
    pub members: usize,
    /// Board size after the transition.
    pub board_entries: usize,
    /// Message-ring size after the transition.
    pub messages: usize,
    /// The board entry the transition touched, when one was.
    pub entry: Option<AgentTeamBoardEntry>,
}

/// What an outcome says.
pub struct OutcomeModel {
    /// Lifecycle after the transition.
    pub status: AgentTeamStatus,
    /// The lifecycle revision after the transition.
    pub lifecycle_revision: AgentRevisionNumber,
    /// Membership size.
    pub members: nat,
    /// Board size.
    pub board_entries: nat,
    /// Message-ring size.
    pub messages: nat,
    /// The board entry the transition touched.
    pub entry: Option<EntryModel>,
}

impl View for AgentTeamOutcome {
    type V = OutcomeModel;

    open spec fn view(&self) -> OutcomeModel {
        OutcomeModel {
            status: self.status,
            lifecycle_revision: self.lifecycle_revision,
            members: self.members as nat,
            board_entries: self.board_entries as nat,
            messages: self.messages as nat,
            entry: match self.entry {
                Some(entry) => Some(entry@),
                None => None,
            },
        }
    }
}

impl Clone for AgentTeamOutcome {
    fn clone(&self) -> (copy: Self)
        ensures
            copy == *self,
    {
        AgentTeamOutcome {
            status: self.status,
            lifecycle_revision: self.lifecycle_revision,
            members: self.members,
            board_entries: self.board_entries,
            messages: self.messages,
            entry: match &self.entry {
                Some(entry) => Some(entry.clone()),
                None => None,
            },
        }
    }
}

/// One resolved operation.
#[derive(Debug)]
pub struct AgentTeamOperationLogEntry {
    /// The operation.
    pub operation_id: AgentOperationId,
    /// What it resolved to.
    pub outcome: AgentTeamOutcome,
}

/// What a resolved operation says.
pub struct LogModel {
    /// The operation's text.
    pub operation_id: Seq<char>,
    /// What it resolved to.
    pub outcome: OutcomeModel,
}

impl View for AgentTeamOperationLogEntry {
    type V = LogModel;

    open spec fn view(&self) -> LogModel {
        LogModel { operation_id: self.operation_id@, outcome: self.outcome@ }
    }
}

/// What a list of resolved operations says.
pub open spec fn log_model(entries: Seq<AgentTeamOperationLogEntry>) -> Seq<LogModel> {
    entries.map_values(|entry: AgentTeamOperationLogEntry| entry@)
}

/// The outcome of the first operation with an id, from a position on.
pub open spec fn logged_outcome(log: Seq<LogModel>, operation: Seq<char>, from: nat) -> Option<
    OutcomeModel,
>
    decreases log.len() - from,
{
    if from >= log.len() {
        None
    } else if log[from as int].operation_id == operation {
        Some(log[from as int].outcome)
    } else {
        logged_outcome(log, operation, from + 1)
    }
}

/// A log with one more operation; the oldest go beyond the capacity.
pub open spec fn logging(log: Seq<LogModel>, entry: LogModel) -> Seq<LogModel> {
    let longer = log.push(entry);
    if longer.len() > AGENT_TEAM_OPERATION_LOG_CAPACITY {
        longer.subrange(
            longer.len() - AGENT_TEAM_OPERATION_LOG_CAPACITY,
            longer.len() as int,
        )
    } else {
        longer
    }
}

/// The bounded log of resolved team operations.
#[derive(Debug)]
pub struct AgentTeamOperationLog {
    entries: Vec<AgentTeamOperationLogEntry>,
}

impl View for AgentTeamOperationLog {
    type V = Seq<LogModel>;

    closed spec fn view(&self) -> Seq<LogModel> {
        log_model(self.entries@)
    }
}

impl AgentTeamOperationLog {
    /// A log with nothing in it.
    pub fn new() -> (log: Self)
        ensures
            log@ == Seq::<LogModel>::empty(),
    {
        let log = AgentTeamOperationLog { entries: Vec::new() };
        assert(log@ =~= Seq::<LogModel>::empty());
        log
    }

    /// The outcome a previously applied operation produced, if it is still in
    /// the window.
    pub fn outcome(&self, operation_id: &AgentOperationId) -> (outcome: Option<&AgentTeamOutcome>)
        ensures
            match outcome {
                Some(outcome) => logged_outcome(self@, operation_id@, 0) == Some(outcome@),
                None => logged_outcome(self@, operation_id@, 0) is None,
            },
    {
        let mut i: usize = 0;
        while i < self.entries.len()
            invariant
                i <= self.entries@.len(),
                self@.len() == self.entries@.len(),
                logged_outcome(self@, operation_id@, 0) == logged_outcome(
                    self@,
                    operation_id@,
                    i as nat,
                ),
            decreases self.entries.len() - i,
        {
            assert(self@[i as int] == self.entries@[i as int]@);
            if self.entries[i].operation_id.same(operation_id) {
                return Some(&self.entries[i].outcome);
            }
            i = i + 1;
        }
        None
    }

    /// A log of operations resolved earlier, oldest first.
    pub fn from_entries(entries: Vec<AgentTeamOperationLogEntry>) -> (log: Self)
        ensures
            log@ == log_model(entries@),
    {
        AgentTeamOperationLog { entries }
    }

    /// The remembered operations, oldest first.
    pub fn entries(&self) -> (entries: &[AgentTeamOperationLogEntry])
        ensures
            log_model(entries@) == self@,
    {
        self.entries.as_slice()
    }

    /// How many operations are remembered.
    pub fn len(&self) -> (len: usize)
        ensures
            len == self@.len(),
    {
        self.entries.len()
    }

    /// Whether no operation is remembered.
    pub fn is_empty(&self) -> (result: bool)
        ensures
            result == (self@.len() == 0),
    {
        self.entries.len() == 0
    }

    /// Remembers a resolved operation, forgetting the oldest beyond the
    /// capacity.
    pub fn record(&mut self, operation_id: AgentOperationId, outcome: AgentTeamOutcome)
        ensures
            final(self)@ == logging(
                old(self)@,
                LogModel { operation_id: operation_id@, outcome: outcome@ },
            ),
    {
        let ghost entry = LogModel { operation_id: operation_id@, outcome: outcome@ };
        self.entries.push(AgentTeamOperationLogEntry { operation_id, outcome });
        let ghost longer = self.entries@;
        let ghost mut dropped: int = 0;
        proof {
            assert(log_model(longer) =~= old(self)@.push(entry));
            assert(longer.subrange(0, longer.len() as int) =~= longer);
        }
        while self.entries.len() > AGENT_TEAM_OPERATION_LOG_CAPACITY
            invariant
                0 <= dropped <= longer.len(),
                self.entries@ == longer.subrange(dropped, longer.len() as int),
                dropped > 0 ==> longer.len() - dropped >= AGENT_TEAM_OPERATION_LOG_CAPACITY,
            decreases self.entries.len(),
        {
            self.entries.remove(0);
            proof {
                dropped = dropped + 1;
                assert(self.entries@ =~= longer.subrange(dropped, longer.len() as int));
            }
        }
        proof {
            assert(self@ =~= logging(old(self)@, entry));
        }
    }
}

/// The schema version a team state is written under.
pub const CURRENT_AGENT_TEAM_STATE_SCHEMA_VERSION: u32 = 1;

/// The durable state of one team entity: the materialized team, the history it
/// owes its sink, and the operations it has resolved.
#[derive(Debug)]
pub struct AgentTeamState {
    /// The version of the state's schema.
    pub schema_version: u32,
    /// The scope this state belongs to.
    pub scope: AgentTeamScope,
    /// The materialized team, once it has been created.
    pub team: Option<AgentTeam>,
    /// The bounded log of resolved operations.
    pub applied_operations: AgentTeamOperationLog,
    /// The history entries the team owes its sink.
    pub pending_history: Vec<AgentTeamHistoryEntry>,
    /// The sequence the next history entry takes.
    pub next_history_sequence: AgentTeamHistorySequence,
    /// The time of the last accepted transition.
    pub updated_at: AgentTimestampMillis,
}

/// What a team state holds.
pub struct StateModel {
    /// The version of the state's schema.
    pub schema_version: u32,
    /// The scope.
    pub scope: AgentTeamScope,
    /// The team.
    pub team: Option<TeamModel>,
    /// The resolved operations, oldest first.
    pub log: Seq<LogModel>,
    /// The owed history.
    pub pending_history: Seq<HistoryModel>,
    /// The number the next history entry takes.
    pub next_sequence: u64,
    /// The time of the last accepted transition.
    pub updated_at: AgentTimestampMillis,
}

/// What an optional team is.
pub open spec fn optional_team(team: Option<AgentTeam>) -> Option<TeamModel> {
    match team {
        Some(team) => Some(team@),
        None => None,
    }
}

impl View for AgentTeamState {
    type V = StateModel;

    open spec fn view(&self) -> StateModel {
        StateModel {
            schema_version: self.schema_version,
            scope: self.scope,
            team: optional_team(self.team),
            log: self.applied_operations@,
            pending_history: entries_model(self.pending_history@),
            next_sequence: self.next_history_sequence.number(),
            updated_at: self.updated_at,
        }
    }
}

impl StateModel {
    /// Why a non-active team takes no mutating command.
    pub open spec fn activity_refusal(self, now: AgentTimestampMillis) -> Option<AgentTeamError> {
        match self.team {
            None => Some(AgentTeamError::NotCreated { scope: self.scope }),
            Some(team) => match team.status {
                AgentTeamStatus::Disbanded => Some(AgentTeamError::Disbanded),
                AgentTeamStatus::Expired => Some(AgentTeamError::Expired),
                AgentTeamStatus::Active => if team.expired_at(now) {
                    Some(AgentTeamError::Expired)
                } else {
                    None
                },
            },
        }
    }

    /// Why a lifecycle command with an expected revision is refused.
    pub open spec fn fence_refusal(
        self,
        expected: AgentRevisionNumber,
        now: AgentTimestampMillis,
    ) -> Option<AgentTeamError> {
        if self.activity_refusal(now) is Some {
            self.activity_refusal(now)
        } else if self.team->Some_0.lifecycle_revision != expected {
            Some(
                AgentTeamError::StaleLifecycleRevision {
                    expected,
                    actual: self.team->Some_0.lifecycle_revision,
                },
            )
        } else {
            None
        }
    }

    /// The state with one more owed history entry, under the next sequence.
    pub open spec fn recording(self, entry: HistoryModel) -> StateModel {
        StateModel {
            pending_history: self.pending_history.push(
                HistoryModel { sequence: self.next_sequence, ..entry },
            ),
            next_sequence: (self.next_sequence + 1) as u64,
            ..self
        }
    }

    /// The state with another team.
    pub open spec fn with_team(self, team: TeamModel) -> StateModel {
        StateModel { team: Some(team), ..self }
    }

    /// The compact outcome of the state, for the board entry a transition
    /// touched.
    pub open spec fn outcome_for(self, task: Option<Seq<char>>) -> OutcomeModel {
        match self.team {
            None => OutcomeModel {
                status: AgentTeamStatus::Active,
                lifecycle_revision: AgentRevisionNumber { number: 1 },
                members: 0,
                board_entries: 0,
                messages: 0,
                entry: None,
            },
            Some(team) => OutcomeModel {
                status: team.status,
                lifecycle_revision: team.lifecycle_revision,
                members: team.members.len(),
                board_entries: team.board.len(),
                messages: team.messages.len(),
                entry: match task {
                    Some(task) => if team.board.dom().contains(task) {
                        Some(team.board[task])
                    } else {
                        None
                    },
                    None => None,
                },
            },
        }
    }

    /// The state after a transition resolved its operation.
    pub open spec fn resolving(
        self,
        operation: Seq<char>,
        touched: Option<Seq<char>>,
        now: AgentTimestampMillis,
    ) -> StateModel {
        StateModel {
            log: logging(
                self.log,
                LogModel { operation_id: operation, outcome: self.outcome_for(touched) },
            ),
            updated_at: now,
            ..self
        }
    }
}

/// The model of a map of board entries keeps its size.
pub proof fn lemma_board_len(board: Map<Seq<char>, AgentTeamBoardEntry>)
    ensures
        board_model(board).len() == board.len(),
        board_model(board).dom() == board.dom(),
{
    assert(board_model(board).dom() =~= board.dom());
}

/// The model of a map of members keeps its size.
pub proof fn lemma_members_len(members: Map<Seq<char>, AgentTeamMember>)
    ensures
        members_model(members).len() == members.len(),
        members_model(members).dom() == members.dom(),
{
    assert(members_model(members).dom() =~= members.dom());
}

impl AgentTeamState {
    /// The state of a team that has never been created.
    pub fn uncreated(scope: AgentTeamScope, now: AgentTimestampMillis) -> (state: Self)
        ensures
            state@ == (StateModel {
                schema_version: CURRENT_AGENT_TEAM_STATE_SCHEMA_VERSION,
                scope,
                team: None,
                log: Seq::empty(),
                pending_history: Seq::empty(),
                next_sequence: 1,
                updated_at: now,
            }),
    {
        let state = AgentTeamState {
            schema_version: CURRENT_AGENT_TEAM_STATE_SCHEMA_VERSION,
            scope,
            team: None,
            applied_operations: AgentTeamOperationLog::new(),
            pending_history: Vec::new(),
            next_history_sequence: AgentTeamHistorySequence::first(),
            updated_at: now,
        };
        assert(state@.pending_history =~= Seq::empty());
        state
    }

    /// The scope this state belongs to.
    pub fn scope(&self) -> (scope: &AgentTeamScope)
        ensures
            *scope == self@.scope,
    {
        &self.scope
    }

    /// The materialized team, once it has been created.
    pub fn team(&self) -> (team: Option<&AgentTeam>)
        ensures
            match team {
                Some(team) => self@.team == Some(team@),
                None => self@.team is None,
            },
    {
        self.team.as_ref()
    }

    /// Whether the team has been created.
    pub fn is_created(&self) -> (result: bool)
        ensures
            result == (self@.team is Some),
    {
        self.team.is_some()
    }

    /// The bounded log of resolved operations.
    pub fn applied_operations(&self) -> (log: &AgentTeamOperationLog)
        ensures
            log@ == self@.log,
    {
        &self.applied_operations
    }

    /// The history entries the team owes its sink.
    pub fn pending_history(&self) -> (pending: &[AgentTeamHistoryEntry])
        ensures
            entries_model(pending@) == self@.pending_history,
    {
        self.pending_history.as_slice()
    }

    /// The time of the last accepted transition.
    pub fn updated_at(&self) -> (time: AgentTimestampMillis)
        ensures
            time == self@.updated_at,
    {
        self.updated_at
    }

    /// How many further history entries the team may record before its outbox
    /// is full.
    pub fn history_headroom(&self) -> (headroom: usize)
        ensures
            headroom == if self@.pending_history.len() >= AGENT_TEAM_PENDING_HISTORY_CAPACITY {
                0
            } else {
                AGENT_TEAM_PENDING_HISTORY_CAPACITY - self@.pending_history.len()
            },
    {
        AGENT_TEAM_PENDING_HISTORY_CAPACITY.saturating_sub(self.pending_history.len())
    }

    /// Refuses a transition the history outbox cannot hold.
    pub fn require_history_headroom(&self) -> (result: Result<(), AgentTeamError>)
        ensures
            result == if self@.pending_history.len() + AGENT_TEAM_MAX_HISTORY_PER_TRANSITION
                <= AGENT_TEAM_PENDING_HISTORY_CAPACITY {
                Ok::<(), AgentTeamError>(())
            } else {
                Err(
                    AgentTeamError::HistoryBacklog {
                        pending: self@.pending_history.len() as usize,
                        maximum: AGENT_TEAM_PENDING_HISTORY_CAPACITY,
                    },
                )
            },
    {
        if self.history_headroom() >= AGENT_TEAM_MAX_HISTORY_PER_TRANSITION {
            Ok(())
        } else {
            Err(
                AgentTeamError::HistoryBacklog {
                    pending: self.pending_history.len(),
                    maximum: AGENT_TEAM_PENDING_HISTORY_CAPACITY,
                },
            )
        }
    }

    /// The compact outcome describing the current state.
    pub fn outcome(&self) -> (outcome: AgentTeamOutcome)
        ensures
            outcome@ == self@.outcome_for(None),
    {
        self.outcome_for(None)
    }

    /// The compact outcome of the state, for the board entry a transition
    /// touched.
    pub fn outcome_for(&self, task: Option<&AgentTaskId>) -> (outcome: AgentTeamOutcome)
        ensures
            outcome@ == self@.outcome_for(
                match task {
                    Some(task) => Some(task@),
                    None => None,
                },
            ),
    {
        match &self.team {
            None => AgentTeamOutcome {
                status: AgentTeamStatus::Active,
                lifecycle_revision: AgentRevisionNumber::initial(),
                members: 0,
                board_entries: 0,
                messages: 0,
                entry: None,
            },
            Some(team) => {
                proof {
                    lemma_board_len(team.board@);
                    lemma_members_len(team.members@);
                }
                AgentTeamOutcome {
                    status: team.status,
                    lifecycle_revision: team.lifecycle_revision,
                    members: team.members.len(),
                    board_entries: team.board.len(),
                    messages: team.messages.len(),
                    entry: match task {
                        Some(task) => match team.board.get(task) {
                            Some(entry) => Some(entry.clone()),
                            None => None,
                        },
                        None => None,
                    },
                }
            },
        }
    }

    /// Records one owed history entry under the next sequence.
    pub(crate) fn record_history(&mut self, entry: AgentTeamHistoryEntry)
        requires
            old(self)@.next_sequence < u64::MAX,
        ensures
            final(self)@ == old(self)@.recording(entry@),
            final(self).team == old(self).team,
    {
        let sequence = self.next_history_sequence;
        self.next_history_sequence = sequence.next();
        let numbered = AgentTeamHistoryEntry { sequence, ..entry };
        self.pending_history.push(numbered);
        assert(self@.pending_history =~= old(self)@.recording(entry@).pending_history);
    }

    /// Forgets the owed history entries whose sequences were flushed.
    pub fn clear_flushed_history(&mut self, flushed: &[AgentTeamHistorySequence])
        ensures
            final(self)@ == (StateModel {
                pending_history: old(self)@.pending_history.filter(
                    |entry: HistoryModel| !is_flushed(flushed@, entry.sequence),
                ),
                ..old(self)@
            }),
    {
        let ghost keep = |entry: HistoryModel| !is_flushed(flushed@, entry.sequence);
        let ghost before = self@.pending_history;
        let ghost start = self@;
        let mut kept: Vec<AgentTeamHistoryEntry> = Vec::new();
        let mut i: usize = 0;
        proof {
            reveal(Seq::filter);
            assert(before.subrange(0, 0).filter(keep) =~= entries_model(kept@));
        }
        while i < self.pending_history.len()
            invariant
                i <= self.pending_history@.len(),
                self@ == start,
                before == entries_model(self.pending_history@),
                before == start.pending_history,
                keep == (|entry: HistoryModel| !is_flushed(flushed@, entry.sequence)),
                entries_model(kept@) == before.subrange(0, i as int).filter(keep),
            decreases self.pending_history.len() - i,
        {
            let entry = &self.pending_history[i];
            let ghost held = kept@;
            proof {
                assert(before[i as int] == self.pending_history@[i as int]@);
                let done = before.subrange(0, i as int);
                let next = before.subrange(0, i + 1);
                assert(next.drop_last() =~= done);
                assert(next.last() == before[i as int]);
                reveal(Seq::filter);
            }
            if !sequence_flushed(flushed, entry.sequence) {
                kept.push(entry.clone());
                assert(entries_model(kept@) =~= entries_model(held).push(before[i as int]));
            }
            i = i + 1;
        }
        proof {
            assert(before.subrange(0, before.len() as int) =~= before);
        }
        self.pending_history = kept;
    }

    /// Refuses every mutating command a non-active team cannot take.
    pub(crate) fn require_active(&self, now: AgentTimestampMillis) -> (result: Result<&AgentTeam, AgentTeamError>)
        ensures
            match self@.activity_refusal(now) {
                Some(error) => result == Err::<&AgentTeam, _>(error),
                None => result is Ok && self.team == Some(*result->Ok_0),
            },
    {
        match &self.team {
            None => Err(AgentTeamError::NotCreated { scope: self.scope.clone() }),
            Some(team) => match team.status {
                AgentTeamStatus::Disbanded => Err(AgentTeamError::Disbanded),
                AgentTeamStatus::Expired => Err(AgentTeamError::Expired),
                AgentTeamStatus::Active => if team.is_expired_at(now) {
                    Err(AgentTeamError::Expired)
                } else {
                    Ok(team)
                },
            },
        }
    }

    /// Refuses a lifecycle command a team has moved past.
    pub(crate) fn require_revision(&self, expected: AgentRevisionNumber, now: AgentTimestampMillis) -> (result: Result<
        &AgentTeam,
        AgentTeamError,
    >)
        ensures
            match self@.fence_refusal(expected, now) {
                Some(error) => result == Err::<&AgentTeam, _>(error),
                None => result is Ok && self.team == Some(*result->Ok_0),
            },
    {
        match self.require_active(now) {
            Err(error) => Err(error),
            Ok(team) => {
                if team.lifecycle_revision != expected {
                    Err(
                        AgentTeamError::StaleLifecycleRevision {
                            expected,
                            actual: team.lifecycle_revision,
                        },
                    )
                } else {
                    Ok(team)
                }
            },
        }
    }
}

/// Whether a sequence is among the flushed ones.
pub open spec fn is_flushed(flushed: Seq<AgentTeamHistorySequence>, sequence: u64) -> bool {
    exists|i: int| 0 <= i < flushed.len() && (#[trigger] flushed[i]).number() == sequence
}

fn sequence_flushed(flushed: &[AgentTeamHistorySequence], sequence: AgentTeamHistorySequence) -> (result:
    bool)
    ensures
        result == is_flushed(flushed@, sequence.number()),
{
    let mut i: usize = 0;
    while i < flushed.len()
        invariant
            i <= flushed@.len(),
            forall|k: int| 0 <= k < i ==> (#[trigger] flushed@[k]).number() != sequence.number(),
        decreases flushed.len() - i,
    {
        if flushed[i].get() == sequence.get() {
            assert(flushed@[i as int].number() == sequence.number());
            return true;
        }
        i = i + 1;
    }
    false
}

/// A kind of stored team record.
#[derive(Debug, Clone, Copy, PartialEq, Eq, Structural)]
#[non_exhaustive]
pub enum AgentTeamRecordKind {
    /// A team's state.
    State,
    /// An entry of a team's history.
    History,
}

/// A stored record under a schema version that is not accepted.
#[derive(Debug, Clone, Copy, PartialEq, Eq, Structural)]
pub struct AgentTeamSchemaError {
    /// The record.
    pub kind: AgentTeamRecordKind,
    /// Its version.
    pub version: u32,
}

/// The schema versions a reader accepts.
#[derive(Debug)]
pub struct AgentTeamSchemaPolicy {
    /// The versions of a team's state.
    pub states: Vec<u32>,
    /// The versions of a history entry.
    pub histories: Vec<u32>,
}

impl AgentTeamSchemaPolicy {
    /// A reader that accepts the current versions alone.
    pub fn current() -> (policy: Self)
        ensures
            policy.states@ == seq![CURRENT_AGENT_TEAM_STATE_SCHEMA_VERSION],
            policy.histories@ == seq![CURRENT_AGENT_TEAM_HISTORY_SCHEMA_VERSION],
    {
        let policy = AgentTeamSchemaPolicy {
            states: vec![CURRENT_AGENT_TEAM_STATE_SCHEMA_VERSION],
            histories: vec![CURRENT_AGENT_TEAM_HISTORY_SCHEMA_VERSION],
        };
        assert(policy.states@ =~= seq![CURRENT_AGENT_TEAM_STATE_SCHEMA_VERSION]);
        assert(policy.histories@ =~= seq![CURRENT_AGENT_TEAM_HISTORY_SCHEMA_VERSION]);
        policy
    }
}

/// The version of the first history entry, from a position on, that is not among
/// the accepted ones.
pub open spec fn first_unaccepted(
    entries: Seq<HistoryModel>,
    accepted: Seq<u32>,
    from: nat,
) -> Option<u32>
    decreases entries.len() - from,
{
    if from >= entries.len() {
        None
    } else if !accepted.contains(entries[from as int].schema_version) {
        Some(entries[from as int].schema_version)
    } else {
        first_unaccepted(entries, accepted, from + 1)
    }
}

impl StateModel {
    /// Why a reader that accepts some versions refuses the state: its own version
    /// first, then that of the first owed history entry that is not accepted.
    pub open spec fn schema_refusal(self, states: Seq<u32>, histories: Seq<u32>) -> Option<
        AgentTeamSchemaError,
    > {
        if !states.contains(self.schema_version) {
            Some(
                AgentTeamSchemaError {
                    kind: AgentTeamRecordKind::State,
                    version: self.schema_version,
                },
            )
        } else {
            match first_unaccepted(self.pending_history, histories, 0) {
                Some(version) => Some(
                    AgentTeamSchemaError { kind: AgentTeamRecordKind::History, version },
                ),
                None => None,
            }
        }
    }
}

/// Whether a version is among the accepted ones.
fn accepts_version(accepted: &Vec<u32>, version: u32) -> (result: bool)
    ensures
        result == accepted@.contains(version),
{
    let mut i: usize = 0;
    while i < accepted.len()
        invariant
            i <= accepted@.len(),
            forall|k: int| 0 <= k < i ==> accepted@[k] != version,
        decreases accepted.len() - i,
    {
        if accepted[i] == version {
            assert(accepted@[i as int] == version);
            return true;
        }
        i = i + 1;
    }
    false
}

impl AgentTeamState {
    /// Refuses a state that a reader does not accept: its own version, and that
    /// of every history entry it owes, must be among the accepted ones.
    pub fn check_schema(&self, policy: &AgentTeamSchemaPolicy) -> (result: Result<
        (),
        AgentTeamSchemaError,
    >)
        ensures
            result == match self@.schema_refusal(policy.states@, policy.histories@) {
                Some(error) => Err::<(), AgentTeamSchemaError>(error),
                None => Ok(()),
            },
    {
        if !accepts_version(&policy.states, self.schema_version) {
            return Err(
                AgentTeamSchemaError {
                    kind: AgentTeamRecordKind::State,
                    version: self.schema_version,
                },
            );
        }
        let mut i: usize = 0;
        while i < self.pending_history.len()
            invariant
                i <= self.pending_history@.len(),
                policy.states@.contains(self@.schema_version),
                first_unaccepted(self@.pending_history, policy.histories@, 0) == first_unaccepted(
                    self@.pending_history,
                    policy.histories@,
                    i as nat,
                ),
            decreases self.pending_history.len() - i,
        {
            let version: u32 = self.pending_history[i].schema_version;
            assert(self@.pending_history[i as int].schema_version == version);
            if !accepts_version(&policy.histories, version) {
                return Err(AgentTeamSchemaError { kind: AgentTeamRecordKind::History, version });
            }
            i = i + 1;
        }
        Ok(())
    }
}

/// Why a team of a size, in bytes, may not be stored.
pub open spec fn size_refusal(bytes: usize) -> Option<AgentTeamError> {
    if bytes <= 28_672 {
        None
    } else {
        Some(AgentTeamError::StateBounds { bytes, maximum: 28_672 })
    }
}

/// Rejects a team whose serialized form would exceed its bound.
pub fn check_bounds(bytes: usize) -> (result: Result<(), AgentTeamError>)
    ensures
        result == match size_refusal(bytes) {
            Some(error) => Err::<(), AgentTeamError>(error),
            None => Ok(()),
        },
{
    let maximum: usize = AGENT_TEAM_MATERIALIZED_MAX_BYTES.saturating_sub(
        AGENT_TEAM_STATE_GROWTH_RESERVE_BYTES,
    );
    if bytes > maximum {
        return Err(AgentTeamError::StateBounds { bytes, maximum });
    }
    Ok(())
}

} // verus!
