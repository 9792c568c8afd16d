//! How a team's board settles what its tasks answer and report.

use vstd::prelude::*;
use vstd::string::*;

use crate::exchange::{
    AgentEntityAddress, AgentExchangeDecodeError, AgentExchangeKind, AgentExchangeResult,
    AgentTeamScope, AnswerModel,
};
use crate::identity::{
    optional_text, AgentId, AgentOperationId, AgentRunId, AgentTaskId, AgentTeamClaimId,
    AgentTimestampMillis, Identifier,
};
use crate::team::{
    AgentTeamClaimAction, AgentTeamClaimCommand, AgentTeamState, ClaimCommandModel, StateModel,
    CURRENT_AGENT_TEAM_STATE_SCHEMA_VERSION,
};
use crate::team_board::{
    AgentTeamBoardClaim, AgentTeamBoardEntry, AgentTeamBoardEntryStatus, ClaimModel, EntryModel,
};
use crate::team_history::{
    bounded_detail, detail_text, AgentTeamHistoryEntry, AgentTeamHistoryKind,
    AgentTeamHistorySequence, HistoryModel,
};
use crate::text::{join3, lemma_bounded_text_fits, same_text};
use crate::wake_scanner::AgentTaskScope;

verus! {

/// Payload type of the bounded receipt a team returns for a claim result.
pub const AGENT_TEAM_CLAIM_RESULT_RECEIPT_PAYLOAD_TYPE: &'static str =
    "rakka.agent.TeamClaimResultReceipt";

/// Payload type of the bounded receipt a team returns for a terminal notice.
pub const AGENT_TEAM_TERMINAL_RECEIPT_PAYLOAD_TYPE: &'static str =
    "rakka.agent.TeamTerminalReceipt";

/// How a task resolved a team's claim.
#[derive(Debug)]
#[non_exhaustive]
pub enum AgentTeamClaimOutcome {
    /// The claimant's assignment durably accepted.
    Activated {
        /// The accepted assignment generation.
        generation: u64,
        /// The run serving it.
        run: AgentRunId,
        /// The member it was assigned to.
        member: AgentId,
    },
    /// The claim came to nothing.
    Refused {
        /// The stable refusal code.
        code: String,
    },
}

impl AgentTeamClaimOutcome {
    /// The label the team-operations counter records for a fresh result.
    pub fn operation_label(&self) -> (label: &'static str)
        ensures
            label@ == match self {
                AgentTeamClaimOutcome::Activated { .. } => "activated"@,
                AgentTeamClaimOutcome::Refused { .. } => "reopened"@,
            },
    {
        match self {
            AgentTeamClaimOutcome::Activated { .. } => "activated",
            AgentTeamClaimOutcome::Refused { .. } => "reopened",
        }
    }
}

/// A task's notice of how it resolved a claim.
#[derive(Debug)]
pub struct AgentTeamClaimResultNotice {
    /// The task.
    pub task: AgentTaskScope,
    /// The claim.
    pub claim: AgentTeamClaimId,
    /// How it was resolved.
    pub outcome: AgentTeamClaimOutcome,
}

/// A task's notice that it ended.
#[derive(Debug)]
pub struct AgentTeamTerminalNotice {
    /// The task.
    pub task: AgentTaskScope,
    /// Why it ended.
    pub terminal_reason: String,
}

/// The answer that refuses, with a bare claim-result receipt.
pub open spec fn refusal_answer(code: Seq<char>, message: Seq<char>, receipt: Seq<char>) -> AnswerModel {
    AnswerModel { refusal: Some((code, message)), payload_type: receipt, detail: Seq::empty() }
}

/// The answer that accepts, with a bare receipt.
pub open spec fn acceptance(receipt: Seq<char>) -> AnswerModel {
    AnswerModel { refusal: None, payload_type: receipt, detail: Seq::empty() }
}

fn refuse(code: String, message: String, receipt: &'static str) -> (answer: AgentExchangeResult)
    ensures
        answer@ == refusal_answer(code@, message@, receipt@),
{
    AgentExchangeResult::rejected(code, message, receipt, String::new())
}

fn accepted(receipt: &'static str) -> (answer: AgentExchangeResult)
    ensures
        answer@ == acceptance(receipt@),
{
    AgentExchangeResult::accepted(receipt, String::new())
}

/// The board entry after a claim's activation reached the entry it is current
/// on: the owner's echo fills it.
pub open spec fn echoed_entry(entry: EntryModel, generation: u64, run: AgentRunId) -> EntryModel {
    EntryModel {
        status: AgentTeamBoardEntryStatus::Active,
        last_code: None,
        claim: match entry.claim {
            Some(claim) => Some(
                ClaimModel {
                    generation_echo: Some(generation),
                    run_echo: Some(run),
                    ..claim
                },
            ),
            None => None,
        },
        ..entry
    }
}

/// The board entry after the activation of a claim the board had superseded.
pub open spec fn overtaken_entry(
    entry: EntryModel,
    claim: Seq<char>,
    member: AgentId,
    generation: u64,
    run: AgentRunId,
    now: AgentTimestampMillis,
) -> EntryModel {
    EntryModel {
        status: AgentTeamBoardEntryStatus::Active,
        claim: Some(
            ClaimModel {
                claim,
                member,
                lease_expires_at: now,
                claimed_at: now,
                generation_echo: Some(generation),
                run_echo: Some(run),
            },
        ),
        last_code: None,
        ..entry
    }
}

/// The board entry reopened by a refusal.
pub open spec fn reopened_entry(entry: EntryModel, code: Seq<char>) -> EntryModel {
    EntryModel {
        status: AgentTeamBoardEntryStatus::Open,
        claim: None,
        last_code: Some(detail_text(code)),
        ..entry
    }
}

/// Whether an entry absorbs the activation of a claim it does not record: it is
/// closed, or its own claim carries an activation echo.
pub open spec fn absorbs_activation(entry: EntryModel) -> bool {
    entry.status == AgentTeamBoardEntryStatus::Done || (entry.claim is Some
        && entry.claim->Some_0.generation_echo is Some)
}

/// The history entry of a settled claim.
pub open spec fn settled_history(
    operation: Seq<char>,
    task: Seq<char>,
    claim: Seq<char>,
    member: Option<Seq<char>>,
    detail: Seq<char>,
    now: AgentTimestampMillis,
) -> HistoryModel {
    HistoryModel {
        task: Some(task),
        claim: Some(claim),
        member,
        detail: detail_text(detail),
        ..HistoryModel::bare(0, AgentTeamHistoryKind::ClaimSettled, operation, now)
    }
}

impl StateModel {
    /// Why a claim result is refused: its payload, a sender that is not the
    /// task it names, no team, or a task that is not on the board.
    pub open spec fn claim_result_refusal(
        self,
        notice: Result<AgentTeamClaimResultNotice, AgentExchangeDecodeError>,
        initiator: AgentEntityAddress,
    ) -> Option<(Seq<char>, Seq<char>)> {
        match notice {
            Err(error) => Some((error.code@, error.message@)),
            Ok(notice) => if !initiator.is_task(&notice.task) {
                Some(
                    (
                        "team-claim-forged"@,
                        "a claim result must be initiated by the task it resolves"@,
                    ),
                )
            } else if self.team is None {
                Some(("team-not-found"@, "no team exists under this scope"@))
            } else if !self.team->Some_0.board.dom().contains(notice.task.task@) {
                Some(("team-claim-unknown"@, "the task is not on this team's board"@))
            } else {
                None
            },
        }
    }

    /// After a claim result was settled on the board.
    pub open spec fn settling_result(
        self,
        operation: Seq<char>,
        notice: AgentTeamClaimResultNotice,
        now: AgentTimestampMillis,
    ) -> StateModel {
        let task = notice.task.task@;
        let entry = self.team->Some_0.board[task];
        let current = entry.claim is Some && entry.claim->Some_0.claim == notice.claim@;
        match notice.outcome {
            AgentTeamClaimOutcome::Activated { generation, run, member } => if current {
                self.with_entry(task, echoed_entry(entry, generation, run)).recording(
                    settled_history(
                        operation,
                        task,
                        notice.claim@,
                        Some(member@),
                        "activated"@,
                        now,
                    ),
                )
            } else if absorbs_activation(entry) {
                self
            } else {
                self.with_entry(
                    task,
                    overtaken_entry(entry, notice.claim@, member, generation, run, now),
                ).recording(
                    settled_history(
                        operation,
                        task,
                        notice.claim@,
                        Some(member@),
                        "activated"@,
                        now,
                    ),
                )
            },
            AgentTeamClaimOutcome::Refused { code } => if current && entry.status.in_flight() {
                self.with_entry(task, reopened_entry(entry, code@)).recording(
                    settled_history(
                        operation,
                        task,
                        notice.claim@,
                        optional_text(entry.holder()),
                        code@,
                        now,
                    ),
                )
            } else {
                self
            },
        }
    }

    /// Why a terminal notice is refused: its payload, a sender that is not the
    /// task it names, or no team.
    pub open spec fn terminal_refusal(
        self,
        notice: Result<AgentTeamTerminalNotice, AgentExchangeDecodeError>,
        initiator: AgentEntityAddress,
    ) -> Option<(Seq<char>, Seq<char>)> {
        match notice {
            Err(error) => Some(("team-terminal-notice-undecodable"@, error.message@)),
            Ok(notice) => if !initiator.is_task(&notice.task) {
                Some(
                    (
                        "team-terminal-notice-forged"@,
                        "a terminal notice must be initiated by the task it reports"@,
                    ),
                )
            } else if self.team is None {
                Some(("team-not-found"@, "no team exists under this scope"@))
            } else {
                None
            },
        }
    }

    /// After a terminal notice closed its entry. A missing or closed entry
    /// stays as it is.
    pub open spec fn closing(
        self,
        operation: Seq<char>,
        task: Seq<char>,
        reason: Seq<char>,
        now: AgentTimestampMillis,
    ) -> StateModel {
        let board = self.team->Some_0.board;
        if !board.dom().contains(task) || board[task].status == AgentTeamBoardEntryStatus::Done {
            self
        } else {
            let entry = board[task];
            self.with_entry(
                task,
                EntryModel {
                    status: AgentTeamBoardEntryStatus::Done,
                    claim_epoch: if entry.claim_epoch < u64::MAX {
                        (entry.claim_epoch + 1) as u64
                    } else {
                        u64::MAX
                    },
                    claim: None,
                    last_code: Some(detail_text(reason)),
                    ..entry
                },
            ).recording(
                HistoryModel {
                    task: Some(task),
                    member: optional_text(entry.holder()),
                    detail: detail_text(reason),
                    ..HistoryModel::bare(0, AgentTeamHistoryKind::TaskClosed, operation, now)
                },
            )
        }
    }
}

/// A task's definitive answer to a refused claim action.
#[derive(Debug, Clone, Copy, PartialEq, Eq, Structural)]
pub enum ClaimRefusal {
    /// The action names a decision the board superseded.
    StaleEpoch,
    /// The task is owned.
    AlreadyOwned,
    /// An offer is undecided.
    ClaimInFlight,
    /// The task ended.
    TaskTerminal,
    /// The task does not exist.
    TaskUnknown,
    /// The task belongs to another team.
    WrongTeam,
    /// The task is being cancelled.
    Cancelling,
    /// A handoff is pending.
    HandoffPending,
    /// The task has no room for more claims.
    LimitExceeded,
    /// The task's record has no room.
    StateTooLarge,
    /// The release met an undecided offer.
    ReleaseInFlight,
    /// The release outran its claim.
    ReleaseUnknown,
}

/// The definitive answer a refusal code names.
pub open spec fn claim_refusal_of(code: Seq<char>) -> Option<ClaimRefusal> {
    if code == "team-claim-stale-epoch"@ {
        Some(ClaimRefusal::StaleEpoch)
    } else if code == "team-claim-already-owned"@ {
        Some(ClaimRefusal::AlreadyOwned)
    } else if code == "team-claim-assignment-inflight"@ {
        Some(ClaimRefusal::ClaimInFlight)
    } else if code == "team-claim-task-terminal"@ {
        Some(ClaimRefusal::TaskTerminal)
    } else if code == "team-claim-task-unknown"@ {
        Some(ClaimRefusal::TaskUnknown)
    } else if code == "team-claim-wrong-team"@ {
        Some(ClaimRefusal::WrongTeam)
    } else if code == "team-claim-task-cancelling"@ {
        Some(ClaimRefusal::Cancelling)
    } else if code == "team-claim-handoff-pending"@ {
        Some(ClaimRefusal::HandoffPending)
    } else if code == "team-claim-limit-exceeded"@ {
        Some(ClaimRefusal::LimitExceeded)
    } else if code == "task-state-too-large"@ {
        Some(ClaimRefusal::StateTooLarge)
    } else if code == "team-release-assignment-inflight"@ {
        Some(ClaimRefusal::ReleaseInFlight)
    } else if code == "team-release-unknown"@ {
        Some(ClaimRefusal::ReleaseUnknown)
    } else {
        None
    }
}

/// Reads a refusal code.
pub fn read_claim_refusal(code: &str) -> (refusal: Option<ClaimRefusal>)
    ensures
        refusal == claim_refusal_of(code@),
{
    if same_text(code, "team-claim-stale-epoch") {
        Some(ClaimRefusal::StaleEpoch)
    } else if same_text(code, "team-claim-already-owned") {
        Some(ClaimRefusal::AlreadyOwned)
    } else if same_text(code, "team-claim-assignment-inflight") {
        Some(ClaimRefusal::ClaimInFlight)
    } else if same_text(code, "team-claim-task-terminal") {
        Some(ClaimRefusal::TaskTerminal)
    } else if same_text(code, "team-claim-task-unknown") {
        Some(ClaimRefusal::TaskUnknown)
    } else if same_text(code, "team-claim-wrong-team") {
        Some(ClaimRefusal::WrongTeam)
    } else if same_text(code, "team-claim-task-cancelling") {
        Some(ClaimRefusal::Cancelling)
    } else if same_text(code, "team-claim-handoff-pending") {
        Some(ClaimRefusal::HandoffPending)
    } else if same_text(code, "team-claim-limit-exceeded") {
        Some(ClaimRefusal::LimitExceeded)
    } else if same_text(code, "task-state-too-large") {
        Some(ClaimRefusal::StateTooLarge)
    } else if same_text(code, "team-release-assignment-inflight") {
        Some(ClaimRefusal::ReleaseInFlight)
    } else if same_text(code, "team-release-unknown") {
        Some(ClaimRefusal::ReleaseUnknown)
    } else {
        None
    }
}

/// What a definitive refusal of an action makes of an entry: its next status,
/// and whether its claim is cleared; or nothing. A restore or a reopen speaks
/// only for the claim the action was about.
pub open spec fn settlement(
    releases: bool,
    refusal: Option<ClaimRefusal>,
    claim_is_current: bool,
) -> Option<(AgentTeamBoardEntryStatus, bool)> {
    match refusal {
        Some(ClaimRefusal::AlreadyOwned) => if releases {
            Some((AgentTeamBoardEntryStatus::Active, false))
        } else if claim_is_current {
            Some((AgentTeamBoardEntryStatus::Active, true))
        } else {
            None
        },
        Some(ClaimRefusal::ReleaseInFlight) | Some(ClaimRefusal::ReleaseUnknown) => if releases
            && claim_is_current {
            Some((AgentTeamBoardEntryStatus::Pending, false))
        } else {
            None
        },
        Some(ClaimRefusal::ClaimInFlight) => if !releases && claim_is_current {
            Some((AgentTeamBoardEntryStatus::Open, true))
        } else {
            None
        },
        Some(ClaimRefusal::TaskTerminal) | Some(ClaimRefusal::TaskUnknown) | Some(
            ClaimRefusal::WrongTeam,
        ) => Some((AgentTeamBoardEntryStatus::Done, true)),
        Some(ClaimRefusal::Cancelling) | Some(ClaimRefusal::HandoffPending) | Some(
            ClaimRefusal::LimitExceeded,
        ) | Some(ClaimRefusal::StateTooLarge) => if claim_is_current {
            Some((AgentTeamBoardEntryStatus::Open, true))
        } else {
            None
        },
        Some(ClaimRefusal::StaleEpoch) | None => None,
    }
}

fn settle_refusal(releases: bool, refusal: Option<ClaimRefusal>, claim_is_current: bool) -> (settled:
    Option<(AgentTeamBoardEntryStatus, bool)>)
    ensures
        settled == settlement(releases, refusal, claim_is_current),
{
    match refusal {
        Some(ClaimRefusal::AlreadyOwned) => if releases {
            Some((AgentTeamBoardEntryStatus::Active, false))
        } else if claim_is_current {
            Some((AgentTeamBoardEntryStatus::Active, true))
        } else {
            None
        },
        Some(ClaimRefusal::ReleaseInFlight) | Some(ClaimRefusal::ReleaseUnknown) => if releases
            && claim_is_current {
            Some((AgentTeamBoardEntryStatus::Pending, false))
        } else {
            None
        },
        Some(ClaimRefusal::ClaimInFlight) => if !releases && claim_is_current {
            Some((AgentTeamBoardEntryStatus::Open, true))
        } else {
            None
        },
        Some(ClaimRefusal::TaskTerminal) | Some(ClaimRefusal::TaskUnknown) | Some(
            ClaimRefusal::WrongTeam,
        ) => Some((AgentTeamBoardEntryStatus::Done, true)),
        Some(ClaimRefusal::Cancelling) | Some(ClaimRefusal::HandoffPending) | Some(
            ClaimRefusal::LimitExceeded,
        ) | Some(ClaimRefusal::StateTooLarge) => if claim_is_current {
            Some((AgentTeamBoardEntryStatus::Open, true))
        } else {
            None
        },
        Some(ClaimRefusal::StaleEpoch) | None => None,
    }
}

impl StateModel {
    /// Whether the board still stands at the decision a command was minted by.
    pub open spec fn is_current_decision(self, command: ClaimCommandModel) -> bool {
        &&& self.team is Some
        &&& self.team->Some_0.board.dom().contains(command.task@)
        &&& self.team->Some_0.board[command.task@].claim_epoch == command.epoch
    }

    /// After the reply to a claim action the team initiated settled. Only the
    /// reply of the entry's current decision settles it.
    pub open spec fn settling_action(
        self,
        operation: Seq<char>,
        command: ClaimCommandModel,
        answer: AnswerModel,
        now: AgentTimestampMillis,
    ) -> StateModel {
        if !self.is_current_decision(command) {
            self
        } else {
            let task = command.task@;
            let entry = self.team->Some_0.board[task];
            let releases = command.action is Release;
            match answer.refusal {
                None => if releases && entry.status == AgentTeamBoardEntryStatus::Releasing {
                    self.with_entry(
                        task,
                        EntryModel {
                            status: AgentTeamBoardEntryStatus::Open,
                            claim: None,
                            last_code: Some("released"@),
                            ..entry
                        },
                    ).recording(
                        settled_history(
                            operation,
                            task,
                            command.claim,
                            optional_text(entry.holder()),
                            "released"@,
                            now,
                        ),
                    )
                } else {
                    self
                },
                Some((code, _)) => {
                    let current = entry.claim is Some && entry.claim->Some_0.claim
                        == command.claim;
                    match settlement(releases, claim_refusal_of(code), current) {
                        None => self,
                        Some((status, clears)) => self.with_entry(
                            task,
                            EntryModel {
                                status,
                                claim: if clears {
                                    None
                                } else {
                                    entry.claim
                                },
                                last_code: Some(detail_text(code)),
                                ..entry
                            },
                        ).recording(
                            settled_history(
                                operation,
                                task,
                                command.claim,
                                optional_text(entry.holder()),
                                code,
                                now,
                            ),
                        ),
                    }
                },
            }
        }
    }
}

/// The member that holds an entry's claim.
fn holder_of(entry: &AgentTeamBoardEntry) -> (holder: Option<AgentId>)
    ensures
        holder == entry@.holder(),
{
    match &entry.claim {
        Some(claim) => Some(claim.member.clone()),
        None => None,
    }
}

/// The history entry of a settled claim.
fn claim_settled(
    operation_id: &AgentOperationId,
    task: &AgentTaskId,
    claim: &AgentTeamClaimId,
    member: Option<AgentId>,
    detail: String,
    now: AgentTimestampMillis,
) -> (history: AgentTeamHistoryEntry)
    ensures
        (HistoryModel { sequence: 0, ..history@ }) == settled_history(
            operation_id@,
            task@,
            claim@,
            optional_text(member),
            detail@,
            now,
        ),
{
    AgentTeamHistoryEntry::new(
        AgentTeamHistorySequence::first(),
        AgentTeamHistoryKind::ClaimSettled,
        operation_id.clone(),
        now,
    ).with_task(task.clone()).with_claim(claim.clone()).with_holder(member).with_detail(detail)
}

impl AgentTeamState {
    /// The board entry of a task.
    fn entry_of(&self, task: &AgentTaskId) -> (entry: Option<AgentTeamBoardEntry>)
        ensures
            match entry {
                Some(entry) => self@.team is Some && self@.team->Some_0.board.dom().contains(task@)
                    && self@.team->Some_0.board[task@] == entry@,
                None => self@.team is Some ==> !self@.team->Some_0.board.dom().contains(task@),
            },
    {
        match &self.team {
            Some(team) => match team.board.get(task) {
                Some(entry) => Some(entry.clone()),
                None => None,
            },
            None => None,
        }
    }

    /// Applies one delivered claim-result notice: the board settlement of a
    /// claim the task resolved.
    pub fn apply_claim_result(
        &mut self,
        operation_id: &AgentOperationId,
        notice: Result<AgentTeamClaimResultNotice, AgentExchangeDecodeError>,
        initiator: &AgentEntityAddress,
        now: AgentTimestampMillis,
    ) -> (answer: AgentExchangeResult)
        requires
            old(self)@.claim_result_refusal(notice, *initiator) is None && old(
                self,
            )@.settling_result(operation_id@, notice->Ok_0, now) != old(self)@ ==> old(
                self,
            )@.next_sequence < u64::MAX,
        ensures
            match old(self)@.claim_result_refusal(notice, *initiator) {
                Some((code, message)) => final(self)@ == old(self)@ && answer@ == refusal_answer(
                    code,
                    message,
                    AGENT_TEAM_CLAIM_RESULT_RECEIPT_PAYLOAD_TYPE@,
                ),
                None => final(self)@ == old(self)@.settling_result(
                    operation_id@,
                    notice->Ok_0,
                    now,
                ) && answer@ == acceptance(AGENT_TEAM_CLAIM_RESULT_RECEIPT_PAYLOAD_TYPE@),
            },
    {
        let receipt = AGENT_TEAM_CLAIM_RESULT_RECEIPT_PAYLOAD_TYPE;
        let notice = match notice {
            Ok(notice) => notice,
            Err(error) => {
                return refuse(error.code, error.message, receipt);
            },
        };
        if !initiator.names_task(&notice.task) {
            return refuse(
                "team-claim-forged".to_owned(),
                "a claim result must be initiated by the task it resolves".to_owned(),
                receipt,
            );
        }
        if self.team.is_none() {
            return refuse(
                "team-not-found".to_owned(),
                "no team exists under this scope".to_owned(),
                receipt,
            );
        }
        let task = notice.task.task.clone();
        let mut entry = match self.entry_of(&task) {
            Some(entry) => entry,
            None => {
                return refuse(
                    "team-claim-unknown".to_owned(),
                    "the task is not on this team's board".to_owned(),
                    receipt,
                );
            },
        };
        let current = match &entry.claim {
            Some(claim) => claim.claim.same(&notice.claim),
            None => false,
        };
        let ghost before = entry@;
        match notice.outcome {
            AgentTeamClaimOutcome::Activated { generation, run, member } => {
                if current {
                    entry.status = AgentTeamBoardEntryStatus::Active;
                    entry.last_code = None;
                    if let Some(claim) = entry.claim {
                        entry.claim =
                        Some(
                            AgentTeamBoardClaim {
                                generation_echo: Some(generation),
                                run_echo: Some(run),
                                ..claim
                            },
                        );
                    }
                    assert(entry@ == echoed_entry(before, generation, run));
                } else {
                    let echoed = match &entry.claim {
                        Some(claim) => claim.generation_echo.is_some(),
                        None => false,
                    };
                    if entry.status == AgentTeamBoardEntryStatus::Done || echoed {
                        return accepted(receipt);
                    }
                    entry.status = AgentTeamBoardEntryStatus::Active;
                    entry.claim =
                    Some(
                        AgentTeamBoardClaim {
                            claim: notice.claim.clone(),
                            member: member.clone(),
                            lease_expires_at: now,
                            claimed_at: now,
                            generation_echo: Some(generation),
                            run_echo: Some(run),
                        },
                    );
                    entry.last_code = None;
                    assert(entry@ == overtaken_entry(
                        before,
                        notice.claim@,
                        member,
                        generation,
                        run,
                        now,
                    ));
                }
                let history = claim_settled(
                    operation_id,
                    &task,
                    &notice.claim,
                    Some(member),
                    "activated".to_owned(),
                    now,
                );
                assert(old(self)@.settling_result(operation_id@, notice, now).pending_history.len() == self@.pending_history.len() + 1);
                self.replace_entry(&task, entry);
                self.record_history(history);
            },
            AgentTeamClaimOutcome::Refused { code } => {
                if current && entry.status.is_in_flight() {
                    let holder = holder_of(&entry);
                    entry.status = AgentTeamBoardEntryStatus::Open;
                    entry.claim = None;
                    entry.last_code = Some(bounded_detail(code.clone()));
                    let history = claim_settled(
                        operation_id,
                        &task,
                        &notice.claim,
                        holder,
                        code,
                        now,
                    );
                    assert(old(self)@.settling_result(operation_id@, notice, now).pending_history.len() == self@.pending_history.len() + 1);
                    self.replace_entry(&task, entry);
                    self.record_history(history);
                }
            },
        }
        accepted(receipt)
    }

    /// Applies one delivered terminal notice: the task ended, and its board
    /// entry closes. The close is a board decision and bumps the claim epoch,
    /// so that every stale reply still in flight settles to nothing.
    pub fn apply_team_terminal(
        &mut self,
        operation_id: &AgentOperationId,
        notice: Result<AgentTeamTerminalNotice, AgentExchangeDecodeError>,
        initiator: &AgentEntityAddress,
        now: AgentTimestampMillis,
    ) -> (answer: AgentExchangeResult)
        requires
            old(self)@.terminal_refusal(notice, *initiator) is None && old(self)@.closing(
                operation_id@,
                notice->Ok_0.task.task@,
                notice->Ok_0.terminal_reason@,
                now,
            ) != old(self)@ ==> old(self)@.next_sequence < u64::MAX,
        ensures
            match old(self)@.terminal_refusal(notice, *initiator) {
                Some((code, message)) => final(self)@ == old(self)@ && answer@ == refusal_answer(
                    code,
                    message,
                    AGENT_TEAM_TERMINAL_RECEIPT_PAYLOAD_TYPE@,
                ),
                None => final(self)@ == old(self)@.closing(
                    operation_id@,
                    notice->Ok_0.task.task@,
                    notice->Ok_0.terminal_reason@,
                    now,
                ) && answer@ == acceptance(AGENT_TEAM_TERMINAL_RECEIPT_PAYLOAD_TYPE@),
            },
    {
        let receipt = AGENT_TEAM_TERMINAL_RECEIPT_PAYLOAD_TYPE;
        let notice = match notice {
            Ok(notice) => notice,
            Err(error) => {
                return refuse(
                    "team-terminal-notice-undecodable".to_owned(),
                    error.message,
                    receipt,
                );
            },
        };
        if !initiator.names_task(&notice.task) {
            return refuse(
                "team-terminal-notice-forged".to_owned(),
                "a terminal notice must be initiated by the task it reports".to_owned(),
                receipt,
            );
        }
        if self.team.is_none() {
            return refuse(
                "team-not-found".to_owned(),
                "no team exists under this scope".to_owned(),
                receipt,
            );
        }
        let task = notice.task.task.clone();
        let mut entry = match self.entry_of(&task) {
            Some(entry) => entry,
            None => {
                return accepted(receipt);
            },
        };
        if entry.status == AgentTeamBoardEntryStatus::Done {
            return accepted(receipt);
        }
        let detail = bounded_detail(notice.terminal_reason);
        let holder = holder_of(&entry);
        entry.status = AgentTeamBoardEntryStatus::Done;
        entry.claim_epoch = entry.claim_epoch.saturating_add(1);
        entry.claim = None;
        entry.last_code = Some(detail.clone());
        proof {
            lemma_bounded_text_fits(
                notice.terminal_reason@,
                crate::team_history::AGENT_TEAM_DETAIL_MAX_LENGTH as nat,
            );
        }
        let history = AgentTeamHistoryEntry::new(
            AgentTeamHistorySequence::first(),
            AgentTeamHistoryKind::TaskClosed,
            operation_id.clone(),
            now,
        ).with_task(task.clone()).with_detail(detail).with_holder(holder);
        assert(old(self)@.closing(operation_id@, task@, notice.terminal_reason@, now).pending_history.len() == self@.pending_history.len() + 1);
        self.replace_entry(&task, entry);
        self.record_history(history);
        accepted(receipt)
    }

    /// Settles the reply of one claim action the team initiated.
    pub fn settle_claim_action(
        &mut self,
        operation_id: &AgentOperationId,
        command: &AgentTeamClaimCommand,
        result: &AgentExchangeResult,
        now: AgentTimestampMillis,
    )
        requires
            old(self)@.settling_action(operation_id@, command@, result@, now) != old(self)@ ==> old(
                self,
            )@.next_sequence < u64::MAX,
        ensures
            final(self)@ == old(self)@.settling_action(operation_id@, command@, result@, now),
    {
        if self.team.is_none() {
            return ;
        }
        let mut entry = match self.entry_of(&command.task) {
            Some(entry) => entry,
            None => {
                return ;
            },
        };
        if entry.claim_epoch != command.epoch {
            return ;
        }
        let releases = matches!(command.action, AgentTeamClaimAction::Release);
        let holder = holder_of(&entry);
        let code = match result.rejection_code() {
            None => {
                if releases && entry.status == AgentTeamBoardEntryStatus::Releasing {
                    entry.status = AgentTeamBoardEntryStatus::Open;
                    entry.claim = None;
                    entry.last_code = Some("released".to_owned());
                    let history = claim_settled(
                        operation_id,
                        &command.task,
                        &command.claim,
                        holder,
                        "released".to_owned(),
                        now,
                    );
                    assert(old(self)@.settling_action(operation_id@, command@, result@, now).pending_history.len() == self@.pending_history.len() + 1);
                    self.replace_entry(&command.task, entry);
                    self.record_history(history);
                }
                return ;
            },
            Some(code) => code,
        };
        let current = match &entry.claim {
            Some(claim) => claim.claim.same(&command.claim),
            None => false,
        };
        if let Some((status, clears)) = settle_refusal(
            releases,
            read_claim_refusal(code),
            current,
        ) {
            entry.status = status;
            if clears {
                entry.claim = None;
            }
            entry.last_code = Some(bounded_detail(code.to_owned()));
            let history = claim_settled(
                operation_id,
                &command.task,
                &command.claim,
                holder,
                code.to_owned(),
                now,
            );
            assert(old(self)@.settling_action(operation_id@, command@, result@, now).pending_history.len() == self@.pending_history.len() + 1);
            self.replace_entry(&command.task, entry);
            self.record_history(history);
        }
    }
}

/// An exchange delivered to a team, with its payload decoded.
#[derive(Debug)]
#[non_exhaustive]
pub enum AgentTeamExchange {
    /// A task's resolution of a claim.
    ClaimResult(Result<AgentTeamClaimResultNotice, AgentExchangeDecodeError>),
    /// A task's terminal notice.
    TerminalNotice(Result<AgentTeamTerminalNotice, AgentExchangeDecodeError>),
    /// Any other kind; no team receives it.
    Other(AgentExchangeKind),
}

impl AgentTeamExchange {
    /// The kind of the exchange.
    pub open spec fn spec_kind(&self) -> AgentExchangeKind {
        match self {
            AgentTeamExchange::ClaimResult(_) => AgentExchangeKind::TeamClaimResult,
            AgentTeamExchange::TerminalNotice(_) => AgentExchangeKind::TeamTerminalNotice,
            AgentTeamExchange::Other(kind) => *kind,
        }
    }

    /// The kind of the exchange.
    pub fn kind(&self) -> (kind: AgentExchangeKind)
        ensures
            kind == self.spec_kind(),
    {
        match self {
            AgentTeamExchange::ClaimResult(_) => AgentExchangeKind::TeamClaimResult,
            AgentTeamExchange::TerminalNotice(_) => AgentExchangeKind::TeamTerminalNotice,
            AgentTeamExchange::Other(kind) => *kind,
        }
    }
}

impl StateModel {
    /// Receiving an exchange, with the answer: a refused one changes nothing.
    pub open spec fn receiving(
        self,
        operation: Seq<char>,
        exchange: AgentTeamExchange,
        initiator: AgentEntityAddress,
        now: AgentTimestampMillis,
    ) -> (StateModel, AnswerModel) {
        match exchange {
            AgentTeamExchange::ClaimResult(notice) => match self.claim_result_refusal(
                notice,
                initiator,
            ) {
                Some((code, message)) => (
                    self,
                    refusal_answer(code, message, AGENT_TEAM_CLAIM_RESULT_RECEIPT_PAYLOAD_TYPE@),
                ),
                None => (
                    self.settling_result(operation, notice->Ok_0, now),
                    acceptance(AGENT_TEAM_CLAIM_RESULT_RECEIPT_PAYLOAD_TYPE@),
                ),
            },
            AgentTeamExchange::TerminalNotice(notice) => match self.terminal_refusal(
                notice,
                initiator,
            ) {
                Some((code, message)) => (
                    self,
                    refusal_answer(code, message, AGENT_TEAM_TERMINAL_RECEIPT_PAYLOAD_TYPE@),
                ),
                None => (
                    self.closing(
                        operation,
                        notice->Ok_0.task.task@,
                        notice->Ok_0.terminal_reason@,
                        now,
                    ),
                    acceptance(AGENT_TEAM_TERMINAL_RECEIPT_PAYLOAD_TYPE@),
                ),
            },
            AgentTeamExchange::Other(kind) => (
                self,
                refusal_answer(
                    "unsupported-exchange"@,
                    "a team entity does not receive a "@ + kind.label_text() + " exchange"@,
                    AGENT_TEAM_CLAIM_RESULT_RECEIPT_PAYLOAD_TYPE@,
                ),
            ),
        }
    }
}

/// A refusal that leaves its exchange outstanding.
#[derive(Debug)]
pub struct AgentUnsettleableRefusal {
    /// The exchange.
    pub kind: AgentExchangeKind,
    /// The refusal's code.
    pub code: String,
}

/// Whether a refused terminal notice is refused for good: a payload that could
/// not be decoded is not, so that a newer binary's notice converges later.
pub open spec fn terminal_refusal_settles(code: Seq<char>) -> bool {
    code == "team-terminal-notice-forged"@ || code == "team-not-found"@
}

/// The domain half of the team entity: bounded, pure transitions and nothing
/// else.
#[derive(Debug, Clone, Copy)]
pub struct AgentTeamParticipant;

impl AgentTeamParticipant {
    /// The state a host starts a team under; a misaddressed one is inert.
    pub fn initialize(&self, address: &AgentEntityAddress, now: AgentTimestampMillis) -> (state:
        AgentTeamState)
        ensures
            state@.team is None,
            state@.log == Seq::<crate::team::LogModel>::empty(),
            state@.pending_history == Seq::<HistoryModel>::empty(),
            state@.next_sequence == 1,
            state@.schema_version == CURRENT_AGENT_TEAM_STATE_SCHEMA_VERSION,
            state@.updated_at == now,
            match address {
                AgentEntityAddress::Team(scope) => state@.scope == *scope,
                _ => state@.scope.tenant == address.spec_tenant() && state@.scope.team@
                    == "unroutable"@,
            },
    {
        let scope = match address {
            AgentEntityAddress::Team(scope) => scope.clone(),
            _ => AgentTeamScope {
                tenant: address.tenant().clone(),
                team: unroutable_team_id(),
            },
        };
        AgentTeamState::uncreated(scope, now)
    }

    /// Applies one delivered exchange.
    pub fn apply(
        &self,
        state: &mut AgentTeamState,
        operation_id: &AgentOperationId,
        exchange: AgentTeamExchange,
        initiator: &AgentEntityAddress,
        now: AgentTimestampMillis,
    ) -> (answer: AgentExchangeResult)
        requires
            old(state)@.receiving(operation_id@, exchange, *initiator, now).0 != old(state)@
                ==> old(state)@.next_sequence < u64::MAX,
        ensures
            (final(state)@, answer@) == old(state)@.receiving(
                operation_id@,
                exchange,
                *initiator,
                now,
            ),
    {
        match exchange {
            AgentTeamExchange::ClaimResult(notice) => state.apply_claim_result(
                operation_id,
                notice,
                initiator,
                now,
            ),
            AgentTeamExchange::TerminalNotice(notice) => state.apply_team_terminal(
                operation_id,
                notice,
                initiator,
                now,
            ),
            AgentTeamExchange::Other(kind) => self.refuse_kind(kind),
        }
    }

    /// The refusal of an exchange no team receives.
    pub fn refuse_kind(&self, kind: AgentExchangeKind) -> (answer: AgentExchangeResult)
        ensures
            answer@ == refusal_answer(
                "unsupported-exchange"@,
                "a team entity does not receive a "@ + kind.label_text() + " exchange"@,
                AGENT_TEAM_CLAIM_RESULT_RECEIPT_PAYLOAD_TYPE@,
            ),
    {
        refuse(
            "unsupported-exchange".to_owned(),
            join3("a team entity does not receive a ", kind.as_label(), " exchange"),
            AGENT_TEAM_CLAIM_RESULT_RECEIPT_PAYLOAD_TYPE,
        )
    }

    /// Whether an answer settles an exchange for good: an acceptance does, and
    /// so does a refusal under one of the definitive codes. Every other refusal
    /// leaves the exchange outstanding for re-drive.
    pub fn check_settle(&self, kind: AgentExchangeKind, result: &AgentExchangeResult) -> (checked:
        Result<(), AgentUnsettleableRefusal>)
        ensures
            checked is Ok <==> settles(kind, result@),
            checked is Err ==> checked->Err_0.kind == kind && checked->Err_0.code@
                == result@.refusal->Some_0.0,
    {
        let code = match result.rejection_code() {
            None => {
                return Ok(());
            },
            Some(code) => code,
        };
        let definitive = match kind {
            AgentExchangeKind::TeamClaim => read_claim_refusal(code).is_some(),
            AgentExchangeKind::TeamTerminalNotice => same_text(code, "team-terminal-notice-forged")
                || same_text(code, "team-not-found"),
            _ => true,
        };
        if definitive {
            Ok(())
        } else {
            Err(AgentUnsettleableRefusal { kind, code: code.to_owned() })
        }
    }
}

/// Whether an answer settles an exchange for good.
pub open spec fn settles(kind: AgentExchangeKind, answer: AnswerModel) -> bool {
    match answer.refusal {
        None => true,
        Some((code, _)) => match kind {
            AgentExchangeKind::TeamClaim => claim_refusal_of(code) is Some,
            AgentExchangeKind::TeamTerminalNotice => terminal_refusal_settles(code),
            _ => true,
        },
    }
}

/// The placeholder a misaddressed host initializes under.
fn unroutable_team_id() -> (team: crate::identity::AgentTeamId)
    ensures
        team@ == "unroutable"@,
{
    proof {
        reveal_strlit("unroutable");
    }
    Identifier::from_text("unroutable".to_owned())
}

} // verus!
