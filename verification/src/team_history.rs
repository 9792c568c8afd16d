//! The append-only history of a team: sequences, entries, cursors and the log.

use vstd::prelude::*;
use vstd::string::*;

use crate::collections::IdMap;
use crate::exchange::{AgentTeamScope, ScopeTag};
use crate::identity::{
    copy_optional, optional_text, same_optional, AgentId, AgentOperationId, AgentTaskId,
    AgentTeamClaimId, AgentTimestampMillis,
};
use crate::team_error::AgentTeamError;
use crate::text::{bounded_text, truncate_text};

verus! {

/// Maximum bytes of one bounded history or refusal detail.
pub const AGENT_TEAM_DETAIL_MAX_LENGTH: usize = 512;

/// Default page size of a team history read.
pub const AGENT_TEAM_HISTORY_DEFAULT_PAGE_SIZE: usize = 16;

/// Maximum page size a team history cursor may request.
pub const AGENT_TEAM_HISTORY_MAX_PAGE_SIZE: usize = 64;

/// Schema version every history entry is written with.
pub const CURRENT_AGENT_TEAM_HISTORY_SCHEMA_VERSION: u32 = 1;

/// A detail cut to its bound.
pub open spec fn detail_text(detail: Seq<char>) -> Seq<char> {
    bounded_text(detail, AGENT_TEAM_DETAIL_MAX_LENGTH as nat)
}

/// Cuts a detail to its bound, on a character boundary.
pub fn bounded_detail(detail: String) -> (bounded: String)
    ensures
        bounded@ == detail_text(detail@),
{
    truncate_text(detail, AGENT_TEAM_DETAIL_MAX_LENGTH)
}

/// Monotonic sequence of one team history entry.
#[derive(Debug, Clone, Copy, PartialEq, Eq, PartialOrd, Ord, Hash, Structural)]
pub struct AgentTeamHistorySequence {
    value: u64,
}

impl AgentTeamHistorySequence {
    /// The sequence's number.
    pub closed spec fn number(self) -> u64 {
        self.value
    }

    /// Sequences are told apart by their numbers.
    pub broadcast proof fn lemma_number_identifies(self, other: AgentTeamHistorySequence)
        ensures
            #[trigger] self.number() == #[trigger] other.number() ==> self == other,
    {
    }

    /// The first sequence a team's history uses.
    pub fn first() -> (sequence: Self)
        ensures
            sequence.number() == 1,
    {
        AgentTeamHistorySequence { value: 1 }
    }

    /// Creates a sequence.
    pub fn new(value: u64) -> (sequence: Self)
        ensures
            sequence.number() == value,
    {
        AgentTeamHistorySequence { value }
    }

    /// Numeric value.
    pub fn get(self) -> (number: u64)
        ensures
            number == self.number(),
    {
        self.value
    }

    /// The next sequence.
    pub fn next(self) -> (sequence: Self)
        requires
            self.number() < u64::MAX,
        ensures
            sequence.number() == self.number() + 1,
    {
        AgentTeamHistorySequence { value: self.value + 1 }
    }
}

/// What one team history entry records.
#[derive(Debug, Clone, Copy, PartialEq, Eq, PartialOrd, Ord, Hash, Structural)]
#[non_exhaustive]
pub enum AgentTeamHistoryKind {
    /// The team was created.
    Created,
    /// A member joined.
    MemberJoined,
    /// A member left.
    MemberLeft,
    /// A task was posted to the board.
    TaskPosted,
    /// A claim or steal was recorded on an entry.
    ClaimRecorded,
    /// A release of a pending claim was requested.
    ClaimReleaseRequested,
    /// A claim resolved.
    ClaimSettled,
    /// A board entry closed by its task's terminal notice.
    TaskClosed,
    /// A pending claim transferred to another member.
    TransferRecorded,
    /// A mediated message was appended to the ring.
    MessageAppended,
    /// The team was disbanded.
    Disbanded,
    /// The team's expiry horizon was durably observed.
    Expired,
}

impl AgentTeamHistoryKind {
    /// Stable kebab-case label.
    pub fn as_label(self) -> (label: &'static str)
        ensures
            label@ == self.label_text(),
    {
        match self {
            AgentTeamHistoryKind::Created => "team-created",
            AgentTeamHistoryKind::MemberJoined => "team-member-joined",
            AgentTeamHistoryKind::MemberLeft => "team-member-left",
            AgentTeamHistoryKind::TaskPosted => "team-task-posted",
            AgentTeamHistoryKind::ClaimRecorded => "team-claim-recorded",
            AgentTeamHistoryKind::ClaimReleaseRequested => "team-claim-release-requested",
            AgentTeamHistoryKind::ClaimSettled => "team-claim-settled",
            AgentTeamHistoryKind::TaskClosed => "team-task-closed",
            AgentTeamHistoryKind::TransferRecorded => "team-transfer-recorded",
            AgentTeamHistoryKind::MessageAppended => "team-message-appended",
            AgentTeamHistoryKind::Disbanded => "team-disbanded",
            AgentTeamHistoryKind::Expired => "team-expired",
        }
    }

    /// The label of each kind.
    pub open spec fn label_text(self) -> Seq<char> {
        match self {
            AgentTeamHistoryKind::Created => "team-created"@,
            AgentTeamHistoryKind::MemberJoined => "team-member-joined"@,
            AgentTeamHistoryKind::MemberLeft => "team-member-left"@,
            AgentTeamHistoryKind::TaskPosted => "team-task-posted"@,
            AgentTeamHistoryKind::ClaimRecorded => "team-claim-recorded"@,
            AgentTeamHistoryKind::ClaimReleaseRequested => "team-claim-release-requested"@,
            AgentTeamHistoryKind::ClaimSettled => "team-claim-settled"@,
            AgentTeamHistoryKind::TaskClosed => "team-task-closed"@,
            AgentTeamHistoryKind::TransferRecorded => "team-transfer-recorded"@,
            AgentTeamHistoryKind::MessageAppended => "team-message-appended"@,
            AgentTeamHistoryKind::Disbanded => "team-disbanded"@,
            AgentTeamHistoryKind::Expired => "team-expired"@,
        }
    }
}

/// One append-only entry in a team's durable history: identities and stable
/// codes only, never message bodies.
#[derive(Debug)]
pub struct AgentTeamHistoryEntry {
    /// The schema version the entry was written with.
    pub schema_version: u32,
    /// Monotonic sequence within the team, and the append's idempotency key.
    pub sequence: AgentTeamHistorySequence,
    /// What the entry records.
    pub kind: AgentTeamHistoryKind,
    /// The operation that produced it.
    pub operation_id: AgentOperationId,
    /// The member involved, when one was.
    pub member: Option<AgentId>,
    /// The board task involved, when one was.
    pub task: Option<AgentTaskId>,
    /// The claim involved, when one was.
    pub claim: Option<AgentTeamClaimId>,
    /// Bounded detail.
    pub detail: String,
    /// When the transition committed.
    pub at: AgentTimestampMillis,
}

/// What a history entry says, by the texts of what it names.
pub struct HistoryModel {
    /// The schema version.
    pub schema_version: u32,
    /// The sequence's number.
    pub sequence: u64,
    /// What is recorded.
    pub kind: AgentTeamHistoryKind,
    /// The operation.
    pub operation_id: Seq<char>,
    /// The member.
    pub member: Option<Seq<char>>,
    /// The task.
    pub task: Option<Seq<char>>,
    /// The claim.
    pub claim: Option<Seq<char>>,
    /// The detail.
    pub detail: Seq<char>,
    /// When.
    pub at: AgentTimestampMillis,
}

impl View for AgentTeamHistoryEntry {
    type V = HistoryModel;

    open spec fn view(&self) -> HistoryModel {
        HistoryModel {
            schema_version: self.schema_version,
            sequence: self.sequence.number(),
            kind: self.kind,
            operation_id: self.operation_id@,
            member: optional_text(self.member),
            task: optional_text(self.task),
            claim: optional_text(self.claim),
            detail: self.detail@,
            at: self.at,
        }
    }
}

impl HistoryModel {
    /// An entry that names nothing but its operation.
    pub open spec fn bare(
        sequence: u64,
        kind: AgentTeamHistoryKind,
        operation_id: Seq<char>,
        at: AgentTimestampMillis,
    ) -> HistoryModel {
        HistoryModel {
            schema_version: CURRENT_AGENT_TEAM_HISTORY_SCHEMA_VERSION,
            sequence,
            kind,
            operation_id,
            member: None,
            task: None,
            claim: None,
            detail: Seq::empty(),
            at,
        }
    }
}

impl AgentTeamHistoryEntry {
    /// An entry that names nothing but its operation.
    pub fn new(
        sequence: AgentTeamHistorySequence,
        kind: AgentTeamHistoryKind,
        operation_id: AgentOperationId,
        at: AgentTimestampMillis,
    ) -> (entry: Self)
        ensures
            entry@ == HistoryModel::bare(sequence.number(), kind, operation_id@, at),
            entry.member is None,
    {
        AgentTeamHistoryEntry {
            schema_version: CURRENT_AGENT_TEAM_HISTORY_SCHEMA_VERSION,
            sequence,
            kind,
            operation_id,
            member: None,
            task: None,
            claim: None,
            detail: String::new(),
            at,
        }
    }

    /// Names the member involved.
    pub fn with_member(self, member: AgentId) -> (entry: Self)
        ensures
            entry@ == (HistoryModel { member: Some(member@), ..self@ }),
    {
        AgentTeamHistoryEntry { member: Some(member), ..self }
    }

    /// Names the member involved, when one was.
    pub fn with_holder(self, member: Option<AgentId>) -> (entry: Self)
        ensures
            entry@ == (HistoryModel { member: optional_text(member), ..self@ }),
    {
        AgentTeamHistoryEntry { member, ..self }
    }

    /// Names the task involved.
    pub fn with_task(self, task: AgentTaskId) -> (entry: Self)
        ensures
            entry@ == (HistoryModel { task: Some(task@), ..self@ }),
    {
        AgentTeamHistoryEntry { task: Some(task), ..self }
    }

    /// Names the claim involved.
    pub fn with_claim(self, claim: AgentTeamClaimId) -> (entry: Self)
        ensures
            entry@ == (HistoryModel { claim: Some(claim@), ..self@ }),
    {
        AgentTeamHistoryEntry { claim: Some(claim), ..self }
    }

    /// Adds a detail, cut to its bound.
    pub fn with_detail(self, detail: String) -> (entry: Self)
        ensures
            entry@ == (HistoryModel { detail: detail_text(detail@), ..self@ }),
    {
        AgentTeamHistoryEntry { detail: bounded_detail(detail), ..self }
    }

    /// Whether two entries say the same.
    pub fn same(&self, other: &Self) -> (result: bool)
        ensures
            result == (self@ == other@),
    {
        self.schema_version == other.schema_version && self.sequence.get() == other.sequence.get()
            && self.kind == other.kind && self.operation_id.same(&other.operation_id)
            && same_optional(&self.member, &other.member) && same_optional(&self.task, &other.task)
            && same_optional(&self.claim, &other.claim) && self.detail == other.detail && self.at
            == other.at
    }
}

impl Clone for AgentTeamHistoryEntry {
    fn clone(&self) -> (copy: Self)
        ensures
            copy == *self,
    {
        AgentTeamHistoryEntry {
            schema_version: self.schema_version,
            sequence: self.sequence,
            kind: self.kind,
            operation_id: self.operation_id.clone(),
            member: copy_optional(&self.member),
            task: copy_optional(&self.task),
            claim: copy_optional(&self.claim),
            detail: self.detail.clone(),
            at: self.at,
        }
    }
}

/// A bounded, authorized read over a team's history.
#[derive(Debug, Clone, Copy, PartialEq, Eq, Structural)]
pub struct AgentTeamHistoryCursor {
    after: Option<AgentTeamHistorySequence>,
    limit: usize,
}

impl AgentTeamHistoryCursor {
    /// The value of [`Self::position`].
    pub closed spec fn spec_position(&self) -> Option<AgentTeamHistorySequence> {
        self.after
    }

    /// The value of [`Self::limit`].
    pub closed spec fn spec_limit(&self) -> usize {
        self.limit
    }

    #[verifier::type_invariant]
    spec fn has_bounded_page(&self) -> bool {
        1 <= self.limit <= AGENT_TEAM_HISTORY_MAX_PAGE_SIZE
    }

    /// The number of the next entry the cursor expects.
    pub open spec fn expects(&self) -> u64 {
        match self.spec_position() {
            None => 1,
            Some(after) => if after.number() < u64::MAX {
                (after.number() + 1) as u64
            } else {
                u64::MAX
            },
        }
    }

    /// A cursor over the whole history, from the beginning.
    pub fn start() -> (cursor: Self)
        ensures
            cursor.spec_position() is None,
            cursor.spec_limit() == AGENT_TEAM_HISTORY_DEFAULT_PAGE_SIZE,
    {
        AgentTeamHistoryCursor { after: None, limit: AGENT_TEAM_HISTORY_DEFAULT_PAGE_SIZE }
    }

    /// A cursor resuming after one sequence.
    pub fn after(sequence: AgentTeamHistorySequence) -> (cursor: Self)
        ensures
            cursor.spec_position() == Some(sequence),
            cursor.spec_limit() == AGENT_TEAM_HISTORY_DEFAULT_PAGE_SIZE,
    {
        AgentTeamHistoryCursor {
            after: Some(sequence),
            limit: AGENT_TEAM_HISTORY_DEFAULT_PAGE_SIZE,
        }
    }

    /// Sets the page size, clamped between one and
    /// [`AGENT_TEAM_HISTORY_MAX_PAGE_SIZE`].
    pub fn with_limit(self, limit: usize) -> (cursor: Self)
        ensures
            cursor.spec_position() == self.spec_position(),
            cursor.spec_limit() == if limit == 0 {
                1
            } else if limit > AGENT_TEAM_HISTORY_MAX_PAGE_SIZE {
                AGENT_TEAM_HISTORY_MAX_PAGE_SIZE
            } else {
                limit
            },
    {
        AgentTeamHistoryCursor {
            after: self.after,
            limit: if limit == 0 {
                1
            } else if limit > AGENT_TEAM_HISTORY_MAX_PAGE_SIZE {
                AGENT_TEAM_HISTORY_MAX_PAGE_SIZE
            } else {
                limit
            },
        }
    }

    /// Repositions this cursor so `sequence` is the next entry it expects,
    /// keeping its page size. A zero resumes from the beginning.
    pub fn resuming_at(self, sequence: AgentTeamHistorySequence) -> (cursor: Self)
        ensures
            cursor.spec_limit() == self.spec_limit(),
            sequence.number() == 0 ==> cursor.spec_position() is None,
            sequence.number() > 0 ==> cursor.spec_position() is Some
                && cursor.spec_position()->Some_0.number() == sequence.number() - 1,
            sequence.number() > 0 ==> cursor.expects() == sequence.number(),
    {
        proof {
            use_type_invariant(&self);
        }
        let value: u64 = sequence.get();
        AgentTeamHistoryCursor {
            after: if value == 0 {
                None
            } else {
                Some(AgentTeamHistorySequence::new(value - 1))
            },
            limit: self.limit,
        }
    }

    /// The sequence this page resumes after.
    pub fn position(&self) -> (after: Option<AgentTeamHistorySequence>)
        ensures
            after == self.spec_position(),
    {
        self.after
    }

    /// The clamped page size.
    pub fn limit(&self) -> (limit: usize)
        ensures
            limit == self.spec_limit(),
            1 <= limit <= AGENT_TEAM_HISTORY_MAX_PAGE_SIZE,
    {
        proof {
            use_type_invariant(self);
        }
        self.limit
    }
}

impl Default for AgentTeamHistoryCursor {
    fn default() -> (cursor: Self)
        ensures
            cursor.spec_position() is None,
            cursor.spec_limit() == AGENT_TEAM_HISTORY_DEFAULT_PAGE_SIZE,
    {
        Self::start()
    }
}

/// One bounded page of team history.
#[derive(Debug)]
pub struct AgentTeamHistoryPage {
    /// The entries, oldest first.
    pub entries: Vec<AgentTeamHistoryEntry>,
    /// The cursor that resumes after this page, when more history exists.
    pub next: Option<AgentTeamHistoryCursor>,
}

impl AgentTeamHistoryPage {
    /// Whether more history follows this page.
    pub fn has_more(&self) -> (result: bool)
        ensures
            result == (self.next is Some),
    {
        self.next.is_some()
    }
}

/// What a list of entries says.
pub open spec fn entries_model(entries: Seq<AgentTeamHistoryEntry>) -> Seq<HistoryModel> {
    entries.map_values(|entry: AgentTeamHistoryEntry| entry@)
}

/// Whether entries are in the order of their sequences, none twice.
pub open spec fn in_sequence(log: Seq<HistoryModel>) -> bool {
    forall|i: int, j: int|
        0 <= i < j < log.len() ==> (#[trigger] log[i]).sequence < (#[trigger] log[j]).sequence
}

/// The first position of an entry at or past a sequence, from `from` on.
pub open spec fn position_at(log: Seq<HistoryModel>, sequence: u64, from: nat) -> nat
    decreases log.len() - from,
{
    if from >= log.len() || log[from as int].sequence >= sequence {
        if from >= log.len() {
            log.len()
        } else {
            from
        }
    } else {
        position_at(log, sequence, from + 1)
    }
}

/// How many entries from a position on follow each other without a hole,
/// starting at a sequence and no more than a limit.
pub open spec fn run_length(log: Seq<HistoryModel>, from: nat, start: int, limit: nat) -> nat
    decreases limit,
{
    if limit == 0 || from >= log.len() || log[from as int].sequence != start {
        0
    } else {
        1 + run_length(log, from + 1, start + 1, (limit - 1) as nat)
    }
}

/// What a read of a log answers.
pub enum ReadModel {
    /// The read would vouch for entries the reader has not seen; it resumes at
    /// the floor, when anything is retained there.
    Expired {
        /// The floor.
        oldest_retained: Option<u64>,
    },
    /// A page.
    Page {
        /// The entries.
        entries: Seq<HistoryModel>,
        /// Whether more history follows.
        more: bool,
    },
}

/// What reading a log from a cursor answers: a cursor past the newest entry was
/// never issued, a hole at the read head is refused with the floor past it, and
/// a hole further in cuts the page before it.
pub open spec fn reading(log: Seq<HistoryModel>, cursor: AgentTeamHistoryCursor) -> ReadModel {
    let start = cursor.expects();
    let newest: u64 = if log.len() == 0 {
        0
    } else {
        log.last().sequence
    };
    let head = position_at(log, start, 0);
    if start > newest + 1 {
        ReadModel::Expired {
            oldest_retained: if log.len() == 0 {
                None
            } else {
                Some(log[0].sequence)
            },
        }
    } else if head < log.len() && log[head as int].sequence != start {
        ReadModel::Expired { oldest_retained: Some(log[head as int].sequence) }
    } else {
        let length = run_length(log, head, start as int, cursor.spec_limit() as nat);
        let page = log.subrange(head as int, (head + length) as int);
        ReadModel::Page {
            entries: page,
            more: length > 0 && head + length < log.len(),
        }
    }
}

/// The log after an entry with a new sequence was put in its place.
pub open spec fn inserted(log: Seq<HistoryModel>, entry: HistoryModel) -> Seq<HistoryModel> {
    log.insert(position_at(log, entry.sequence, 0) as int, entry)
}

/// The log after only the newest entries were kept.
pub open spec fn retained(log: Seq<HistoryModel>, retention: Option<usize>) -> Seq<HistoryModel> {
    match retention {
        Some(bound) => if log.len() > bound {
            log.subrange(log.len() - bound, log.len() as int)
        } else {
            log
        },
        None => log,
    }
}

/// Whether a log holds an entry at a sequence.
pub open spec fn holds_sequence(log: Seq<HistoryModel>, sequence: u64) -> bool {
    position_at(log, sequence, 0) < log.len() && log[position_at(
        log,
        sequence,
        0,
    ) as int].sequence == sequence
}

/// The first position at or past a sequence is within the log, with everything
/// before it below and, in a sequenced log, everything from it on at or past.
pub proof fn lemma_position_at(log: Seq<HistoryModel>, sequence: u64, from: nat)
    requires
        in_sequence(log),
        from <= log.len(),
    ensures
        from <= position_at(log, sequence, from) <= log.len(),
        forall|i: int|
            from <= i < position_at(log, sequence, from) ==> (#[trigger] log[i]).sequence
                < sequence,
        forall|i: int|
            position_at(log, sequence, from) <= i < log.len() ==> (#[trigger] log[i]).sequence
                >= sequence,
    decreases log.len() - from,
{
    if from < log.len() && log[from as int].sequence < sequence {
        lemma_position_at(log, sequence, from + 1);
    }
}

/// One team's history log, in the order of its sequences.
#[derive(Debug)]
pub struct TeamHistoryLog {
    entries: Vec<AgentTeamHistoryEntry>,
}

impl View for TeamHistoryLog {
    type V = Seq<HistoryModel>;

    closed spec fn view(&self) -> Seq<HistoryModel> {
        entries_model(self.entries@)
    }
}

impl TeamHistoryLog {
    #[verifier::type_invariant]
    spec fn is_sequenced(&self) -> bool {
        in_sequence(entries_model(self.entries@))
    }

    /// A log with nothing in it.
    pub fn new() -> (log: Self)
        ensures
            log@ == Seq::<HistoryModel>::empty(),
    {
        let entries: Vec<AgentTeamHistoryEntry> = Vec::new();
        let log = TeamHistoryLog { entries };
        assert(log@ =~= Seq::<HistoryModel>::empty());
        log
    }

    /// How many entries the log holds.
    pub fn len(&self) -> (len: usize)
        ensures
            len == self@.len(),
            in_sequence(self@),
    {
        proof {
            use_type_invariant(self);
        }
        self.entries.len()
    }

    /// The first position of an entry at or past a sequence.
    fn find(&self, sequence: u64) -> (position: usize)
        ensures
            position == position_at(self@, sequence, 0),
            position <= self@.len(),
    {
        let mut i: usize = 0;
        while i < self.entries.len() && self.entries[i].sequence.get() < sequence
            invariant
                i <= self@.len(),
                self@.len() == self.entries@.len(),
                position_at(self@, sequence, 0) == position_at(self@, sequence, i as nat),
            decreases self.entries.len() - i,
        {
            assert(self@[i as int].sequence == self.entries@[i as int].sequence.number());
            i = i + 1;
        }
        i
    }

    /// Appends one entry, idempotently: the same entry at its sequence changes
    /// nothing, and a different one there is refused. Beyond the retention the
    /// oldest entries go.
    pub fn append(&mut self, entry: AgentTeamHistoryEntry, retention: Option<usize>) -> (result: Result<
        (),
        AgentTeamError,
    >)
        ensures
            in_sequence(old(self)@),
            in_sequence(final(self)@),
            holds_sequence(old(self)@, entry@.sequence) ==> final(self)@ == old(self)@ && result
                == if old(self)@[position_at(old(self)@, entry@.sequence, 0) as int] == entry@ {
                Ok::<(), AgentTeamError>(())
            } else {
                Err(AgentTeamError::HistoryConflict { sequence: entry.sequence })
            },
            !holds_sequence(old(self)@, entry@.sequence) ==> result is Ok && final(self)@
                == retained(inserted(old(self)@, entry@), retention),
    {
        proof {
            use_type_invariant(&*self);
        }
        let position: usize = self.find(entry.sequence.get());
        let ghost before = self@;
        proof {
            lemma_position_at(before, entry@.sequence, 0);
        }
        if position < self.entries.len() && self.entries[position].sequence.get()
            == entry.sequence.get() {
            assert(self@[position as int] == self.entries@[position as int]@);
            return if self.entries[position].same(&entry) {
                Ok(())
            } else {
                Err(AgentTeamError::HistoryConflict { sequence: entry.sequence })
            };
        }
        let mut entries: Vec<AgentTeamHistoryEntry> = Vec::new();
        std::mem::swap(&mut entries, &mut self.entries);
        let ghost held = entries@;
        let ghost model = entry@;
        entries.insert(position, entry);
        proof {
            assert(entries_model(entries@) =~= inserted(before, model));
            lemma_inserted_sequenced(before, model);
        }
        if let Some(bound) = retention {
            let ghost full = entries@;
            let ghost mut dropped: int = 0;
            assert(full.subrange(0, full.len() as int) =~= full);
            while entries.len() > bound
                invariant
                    0 <= dropped <= full.len(),
                    entries@ == full.subrange(dropped, full.len() as int),
                    dropped > 0 ==> full.len() - dropped >= bound,
                decreases entries.len(),
            {
                entries.remove(0);
                proof {
                    dropped = dropped + 1;
                    assert(entries@ =~= full.subrange(dropped, full.len() as int));
                }
            }
            proof {
                assert(entries_model(entries@) =~= retained(
                    entries_model(full),
                    retention,
                ));
            }
        }
        *self = TeamHistoryLog { entries };
        Ok(())
    }

    /// Reads one bounded page, contiguous from the cursor.
    pub fn read(&self, cursor: AgentTeamHistoryCursor) -> (result: Result<
        AgentTeamHistoryPage,
        AgentTeamError,
    >)
        ensures
            answers_read(self@, cursor, result),
            in_sequence(self@),
    {
        proof {
            use_type_invariant(self);
        }
        let ghost log = self@;
        let start: u64 = match cursor.position() {
            Some(after) => after.get().saturating_add(1),
            None => 1,
        };
        let count: usize = self.entries.len();
        let newest: u64 = if count == 0 {
            0
        } else {
            assert(log[count - 1] == self.entries@[count - 1]@);
            self.entries[count - 1].sequence.get()
        };
        if start > newest.saturating_add(1) {
            return Err(
                AgentTeamError::HistoryWindowExpired {
                    oldest_retained: if count == 0 {
                        None
                    } else {
                        assert(log[0] == self.entries@[0]@);
                        Some(self.entries[0].sequence)
                    },
                },
            );
        }
        let head: usize = self.find(start);
        if head < count {
            assert(log[head as int] == self.entries@[head as int]@);
            if self.entries[head].sequence.get() != start {
                return Err(
                    AgentTeamError::HistoryWindowExpired {
                        oldest_retained: Some(self.entries[head].sequence),
                    },
                );
            }
        }
        let limit: usize = cursor.limit();
        let mut page: Vec<AgentTeamHistoryEntry> = Vec::new();
        let mut expected: u64 = start;
        let mut i: usize = head;
        let ghost whole = run_length(log, head as nat, start as int, limit as nat);
        proof {
            assert(log.subrange(head as int, head as int) =~= entries_model(page@));
        }
        while i < count && page.len() < limit && self.entries[i].sequence.get() == expected
            invariant
                head <= i <= count,
                count == self.entries@.len(),
                log == entries_model(self.entries@),
                log.len() == count,
                in_sequence(log),
                page@.len() == i - head,
                page@.len() <= limit,
                entries_model(page@) == log.subrange(head as int, i as int),
                whole == (i - head) + run_length(
                    log,
                    i as nat,
                    start + (i - head),
                    (limit - (i - head)) as nat,
                ),
                i > head ==> log[i - 1].sequence == start + (i - head) - 1,
                start + (i - head) <= u64::MAX ==> expected == start + (i - head),
                start + (i - head) > u64::MAX ==> expected == u64::MAX && i == count,
            decreases count - i,
        {
            assert(log[i as int] == self.entries@[i as int]@);
            page.push(self.entries[i].clone());
            proof {
                assert(entries_model(page@) =~= log.subrange(head as int, i + 1));
                if expected == u64::MAX && i + 1 < count {
                    assert(log[i as int].sequence < log[i + 1].sequence);
                }
            }
            expected = expected.saturating_add(1);
            i = i + 1;
        }
        proof {
            if i < count {
                assert(log[i as int] == self.entries@[i as int]@);
            }
            assert(whole == i - head);
        }
        let more = page.len() > 0 && i < count;
        let next = if more {
            Some(AgentTeamHistoryCursor::after(self.entries[i - 1].sequence).with_limit(limit))
        } else {
            None
        };
        proof {
            if i > head {
                assert(log[i - 1] == self.entries@[i - 1]@);
                assert(log.subrange(head as int, i as int).last() == log[i - 1]);
            }
        }
        Ok(AgentTeamHistoryPage { entries: page, next })
    }
}

/// An in-memory team history: one log for each team.
#[derive(Debug)]
pub struct InMemoryAgentTeamHistoryStore {
    logs: IdMap<ScopeTag, TeamHistoryLog>,
    retention: Option<usize>,
}

impl InMemoryAgentTeamHistoryStore {
    /// One team's log; a team nothing was appended for has an empty one.
    pub closed spec fn log_of(&self, scope: &AgentTeamScope) -> Seq<HistoryModel> {
        if self.logs@.dom().contains(scope.key_text()) {
            self.logs@[scope.key_text()]@
        } else {
            Seq::empty()
        }
    }

    /// How many entries are retained for each team, when that is bounded.
    pub closed spec fn spec_retention(&self) -> Option<usize> {
        self.retention
    }

    /// Creates an empty history that retains everything appended to it.
    pub fn new() -> (store: Self)
        ensures
            forall|scope: &AgentTeamScope| #[trigger] store.log_of(scope) == Seq::<HistoryModel>::empty(),
            store.spec_retention() is None,
    {
        InMemoryAgentTeamHistoryStore { logs: IdMap::new(), retention: None }
    }

    /// Bounds the history retained for each team, evicting the oldest entries.
    /// A limit of zero is treated as one.
    pub fn with_retention(self, entries: usize) -> (store: Self)
        ensures
            store.spec_retention() == Some(
                if entries == 0 {
                    1usize
                } else {
                    entries
                },
            ),
            forall|scope: &AgentTeamScope| #[trigger] store.log_of(scope) == self.log_of(scope),
    {
        InMemoryAgentTeamHistoryStore {
            logs: self.logs,
            retention: Some(
                if entries == 0 {
                    1
                } else {
                    entries
                },
            ),
        }
    }

    /// How many entries one team has.
    pub fn len(&self, scope: &AgentTeamScope) -> (len: usize)
        ensures
            len == self.log_of(scope).len(),
            in_sequence(self.log_of(scope)),
    {
        match self.logs.get(&scope.key()) {
            Some(log) => log.len(),
            None => 0,
        }
    }

    /// Whether one team has no history.
    pub fn is_empty(&self, scope: &AgentTeamScope) -> (result: bool)
        ensures
            result == (self.log_of(scope).len() == 0),
            in_sequence(self.log_of(scope)),
    {
        self.len(scope) == 0
    }

    /// Stable backend name.
    pub fn backend_name(&self) -> (name: &'static str)
        ensures
            name@ == "in-memory"@,
    {
        "in-memory"
    }

    /// Appends one entry to a team's log, idempotently.
    pub fn append(&mut self, scope: &AgentTeamScope, entry: AgentTeamHistoryEntry) -> (result: Result<
        (),
        AgentTeamError,
    >)
        ensures
            final(self).spec_retention() == old(self).spec_retention(),
            in_sequence(old(self).log_of(scope)),
            in_sequence(final(self).log_of(scope)),
            ({
                let log = old(self).log_of(scope);
                &&& holds_sequence(log, entry@.sequence) ==> final(self).log_of(scope) == log
                    && result == if log[position_at(log, entry@.sequence, 0) as int] == entry@ {
                    Ok::<(), AgentTeamError>(())
                } else {
                    Err(AgentTeamError::HistoryConflict { sequence: entry.sequence })
                }
                &&& !holds_sequence(log, entry@.sequence) ==> result is Ok && final(self).log_of(
                    scope,
                ) == retained(inserted(log, entry@), old(self).spec_retention())
            }),
            forall|other: &AgentTeamScope|
                other.key_text() != scope.key_text() ==> #[trigger] final(self).log_of(other)
                    == old(self).log_of(other),
    {
        let key = scope.key();
        let mut log = match self.logs.remove(&key) {
            Some(log) => log,
            None => TeamHistoryLog::new(),
        };
        let result = log.append(entry, self.retention);
        self.logs.insert(key, log);
        result
    }

    /// Reads one bounded page of a team's log, contiguous from the cursor.
    pub fn read(&self, scope: &AgentTeamScope, cursor: AgentTeamHistoryCursor) -> (result: Result<
        AgentTeamHistoryPage,
        AgentTeamError,
    >)
        ensures
            answers_read(self.log_of(scope), cursor, result),
            in_sequence(self.log_of(scope)),
    {
        match self.logs.get(&scope.key()) {
            Some(log) => log.read(cursor),
            None => {
                let log = TeamHistoryLog::new();
                log.read(cursor)
            },
        }
    }
}

/// Whether a result is what reading a log answers.
pub open spec fn answers_read(
    log: Seq<HistoryModel>,
    cursor: AgentTeamHistoryCursor,
    result: Result<AgentTeamHistoryPage, AgentTeamError>,
) -> bool {
    match reading(log, cursor) {
        ReadModel::Expired { oldest_retained } => result is Err
            && result->Err_0 is HistoryWindowExpired && ({
            let floor = result->Err_0->oldest_retained;
            match oldest_retained {
                Some(number) => floor is Some && floor->Some_0.number() == number,
                None => floor is None,
            }
        }),
        ReadModel::Page { entries, more } => result is Ok && entries_model(
            result->Ok_0.entries@,
        ) == entries && (result->Ok_0.next is Some <==> more) && (more
            ==> result->Ok_0.next->Some_0.spec_position() is Some
            && result->Ok_0.next->Some_0.spec_position()->Some_0.number()
            == entries.last().sequence && result->Ok_0.next->Some_0.spec_limit()
            == cursor.spec_limit()),
    }
}

proof fn lemma_run(log: Seq<HistoryModel>, from: nat, start: int, limit: nat)
    requires
        from <= log.len(),
    ensures
        run_length(log, from, start, limit) <= limit,
        from + run_length(log, from, start, limit) <= log.len(),
        forall|n: int|
            0 <= n < run_length(log, from, start, limit) ==> (#[trigger] log[from + n]).sequence
                == start + n,
    decreases limit,
{
    if limit > 0 && from < log.len() && log[from as int].sequence == start {
        lemma_run(log, from + 1, start + 1, (limit - 1) as nat);
        assert forall|n: int| 0 <= n < run_length(log, from, start, limit) implies (
        #[trigger] log[from + n]).sequence == start + n by {
            if n > 0 {
                assert(log[(from + 1) + (n - 1)].sequence == (start + 1) + (n - 1));
            }
        }
    }
}

/// A page is contiguous from its cursor: it holds the entry the cursor expects,
/// the one after it, and so on, within the page size; nothing is skipped.
pub proof fn a_page_is_contiguous(log: Seq<HistoryModel>, cursor: AgentTeamHistoryCursor)
    requires
        in_sequence(log),
        reading(log, cursor) is Page,
    ensures
        ({
            let entries = reading(log, cursor)->entries;
            &&& entries.len() <= cursor.spec_limit()
            &&& forall|n: int|
                0 <= n < entries.len() ==> (#[trigger] entries[n]).sequence == cursor.expects() + n
            &&& forall|n: int|
                0 <= n < entries.len() ==> log.contains(#[trigger] entries[n])
        }),
{
    let start = cursor.expects();
    let head = position_at(log, start, 0);
    lemma_position_at(log, start, 0);
    lemma_run(log, head, start as int, cursor.spec_limit() as nat);
    let entries = reading(log, cursor)->entries;
    assert forall|n: int| 0 <= n < entries.len() implies (#[trigger] entries[n]).sequence == start
        + n && log.contains(entries[n]) by {
        assert(entries[n] == log[head + n]);
    }
}

/// A cursor is what it resumes after and its page size, and nothing else.
pub proof fn a_cursor_is_its_position_and_limit(
    a: AgentTeamHistoryCursor,
    b: AgentTeamHistoryCursor,
)
    requires
        a.spec_position() == b.spec_position(),
        a.spec_limit() == b.spec_limit(),
    ensures
        a == b,
{
}

/// Whether a log retains an entry at a sequence.
pub open spec fn retains(log: Seq<HistoryModel>, sequence: int) -> bool {
    exists|i: int| 0 <= i < log.len() && (#[trigger] log[i]).sequence == sequence
}

/// The newest sequence a log retains, or zero.
pub open spec fn newest_of(log: Seq<HistoryModel>) -> int {
    if log.len() == 0 {
        0
    } else {
        log.last().sequence as int
    }
}

/// A read is refused exactly where neither the expected entry is retained nor
/// the cursor is current. Otherwise its page is the longest run without a hole
/// from the expected entry on, cut at the page size, and more follows exactly
/// when a later entry is retained.
pub proof fn a_read_is_decided_by_what_is_retained(
    log: Seq<HistoryModel>,
    cursor: AgentTeamHistoryCursor,
)
    requires
        in_sequence(log),
        cursor.spec_limit() >= 1,
    ensures
        reading(log, cursor) is Expired <==> !retains(log, cursor.expects() as int)
            && cursor.expects() != newest_of(log) + 1,
        reading(log, cursor) is Page ==> ({
            let entries = reading(log, cursor)->entries;
            let end = cursor.expects() + entries.len();
            &&& forall|n: int|
                0 <= n < entries.len() ==> log.contains(#[trigger] entries[n]) && entries[n].sequence
                    == cursor.expects() + n
            &&& entries.len() == cursor.spec_limit() || !retains(log, end)
            &&& entries.len() <= cursor.spec_limit()
            &&& reading(log, cursor)->more <==> entries.len() > 0 && newest_of(log) >= end
        }),
{
    let start = cursor.expects();
    let head = position_at(log, start, 0);
    lemma_position_at(log, start, 0);
    assert forall|i: int| 0 <= i < log.len() implies (#[trigger] log[i]).sequence <= newest_of(
        log,
    ) by {
        if i < log.len() - 1 {
            assert(log[i].sequence < log[log.len() - 1].sequence);
        }
    }
    if retains(log, start as int) {
        let i = choose|i: int| 0 <= i < log.len() && (#[trigger] log[i]).sequence == start;
        lemma_found_at(log, i);
    }
    if reading(log, cursor) is Page {
        a_page_is_contiguous(log, cursor);
        lemma_run(log, head, start as int, cursor.spec_limit() as nat);
        let length = run_length(log, head, start as int, cursor.spec_limit() as nat);
        lemma_run_is_longest(log, head, start as int, cursor.spec_limit() as nat);
        let end = start + length;
        let at = (head + length) as int;
        if at < log.len() {
            if length > 0 {
                assert(log[at - 1].sequence == start + (length - 1)) by {
                    assert(log[head + (length - 1)].sequence == start + (length - 1));
                }
                assert(log[at - 1].sequence < log[at].sequence);
            }
            assert(log[at].sequence >= end);
        }
        if retains(log, end) {
            let i = choose|i: int| 0 <= i < log.len() && (#[trigger] log[i]).sequence == end;
            if i < at && length > 0 {
                assert(log[i].sequence <= log[at - 1].sequence) by {
                    if i < at - 1 {
                        assert(log[i].sequence < log[at - 1].sequence);
                    }
                }
                assert(log[head + (length - 1)].sequence == start + (length - 1));
            }
            if at < i {
                assert(log[at].sequence < log[i].sequence);
            }
            assert(i == at);
        }
        if length > 0 && at == log.len() {
            assert(log[head + (length - 1)].sequence == start + (length - 1));
        }
    }
}

proof fn lemma_run_is_longest(log: Seq<HistoryModel>, from: nat, start: int, limit: nat)
    ensures
        ({
            let length = run_length(log, from, start, limit);
            length == limit || from + length >= log.len() || log[(from + length) as int].sequence
                != start + length
        }),
    decreases limit,
{
    if limit > 0 && from < log.len() && log[from as int].sequence == start {
        lemma_run_is_longest(log, from + 1, start + 1, (limit - 1) as nat);
    }
}

/// A read that is not refused vouches for nothing it does not deliver: unless
/// the cursor is current, the page starts with the entry the cursor expects.
pub proof fn a_read_vouches_for_nothing_unseen(
    log: Seq<HistoryModel>,
    cursor: AgentTeamHistoryCursor,
)
    requires
        in_sequence(log),
        cursor.spec_limit() >= 1,
        reading(log, cursor) is Page,
    ensures
        reading(log, cursor)->entries.len() == 0 ==> forall|i: int|
            0 <= i < log.len() ==> (#[trigger] log[i]).sequence < cursor.expects(),
        reading(log, cursor)->entries.len() == 0 ==> cursor.expects() <= 1 + if log.len() == 0 {
            0int
        } else {
            log.last().sequence as int
        },
{
    let start = cursor.expects();
    let head = position_at(log, start, 0);
    lemma_position_at(log, start, 0);
    if head < log.len() {
        assert(log[head as int].sequence == start);
        lemma_run(log, head, start as int, cursor.spec_limit() as nat);
        assert(run_length(log, head, start as int, cursor.spec_limit() as nat) > 0);
        assert(reading(log, cursor)->entries.len() > 0);
    }
}

/// A run of a log in order is in order.
pub proof fn lemma_tail_sequenced(log: Seq<HistoryModel>, cut: int)
    requires
        in_sequence(log),
        0 <= cut <= log.len(),
    ensures
        in_sequence(log.subrange(cut, log.len() as int)),
{
    let tail = log.subrange(cut, log.len() as int);
    assert forall|i: int, j: int| 0 <= i < j < tail.len() implies (#[trigger] tail[i]).sequence < (
    #[trigger] tail[j]).sequence by {
        assert(tail[i] == log[cut + i] && tail[j] == log[cut + j]);
    }
}

/// An entry of a log in order is found at its own place.
pub proof fn lemma_found_at(log: Seq<HistoryModel>, at: int)
    requires
        in_sequence(log),
        0 <= at < log.len(),
    ensures
        position_at(log, log[at].sequence, 0) == at,
{
    lemma_position_at(log, log[at].sequence, 0);
    let found = position_at(log, log[at].sequence, 0) as int;
    if found < at {
        assert(log[found].sequence < log[at].sequence);
    }
}

/// Appending an entry again changes nothing and succeeds, even where the
/// retention already let the entry go.
pub proof fn appending_again_changes_nothing(
    log: Seq<HistoryModel>,
    entry: HistoryModel,
    retention: Option<usize>,
)
    requires
        in_sequence(log),
        !holds_sequence(log, entry.sequence),
        retention is Some ==> retention->Some_0 >= 1,
    ensures
        ({
            let once = retained(inserted(log, entry), retention);
            &&& holds_sequence(once, entry.sequence) ==> once[position_at(
                once,
                entry.sequence,
                0,
            ) as int] == entry
            &&& !holds_sequence(once, entry.sequence) ==> retained(
                inserted(once, entry),
                retention,
            ) == once
        }),
{
    let position = position_at(log, entry.sequence, 0) as int;
    lemma_position_at(log, entry.sequence, 0);
    let full = inserted(log, entry);
    assert(full[position] == entry);
    lemma_inserted_sequenced(log, entry);
    let once = retained(full, retention);
    let cut = full.len() - once.len();
    assert(once =~= full.subrange(cut, full.len() as int));
    lemma_tail_sequenced(full, cut);
    if position >= cut {
        assert(once[position - cut] == entry);
        lemma_found_at(once, position - cut);
    } else {
        lemma_evicted_again(full, position, cut, entry, retention);
    }
}

/// An entry older than everything retained is evicted again.
proof fn lemma_evicted_again(
    full: Seq<HistoryModel>,
    position: int,
    cut: int,
    entry: HistoryModel,
    retention: Option<usize>,
)
    requires
        in_sequence(full),
        0 <= position < cut < full.len(),
        full[position] == entry,
        retention is Some,
        full.len() - cut == retention->Some_0,
    ensures
        ({
            let once = full.subrange(cut, full.len() as int);
            &&& !holds_sequence(once, entry.sequence)
            &&& retained(inserted(once, entry), retention) == once
        }),
{
    let once = full.subrange(cut, full.len() as int);
    assert(once[0] == full[cut]);
    assert(full[position].sequence < full[cut].sequence);
    assert(position_at(once, entry.sequence, 0) == 0);
    let again = inserted(once, entry);
    assert(again =~= seq![entry] + once);
    assert(retained(again, retention) =~= once);
}

/// Inserting an entry with a new sequence keeps a log in order.
pub proof fn lemma_inserted_sequenced(log: Seq<HistoryModel>, entry: HistoryModel)
    requires
        in_sequence(log),
        !holds_sequence(log, entry.sequence),
    ensures
        in_sequence(inserted(log, entry)),
{
    let position = position_at(log, entry.sequence, 0);
    lemma_position_at(log, entry.sequence, 0);
    let after = inserted(log, entry);
    assert forall|i: int, j: int| 0 <= i < j < after.len() implies (#[trigger] after[i]).sequence
        < (#[trigger] after[j]).sequence by {
        if i < position && j < position {
            assert(after[i] == log[i] && after[j] == log[j]);
        } else if i < position && j > position {
            assert(after[i] == log[i] && after[j] == log[j - 1]);
        } else if i > position {
            assert(after[i] == log[i - 1] && after[j] == log[j - 1]);
        } else if i == position {
            assert(after[j] == log[j - 1]);
            if j - 1 > position {
                assert(log[position as int].sequence < log[j - 1].sequence);
            }
        }
    }
}

} // verus!
