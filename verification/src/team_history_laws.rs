//! What a team's history promises its readers and its writers.

use vstd::prelude::*;

use crate::exchange::AgentTeamScope;
use crate::identity::canonical_encoding_is_injective;
use crate::team::AgentTeamState;
use crate::team_error::AgentTeamError;
use crate::team_flush::{appended, appended_all, stopped_at};
use crate::team_history::{
    a_read_is_decided_by_what_is_retained, entries_model, in_sequence, inserted, lemma_found_at,
    lemma_inserted_sequenced, lemma_position_at, position_at, retained, AgentTeamHistoryCursor,
    AgentTeamHistoryEntry, AgentTeamHistoryPage, AgentTeamHistorySequence, HistoryModel,
    InMemoryAgentTeamHistoryStore,
};

verus! {

/// Two teams never share a log: their keys tell their tenants and their teams.
pub proof fn two_teams_never_share_a_key(a: AgentTeamScope, b: AgentTeamScope)
    requires
        a.key_text() == b.key_text(),
    ensures
        a.tenant@ == b.tenant@,
        a.team@ == b.team@,
{
    let (left, right) = (seq![a.tenant@, a.team@], seq![b.tenant@, b.team@]);
    canonical_encoding_is_injective(left, right);
    assert(left[0] == right[0] && left[1] == right[1]);
}

/// The sequence a cursor reads from: the first, or the one after its position.
pub open spec fn read_head(cursor: AgentTeamHistoryCursor) -> int {
    match cursor.spec_position() {
        None => 1,
        Some(after) => if after.number() == u64::MAX {
            u64::MAX as int
        } else {
            after.number() + 1
        },
    }
}

/// Whether a log has an entry at a sequence.
pub open spec fn has_entry(log: Seq<HistoryModel>, sequence: int) -> bool {
    exists|i: int| 0 <= i < log.len() && (#[trigger] log[i]).sequence == sequence
}

/// A page starts with the entry its cursor expects and goes on without a hole,
/// whole entries of the log, as far as the page size and the log allow; the next
/// cursor resumes after its last entry, and is given exactly when a later entry is
/// retained. A reader that is up to date reads an empty page.
pub proof fn a_page_follows_its_cursor_without_a_hole(
    store: &InMemoryAgentTeamHistoryStore,
    scope: &AgentTeamScope,
    cursor: AgentTeamHistoryCursor,
    result: Result<AgentTeamHistoryPage, AgentTeamError>,
)
    requires
        call_ensures(InMemoryAgentTeamHistoryStore::read, (store, scope, cursor), result),
        cursor.spec_limit() >= 1,
        result is Ok,
    ensures
        ({
            let log = store.log_of(scope);
            let entries = entries_model(result->Ok_0.entries@);
            let end = read_head(cursor) + entries.len();
            let next = result->Ok_0.next;
            &&& entries.len() <= cursor.spec_limit()
            &&& forall|n: int|
                0 <= n < entries.len() ==> log.contains(#[trigger] entries[n]) && entries[n].sequence
                    == read_head(cursor) + n
            &&& entries.len() < cursor.spec_limit() ==> !has_entry(log, end)
            &&& next is Some <==> entries.len() > 0 && exists|i: int|
                0 <= i < log.len() && (#[trigger] log[i]).sequence >= end
            &&& next is Some ==> next->Some_0.spec_limit() == cursor.spec_limit()
                && next->Some_0.spec_position() is Some
                && next->Some_0.spec_position()->Some_0.number() == end - 1
        }),
{
    let log = store.log_of(scope);
    let entries = entries_model(result->Ok_0.entries@);
    let end = read_head(cursor) + entries.len();
    a_read_is_decided_by_what_is_retained(log, cursor);
    if log.len() > 0 {
        assert(log[log.len() - 1].sequence == log.last().sequence);
    }
    assert forall|i: int| 0 <= i < log.len() && (#[trigger] log[i]).sequence >= end implies
        log.last().sequence >= end by {
        if i < log.len() - 1 {
            assert(log[i].sequence < log[log.len() - 1].sequence);
        }
    }
    if entries.len() > 0 {
        assert(entries[entries.len() - 1].sequence == read_head(cursor) + (entries.len() - 1));
    }
}

/// A read is refused exactly when the entry it expects is not retained and the
/// reader is not up to date; the refusal names where it can resume: at the first
/// retained entry past the gap, or at the oldest of all when it is ahead.
pub proof fn a_refused_read_names_where_to_resume(
    store: &InMemoryAgentTeamHistoryStore,
    scope: &AgentTeamScope,
    cursor: AgentTeamHistoryCursor,
    result: Result<AgentTeamHistoryPage, AgentTeamError>,
)
    requires
        call_ensures(InMemoryAgentTeamHistoryStore::read, (store, scope, cursor), result),
        cursor.spec_limit() >= 1,
    ensures
        ({
            let log = store.log_of(scope);
            let head = read_head(cursor);
            let current = head == if log.len() == 0 {
                1
            } else {
                log.last().sequence + 1
            };
            let ahead = forall|i: int| 0 <= i < log.len() ==> (#[trigger] log[i]).sequence < head;
            let floor = result->Err_0->oldest_retained;
            &&& result is Err <==> !has_entry(log, head) && !current
            &&& result is Err ==> result->Err_0 is HistoryWindowExpired
            &&& result is Err && log.len() == 0 ==> floor is None
            &&& result is Err && log.len() > 0 && ahead ==> floor is Some
                && floor->Some_0.number() == log[0].sequence
            &&& result is Err && !ahead ==> floor is Some && floor->Some_0.number() > head
                && has_entry(log, floor->Some_0.number() as int) && forall|i: int|
                0 <= i < log.len() && (#[trigger] log[i]).sequence >= head ==> log[i].sequence
                    >= floor->Some_0.number()
        }),
{
    let log = store.log_of(scope);
    a_read_is_decided_by_what_is_retained(log, cursor);
    lemma_position_at(log, cursor.expects(), 0);
    let at = position_at(log, cursor.expects(), 0) as int;
    if log.len() > 0 {
        assert(log[log.len() - 1] == log.last());
        assert forall|i: int| 0 <= i < log.len() implies (#[trigger] log[i]).sequence
            <= log.last().sequence by {
            if i < log.len() - 1 {
                assert(log[i].sequence < log[log.len() - 1].sequence);
            }
        }
    }
    if at < log.len() {
        assert(log[at].sequence >= cursor.expects());
        assert forall|i: int|
            0 <= i < log.len() && (#[trigger] log[i]).sequence >= read_head(cursor) implies
            log[i].sequence >= log[at].sequence by {
            if i > at {
                assert(log[at].sequence < log[i].sequence);
            }
        }
    }
}

/// An entry is appended once: the same entry again is accepted without a change,
/// another at its sequence is refused, and a new one is added to the log, from
/// which only the oldest go, and only as many as the retention asks.
pub proof fn an_append_adds_one_entry_or_none(
    store: &mut InMemoryAgentTeamHistoryStore,
    scope: &AgentTeamScope,
    entry: AgentTeamHistoryEntry,
    result: Result<(), AgentTeamError>,
)
    requires
        call_ensures(InMemoryAgentTeamHistoryStore::append, (store, scope, entry), result),
    ensures
        ({
            let (before, after) = (old(store).log_of(scope), final(store).log_of(scope));
            let taken = has_entry(before, entry@.sequence as int);
            let keep = old(store).spec_retention();
            let whole = keep is None || before.len() < keep->Some_0;
            &&& result is Ok <==> !taken || before.contains(entry@)
            &&& result is Err ==> result->Err_0 == (AgentTeamError::HistoryConflict {
                sequence: entry.sequence,
            })
            &&& taken ==> after == before
            &&& final(store).spec_retention() == keep
            &&& forall|e: HistoryModel| #[trigger]
                after.contains(e) ==> before.contains(e) || e == entry@
            &&& !taken ==> after.len() == if whole {
                before.len() + 1
            } else {
                keep->Some_0 as nat
            }
            &&& !taken && whole ==> after.contains(entry@) && forall|e: HistoryModel| #[trigger]
                before.contains(e) ==> after.contains(e)
            &&& forall|gone: HistoryModel, kept: HistoryModel|
                (before.contains(gone) || gone == entry@) && !taken && !(#[trigger] after.contains(
                    gone,
                )) && #[trigger] after.contains(kept) ==> gone.sequence < kept.sequence
            &&& forall|i: int, j: int|
                0 <= i < j < after.len() ==> (#[trigger] after[i]).sequence < (
                #[trigger] after[j]).sequence
        }),
{
    let (before, after) = (old(store).log_of(scope), final(store).log_of(scope));
    let keep = old(store).spec_retention();
    let at = position_at(before, entry@.sequence, 0) as int;
    lemma_position_at(before, entry@.sequence, 0);
    if has_entry(before, entry@.sequence as int) {
        let i = choose|i: int|
            0 <= i < before.len() && (#[trigger] before[i]).sequence == entry@.sequence;
        lemma_found_at(before, i);
        if before.contains(entry@) {
            lemma_found_at(before, before.index_of(entry@));
        }
    } else {
        if at < before.len() {
            assert(before[at].sequence != entry@.sequence);
        }
        if before.contains(entry@) {
            assert(before[before.index_of(entry@)].sequence == entry@.sequence);
        }
        lemma_inserted_sequenced(before, entry@);
        lemma_kept_are_newest(before, entry@, keep);
    }
}

/// What a retention keeps of a log with one more entry are its newest.
proof fn lemma_kept_are_newest(log: Seq<HistoryModel>, entry: HistoryModel, keep: Option<usize>)
    requires
        in_sequence(inserted(log, entry)),
        0 <= position_at(log, entry.sequence, 0) <= log.len(),
    ensures
        ({
            let after = retained(inserted(log, entry), keep);
            &&& forall|e: HistoryModel| #[trigger]
                after.contains(e) ==> log.contains(e) || e == entry
            &&& (keep is None || log.len() < keep->Some_0) ==> after.contains(entry) && forall|
                e: HistoryModel,
            | #[trigger] log.contains(e) ==> after.contains(e)
            &&& forall|gone: HistoryModel, kept: HistoryModel|
                (log.contains(gone) || gone == entry) && !(#[trigger] after.contains(gone))
                    && #[trigger] after.contains(kept) ==> gone.sequence < kept.sequence
        }),
{
    let full = inserted(log, entry);
    let after = retained(full, keep);
    let at = position_at(log, entry.sequence, 0) as int;
    let cut = full.len() - after.len();
    assert(after =~= full.subrange(cut, full.len() as int));
    assert(full[at] == entry);
    assert forall|e: HistoryModel| #[trigger] after.contains(e) implies log.contains(e) || e
        == entry by {
        let i = after.index_of(e);
        assert(full[cut + i] == e);
        if cut + i < at {
            assert(log[cut + i] == e);
        } else if cut + i > at {
            assert(log[cut + i - 1] == e);
        }
    }
    assert forall|e: HistoryModel| #[trigger] log.contains(e) implies full.contains(e) by {
        let i = log.index_of(e);
        if i < at {
            assert(full[i] == e);
        } else {
            assert(full[i + 1] == e);
        }
    }
    assert forall|gone: HistoryModel, kept: HistoryModel|
        (log.contains(gone) || gone == entry) && !(#[trigger] after.contains(gone))
            && #[trigger] after.contains(kept) implies gone.sequence < kept.sequence by {
        assert(full.contains(gone));
        let i = full.index_of(gone);
        let j = after.index_of(kept);
        if i >= cut {
            assert(after[i - cut] == gone);
        }
        assert(full[cut + j] == kept);
        assert(full[i].sequence < full[cut + j].sequence);
    }
    if keep is None || log.len() < keep->Some_0 {
        assert(after =~= full);
    }
}

/// No append reaches another team's log.
pub proof fn an_append_reaches_its_own_team_alone(
    store: &mut InMemoryAgentTeamHistoryStore,
    scope: &AgentTeamScope,
    entry: AgentTeamHistoryEntry,
    result: Result<(), AgentTeamError>,
    other: &AgentTeamScope,
)
    requires
        call_ensures(InMemoryAgentTeamHistoryStore::append, (store, scope, entry), result),
        other.tenant@ != scope.tenant@ || other.team@ != scope.team@,
    ensures
        final(store).log_of(other) == old(store).log_of(other),
{
    if other.key_text() == scope.key_text() {
        two_teams_never_share_a_key(*other, *scope);
    }
}

proof fn lemma_all_appended(log: Seq<HistoryModel>, entries: Seq<HistoryModel>)
    requires
        in_sequence(log),
        appended_all(log, entries, None) is Some,
    ensures
        ({
            let after = appended_all(log, entries, None)->Some_0;
            &&& in_sequence(after)
            &&& forall|e: HistoryModel| #[trigger]
                after.contains(e) <==> log.contains(e) || entries.contains(e)
        }),
    decreases entries.len(),
{
    let after = appended_all(log, entries, None)->Some_0;
    if entries.len() > 0 {
        let before = appended_all(log, entries.drop_last(), None)->Some_0;
        let last = entries.last();
        lemma_all_appended(log, entries.drop_last());
        lemma_position_at(before, last.sequence, 0);
        let at = position_at(before, last.sequence, 0) as int;
        assert(entries =~= entries.drop_last().push(last));
        assert(entries[entries.len() - 1] == last);
        assert forall|e: HistoryModel| entries.contains(e) <==> #[trigger]
            entries.drop_last().contains(e) || e == last by {
            if entries.contains(e) && e != last {
                let i = entries.index_of(e);
                assert(entries.drop_last()[i] == e);
            }
            if entries.drop_last().contains(e) {
                let i = entries.drop_last().index_of(e);
                assert(entries[i] == e);
            }
        }
        if !crate::team_history::holds_sequence(before, last.sequence) {
            lemma_inserted_sequenced(before, last);
            lemma_kept_are_newest(before, last, None);
        } else {
            assert(before.contains(last)) by {
                assert(before[at] == last);
            }
        }
        assert forall|e: HistoryModel| #[trigger] after.contains(e) <==> log.contains(e)
            || entries.contains(e) by {
            assert(entries.contains(e) <==> entries.drop_last().contains(e) || e == last);
            assert(before.contains(e) <==> log.contains(e) || entries.drop_last().contains(e));
        }
    } else {
        assert forall|e: HistoryModel| #[trigger] after.contains(e) <==> log.contains(e)
            || entries.contains(e) by {}
    }
}

/// A flush that succeeds owes nothing any more and changes nothing else of the
/// team; where the store retains everything, its log then holds exactly what it
/// held and what was owed. A flush that fails leaves everything owed, for a
/// conflict at one of the owed sequences.
pub proof fn a_flush_delivers_all_that_was_owed(
    state: &mut AgentTeamState,
    store: &mut InMemoryAgentTeamHistoryStore,
    result: Result<usize, AgentTeamError>,
)
    requires
        call_ensures(AgentTeamState::flush_history, (state, store), result),
        in_sequence(old(store).log_of(&old(state)@.scope)),
    ensures
        ({
            let (before, after) = (old(state)@, final(state)@);
            let owed = before.pending_history;
            let log = final(store).log_of(&before.scope);
            &&& after.team == before.team
            &&& after.log == before.log
            &&& after.scope == before.scope
            &&& after.schema_version == before.schema_version
            &&& after.next_sequence == before.next_sequence
            &&& after.updated_at == before.updated_at
            &&& result is Ok ==> after.pending_history.len() == 0 && result->Ok_0 == owed.len()
            &&& result is Ok && old(store).spec_retention() is None ==> forall|e: HistoryModel|
                #[trigger] log.contains(e) <==> old(store).log_of(&before.scope).contains(e)
                    || owed.contains(e)
            &&& result is Err ==> after.pending_history == owed
            &&& result is Err ==> result->Err_0 is HistoryConflict && exists|n: int|
                0 <= n < owed.len() && result->Err_0->HistoryConflict_sequence.number() == (
                #[trigger] owed[n]).sequence && has_entry(log, owed[n].sequence as int)
                    && !log.contains(owed[n])
        }),
{
    let before = old(state)@;
    let log = old(store).log_of(&before.scope);
    if result is Ok && old(store).spec_retention() is None {
        lemma_all_appended(log, before.pending_history);
    }
    if result is Err {
        let n = choose|n: int|
            #[trigger] stopped_at(
                log,
                before.pending_history,
                old(store).spec_retention(),
                n,
                final(store).log_of(&before.scope),
            ) && result->Err_0->HistoryConflict_sequence.number()
                == before.pending_history[n].sequence;
        let reached = final(store).log_of(&before.scope);
        let entry = before.pending_history[n];
        lemma_position_at(reached, entry.sequence, 0);
        let at = position_at(reached, entry.sequence, 0) as int;
        assert(reached[at].sequence == entry.sequence);
        if reached.contains(entry) {
            let k = choose|k: int| 0 <= k < reached.len() && reached[k] == entry;
            lemma_found_at(reached, k);
        }
        assert(0 <= n < before.pending_history.len());
    }
}

/// A cursor's page size is what was asked for, between one and 64, and its
/// position is kept; resuming at a sequence expects that very sequence.
pub proof fn a_cursor_asks_for_what_it_was_given(
    cursor: AgentTeamHistoryCursor,
    limit: usize,
    limited: AgentTeamHistoryCursor,
    sequence: AgentTeamHistorySequence,
    resumed: AgentTeamHistoryCursor,
)
    requires
        call_ensures(AgentTeamHistoryCursor::with_limit, (cursor, limit), limited),
        call_ensures(AgentTeamHistoryCursor::resuming_at, (cursor, sequence), resumed),
    ensures
        limited.spec_position() == cursor.spec_position(),
        1 <= limit <= 64 ==> limited.spec_limit() == limit,
        limit == 0 ==> limited.spec_limit() == 1,
        limit > 64 ==> limited.spec_limit() == 64,
        resumed.spec_limit() == cursor.spec_limit(),
        sequence.number() > 0 ==> read_head(resumed) == sequence.number(),
        sequence.number() == 0 ==> read_head(resumed) == 1,
{
}

} // verus!
