//! Flushing a team's owed history into its history store.

use vstd::prelude::*;

use crate::exchange::AgentTeamScope;
use crate::team::{is_flushed, AgentTeamState, StateModel};
use crate::team_error::AgentTeamError;
use crate::team_history::{
    entries_model, holds_sequence, in_sequence, inserted, lemma_found_at, lemma_inserted_sequenced,
    lemma_position_at, lemma_tail_sequenced, position_at, retained, AgentTeamHistorySequence, HistoryModel,
    InMemoryAgentTeamHistoryStore,
};

verus! {

/// A log after an entry was appended to it, or nothing where it holds another
/// entry at the same sequence.
pub open spec fn appended(
    log: Seq<HistoryModel>,
    entry: HistoryModel,
    retention: Option<usize>,
) -> Option<Seq<HistoryModel>> {
    if !holds_sequence(log, entry.sequence) {
        Some(retained(inserted(log, entry), retention))
    } else if log[position_at(log, entry.sequence, 0) as int] == entry {
        Some(log)
    } else {
        None
    }
}

/// A log after entries were appended to it one by one, or nothing where one of
/// them conflicts.
pub open spec fn appended_all(
    log: Seq<HistoryModel>,
    entries: Seq<HistoryModel>,
    retention: Option<usize>,
) -> Option<Seq<HistoryModel>>
    decreases entries.len(),
{
    if entries.len() == 0 {
        Some(log)
    } else {
        match appended_all(log, entries.drop_last(), retention) {
            Some(before) => appended(before, entries.last(), retention),
            None => None,
        }
    }
}

/// Whether appending entries one by one stopped before the one at `n`, which
/// conflicts with the log reached there.
pub open spec fn stopped_at(
    log: Seq<HistoryModel>,
    entries: Seq<HistoryModel>,
    retention: Option<usize>,
    n: int,
    reached: Seq<HistoryModel>,
) -> bool {
    &&& 0 <= n < entries.len()
    &&& appended_all(log, entries.subrange(0, n), retention) == Some(reached)
    &&& appended(reached, entries[n], retention) is None
}

proof fn lemma_conflict_stays(
    log: Seq<HistoryModel>,
    entries: Seq<HistoryModel>,
    retention: Option<usize>,
    done: int,
)
    requires
        0 <= done <= entries.len(),
        appended_all(log, entries.subrange(0, done), retention) is None,
    ensures
        appended_all(log, entries, retention) is None,
    decreases entries.len() - done,
{
    if done < entries.len() {
        assert(entries.subrange(0, done + 1).drop_last() =~= entries.subrange(0, done));
        lemma_conflict_stays(log, entries, retention, done + 1);
    } else {
        assert(entries.subrange(0, done) =~= entries);
    }
}

proof fn lemma_filter_none(entries: Seq<HistoryModel>, keep: spec_fn(HistoryModel) -> bool)
    requires
        forall|i: int| 0 <= i < entries.len() ==> !keep(#[trigger] entries[i]),
    ensures
        entries.filter(keep) == Seq::<HistoryModel>::empty(),
    decreases entries.len(),
{
    reveal(Seq::filter);
    if entries.len() > 0 {
        lemma_filter_none(entries.drop_last(), keep);
    }
}

impl AgentTeamState {
    /// Flushes the owed history, oldest first, and forgets what was flushed.
    /// Returns how many entries were. A conflict in the store leaves all of
    /// them owed: appending is idempotent, so the next flush starts over.
    pub fn flush_history(&mut self, history: &mut InMemoryAgentTeamHistoryStore) -> (result: Result<
        usize,
        AgentTeamError,
    >)
        ensures
            final(history).spec_retention() == old(history).spec_retention(),
            in_sequence(old(history).log_of(&old(self)@.scope)) ==> in_sequence(
                final(history).log_of(&old(self)@.scope),
            ),
            forall|other: &AgentTeamScope|
                other.key_text() != old(self)@.scope.key_text() ==> #[trigger]
                final(history).log_of(other) == old(history).log_of(other),
            match appended_all(
                old(history).log_of(&old(self)@.scope),
                old(self)@.pending_history,
                old(history).spec_retention(),
            ) {
                Some(log) => {
                    &&& result is Ok
                    &&& result->Ok_0 == old(self)@.pending_history.len()
                    &&& final(history).log_of(&old(self)@.scope) == log
                    &&& final(self)@ == (StateModel {
                        pending_history: Seq::empty(),
                        ..old(self)@
                    })
                },
                None => {
                    &&& result is Err
                    &&& result->Err_0 is HistoryConflict
                    &&& exists|n: int|
                        #[trigger] stopped_at(
                            old(history).log_of(&old(self)@.scope),
                            old(self)@.pending_history,
                            old(history).spec_retention(),
                            n,
                            final(history).log_of(&old(self)@.scope),
                        ) && result->Err_0->HistoryConflict_sequence.number()
                            == old(self)@.pending_history[n].sequence
                    &&& final(self)@ == old(self)@
                },
            },
    {
        let ghost pending = self@.pending_history;
        let ghost scope = self@.scope;
        let ghost before = history.log_of(&scope);
        let mut flushed: Vec<AgentTeamHistorySequence> = Vec::new();
        let mut i: usize = 0;
        assert(pending.subrange(0, 0) =~= Seq::empty());
        while i < self.pending_history().len()
            invariant
                i <= pending.len(),
                *self == *old(self),
                pending == self@.pending_history,
                scope == self@.scope,
                before == old(history).log_of(&scope),
                history.spec_retention() == old(history).spec_retention(),
                in_sequence(before) ==> in_sequence(history.log_of(&scope)),
                forall|other: &AgentTeamScope|
                    other.key_text() != scope.key_text() ==> #[trigger] history.log_of(other)
                        == old(history).log_of(other),
                appended_all(before, pending.subrange(0, i as int), history.spec_retention())
                    == Some(history.log_of(&scope)),
                flushed@.len() == i,
                forall|k: int|
                    0 <= k < i ==> (#[trigger] flushed@[k]).number() == pending[k].sequence,
            decreases pending.len() - i,
        {
            let entries = self.pending_history();
            let entry = entries[i].clone();
            let sequence = entry.sequence;
            proof {
                let done = pending.subrange(0, i + 1);
                assert(entries_model(entries@)[i as int] == entry@);
                assert(done.drop_last() =~= pending.subrange(0, i as int));
                assert(done.last() == entry@);
            }
            let ghost reached = history.log_of(&scope);
            match history.append(self.scope(), entry) {
                Ok(()) => {},
                Err(error) => {
                    proof {
                        assert(history.log_of(&scope) == reached);
                        assert(stopped_at(
                            before,
                            pending,
                            history.spec_retention(),
                            i as int,
                            history.log_of(&scope),
                        ));
                        lemma_conflict_stays(before, pending, history.spec_retention(), i + 1);
                    }
                    return Err(error);
                },
            }
            flushed.push(sequence);
            i = i + 1;
        }
        proof {
            assert(pending.subrange(0, i as int) =~= pending);
            let keep = |entry: HistoryModel| !is_flushed(flushed@, entry.sequence);
            assert forall|k: int| 0 <= k < pending.len() implies !keep(#[trigger] pending[k]) by {
                assert(flushed@[k].number() == pending[k].sequence);
            }
            lemma_filter_none(pending, keep);
        }
        self.clear_flushed_history(flushed.as_slice());
        Ok(i)
    }
}

/// Whether a log holds an entry.
pub open spec fn logged(log: Seq<HistoryModel>, entry: HistoryModel) -> bool {
    holds_sequence(log, entry.sequence) && log[position_at(log, entry.sequence, 0) as int] == entry
}

/// Whether appending an entry is over: the log holds it, or the retention let it
/// go and keeps nothing older.
pub open spec fn done_with(
    log: Seq<HistoryModel>,
    entry: HistoryModel,
    retention: Option<usize>,
) -> bool {
    logged(log, entry) || (retention is Some && log.len() == retention->Some_0 && log.len() > 0
        && entry.sequence < log[0].sequence)
}

proof fn lemma_logged(log: Seq<HistoryModel>, at: int)
    requires
        in_sequence(log),
        0 <= at < log.len(),
    ensures
        logged(log, log[at]),
{
    lemma_found_at(log, at);
}

/// What the retention leaves of a log in order is done with each of its entries.
proof fn lemma_retained_done(
    full: Seq<HistoryModel>,
    at: int,
    retention: Option<usize>,
)
    requires
        in_sequence(full),
        0 <= at < full.len(),
        retention is Some ==> retention->Some_0 >= 1,
    ensures
        in_sequence(retained(full, retention)),
        done_with(retained(full, retention), full[at], retention),
{
    let kept = retained(full, retention);
    let cut = full.len() - kept.len();
    assert(kept =~= full.subrange(cut, full.len() as int));
    lemma_tail_sequenced(full, cut);
    if at >= cut {
        assert(kept[at - cut] == full[at]);
        lemma_logged(kept, at - cut);
    } else {
        assert(kept[0] == full[cut]);
        assert(full[at].sequence < full[cut].sequence);
    }
}

/// Appending keeps a log done with what it was done with, and is done with what
/// it appended.
proof fn lemma_append_keeps(
    log: Seq<HistoryModel>,
    entry: HistoryModel,
    retention: Option<usize>,
)
    requires
        in_sequence(log),
        appended(log, entry, retention) is Some,
        retention is Some ==> retention->Some_0 >= 1,
    ensures
        ({
            let after = appended(log, entry, retention)->Some_0;
            &&& in_sequence(after)
            &&& done_with(after, entry, retention)
            &&& forall|other: HistoryModel| #[trigger]
                done_with(log, other, retention) ==> done_with(after, other, retention)
        }),
{
    let after = appended(log, entry, retention)->Some_0;
    if !holds_sequence(log, entry.sequence) {
        lemma_inserted_sequenced(log, entry);
        lemma_position_at(log, entry.sequence, 0);
        let position = position_at(log, entry.sequence, 0) as int;
        let full = inserted(log, entry);
        assert(full[position] == entry);
        lemma_retained_done(full, position, retention);
        assert forall|other: HistoryModel| #[trigger] done_with(
            log,
            other,
            retention,
        ) implies done_with(after, other, retention) by {
            if logged(log, other) {
                let at = position_at(log, other.sequence, 0) as int;
                let there = if at < position {
                    at
                } else {
                    at + 1
                };
                assert(full[there] == other);
                lemma_retained_done(full, there, retention);
            } else {
                assert(full.len() == log.len() + 1);
                assert(after[0] == full[1]);
                if position == 0 {
                    assert(full[1] == log[0]);
                } else {
                    assert(full[0] == log[0]);
                    assert(full[0].sequence < full[1].sequence);
                }
            }
        }
    }
}

proof fn lemma_append_all_keeps(
    log: Seq<HistoryModel>,
    entries: Seq<HistoryModel>,
    retention: Option<usize>,
)
    requires
        in_sequence(log),
        appended_all(log, entries, retention) is Some,
        retention is Some ==> retention->Some_0 >= 1,
    ensures
        ({
            let after = appended_all(log, entries, retention)->Some_0;
            &&& in_sequence(after)
            &&& forall|i: int|
                0 <= i < entries.len() ==> done_with(after, #[trigger] entries[i], retention)
        }),
    decreases entries.len(),
{
    if entries.len() > 0 {
        let before = appended_all(log, entries.drop_last(), retention)->Some_0;
        lemma_append_all_keeps(log, entries.drop_last(), retention);
        lemma_append_keeps(before, entries.last(), retention);
        let after = appended_all(log, entries, retention)->Some_0;
        assert forall|i: int| 0 <= i < entries.len() implies done_with(
            after,
            #[trigger] entries[i],
            retention,
        ) by {
            if i < entries.len() - 1 {
                assert(entries.drop_last()[i] == entries[i]);
                assert(done_with(before, entries[i], retention));
            }
        }
    }
}

proof fn lemma_append_done(
    log: Seq<HistoryModel>,
    entry: HistoryModel,
    retention: Option<usize>,
)
    requires
        in_sequence(log),
        done_with(log, entry, retention),
    ensures
        appended(log, entry, retention) == Some(log),
{
    if !logged(log, entry) {
        assert(position_at(log, entry.sequence, 0) == 0);
        let full = inserted(log, entry);
        assert(full =~= seq![entry] + log);
        assert(retained(full, retention) =~= log);
    }
}

proof fn lemma_append_all_done(
    log: Seq<HistoryModel>,
    entries: Seq<HistoryModel>,
    retention: Option<usize>,
)
    requires
        in_sequence(log),
        forall|i: int|
            0 <= i < entries.len() ==> done_with(log, #[trigger] entries[i], retention),
    ensures
        appended_all(log, entries, retention) == Some(log),
    decreases entries.len(),
{
    if entries.len() > 0 {
        assert forall|i: int| 0 <= i < entries.drop_last().len() implies done_with(
            log,
            #[trigger] entries.drop_last()[i],
            retention,
        ) by {
            assert(entries.drop_last()[i] == entries[i]);
        }
        lemma_append_all_done(log, entries.drop_last(), retention);
        lemma_append_done(log, entries.last(), retention);
    }
}

/// A flush that is run again changes nothing, whatever the store retains: a team
/// that dies after its history was appended and before it forgot what it owed
/// loses and repeats nothing.
pub proof fn a_repeated_flush_changes_nothing(
    log: Seq<HistoryModel>,
    pending: Seq<HistoryModel>,
    retention: Option<usize>,
)
    requires
        in_sequence(log),
        retention is Some ==> retention->Some_0 >= 1,
        appended_all(log, pending, retention) is Some,
    ensures
        appended_all(appended_all(log, pending, retention)->Some_0, pending, retention)
            == appended_all(log, pending, retention),
{
    lemma_append_all_keeps(log, pending, retention);
    lemma_append_all_done(appended_all(log, pending, retention)->Some_0, pending, retention);
}

} // verus!
