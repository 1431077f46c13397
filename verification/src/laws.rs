//! What holds of the library as a whole, proved from its definitions.

use crate::age::{is_old, old_entries, too_old};
use crate::entry::EntryView;
use crate::sweep::{lemma_count_bounded, ActionView, Mode, SweepView};
use vstd::prelude::*;

verus! {

/// The limit is a strict one: an entry whose age is exactly the limit is
/// kept, and one second more makes it too old.
pub proof fn lemma_limit_is_strict(modified: nat, now: nat, limit: nat)
    ensures
        now - modified == limit ==> !too_old(modified, now, limit),
        now - modified == limit + 1 ==> too_old(modified, now, limit),
{
}

/// No more entries are too old than there are entries.
pub proof fn lemma_old_entries_bounded(entries: Seq<EntryView>, now: nat, limit: nat)
    ensures
        old_entries(entries, now, limit).len() <= entries.len(),
{
    entries.lemma_filter_len(is_old(now, limit));
}

/// A sweep that is carried through ends finished, in the mode and over the
/// entries that it began with, and its outcomes are those it had followed
/// by one for each action that was still due.
pub proof fn lemma_run_finishes(state: SweepView, outcomes: Seq<bool>)
    requires
        state.valid(),
    ensures
        state.run(outcomes).valid(),
        state.run(outcomes).finished(),
        state.run(outcomes).mode == state.mode,
        state.run(outcomes).old == state.old,
        state.run(outcomes).total == state.total,
        state.run(outcomes).outcomes.len() == state.old.len(),
        outcomes.len() >= state.old.len() - state.outcomes.len() ==> state.run(outcomes).outcomes
            == state.outcomes + outcomes.take(state.old.len() - state.outcomes.len()),
    decreases state.old.len() - state.outcomes.len(),
{
    if state.finished() {
        assert(outcomes.take(0) =~= Seq::<bool>::empty());
        assert(state.outcomes + Seq::<bool>::empty() =~= state.outcomes);
    } else if outcomes.len() == 0 {
        lemma_run_finishes(state.record(false), outcomes);
    } else {
        let due = state.old.len() - state.outcomes.len();
        lemma_run_finishes(state.record(outcomes.first()), outcomes.drop_first());
        if outcomes.len() >= due {
            assert(state.outcomes.push(outcomes.first()) + outcomes.drop_first().take(due - 1)
                =~= state.outcomes + outcomes.take(due));
        }
    }
}

/// After a run and after a dry run alike, the first count is no larger
/// than the second: no more files are deleted, or found old, than were
/// examined. This holds however the removals went.
pub proof fn lemma_counts_in_order(
    mode: Mode,
    entries: Seq<EntryView>,
    now: nat,
    limit: nat,
    outcomes: Seq<bool>,
)
    ensures
        SweepView::start(mode, old_entries(entries, now, limit), entries.len()).run(
            outcomes,
        ).count() <= entries.len(),
        SweepView::start(mode, old_entries(entries, now, limit), entries.len()).run(
            outcomes,
        ).next() matches ActionView::Finished(count, total) && count <= total && total
            == entries.len(),
{
    let begin = SweepView::start(mode, old_entries(entries, now, limit), entries.len());
    lemma_old_entries_bounded(entries, now, limit);
    lemma_run_finishes(begin, outcomes);
    lemma_count_bounded(begin.run(outcomes));
}

/// A dry run never asks for a removal: not in the state it starts in, and
/// not in any state that recording an outcome leads to.
pub proof fn lemma_dry_run_never_removes(state: SweepView, done: bool)
    requires
        state.mode == Mode::Report,
    ensures
        !(state.next() is Remove),
        state.record(done).mode == Mode::Report,
{
}

/// What is left of a listing when a sweep over it has come to its end:
/// every entry but those that were too old and whose removal was asked for
/// and succeeded. The old entries take their outcomes in the order of the
/// listing; one without an outcome was not removed.
pub open spec fn left_behind(
    entries: Seq<EntryView>,
    now: nat,
    limit: nat,
    mode: Mode,
    outcomes: Seq<bool>,
) -> Seq<EntryView>
    decreases entries.len(),
{
    if entries.len() == 0 {
        entries
    } else {
        let front = entries.drop_last();
        let turn = old_entries(front, now, limit).len() as int;
        let removed = mode == Mode::Delete && too_old(entries.last().modified, now, limit) && turn
            < outcomes.len() && outcomes[turn];
        if removed {
            left_behind(front, now, limit, mode, outcomes)
        } else {
            left_behind(front, now, limit, mode, outcomes).push(entries.last())
        }
    }
}

/// A dry run leaves the directory as it found it: every entry of the
/// listing is still there afterwards, whatever was recorded.
pub proof fn lemma_dry_run_leaves_all(
    entries: Seq<EntryView>,
    now: nat,
    limit: nat,
    outcomes: Seq<bool>,
)
    ensures
        left_behind(entries, now, limit, Mode::Report, outcomes) == entries,
    decreases entries.len(),
{
    if entries.len() > 0 {
        lemma_dry_run_leaves_all(entries.drop_last(), now, limit, outcomes);
        assert(entries.drop_last().push(entries.last()) =~= entries);
    }
}

/// The first `attempts` of the outcomes are there, and each is a success.
pub open spec fn all_succeeded(outcomes: Seq<bool>, attempts: nat) -> bool {
    &&& outcomes.len() >= attempts
    &&& forall|i: int| 0 <= i < attempts ==> #[trigger] outcomes[i]
}

/// When every removal succeeds, what is left is what was not too old.
pub proof fn lemma_all_removed_leaves_young(
    entries: Seq<EntryView>,
    now: nat,
    limit: nat,
    outcomes: Seq<bool>,
)
    requires
        all_succeeded(outcomes, old_entries(entries, now, limit).len()),
    ensures
        left_behind(entries, now, limit, Mode::Delete, outcomes) == entries.filter(
            |entry: EntryView| !too_old(entry.modified, now, limit),
        ),
    decreases entries.len(),
{
    reveal(Seq::filter);
    if entries.len() > 0 {
        let front = entries.drop_last();
        assert(old_entries(entries, now, limit) == if too_old(entries.last().modified, now, limit) {
            old_entries(front, now, limit).push(entries.last())
        } else {
            old_entries(front, now, limit)
        });
        lemma_all_removed_leaves_young(front, now, limit, outcomes);
    }
}

/// Running twice in a row deletes nothing the second time. Given that
/// every removal of the first run succeeded, that nothing was added to the
/// directory in between, and that no entry which the first run kept has
/// become too old by the time the second run reads the clock, the second
/// run finds no entry too old and reports 0 deleted, whatever its own
/// removals would have done.
pub proof fn lemma_second_run_deletes_nothing(
    entries: Seq<EntryView>,
    limit: nat,
    now: nat,
    later: nat,
    first: Seq<bool>,
    second: Seq<bool>,
)
    requires
        all_succeeded(first, old_entries(entries, now, limit).len()),
        forall|i: int|
            0 <= i < entries.len() && !too_old(#[trigger] entries[i].modified, now, limit)
                ==> !too_old(entries[i].modified, later, limit),
    ensures
        ({
            let left = left_behind(entries, now, limit, Mode::Delete, first);
            let again = SweepView::start(
                Mode::Delete,
                old_entries(left, later, limit),
                left.len(),
            );
            &&& old_entries(left, later, limit).len() == 0
            &&& again.run(second).count() == 0
            &&& again.run(second).next() == ActionView::Finished(0, left.len())
        }),
{
    let young = |entry: EntryView| !too_old(entry.modified, now, limit);
    let left = left_behind(entries, now, limit, Mode::Delete, first);
    lemma_all_removed_leaves_young(entries, now, limit, first);
    assert forall|j: int| 0 <= j < left.len() implies !is_old(later, limit)(#[trigger] left[j]) by {
        entries.lemma_filter_pred(young, j);
        entries.lemma_filter_contains_rev(young, left[j]);
        let i = choose|i: int| 0 <= i < entries.len() && entries[i] == left[j];
        assert(!too_old(entries[i].modified, now, limit));
    }
    left.lemma_all_neg_filter_empty(is_old(later, limit));
    let again = SweepView::start(Mode::Delete, old_entries(left, later, limit), left.len());
    assert(again.finished());
    assert(again.run(second) == again);
    reveal(Seq::filter);
}

} // verus!
