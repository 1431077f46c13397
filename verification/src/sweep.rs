//! One pass over the old entries of a directory.
//!
//! The library cannot touch the disk. It hands the caller one action at a
//! time; the caller carries it out and reports how it went, and the sweep
//! moves on to the next entry, whether the action succeeded or not.

use crate::entry::{views, DirectoryEntry, EntryView};
use vstd::prelude::*;

verus! {

/// What is done with an old entry.
#[derive(Clone, Copy, Debug, PartialEq, Eq, Structural)]
pub enum Mode {
    /// The entry is removed.
    Delete,
    /// The entry is shown and left where it is.
    Report,
}

/// What the caller is to do next.
#[derive(Clone, Copy, Debug)]
pub enum Action<'a> {
    /// Remove the file at this path, then record whether that succeeded.
    Remove(&'a str),
    /// Show this path, then record that it was shown.
    Report(&'a str),
    /// Nothing is left to do. The first number counts the entries that were
    /// removed (shown, in a dry run), the second all that were examined.
    Finished(usize, usize),
}

/// An `Action` as the contracts see it.
pub enum ActionView {
    Remove(Seq<char>),
    Report(Seq<char>),
    Finished(nat, nat),
}

impl<'a> View for Action<'a> {
    type V = ActionView;

    open spec fn view(&self) -> ActionView {
        match self {
            Action::Remove(path) => ActionView::Remove(path@),
            Action::Report(path) => ActionView::Report(path@),
            Action::Finished(count, total) => ActionView::Finished(*count as nat, *total as nat),
        }
    }
}

/// How many of the attempts succeeded.
pub open spec fn successes(outcomes: Seq<bool>) -> nat {
    outcomes.filter(|done: bool| done).len()
}

/// The state of a sweep: what is done with old entries, the old entries in
/// the order of the listing, the number of entries that were examined, and
/// how each action that was carried out so far has gone.
pub struct SweepView {
    pub mode: Mode,
    pub old: Seq<EntryView>,
    pub total: nat,
    pub outcomes: Seq<bool>,
}

impl SweepView {
    /// The state before anything was done.
    pub open spec fn start(mode: Mode, old: Seq<EntryView>, total: nat) -> SweepView {
        SweepView { mode, old, total, outcomes: Seq::empty() }
    }

    /// No more outcomes than old entries, no more old entries than entries.
    pub open spec fn valid(self) -> bool {
        self.outcomes.len() <= self.old.len() <= self.total
    }

    /// Every old entry has had its turn.
    pub open spec fn finished(self) -> bool {
        self.outcomes.len() >= self.old.len()
    }

    /// The first of the two counts: the entries whose removal succeeded or,
    /// in a dry run, the entries that were shown.
    pub open spec fn count(self) -> nat {
        match self.mode {
            Mode::Delete => successes(self.outcomes),
            Mode::Report => self.outcomes.len(),
        }
    }

    /// The action that is due in this state.
    pub open spec fn next(self) -> ActionView {
        if self.finished() {
            ActionView::Finished(self.count(), self.total)
        } else {
            match self.mode {
                Mode::Delete => ActionView::Remove(self.old[self.outcomes.len() as int].path),
                Mode::Report => ActionView::Report(self.old[self.outcomes.len() as int].path),
            }
        }
    }

    /// The state after the action that was due has been carried out, with
    /// or without success. A finished sweep stays as it is.
    pub open spec fn record(self, done: bool) -> SweepView {
        if self.finished() {
            self
        } else {
            SweepView { outcomes: self.outcomes.push(done), ..self }
        }
    }

    /// The final state that carrying out every action leads to, the
    /// attempts going as `outcomes` says, one after the other. Attempts
    /// that `outcomes` does not cover count as failed.
    pub open spec fn run(self, outcomes: Seq<bool>) -> SweepView
        decreases self.old.len() - self.outcomes.len(),
    {
        if self.finished() {
            self
        } else if outcomes.len() == 0 {
            self.record(false).run(outcomes)
        } else {
            self.record(outcomes.first()).run(outcomes.drop_first())
        }
    }
}

/// Nothing was attempted, nothing succeeded.
pub proof fn lemma_successes_empty()
    ensures
        successes(Seq::<bool>::empty()) == 0,
{
    reveal(Seq::filter);
}

/// One more attempt adds one to the successes if it succeeded, and nothing
/// if it failed.
pub proof fn lemma_successes_push(outcomes: Seq<bool>, done: bool)
    ensures
        successes(outcomes.push(done)) == successes(outcomes) + if done {
            1nat
        } else {
            0nat
        },
{
    reveal(Seq::filter);
    assert(outcomes.push(done).drop_last() =~= outcomes);
}

/// No more successes than attempts.
pub proof fn lemma_successes_bounded(outcomes: Seq<bool>)
    ensures
        successes(outcomes) <= outcomes.len(),
{
    outcomes.lemma_filter_len(|done: bool| done);
}

/// In every state that a sweep can be in, the first count is no larger
/// than the number of old entries, and that no larger than the second.
pub proof fn lemma_count_bounded(state: SweepView)
    requires
        state.valid(),
    ensures
        state.count() <= state.outcomes.len() <= state.old.len() <= state.total,
{
    lemma_successes_bounded(state.outcomes);
}

/// How the first count moves with one recorded outcome: up by one for an
/// entry that was removed or shown, not at all for a removal that failed or
/// in a sweep that is finished.
pub proof fn lemma_count_step(state: SweepView, done: bool)
    ensures
        state.record(done).count() == state.count() + if !state.finished() && (done || state.mode
            == Mode::Report) {
            1nat
        } else {
            0nat
        },
        state.valid() ==> state.record(done).valid(),
        state.record(done).mode == state.mode,
{
    lemma_successes_push(state.outcomes, done);
}

/// A pass over the old entries of one listing.
pub struct Sweep {
    mode: Mode,
    old: Vec<DirectoryEntry>,
    total: usize,
    cursor: usize,
    count: usize,
    outcomes: Ghost<Seq<bool>>,
}

impl View for Sweep {
    type V = SweepView;

    closed spec fn view(&self) -> SweepView {
        SweepView {
            mode: self.mode,
            old: views(self.old@),
            total: self.total as nat,
            outcomes: self.outcomes@,
        }
    }
}

impl Sweep {
    #[verifier::type_invariant]
    spec fn well_formed(self) -> bool {
        &&& self@.valid()
        &&& self.cursor == self.outcomes@.len()
        &&& self.count == self@.count()
    }

    /// A sweep that has done nothing yet.
    pub(crate) fn start(mode: Mode, old: Vec<DirectoryEntry>, total: usize) -> (sweep: Sweep)
        requires
            old@.len() <= total,
        ensures
            sweep@ == SweepView::start(mode, views(old@), total as nat),
    {
        proof {
            lemma_successes_empty();
        }
        Sweep { mode, old, total, cursor: 0, count: 0, outcomes: Ghost(Seq::empty()) }
    }

    /// What is done with old entries in this sweep.
    pub fn mode(&self) -> (mode: Mode)
        ensures
            mode == self@.mode,
    {
        self.mode
    }

    /// The action that is due. In a dry run it is never a removal, and the
    /// numbers of a finished sweep are never out of order.
    pub fn next_action(&self) -> (action: Action<'_>)
        ensures
            self@.valid(),
            action@ == self@.next(),
            self@.mode == Mode::Report ==> !(action is Remove),
            action matches Action::Finished(count, total) ==> count <= total,
    {
        proof {
            use_type_invariant(self);
            lemma_count_bounded(self@);
        }
        if self.cursor < self.old.len() {
            assert(views(self.old@)[self.cursor as int] == self.old@[self.cursor as int]@);
            let path = self.old[self.cursor].path();
            match self.mode {
                Mode::Delete => Action::Remove(path),
                Mode::Report => Action::Report(path),
            }
        } else {
            Action::Finished(self.count, self.total)
        }
    }

    /// Takes note of how the action that was due has gone and moves on to
    /// the next entry. An action that failed is not counted and stops
    /// nothing: the entries after it get their turn all the same.
    pub fn record(self, done: bool) -> (sweep: Sweep)
        ensures
            sweep@ == self@.record(done),
    {
        proof {
            use_type_invariant(&self);
            lemma_count_bounded(self@);
            lemma_count_step(self@, done);
        }
        if self.cursor < self.old.len() {
            let counted = match self.mode {
                Mode::Delete => done,
                Mode::Report => true,
            };
            let count = if counted {
                self.count + 1
            } else {
                self.count
            };
            Sweep {
                mode: self.mode,
                old: self.old,
                total: self.total,
                cursor: self.cursor + 1,
                count,
                outcomes: Ghost(self.outcomes@.push(done)),
            }
        } else {
            self
        }
    }
}

} // verus!
