//! The filter itself: a directory, an age limit, and what follows from them.

use crate::age::{exceeds_limit, is_old, old_entries, too_old};
use crate::clock::current_time;
use crate::entry::{list_entries, listed, views, DirectoryEntry, DirectoryUnreadable, EntryView};
use crate::sweep::{Mode, Sweep, SweepView};
use vstd::prelude::*;

verus! {

/// The entries of `entries` that `kept` marks, in their order. Marks beyond
/// the entries, and entries beyond the marks, count for nothing.
pub open spec fn marked(entries: Seq<EntryView>, kept: Seq<bool>) -> Seq<EntryView>
    decreases entries.len(),
{
    if entries.len() == 0 || kept.len() < entries.len() {
        Seq::empty()
    } else if kept[entries.len() - 1] {
        marked(entries.drop_last(), kept).push(entries.last())
    } else {
        marked(entries.drop_last(), kept)
    }
}

/// Marking the entries by a test picks out what filtering by it does.
pub proof fn lemma_marked_is_filter(
    entries: Seq<EntryView>,
    kept: Seq<bool>,
    test: spec_fn(EntryView) -> bool,
)
    requires
        kept.len() >= entries.len(),
        forall|i: int| 0 <= i < entries.len() ==> kept[i] == test(#[trigger] entries[i]),
    ensures
        marked(entries, kept) == entries.filter(test),
    decreases entries.len(),
{
    reveal(Seq::filter);
    if entries.len() > 0 {
        lemma_marked_is_filter(entries.drop_last(), kept, test);
    }
}

/// Marks beyond the entries do not matter.
pub proof fn lemma_marked_extends(entries: Seq<EntryView>, kept: Seq<bool>, more: bool)
    requires
        kept.len() >= entries.len(),
    ensures
        marked(entries, kept.push(more)) == marked(entries, kept),
    decreases entries.len(),
{
    if entries.len() > 0 {
        lemma_marked_extends(entries.drop_last(), kept, more);
    }
}

/// RmOlder deletes files that are too old from one directory. Give it the
/// directory and the greatest age to keep, and let it decide.
#[derive(Clone, Copy, Debug)]
pub struct RmOlder<'s> {
    dir: &'s str,
    limit_age: u64,
}

impl<'s> RmOlder<'s> {
    /// The directory to work in.
    pub closed spec fn dir(&self) -> Seq<char> {
        self.dir@
    }

    /// The age in seconds beyond which an entry is too old.
    pub closed spec fn limit(&self) -> nat {
        self.limit_age as nat
    }

    /// A filter for the directory `scan_dir` that keeps what is at most
    /// `max_age` seconds old.
    pub fn new(scan_dir: &'s str, max_age: u64) -> (rmolder: RmOlder<'s>)
        ensures
            rmolder.dir() == scan_dir@,
            rmolder.limit() == max_age,
    {
        RmOlder { dir: scan_dir, limit_age: max_age }
    }

    /// The directory that this filter works in.
    pub fn directory(&self) -> (dir: &'s str)
        ensures
            dir@ == self.dir(),
    {
        self.dir
    }

    /// The greatest age, in seconds, that this filter keeps.
    pub fn limit_age(&self) -> (limit: u64)
        ensures
            limit == self.limit(),
    {
        self.limit_age
    }

    /// Whether a file last modified at `file_age` is old enough at `now` to
    /// be deleted: whether more than the limit lies between the two. Both
    /// are seconds since the epoch.
    pub fn is_too_old(&self, file_age: u64, now: u64) -> (old: bool)
        ensures
            old == too_old(file_age as nat, now as nat, self.limit()),
    {
        exceeds_limit(file_age, now, self.limit_age)
    }

    /// The entries of the listing that `predicate` accepts, in the order of
    /// the listing. A directory that could not be read has none.
    pub fn find<F: Fn(&DirectoryEntry) -> bool>(
        &self,
        listing: Result<Vec<DirectoryEntry>, DirectoryUnreadable>,
        predicate: F,
    ) -> (found: Vec<DirectoryEntry>)
        requires
            listing matches Ok(entries) ==> forall|i: int|
                0 <= i < entries@.len() ==> call_requires(predicate, (&#[trigger] entries@[i],)),
        ensures
            listing is Err ==> found@.len() == 0,
            listing matches Ok(entries) ==> exists|kept: Seq<bool>|
                {
                    &&& kept.len() == entries@.len()
                    &&& forall|i: int|
                        0 <= i < entries@.len() ==> call_ensures(
                            predicate,
                            (&#[trigger] entries@[i],),
                            kept[i],
                        )
                    &&& views(found@) == marked(views(entries@), kept)
                },
    {
        let entries = list_entries(listing);
        let ghost all = entries@;
        let ghost mut kept: Seq<bool> = Seq::empty();
        let mut found: Vec<DirectoryEntry> = Vec::new();
        for entry in it: entries
            invariant
                it.seq() == all,
                listing matches Ok(given) ==> given@ == all,
                listing is Err ==> all.len() == 0,
                forall|i: int|
                    0 <= i < all.len() ==> call_requires(predicate, (&#[trigger] all[i],)),
                kept.len() == it.index(),
                forall|i: int|
                    0 <= i < it.index() ==> call_ensures(predicate, (&#[trigger] all[i],), kept[i]),
                views(found@) == marked(views(all.take(it.index() as int)), kept),
        {
            let ghost at = it.index() as int;
            let keep = predicate(&entry);
            proof {
                let before = views(all.take(at));
                let after = views(all.take(at + 1));
                assert(after.drop_last() =~= before);
                assert(after.last() == entry@);
                lemma_marked_extends(before, kept, keep);
                kept = kept.push(keep);
            }
            if keep {
                proof {
                    assert(views(found@.push(entry)) =~= views(found@).push(entry@));
                }
                found.push(entry);
            }
        }
        proof {
            assert(all.take(all.len() as int) =~= all);
        }
        found
    }

    /// Sorts the listing by age as of `now`: the entries that are too old,
    /// in the order of the listing, and the number of entries examined. A
    /// directory that could not be read gives no entries and the number 0.
    pub fn classify_at(
        &self,
        listing: Result<Vec<DirectoryEntry>, DirectoryUnreadable>,
        now: u64,
    ) -> (sorted: (Vec<DirectoryEntry>, usize))
        ensures
            views(sorted.0@) == old_entries(listed(listing), now as nat, self.limit()),
            sorted.1 == listed(listing).len(),
            sorted.0@.len() <= sorted.1,
            listing is Err ==> sorted.0@.len() == 0 && sorted.1 == 0,
    {
        let total = match &listing {
            Ok(entries) => entries.len(),
            Err(_) => 0,
        };
        let limit = self.limit_age;
        let test = |entry: &DirectoryEntry| -> (old: bool)
            ensures
                old == too_old(entry@.modified, now as nat, limit as nat),
            { exceeds_limit(entry.last_modified_seconds(), now, limit) };
        let ghost asked = listing;
        let found = self.find(listing, test);
        proof {
            let entries = listed(asked);
            let rule = is_old(now as nat, self.limit());
            match asked {
                Ok(given) => {
                    let kept = choose|kept: Seq<bool>|
                        {
                            &&& kept.len() == given@.len()
                            &&& forall|i: int|
                                0 <= i < given@.len() ==> call_ensures(
                                    test,
                                    (&#[trigger] given@[i],),
                                    kept[i],
                                )
                            &&& views(found@) == marked(views(given@), kept)
                        };
                    assert forall|i: int| 0 <= i < entries.len() implies kept[i] == rule(
                        #[trigger] entries[i],
                    ) by {
                        assert(call_ensures(test, (&given@[i],), kept[i]));
                    }
                    lemma_marked_is_filter(entries, kept, rule);
                },
                Err(_) => {
                    reveal(Seq::filter);
                },
            }
            entries.lemma_filter_len(rule);
        }
        (found, total)
    }

    /// Sorts the listing by age as of now. The clock is read once, before
    /// the first entry is looked at, and every entry is held against that
    /// one reading.
    pub fn classify(&self, listing: Result<Vec<DirectoryEntry>, DirectoryUnreadable>) -> (sorted: (
        Vec<DirectoryEntry>,
        usize,
    ))
        ensures
            exists|now: u64|
                views(sorted.0@) == #[trigger] old_entries(
                    listed(listing),
                    now as nat,
                    self.limit(),
                ),
            sorted.1 == listed(listing).len(),
            sorted.0@.len() <= sorted.1,
            listing is Err ==> sorted.0@.len() == 0 && sorted.1 == 0,
    {
        let now = current_time();
        self.classify_at(listing, now)
    }

    /// Starts a sweep over the entries that are too old as of `now`: in
    /// mode `Delete` it asks for each of them to be removed, in mode
    /// `Report` for each of them to be shown.
    pub fn inner_run(
        &self,
        listing: Result<Vec<DirectoryEntry>, DirectoryUnreadable>,
        now: u64,
        mode: Mode,
    ) -> (sweep: Sweep)
        ensures
            sweep@ == SweepView::start(
                mode,
                old_entries(listed(listing), now as nat, self.limit()),
                listed(listing).len(),
            ),
    {
        let (old, total) = self.classify_at(listing, now);
        Sweep::start(mode, old, total)
    }

    /// Deletes old files: starts a sweep that asks for each entry that is
    /// too old as of now to be removed. Its final action gives the number
    /// of files deleted and the total count of files.
    pub fn run(&self, listing: Result<Vec<DirectoryEntry>, DirectoryUnreadable>) -> (sweep: Sweep)
        ensures
            exists|now: u64|
                sweep@ == SweepView::start(
                    Mode::Delete,
                    #[trigger] old_entries(listed(listing), now as nat, self.limit()),
                    listed(listing).len(),
                ),
    {
        let now = current_time();
        self.inner_run(listing, now, Mode::Delete)
    }

    /// Lists old files, but does nothing else: starts a sweep that asks
    /// for each entry that is too old as of now to be shown, and for none
    /// to be removed. Its final action gives the number of old files and
    /// the total count of files.
    pub fn dry_run(&self, listing: Result<Vec<DirectoryEntry>, DirectoryUnreadable>) -> (sweep:
        Sweep)
        ensures
            exists|now: u64|
                sweep@ == SweepView::start(
                    Mode::Report,
                    #[trigger] old_entries(listed(listing), now as nat, self.limit()),
                    listed(listing).len(),
                ),
    {
        let now = current_time();
        self.inner_run(listing, now, Mode::Report)
    }
}

} // verus!
