//! The age rule: when an entry counts as too old.

use crate::entry::EntryView;
use vstd::prelude::*;

verus! {

/// An entry last modified at `modified` is too old at `now` when strictly
/// more than `limit` seconds lie between the two. An entry whose age is
/// exactly `limit` is kept, and so is one that was modified after `now`.
pub open spec fn too_old(modified: nat, now: nat, limit: nat) -> bool {
    now - modified > limit
}

/// The rule as a test on entries.
pub open spec fn is_old(now: nat, limit: nat) -> spec_fn(EntryView) -> bool {
    |entry: EntryView| too_old(entry.modified, now, limit)
}

/// The entries that are too old at `now`, in the order of the listing.
pub open spec fn old_entries(entries: Seq<EntryView>, now: nat, limit: nat) -> Seq<EntryView> {
    entries.filter(is_old(now, limit))
}

/// Decides `too_old` on machine integers, without overflow.
pub fn exceeds_limit(modified: u64, now: u64, limit: u64) -> (old: bool)
    ensures
        old == too_old(modified as nat, now as nat, limit as nat),
{
    now > modified && now - modified > limit
}

} // verus!
