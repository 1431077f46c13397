//! One child of the directory, as it was seen when the directory was listed.

use vstd::prelude::*;

verus! {

/// What an entry is to the contracts: a path and the second it was last
/// modified, counted from the epoch.
pub struct EntryView {
    pub path: Seq<char>,
    pub modified: nat,
}

/// A snapshot of one file: its path and its last-modified time in seconds
/// since the epoch. Nothing changes it once it is made.
#[derive(Clone, Debug)]
pub struct DirectoryEntry {
    path: String,
    last_modified_seconds: u64,
}

impl View for DirectoryEntry {
    type V = EntryView;

    closed spec fn view(&self) -> EntryView {
        EntryView { path: self.path@, modified: self.last_modified_seconds as nat }
    }
}

/// The entries of a vector as the contracts see them.
pub open spec fn views(entries: Seq<DirectoryEntry>) -> Seq<EntryView> {
    entries.map_values(|entry: DirectoryEntry| entry@)
}

/// The directory could not be listed: it does not exist, is no directory,
/// or may not be read.
#[derive(Clone, Copy, Debug, PartialEq, Eq, Structural)]
pub struct DirectoryUnreadable;

/// What a listing amounts to. A directory that could not be read counts as
/// an empty one: there is nothing in it to examine and nothing to remove.
pub open spec fn listed(listing: Result<Vec<DirectoryEntry>, DirectoryUnreadable>) -> Seq<
    EntryView,
> {
    match listing {
        Ok(entries) => views(entries@),
        Err(_) => Seq::empty(),
    }
}

/// The entries to examine, whatever became of the attempt to list the
/// directory.
pub fn list_entries(listing: Result<Vec<DirectoryEntry>, DirectoryUnreadable>) -> (entries: Vec<
    DirectoryEntry,
>)
    ensures
        views(entries@) == listed(listing),
        listing matches Ok(given) ==> entries == given,
        listing is Err ==> entries@.len() == 0,
{
    match listing {
        Ok(entries) => entries,
        Err(_) => Vec::new(),
    }
}

impl DirectoryEntry {
    /// An entry for `path`, last modified `last_modified_seconds` after the epoch.
    pub fn new(path: String, last_modified_seconds: u64) -> (entry: DirectoryEntry)
        ensures
            entry@ == (EntryView { path: path@, modified: last_modified_seconds as nat }),
    {
        DirectoryEntry { path, last_modified_seconds }
    }

    /// An entry for `path` whose modification time is known in milliseconds
    /// since the epoch; the fraction of a second is dropped.
    pub fn from_millis(path: String, modified_millis: u64) -> (entry: DirectoryEntry)
        ensures
            entry@ == (EntryView { path: path@, modified: (modified_millis / 1000) as nat }),
    {
        DirectoryEntry { path, last_modified_seconds: modified_millis / 1000 }
    }

    /// The path of the file.
    pub fn path(&self) -> (path: &str)
        ensures
            path@ == self@.path,
    {
        self.path.as_str()
    }

    /// When the file was last modified, in seconds since the epoch.
    pub fn last_modified_seconds(&self) -> (seconds: u64)
        ensures
            seconds == self@.modified,
    {
        self.last_modified_seconds
    }
}

} // verus!
