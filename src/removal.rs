//! What happens to each entry of the working directory, and what a run
//! reports at its end.
//!
//! An entry that the preserve-set names is kept. Any other entry that is not a
//! directory is removed as it stands (a symbolic link is removed as a link).
//! A directory is removed with all its contents in recursive mode; otherwise,
//! where empty directories may go, it is listed first and removed only when
//! empty; otherwise it is refused. A refusal, or a failure of the caller's
//! filesystem work, is recorded against the entry and the run goes on.

use vstd::prelude::*;
use crate::preflight::{PreserveSet, RunConfig};

verus! {

/// The kind of a directory entry.
#[derive(Clone, Copy, Debug, PartialEq, Eq, Structural)]
pub enum EntryKind {
    File,
    Directory,
    Symlink,
    Other,
}

/// Why the removal policy refuses an entry.
#[derive(Clone, Copy, Debug, PartialEq, Eq, Structural)]
pub enum EntryError {
    /// The entry is a directory and no directory may be removed.
    IsADirectory,
    /// The entry is a directory that only empty directories may follow, and
    /// it is not empty.
    DirectoryNotEmpty,
}

/// What the caller does next with an entry.
#[derive(Clone, Copy, Debug, PartialEq, Eq, Structural)]
pub enum EntryAction {
    /// Leave the entry in place: it is preserved.
    Keep,
    /// Remove the entry itself; a symbolic link is not followed.
    RemoveFile,
    /// Remove the directory and everything inside it.
    RemoveTree,
    /// List the directory, then ask again with whether it was empty.
    ListDirectory,
    /// Remove the directory, which was found empty.
    RemoveEmptyDirectory,
    /// Leave the entry in place and record it as failed.
    Refuse(EntryError),
}

/// The first decision on an entry, from the run's flags, whether the entry is
/// preserved, and its kind.
pub open spec fn first_action(
    recursive: bool,
    dirs: bool,
    preserved: bool,
    kind: EntryKind,
) -> EntryAction {
    if preserved {
        EntryAction::Keep
    } else if kind != EntryKind::Directory {
        EntryAction::RemoveFile
    } else if recursive {
        EntryAction::RemoveTree
    } else if dirs {
        EntryAction::ListDirectory
    } else {
        EntryAction::Refuse(EntryError::IsADirectory)
    }
}

/// The decision on a directory once it has been listed.
pub open spec fn listed_action(is_empty: bool) -> EntryAction {
    if is_empty {
        EntryAction::RemoveEmptyDirectory
    } else {
        EntryAction::Refuse(EntryError::DirectoryNotEmpty)
    }
}

/// The final decision on an entry; `is_empty` matters only where the entry
/// had to be listed.
pub open spec fn entry_action(
    recursive: bool,
    dirs: bool,
    preserved: bool,
    kind: EntryKind,
    is_empty: bool,
) -> EntryAction {
    let first = first_action(recursive, dirs, preserved, kind);
    if first == EntryAction::ListDirectory {
        listed_action(is_empty)
    } else {
        first
    }
}

/// The action deletes the entry.
pub open spec fn removes(a: EntryAction) -> bool {
    a == EntryAction::RemoveFile || a == EntryAction::RemoveTree || a
        == EntryAction::RemoveEmptyDirectory
}

/// Decides what happens first to the entry called `name` of kind `kind`.
pub fn plan_entry(config: &RunConfig, keep: &PreserveSet, name: &str, kind: EntryKind) -> (r:
    EntryAction)
    ensures
        r == first_action(config.recursive, config.dirs, keep@.contains(name@), kind),
{
    if keep.contains(name) {
        EntryAction::Keep
    } else if kind != EntryKind::Directory {
        EntryAction::RemoveFile
    } else if config.recursive {
        EntryAction::RemoveTree
    } else if config.dirs {
        EntryAction::ListDirectory
    } else {
        EntryAction::Refuse(EntryError::IsADirectory)
    }
}

/// Decides what happens to a directory after `ListDirectory`, from whether
/// the listing found it empty.
pub fn plan_listed_directory(is_empty: bool) -> (r: EntryAction)
    ensures
        r == listed_action(is_empty),
{
    if is_empty {
        EntryAction::RemoveEmptyDirectory
    } else {
        EntryAction::Refuse(EntryError::DirectoryNotEmpty)
    }
}

/// Why an entry failed.
#[derive(Clone, Copy, Debug, PartialEq, Eq, Structural)]
pub enum FailureCause {
    /// The removal policy refused the entry.
    Policy(EntryError),
    /// The entry could not be read from the directory listing.
    ReadEntry,
    /// The entry's kind could not be determined.
    Kind,
    /// The directory could not be listed.
    List,
    /// The filesystem refused the removal.
    Remove,
}

/// One failed entry: its path as the listing gave it (empty where the entry
/// could not be read at all), and the cause.
pub struct EntryFailure {
    pub entry: String,
    pub cause: FailureCause,
}

/// The failures of a run so far, in the order they happened. Earlier
/// deletions stand whatever fails later.
pub struct RunReport {
    failures: Vec<EntryFailure>,
}

impl View for RunReport {
    type V = Seq<(Seq<char>, FailureCause)>;

    closed spec fn view(&self) -> Seq<(Seq<char>, FailureCause)> {
        self.failures@.map_values(|f: EntryFailure| (f.entry@, f.cause))
    }
}

impl RunReport {
    /// A report with no failure.
    pub fn new() -> (r: RunReport)
        ensures
            r@ == Seq::<(Seq<char>, FailureCause)>::empty(),
    {
        let r = RunReport { failures: Vec::new() };
        assert(r@ =~= Seq::<(Seq<char>, FailureCause)>::empty());
        r
    }

    /// Records that `entry` failed for `cause`.
    pub fn record(&mut self, entry: String, cause: FailureCause)
        ensures
            final(self)@ == old(self)@.push((entry@, cause)),
    {
        let ghost e = entry@;
        self.failures.push(EntryFailure { entry, cause });
        assert(self@ =~= old(self)@.push((e, cause)));
    }

    /// How many entries failed.
    pub fn failure_count(&self) -> (r: usize)
        ensures
            r == self@.len(),
    {
        self.failures.len()
    }

    /// Whether every entry was handled without failure.
    pub fn succeeded(&self) -> (r: bool)
        ensures
            r == (self@.len() == 0),
    {
        self.failures.len() == 0
    }

    /// The process status of a finished run: 0 when nothing failed, 1 when
    /// anything did.
    pub fn exit_code(&self) -> (r: u8)
        ensures
            r == 0 <==> self@.len() == 0,
            r == 0 || r == 1,
    {
        if self.failures.len() == 0 {
            0
        } else {
            1
        }
    }
}

} // verus!
