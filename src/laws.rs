//! What a whole run does to the working directory, and the laws that hold of
//! it.
//!
//! A listing is the working directory's entries as a run sees them: each
//! entry's name, its kind, and whether it is empty (which matters only for a
//! directory that has to be listed). `found[i]` says whether the `i`-th
//! preserve-target exists. The contents after a run are stated for the case
//! where every removal that the caller performs succeeds.

use vstd::prelude::*;
use crate::path::components_of;
use crate::preflight::{all_accepted, existence_refuses, preserved_names, target_accepted, RunConfig};
use crate::removal::{entry_action, removes, EntryAction, EntryError, EntryKind};

verus! {

/// The names in a listing.
pub open spec fn names_of(listing: Seq<(Seq<char>, EntryKind, bool)>) -> Set<Seq<char>> {
    Set::new(|n: Seq<char>| exists|i: int| 0 <= i < listing.len() && #[trigger] listing[i].0 == n)
}

/// The final decision on the `i`-th entry of a listing.
pub open spec fn action_at(
    recursive: bool,
    dirs: bool,
    keep: Seq<Seq<char>>,
    listing: Seq<(Seq<char>, EntryKind, bool)>,
    i: int,
) -> EntryAction {
    entry_action(recursive, dirs, keep.contains(listing[i].0), listing[i].1, listing[i].2)
}

/// The names of the entries that a scan leaves in place.
pub open spec fn remaining(
    recursive: bool,
    dirs: bool,
    keep: Seq<Seq<char>>,
    listing: Seq<(Seq<char>, EntryKind, bool)>,
) -> Set<Seq<char>> {
    Set::new(
        |n: Seq<char>|
            exists|i: int|
                0 <= i < listing.len() && #[trigger] listing[i].0 == n && !removes(
                    action_at(recursive, dirs, keep, listing, i),
                ),
    )
}

/// The names of the entries that the removal policy refuses.
pub open spec fn refused(
    recursive: bool,
    dirs: bool,
    keep: Seq<Seq<char>>,
    listing: Seq<(Seq<char>, EntryKind, bool)>,
) -> Set<Seq<char>> {
    Set::new(
        |n: Seq<char>|
            exists|i: int|
                0 <= i < listing.len() && #[trigger] listing[i].0 == n && action_at(
                    recursive,
                    dirs,
                    keep,
                    listing,
                    i,
                ) is Refuse,
    )
}

/// The preflight gates let the run go on.
pub open spec fn run_proceeds(config: RunConfig, found: Seq<bool>) -> bool {
    !existence_refuses(config.force, found) && all_accepted(
        components_of(config.cwd@),
        config.targets.deep_view(),
    )
}

/// The names left in the working directory after a run.
pub open spec fn contents_after_run(
    config: RunConfig,
    found: Seq<bool>,
    listing: Seq<(Seq<char>, EntryKind, bool)>,
) -> Set<Seq<char>> {
    if run_proceeds(config, found) {
        remaining(
            config.recursive,
            config.dirs,
            preserved_names(components_of(config.cwd@), config.targets.deep_view()),
            listing,
        )
    } else {
        names_of(listing)
    }
}

/// Without force mode, a run with no preserve-target deletes nothing.
pub proof fn law_empty_target_list_deletes_nothing(
    config: RunConfig,
    found: Seq<bool>,
    listing: Seq<(Seq<char>, EntryKind, bool)>,
)
    requires
        !config.force,
        config.targets.len() == 0,
        found.len() == config.targets.len(),
    ensures
        !run_proceeds(config, found),
        contents_after_run(config, found, listing) == names_of(listing),
{
}

/// A run with a preserve-target that does not lie directly inside the working
/// directory deletes nothing, in force mode or not.
pub proof fn law_outside_target_deletes_nothing(
    config: RunConfig,
    found: Seq<bool>,
    listing: Seq<(Seq<char>, EntryKind, bool)>,
    i: int,
)
    requires
        0 <= i < config.targets.len(),
        !target_accepted(components_of(config.cwd@), config.targets.deep_view()[i]),
    ensures
        !run_proceeds(config, found),
        contents_after_run(config, found, listing) == names_of(listing),
{
}

/// Preserved entries survive every run, whatever its flags. When the run goes
/// on and no entry is refused, exactly the preserved entries remain.
pub proof fn law_preserved_entries_survive(
    config: RunConfig,
    found: Seq<bool>,
    listing: Seq<(Seq<char>, EntryKind, bool)>,
)
    ensures
        forall|n: Seq<char>|
            names_of(listing).contains(n) && preserved_names(
                components_of(config.cwd@),
                config.targets.deep_view(),
            ).contains(n) ==> #[trigger] contents_after_run(config, found, listing).contains(
                n,
            ),
        run_proceeds(config, found) && refused(
            config.recursive,
            config.dirs,
            preserved_names(components_of(config.cwd@), config.targets.deep_view()),
            listing,
        ).is_empty() ==> contents_after_run(config, found, listing) == names_of(
            listing,
        ).intersect(preserved_names(components_of(config.cwd@), config.targets.deep_view()).to_set()),
{
    let keep = preserved_names(components_of(config.cwd@), config.targets.deep_view());
    let after = contents_after_run(config, found, listing);
    assert forall|n: Seq<char>|
        names_of(listing).contains(n) && keep.contains(n) implies #[trigger] after.contains(n) by {
        if run_proceeds(config, found) {
            let i = choose|i: int| 0 <= i < listing.len() && #[trigger] listing[i].0 == n;
            assert(action_at(config.recursive, config.dirs, keep, listing, i)
                == EntryAction::Keep);
        }
    }
    if run_proceeds(config, found) && refused(config.recursive, config.dirs, keep, listing).is_empty() {
        let want = names_of(listing).intersect(keep.to_set());
        assert forall|n: Seq<char>| after.contains(n) <==> want.contains(n) by {
            if after.contains(n) {
                let i = choose|i: int|
                    0 <= i < listing.len() && #[trigger] listing[i].0 == n && !removes(
                        action_at(config.recursive, config.dirs, keep, listing, i),
                    );
                if !keep.contains(n) {
                    assert(refused(config.recursive, config.dirs, keep, listing).contains(n));
                }
            }
            if want.contains(n) {
                let i = choose|i: int| 0 <= i < listing.len() && #[trigger] listing[i].0 == n;
                assert(action_at(config.recursive, config.dirs, keep, listing, i)
                    == EntryAction::Keep);
            }
        }
        assert(after =~= want);
    }
}

/// The policy on directories that are not preserved: with neither flag every
/// directory is refused; where only empty directories may go, an empty one is
/// removed and any other refused; in recursive mode every directory is
/// removed, empty or not, whether empty directories may go or not.
pub proof fn law_directory_policy(recursive: bool, dirs: bool, is_empty: bool)
    ensures
        !recursive && !dirs ==> entry_action(recursive, dirs, false, EntryKind::Directory, is_empty)
            == EntryAction::Refuse(EntryError::IsADirectory),
        !recursive && dirs && is_empty ==> entry_action(
            recursive,
            dirs,
            false,
            EntryKind::Directory,
            is_empty,
        ) == EntryAction::RemoveEmptyDirectory,
        !recursive && dirs && !is_empty ==> entry_action(
            recursive,
            dirs,
            false,
            EntryKind::Directory,
            is_empty,
        ) == EntryAction::Refuse(EntryError::DirectoryNotEmpty),
        recursive ==> entry_action(recursive, dirs, false, EntryKind::Directory, is_empty)
            == EntryAction::RemoveTree,
        removes(entry_action(recursive, dirs, false, EntryKind::Directory, is_empty)) <==> (
        recursive || (dirs && is_empty)),
{
}

/// The names of the directories in a listing.
pub open spec fn directory_names(listing: Seq<(Seq<char>, EntryKind, bool)>) -> Set<Seq<char>> {
    Set::new(
        |n: Seq<char>|
            exists|i: int|
                0 <= i < listing.len() && #[trigger] listing[i].0 == n && listing[i].1
                    == EntryKind::Directory,
    )
}

/// A refused entry does not stop the scan: in force mode, with no
/// preserve-target and neither directory flag, every entry that is not a
/// directory is removed, and exactly the directories remain, each recorded as
/// refused.
pub proof fn law_continue_on_error(
    config: RunConfig,
    found: Seq<bool>,
    listing: Seq<(Seq<char>, EntryKind, bool)>,
)
    requires
        config.force,
        config.targets.len() == 0,
        !config.recursive,
        !config.dirs,
    ensures
        run_proceeds(config, found),
        contents_after_run(config, found, listing) == directory_names(listing),
        refused(
            config.recursive,
            config.dirs,
            preserved_names(components_of(config.cwd@), config.targets.deep_view()),
            listing,
        ) == directory_names(listing),
{
    let keep = preserved_names(components_of(config.cwd@), config.targets.deep_view());
    assert(keep.len() == 0);
    assert(all_accepted(components_of(config.cwd@), config.targets.deep_view()));
    let after = contents_after_run(config, found, listing);
    let dn = directory_names(listing);
    let rf = refused(config.recursive, config.dirs, keep, listing);
    assert forall|i: int| 0 <= i < listing.len() implies (action_at(
        config.recursive,
        config.dirs,
        keep,
        listing,
        i,
    ) == if listing[i].1 == EntryKind::Directory {
        EntryAction::Refuse(EntryError::IsADirectory)
    } else {
        EntryAction::RemoveFile
    }) by {
        assert(!keep.contains(listing[i].0));
    }
    assert forall|n: Seq<char>| after.contains(n) <==> dn.contains(n) by {
        if after.contains(n) {
            let i = choose|i: int|
                0 <= i < listing.len() && #[trigger] listing[i].0 == n && !removes(
                    action_at(config.recursive, config.dirs, keep, listing, i),
                );
        }
        if dn.contains(n) {
            let i = choose|i: int|
                0 <= i < listing.len() && #[trigger] listing[i].0 == n && listing[i].1
                    == EntryKind::Directory;
        }
    }
    assert forall|n: Seq<char>| rf.contains(n) <==> dn.contains(n) by {
        if rf.contains(n) {
            let i = choose|i: int|
                0 <= i < listing.len() && #[trigger] listing[i].0 == n && action_at(
                    config.recursive,
                    config.dirs,
                    keep,
                    listing,
                    i,
                ) is Refuse;
        }
        if dn.contains(n) {
            let i = choose|i: int|
                0 <= i < listing.len() && #[trigger] listing[i].0 == n && listing[i].1
                    == EntryKind::Directory;
        }
    }
    assert(after =~= dn);
    assert(rf =~= dn);
}

} // verus!
