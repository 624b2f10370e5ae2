//! Deleting an installed package from disk, and the directories that are left empty above it.

use crate::path::{is_up, Dir, DirPath};
use vstd::prelude::*;

verus! {

/// How far the deletion of a package has come.
#[derive(Clone, Copy, Debug, PartialEq, Eq, Structural)]
pub enum CleanStage {
    /// The package's own directory is to be moved away and deleted.
    Discarding,
    /// The entries of the directory so many levels above the package are to be counted.
    Counting { levels: usize },
    /// The directory so many levels above the package, which is empty, is to be removed.
    Removing { levels: usize },
    /// The package is deleted.
    Done,
}

/// What was done or found.
#[derive(Clone, Copy, Debug, PartialEq, Eq, Structural)]
pub enum CleanEvent {
    /// The package's own directory was moved away and deleted.
    Discarded,
    /// The directory has that many entries.
    Entries(usize),
    /// The directory was removed.
    Removed,
}

/// The stage in which the directory so many levels above the package is looked at: it is left
/// alone if it holds all packages, and so is everything above it.
pub open spec fn look_at(root: Dir, install: Dir, levels: nat) -> CleanStage {
    if install.up(levels) == root {
        CleanStage::Done
    } else {
        CleanStage::Counting { levels: levels as usize }
    }
}

/// The stage after an event. An event that does not belong to the stage changes nothing.
pub open spec fn clean_next(
    root: Dir,
    install: Dir,
    stage: CleanStage,
    event: CleanEvent,
) -> CleanStage {
    match (stage, event) {
        (CleanStage::Discarding, CleanEvent::Discarded) => look_at(root, install, 1),
        (CleanStage::Counting { levels }, CleanEvent::Entries(entries)) => {
            if entries == 0 {
                CleanStage::Removing { levels }
            } else {
                CleanStage::Done
            }
        },
        (CleanStage::Removing { levels }, CleanEvent::Removed) => {
            if levels < install.names.len() {
                look_at(root, install, levels as nat + 1)
            } else {
                CleanStage::Done
            }
        },
        _ => stage,
    }
}

/// The deletion of a package from disk.
#[derive(Debug)]
pub struct CleanDelete {
    pkg_root_path: DirPath,
    install_path: DirPath,
    stage: CleanStage,
}

/// The deletion of a package, as mathematical values.
pub ghost struct CleanView {
    pub root: Dir,
    pub install: Dir,
    pub stage: CleanStage,
}

impl View for CleanDelete {
    type V = CleanView;

    closed spec fn view(&self) -> CleanView {
        CleanView { root: self.pkg_root_path@, install: self.install_path@, stage: self.stage }
    }
}

/// The levels of a stage stay within the path of the package.
pub open spec fn clean_well_formed(install: Dir, stage: CleanStage) -> bool {
    match stage {
        CleanStage::Discarding => 1 <= install.names.len(),
        CleanStage::Counting { levels } => 1 <= levels <= install.names.len(),
        CleanStage::Removing { levels } => 1 <= levels <= install.names.len(),
        CleanStage::Done => true,
    }
}

impl CleanDelete {
    #[verifier::type_invariant]
    spec fn well_formed(self) -> bool {
        clean_well_formed(self.install_path@, self.stage)
    }

    /// What is to be done next.
    pub fn stage(&self) -> (stage: CleanStage)
        ensures
            stage == self@.stage,
            clean_well_formed(self@.install, stage),
    {
        proof {
            use_type_invariant(self);
        }
        self.stage
    }

    fn look(&self, levels: usize) -> (stage: CleanStage)
        requires
            levels <= self@.install.names.len(),
        ensures
            stage == look_at(self@.root, self@.install, levels as nat),
    {
        if is_up(&self.install_path, levels, &self.pkg_root_path) {
            CleanStage::Done
        } else {
            CleanStage::Counting { levels }
        }
    }

    /// Takes what was done or found.
    pub fn step(&mut self, event: CleanEvent)
        ensures
            final(self)@.root == old(self)@.root,
            final(self)@.install == old(self)@.install,
            final(self)@.stage == clean_next(
                old(self)@.root,
                old(self)@.install,
                old(self)@.stage,
                event,
            ),
    {
        proof {
            use_type_invariant(&*self);
        }
        let len: usize = self.install_path.names.len();
        let next = match (self.stage, event) {
            (CleanStage::Discarding, CleanEvent::Discarded) => self.look(1),
            (CleanStage::Counting { levels }, CleanEvent::Entries(entries)) => {
                if entries == 0 {
                    CleanStage::Removing { levels }
                } else {
                    CleanStage::Done
                }
            },
            (CleanStage::Removing { levels }, CleanEvent::Removed) => {
                if levels < len {
                    self.look(levels + 1)
                } else {
                    CleanStage::Done
                }
            },
            (stage, _) => stage,
        };
        self.stage = next;
    }
}

/// Deletes an installed package, then the directories above it that are left empty, as far as
/// the directory that holds all packages.
pub fn do_clean_delete(pkg_root_path: DirPath, real_install_path: DirPath) -> (run: CleanDelete)
    requires
        real_install_path.names.len() >= 1,
    ensures
        run@ == (CleanView {
            root: pkg_root_path@,
            install: real_install_path@,
            stage: CleanStage::Discarding,
        }),
{
    CleanDelete {
        pkg_root_path,
        install_path: real_install_path,
        stage: CleanStage::Discarding,
    }
}

/// The stage that a deletion comes to after these events.
pub open spec fn clean_course(
    root: Dir,
    install: Dir,
    stage: CleanStage,
    events: Seq<CleanEvent>,
) -> CleanStage
    decreases events.len(),
{
    if events.len() == 0 {
        stage
    } else {
        clean_next(
            root,
            install,
            clean_course(root, install, stage, events.drop_last()),
            events.last(),
        )
    }
}

/// The directory that a stage looks at or removes.
pub open spec fn touched(install: Dir, stage: CleanStage) -> Option<Dir> {
    match stage {
        CleanStage::Counting { levels } => Some(install.up(levels as nat)),
        CleanStage::Removing { levels } => Some(install.up(levels as nat)),
        _ => None,
    }
}

/// A package that lies below the directory of all packages is deleted without ever touching that
/// directory or one above it: every directory that is looked at or removed lies below it, and
/// holds the package.
pub proof fn law_root_is_not_traversed(root: Dir, install: Dir, events: Seq<CleanEvent>)
    requires
        root.holds(install),
        root != install,
        install.names.len() <= usize::MAX,
    ensures
        clean_well_formed(
            install,
            clean_course(root, install, CleanStage::Discarding, events),
        ),
        touched(install, clean_course(root, install, CleanStage::Discarding, events)) matches Some(
            dir,
        ) ==> root.holds(dir) && root != dir && dir.holds(install),
    decreases events.len(),
{
    assert(install.up(0).names =~= install.names);
    if events.len() > 0 {
        law_root_is_not_traversed(root, install, events.drop_last());
        let before = clean_course(root, install, CleanStage::Discarding, events.drop_last());
        let now = clean_course(root, install, CleanStage::Discarding, events);
        assert forall|levels: nat| levels + root.names.len() <= install.names.len() implies
            root.holds(#[trigger] install.up(levels)) && install.up(levels).holds(install) by {
            let dir = install.up(levels);
            assert(dir.up((dir.names.len() - root.names.len()) as nat).names =~= install.up(
                (install.names.len() - root.names.len()) as nat,
            ).names);
        }
        if before is Removing && now is Counting {
            assert(install.up(now->Counting_levels as nat).names.len() + now->Counting_levels
                == install.names.len());
        }
    }
}

/// A directory is removed only right after it was found empty.
pub proof fn law_only_empty_directories_are_removed(
    root: Dir,
    install: Dir,
    stage: CleanStage,
    event: CleanEvent,
    levels: usize,
)
    requires
        clean_next(root, install, stage, event) == (CleanStage::Removing { levels }),
        stage != (CleanStage::Removing { levels }),
    ensures
        stage == (CleanStage::Counting { levels }),
        event == CleanEvent::Entries(0),
{
}

/// What comes when so many directories above the package are found empty and removed, one after
/// the other.
pub open spec fn emptied(levels: nat) -> Seq<CleanEvent>
    decreases levels,
{
    if levels == 0 {
        seq![CleanEvent::Discarded]
    } else {
        emptied((levels - 1) as nat).push(CleanEvent::Entries(0)).push(CleanEvent::Removed)
    }
}

/// Every directory below the directory of all packages that is found empty is removed, and the one
/// above it is looked at next: where the first `levels` directories above the package are found
/// empty and none of them holds all packages, the deletion asks for each of them to be removed, and
/// has come to the next one, or to the end where that one holds all packages or there is none.
pub proof fn law_empty_directories_are_removed(root: Dir, install: Dir, levels: nat)
    requires
        levels <= install.names.len(),
        install.names.len() <= usize::MAX,
        forall|l: nat| 1 <= l <= levels ==> #[trigger] install.up(l) != root,
    ensures
        forall|l: nat|
            1 <= l <= levels ==> #[trigger] clean_course(
                root,
                install,
                CleanStage::Discarding,
                emptied((l - 1) as nat).push(CleanEvent::Entries(0)),
            ) == (CleanStage::Removing { levels: l as usize }),
        install.names.len() > 0 ==> clean_course(
            root,
            install,
            CleanStage::Discarding,
            emptied(levels),
        ) == (if levels < install.names.len() {
            look_at(root, install, levels + 1)
        } else {
            CleanStage::Done
        }),
    decreases levels,
{
    let begin = CleanStage::Discarding;
    if levels == 0 {
        reveal_with_fuel(clean_course, 2);
    } else {
        let below = (levels - 1) as nat;
        law_empty_directories_are_removed(root, install, below);
        let counted = emptied(below).push(CleanEvent::Entries(0));
        assert(counted.drop_last() =~= emptied(below));
        assert(emptied(levels).drop_last() =~= counted);
        assert(install.up(levels) != root);
        assert(clean_course(root, install, begin, emptied(below)) == (CleanStage::Counting {
            levels: levels as usize,
        }));
        assert(clean_course(root, install, begin, counted) == (CleanStage::Removing {
            levels: levels as usize,
        }));
        assert forall|l: nat| 1 <= l <= levels implies #[trigger] clean_course(
            root,
            install,
            begin,
            emptied((l - 1) as nat).push(CleanEvent::Entries(0)),
        ) == (CleanStage::Removing { levels: l as usize }) by {
            if l < levels {
                assert(1 <= l <= below);
            }
        }
    }
}

/// A directory that is found to have entries ends the deletion, with that directory and all above
/// it left alone.
pub proof fn law_directory_with_entries_stays(
    root: Dir,
    install: Dir,
    levels: usize,
    entries: usize,
    later: CleanEvent,
)
    requires
        entries > 0,
    ensures
        ({
            let next = clean_next(
                root,
                install,
                CleanStage::Counting { levels },
                CleanEvent::Entries(entries),
            );
            &&& next == CleanStage::Done
            &&& clean_next(root, install, next, later) == CleanStage::Done
        }),
{
}

/// How much is left of the deletion of a package.
pub open spec fn clean_left(install: Dir, stage: CleanStage) -> int {
    match stage {
        CleanStage::Discarding => 2 * (install.names.len() as int) + 1,
        CleanStage::Counting { levels } => 2 * (install.names.len() - levels) + 2,
        CleanStage::Removing { levels } => 2 * (install.names.len() - levels) + 1,
        CleanStage::Done => 0,
    }
}

/// Every event that belongs to the stage brings the deletion nearer to its end, which lies at
/// zero, and every other event changes nothing.
pub proof fn law_events_bring_the_end(
    root: Dir,
    install: Dir,
    stage: CleanStage,
    event: CleanEvent,
)
    requires
        clean_well_formed(install, stage),
        install.names.len() <= usize::MAX,
    ensures
        ({
            let belongs = match stage {
                CleanStage::Discarding => event is Discarded,
                CleanStage::Counting { levels } => event is Entries,
                CleanStage::Removing { levels } => event is Removed,
                CleanStage::Done => false,
            };
            let next = clean_next(root, install, stage, event);
            &&& belongs ==> clean_left(install, next) < clean_left(install, stage)
            &&& !belongs ==> next == stage
            &&& clean_well_formed(install, next)
            &&& clean_left(install, next) >= 0
            &&& clean_left(install, next) == 0 <==> next is Done
        }),
{
}

/// Every step of the deletion of a package, over the directories above it. Once the package is gone
/// the directory right above it is counted, and once an emptied directory is removed, the one above
/// that, unless it is the directory of all packages or there is none above; an empty directory is
/// removed, and one with entries ends the deletion.
pub proof fn law_deletion_climbs_step_by_step(
    root: Dir,
    install: Dir,
    levels: usize,
    entries: usize,
)
    requires
        1 <= levels <= install.names.len() <= usize::MAX,
    ensures
        ({
            let above = Dir {
                absolute: install.absolute,
                names: install.names.subrange(0, install.names.len() - 1),
            };
            clean_next(root, install, CleanStage::Discarding, CleanEvent::Discarded) == if above
                == root {
                CleanStage::Done
            } else {
                CleanStage::Counting { levels: 1 }
            }
        }),
        clean_next(
            root,
            install,
            CleanStage::Counting { levels },
            CleanEvent::Entries(entries),
        ) == if entries == 0 {
            CleanStage::Removing { levels }
        } else {
            CleanStage::Done
        },
        levels == install.names.len() ==> clean_next(
            root,
            install,
            CleanStage::Removing { levels },
            CleanEvent::Removed,
        ) == CleanStage::Done,
        levels < install.names.len() ==> ({
            let above = Dir {
                absolute: install.absolute,
                names: install.names.subrange(0, install.names.len() - levels - 1),
            };
            clean_next(root, install, CleanStage::Removing { levels }, CleanEvent::Removed)
                == if above == root {
                CleanStage::Done
            } else {
                CleanStage::Counting { levels: (levels + 1) as usize }
            }
        }),
{
    assert(install.up(1).names =~= install.names.subrange(0, install.names.len() - 1));
    if levels < install.names.len() {
        assert(install.up((levels + 1) as nat).names =~= install.names.subrange(
            0,
            install.names.len() - levels - 1,
        ));
    }
}

/// An event that does not belong to the stage changes nothing, and nothing does at the end.
pub proof fn law_other_events_change_nothing(
    root: Dir,
    install: Dir,
    stage: CleanStage,
    event: CleanEvent,
)
    requires
        match stage {
            CleanStage::Discarding => !(event is Discarded),
            CleanStage::Counting { levels } => !(event is Entries),
            CleanStage::Removing { levels } => !(event is Removed),
            CleanStage::Done => true,
        },
    ensures
        clean_next(root, install, stage, event) == stage,
{
}

} // verus!
