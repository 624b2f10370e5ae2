//! The directory of binlinks on the machine's search path.

use crate::path::{is_up, Dir, DirPath};
use vstd::prelude::*;

verus! {

/// The directories that a list of paths leads to.
pub open spec fn dirs(list: Seq<DirPath>) -> Seq<Dir> {
    list.map_values(|p: DirPath| p@)
}

/// Whether the directory of binlinks is on the machine's search path, if that can be read.
pub fn binlink_is_on_path(machine_path: &Option<Vec<DirPath>>, binlink_path: &DirPath) -> (found:
    bool)
    ensures
        found == (machine_path is Some && dirs(machine_path->0@).contains(binlink_path@)),
{
    match machine_path {
        Some(entries) => {
            let mut i: usize = 0;
            while i < entries.len()
                invariant
                    *machine_path == Some(*entries),
                    i <= entries.len(),
                    forall|j: int| 0 <= j < i ==> #[trigger] dirs(entries@)[j] != binlink_path@,
                decreases entries.len() - i,
            {
                if is_up(&entries[i], 0, binlink_path) {
                    assert(entries[i as int]@.up(0).names =~= entries[i as int]@.names);
                    assert(dirs(entries@)[i as int] == binlink_path@);
                    return true;
                }
                assert(entries[i as int]@.up(0).names =~= entries[i as int]@.names);
                i = i + 1;
            }
            false
        },
        None => false,
    }
}

/// The directories on a search path, if it can be read.
pub open spec fn path_dirs(machine_path: Option<Vec<DirPath>>) -> Option<Seq<Dir>> {
    match machine_path {
        Some(entries) => Some(dirs(entries@)),
        None => None,
    }
}

/// The search path to be set, if there is one to be set.
pub open spec fn path_to_set<P>(
    machine_path: Option<Seq<Dir>>,
    binlink_dir: Dir,
    binlink_path: P,
    paths: Seq<P>,
) -> Option<Seq<P>> {
    if machine_path is Some && machine_path->0.contains(binlink_dir) {
        None
    } else {
        Some(seq![binlink_path] + paths)
    }
}

/// The search path to be set: the directory of binlinks, which is written `binlink_path`, before
/// `paths`, which are all that is on the search path now. There is none to be set if that
/// directory is on the machine's search path already.
pub fn set_binlink_path<P>(
    machine_path: &Option<Vec<DirPath>>,
    binlink_dir: &DirPath,
    binlink_path: P,
    paths: Vec<P>,
) -> (new_path: Option<Vec<P>>)
    ensures
        new_path is None == (machine_path is Some && dirs(machine_path->0@).contains(
            binlink_dir@,
        )),
        new_path is Some ==> new_path->0@ == seq![binlink_path] + paths@,
        match new_path {
            Some(entries) => Some(entries@),
            None => None,
        } == path_to_set(path_dirs(*machine_path), binlink_dir@, binlink_path, paths@),
{
    if binlink_is_on_path(machine_path, binlink_dir) {
        return None;
    }
    let mut new_path = paths;
    new_path.insert(0, binlink_path);
    assert(new_path@ =~= seq![binlink_path] + paths@);
    Some(new_path)
}

/// Once it has been put there, the directory of binlinks is on the search path, so that it is
/// not put there again; what was on the search path stays on it.
pub proof fn law_binlink_is_put_on_the_path_once(binlink: Dir, entries: Seq<Dir>, dir: Dir)
    ensures
        (seq![binlink] + entries).contains(binlink),
        entries.contains(dir) ==> (seq![binlink] + entries).contains(dir),
{
    let all = seq![binlink] + entries;
    assert(all[0] == binlink);
    if entries.contains(dir) {
        let i = choose|i: int| 0 <= i < entries.len() && entries[i] == dir;
        assert(all[i + 1] == dir);
    }
}

/// A search path says the directory of each of its entries, in their order.
pub proof fn law_search_path_says_each_directory(machine_path: Option<Vec<DirPath>>)
    ensures
        path_dirs(machine_path) is Some == machine_path is Some,
        machine_path is Some ==> {
            &&& path_dirs(machine_path)->0.len() == machine_path->0@.len()
            &&& forall|i: int|
                0 <= i < machine_path->0@.len() ==> #[trigger] path_dirs(machine_path)->0[i]
                    == machine_path->0@[i]@
        },
{
}

/// The search path is set exactly where the directory of binlinks is none of its entries, and then
/// begins with that directory and goes on with everything that was on it. On the search path that
/// was set the directory is found, so that nothing is set a second time.
pub proof fn law_binlink_goes_before_all_that_was_there(
    machine_path: Option<Seq<Dir>>,
    binlink: Dir,
    paths: Seq<Dir>,
)
    ensures
        ({
            let new_path = path_to_set(machine_path, binlink, binlink, paths);
            &&& new_path is None == (machine_path is Some && exists|i: int|
                0 <= i < machine_path->0.len() && #[trigger] machine_path->0[i] == binlink)
            &&& new_path is Some ==> {
                &&& new_path->0.len() == paths.len() + 1
                &&& new_path->0[0] == binlink
                &&& forall|i: int| 0 <= i < paths.len() ==> new_path->0[i + 1] == #[trigger] paths[i]
                &&& path_to_set(new_path, binlink, binlink, new_path->0) is None
            }
        }),
{
    let new_path = path_to_set(machine_path, binlink, binlink, paths);
    if new_path is Some {
        assert(new_path->0[0] == binlink);
    }
}

} // verus!
