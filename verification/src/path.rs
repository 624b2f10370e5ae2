//! Directories by the names on their paths.

use vstd::prelude::*;

verus! {

/// A directory: where its path begins, and the names on the path.
#[derive(Debug, PartialEq, Eq)]
pub struct DirPath {
    /// The path begins at the root of the file system.
    pub absolute: bool,
    /// The names on the path, as the file system holds them.
    pub names: Vec<Vec<u8>>,
}

/// A directory, as mathematical values.
pub ghost struct Dir {
    pub absolute: bool,
    pub names: Seq<Seq<u8>>,
}

impl Dir {
    /// The directory so many levels up.
    pub open spec fn up(self, levels: nat) -> Dir
        recommends
            levels <= self.names.len(),
    {
        Dir { absolute: self.absolute, names: self.names.take(self.names.len() - levels) }
    }

    /// The other directory lies in this one, or in one that does, or is this one.
    pub open spec fn holds(self, other: Dir) -> bool {
        self.names.len() <= other.names.len() && self == other.up(
            (other.names.len() - self.names.len()) as nat,
        )
    }
}

/// The names that lists of bytes hold.
pub open spec fn names(list: Seq<Vec<u8>>) -> Seq<Seq<u8>> {
    list.map_values(|n: Vec<u8>| n@)
}

impl View for DirPath {
    type V = Dir;

    open spec fn view(&self) -> Dir {
        Dir { absolute: self.absolute, names: names(self.names@) }
    }
}

fn same_bytes(a: &Vec<u8>, b: &Vec<u8>) -> (same: bool)
    ensures
        same == (a@ == b@),
{
    if a.len() != b.len() {
        return false;
    }
    let mut i: usize = 0;
    while i < a.len()
        invariant
            a.len() == b.len(),
            i <= a.len(),
            forall|j: int| 0 <= j < i ==> a@[j] == b@[j],
        decreases a.len() - i,
    {
        if a[i] != b[i] {
            return false;
        }
        i = i + 1;
    }
    assert(a@ =~= b@);
    true
}

/// Whether the directory so many levels above `path` is `other`.
pub fn is_up(path: &DirPath, levels: usize, other: &DirPath) -> (same: bool)
    requires
        levels <= path@.names.len(),
    ensures
        same == (path@.up(levels as nat) == other@),
{
    let len: usize = path.names.len() - levels;
    if path.absolute != other.absolute || other.names.len() != len {
        assert(path@.up(levels as nat).names.len() == len);
        return false;
    }
    let mut i: usize = 0;
    while i < len
        invariant
            levels <= path@.names.len(),
            len == path@.names.len() - levels,
            len == other@.names.len(),
            i <= len,
            forall|j: int| 0 <= j < i ==> path@.names[j] == other@.names[j],
        decreases len - i,
    {
        if !same_bytes(&path.names[i], &other.names[i]) {
            assert(path@.up(levels as nat).names[i as int] != other@.names[i as int]);
            return false;
        }
        assert(path@.names[i as int] == other@.names[i as int]);
        i = i + 1;
    }
    assert(path@.up(levels as nat).names =~= other@.names);
    true
}

/// A path says where it begins and its names, byte by byte and in their order.
pub proof fn law_path_says_its_names(p: DirPath)
    ensures
        p@.absolute == p.absolute,
        p@.names.len() == p.names@.len(),
        forall|i: int| 0 <= i < p.names@.len() ==> #[trigger] p@.names[i] == p.names@[i]@,
{
}

/// The directory so many levels up begins where the directory does and has its names but the last
/// so many; so one goes up step by step.
pub proof fn law_up_drops_the_last_names(dir: Dir, levels: nat)
    requires
        levels <= dir.names.len(),
    ensures
        dir.up(levels).absolute == dir.absolute,
        dir.up(levels).names.len() == dir.names.len() - levels,
        forall|i: int|
            0 <= i < dir.names.len() - levels ==> #[trigger] dir.up(levels).names[i]
                == dir.names[i],
        dir.up(0) == dir,
        levels < dir.names.len() ==> dir.up(levels).up(1) == dir.up(levels + 1),
{
    assert(dir.up(0).names =~= dir.names);
    if levels < dir.names.len() {
        assert(dir.up(levels).up(1).names =~= dir.up(levels + 1).names);
    }
}

/// A directory holds another exactly where both begin in the same way and its names are the first
/// names of the other.
pub proof fn law_holding_is_a_matter_of_the_first_names(outer: Dir, inner: Dir)
    ensures
        outer.holds(inner) == ({
            &&& outer.absolute == inner.absolute
            &&& outer.names.len() <= inner.names.len()
            &&& forall|i: int|
                0 <= i < outer.names.len() ==> #[trigger] outer.names[i] == inner.names[i]
        }),
{
    if outer.names.len() <= inner.names.len() {
        let levels = (inner.names.len() - outer.names.len()) as nat;
        law_up_drops_the_last_names(inner, levels);
        if outer.holds(inner) {
            assert forall|i: int| 0 <= i < outer.names.len() implies #[trigger] outer.names[i]
                == inner.names[i] by {
                assert(inner.up(levels).names[i] == inner.names[i]);
            }
        } else if outer.absolute == inner.absolute && forall|i: int|
            0 <= i < outer.names.len() ==> #[trigger] outer.names[i] == inner.names[i] {
            assert(outer.names =~= inner.up(levels).names);
        }
    }
}

} // verus!
