//! The filesystem differ: the add/update/remove plan between the file
//! set of an installed package and the manifest of its replacement.

use vstd::prelude::*;
use crate::catalog::{FileRow, FileRowView};
use crate::pkg::{abs_of, abs_path, Files, PkgFileView};

verus! {

broadcast use vstd::seq_lib::lemma_seq_contains_after_push;

/// One step of a filesystem diff: replace an already-installed file
/// with the version from the new package, add a file the old package
/// did not carry, or remove a file the new package no longer carries.
/// Indices name entries of the new manifest and rows of the old file
/// set.
#[derive(Clone, Copy, Debug, PartialEq, Eq, Structural)]
pub enum FileAction {
    Replace { new_index: usize },
    Add { new_index: usize },
    Remove { old_index: usize },
}

/// An old file row sits at the install path of this manifest path.
pub open spec fn old_match(o: Seq<FileRowView>, p: Seq<char>) -> bool {
    exists|j: int| 0 <= j < o.len() && (#[trigger] o[j]).absolute_path == abs_of(p)
}

/// An old file row sits at the entry's install path and carries the
/// same checksum under the same algorithm: the file needs no rewrite.
pub open spec fn identical_in(o: Seq<FileRowView>, e: PkgFileView) -> bool {
    exists|j: int|
        0 <= j < o.len() && (#[trigger] o[j]).absolute_path == abs_of(e.path)
            && o[j].checksum_algorithm == e.checksum_algorithm && o[j].checksum == e.checksum
}

/// Some entry of the new manifest installs at this absolute path.
pub open spec fn new_match(n: Seq<PkgFileView>, abs: Seq<char>) -> bool {
    exists|i: int| 0 <= i < n.len() && abs_of((#[trigger] n[i]).path) == abs
}

/// The absolute path an action touches.
pub open spec fn action_path(a: FileAction, o: Seq<FileRowView>, n: Seq<PkgFileView>) -> Seq<
    char,
> {
    match a {
        FileAction::Replace { new_index } => abs_of(n[new_index as int].path),
        FileAction::Add { new_index } => abs_of(n[new_index as int].path),
        FileAction::Remove { old_index } => o[old_index as int].absolute_path,
    }
}

/// The new-manifest index a write action carries.
pub open spec fn write_index(a: FileAction) -> Option<int> {
    match a {
        FileAction::Replace { new_index } => Some(new_index as int),
        FileAction::Add { new_index } => Some(new_index as int),
        FileAction::Remove { .. } => None,
    }
}

/// What a correct diff plan looks like, against the old file rows `o`
/// and the new manifest `n`: every action is justified (a replace hits
/// an installed path whose checksum changed, an add hits a path not
/// installed, a remove hits a path the new manifest dropped); every
/// entry and row that needs an action has one; writes come before
/// removes; and writes keep manifest order while removes keep row
/// order. An entry whose checksum is unchanged gets no action at all.
pub open spec fn plan_ok(o: Seq<FileRowView>, n: Seq<PkgFileView>, plan: Seq<FileAction>) -> bool {
    &&& forall|k: int|
        0 <= k < plan.len() ==> match #[trigger] plan[k] {
            FileAction::Replace { new_index } => {
                &&& new_index < n.len()
                &&& old_match(o, n[new_index as int].path)
                &&& !identical_in(o, n[new_index as int])
            },
            FileAction::Add { new_index } => {
                &&& new_index < n.len()
                &&& !old_match(o, n[new_index as int].path)
            },
            FileAction::Remove { old_index } => {
                &&& old_index < o.len()
                &&& !new_match(n, o[old_index as int].absolute_path)
            },
        }
    &&& forall|i: int|
        0 <= i < n.len() && old_match(o, (#[trigger] n[i]).path) && !identical_in(o, n[i])
            ==> plan.contains(FileAction::Replace { new_index: i as usize })
    &&& forall|i: int|
        0 <= i < n.len() && !old_match(o, (#[trigger] n[i]).path) ==> plan.contains(
            FileAction::Add { new_index: i as usize },
        )
    &&& forall|j: int|
        0 <= j < o.len() && !new_match(n, (#[trigger] o[j]).absolute_path) ==> plan.contains(
            FileAction::Remove { old_index: j as usize },
        )
    &&& forall|k1: int, k2: int|
        0 <= k1 < k2 < plan.len() && (#[trigger] plan[k1]) is Remove
            ==> (#[trigger] plan[k2]) is Remove
    &&& forall|k1: int, k2: int|
        0 <= k1 < k2 < plan.len() ==> match (#[trigger] plan[k1], #[trigger] plan[k2]) {
            (FileAction::Remove { old_index: j1 }, FileAction::Remove { old_index: j2 }) => j1
                < j2,
            _ => true,
        }
    &&& forall|k1: int, k2: int|
        0 <= k1 < k2 < plan.len() && write_index(#[trigger] plan[k1]) is Some && write_index(
            #[trigger] plan[k2],
        ) is Some ==> write_index(plan[k1])->0 < write_index(plan[k2])->0
}

/// The old file rows have pairwise distinct absolute paths.
pub open spec fn old_paths_unique(o: Seq<FileRowView>) -> bool {
    forall|i: int, j: int|
        0 <= i < j < o.len() ==> (#[trigger] o[i]).absolute_path != (
        #[trigger] o[j]).absolute_path
}

/// Finds the old file row installed at the given absolute path.
fn find_old(old: &Vec<FileRow>, abs: &String) -> (r: Option<usize>)
    ensures
        match r {
            Some(j) => j < old@.len() && old@[j as int]@.absolute_path == abs@,
            None => forall|j: int|
                0 <= j < old@.len() ==> (#[trigger] old@[j]@).absolute_path != abs@,
        },
{
    let mut j: usize = 0;
    while j < old.len()
        invariant
            j <= old@.len(),
            forall|m: int| 0 <= m < j ==> (#[trigger] old@[m]@).absolute_path != abs@,
        decreases old@.len() - j,
    {
        if old[j].absolute_path == *abs {
            return Some(j);
        }
        j = j + 1;
    }
    None
}

/// Whether some entry of the new manifest installs at this path.
fn any_new_match(new: &Files, abs: &String) -> (r: bool)
    ensures
        r == new_match(new@, abs@),
{
    let mut i: usize = 0;
    while i < new.0.len()
        invariant
            i <= new@.len(),
            new@.len() == new.0@.len(),
            forall|m: int| 0 <= m < i ==> abs_of((#[trigger] new@[m]).path) != abs@,
        decreases new.0@.len() - i,
    {
        let candidate = abs_path(&new.0[i].path);
        proof {
            assert(new@[i as int] == new.0@[i as int]@);
        }
        if candidate == *abs {
            proof {
                assert(abs_of(new@[i as int].path) == abs@);
            }
            return true;
        }
        i = i + 1;
    }
    false
}

/// Computes the diff plan between the installed file rows of a package
/// and the manifest of its replacement: entries with an unchanged
/// checksum are left alone, changed entries are replaced, fresh entries
/// are added (in manifest order), and rows the new manifest dropped are
/// removed (in row order, after all writes).
#[verifier::loop_isolation(false)]
pub fn compute_diff(old: &Vec<FileRow>, new: &Files) -> (plan: Vec<FileAction>)
    requires
        old_paths_unique(old@.map_values(|f: FileRow| f@)),
    ensures
        plan_ok(old@.map_values(|f: FileRow| f@), new@, plan@),
{
    let ghost o = old@.map_values(|f: FileRow| f@);
    let ghost n = new@;
    let mut plan: Vec<FileAction> = Vec::new();
    let mut i: usize = 0;
    while i < new.0.len()
        invariant
            i <= n.len(),
            forall|k: int|
                0 <= k < plan@.len() ==> match #[trigger] plan@[k] {
                    FileAction::Replace { new_index } => {
                        &&& new_index < i
                        &&& old_match(o, n[new_index as int].path)
                        &&& !identical_in(o, n[new_index as int])
                    },
                    FileAction::Add { new_index } => {
                        &&& new_index < i
                        &&& !old_match(o, n[new_index as int].path)
                    },
                    FileAction::Remove { .. } => false,
                },
            forall|m: int|
                0 <= m < i && old_match(o, (#[trigger] n[m]).path) && !identical_in(o, n[m])
                    ==> plan@.contains(FileAction::Replace { new_index: m as usize }),
            forall|m: int|
                0 <= m < i && !old_match(o, (#[trigger] n[m]).path) ==> plan@.contains(
                    FileAction::Add { new_index: m as usize },
                ),
            forall|k1: int, k2: int|
                0 <= k1 < k2 < plan@.len() && write_index(#[trigger] plan@[k1]) is Some
                    && write_index(#[trigger] plan@[k2]) is Some ==> write_index(plan@[k1])->0
                    < write_index(plan@[k2])->0,
        decreases new.0@.len() - i,
    {
        let entry = &new.0[i];
        proof {
            assert(n[i as int] == new.0@[i as int]@);
        }
        let abs = abs_path(&entry.path);
        match find_old(old, &abs) {
            Some(j) => {
                proof {
                    assert(o[j as int] == old@[j as int]@);
                    assert(old_match(o, n[i as int].path));
                }
                let same = old[j].checksum_algorithm == entry.checksum_algorithm
                    && old[j].checksum == entry.checksum;
                if same {
                    proof {
                        assert(identical_in(o, n[i as int]));
                    }
                } else {
                    proof {
                        if identical_in(o, n[i as int]) {
                            let j2 = choose|j2: int|
                                0 <= j2 < o.len() && (#[trigger] o[j2]).absolute_path == abs_of(
                                    n[i as int].path,
                                ) && o[j2].checksum_algorithm == n[i as int].checksum_algorithm
                                    && o[j2].checksum == n[i as int].checksum;
                            assert(o[j2] == o[j as int]);
                        }
                    }
                    plan.push(FileAction::Replace { new_index: i });
                }
            },
            None => {
                proof {
                    assert forall|j: int| 0 <= j < o.len() implies (
                    #[trigger] o[j]).absolute_path != abs_of(n[i as int].path) by {
                        assert(o[j] == old@[j]@);
                    }
                }
                plan.push(FileAction::Add { new_index: i });
            },
        }
        i = i + 1;
    }
    let ghost writes_len = plan@.len();
    let mut j: usize = 0;
    while j < old.len()
        invariant
            j <= o.len(),
            writes_len <= plan@.len(),
            plan@.take(writes_len as int) == plan@.take(writes_len as int),
            forall|k: int|
                0 <= k < plan@.len() ==> match #[trigger] plan@[k] {
                    FileAction::Replace { new_index } => {
                        &&& new_index < n.len()
                        &&& old_match(o, n[new_index as int].path)
                        &&& !identical_in(o, n[new_index as int])
                    },
                    FileAction::Add { new_index } => {
                        &&& new_index < n.len()
                        &&& !old_match(o, n[new_index as int].path)
                    },
                    FileAction::Remove { old_index } => {
                        &&& old_index < j
                        &&& !new_match(n, o[old_index as int].absolute_path)
                    },
                },
            forall|m: int|
                0 <= m < n.len() && old_match(o, (#[trigger] n[m]).path) && !identical_in(o, n[m])
                    ==> plan@.contains(FileAction::Replace { new_index: m as usize }),
            forall|m: int|
                0 <= m < n.len() && !old_match(o, (#[trigger] n[m]).path) ==> plan@.contains(
                    FileAction::Add { new_index: m as usize },
                ),
            forall|m: int|
                0 <= m < j && !new_match(n, (#[trigger] o[m]).absolute_path) ==> plan@.contains(
                    FileAction::Remove { old_index: m as usize },
                ),
            forall|k: int|
                0 <= k < plan@.len() && (#[trigger] plan@[k]) is Remove ==> k >= writes_len,
            forall|k: int|
                writes_len <= k < plan@.len() ==> (#[trigger] plan@[k]) is Remove,
            forall|k1: int, k2: int|
                0 <= k1 < k2 < plan@.len() ==> match (#[trigger] plan@[k1], #[trigger] plan@[k2]) {
                    (
                        FileAction::Remove { old_index: j1 },
                        FileAction::Remove { old_index: j2 },
                    ) => j1 < j2,
                    _ => true,
                },
            forall|k1: int, k2: int|
                0 <= k1 < k2 < plan@.len() && write_index(#[trigger] plan@[k1]) is Some
                    && write_index(#[trigger] plan@[k2]) is Some ==> write_index(plan@[k1])->0
                    < write_index(plan@[k2])->0,
        decreases old@.len() - j,
    {
        proof {
            assert(o[j as int] == old@[j as int]@);
        }
        if !any_new_match(new, &old[j].absolute_path) {
            plan.push(FileAction::Remove { old_index: j });
        }
        j = j + 1;
    }
    plan
}

/// A manifest entry whose checksum is unchanged from the installed row
/// is touched by no action of the plan: neither written nor removed.
pub proof fn lemma_identical_files_untouched(
    o: Seq<FileRowView>,
    n: Seq<PkgFileView>,
    plan: Seq<FileAction>,
    i: int,
)
    requires
        plan_ok(o, n, plan),
        0 <= i < n.len(),
        identical_in(o, n[i]),
        forall|i1: int, i2: int|
            0 <= i1 < i2 < n.len() ==> #[trigger] n[i1].path != #[trigger] n[i2].path,
    ensures
        forall|k: int| 0 <= k < plan.len() ==> action_path(#[trigger] plan[k], o, n) != abs_of(
            n[i].path,
        ),
{
    assert forall|k: int| 0 <= k < plan.len() implies action_path(#[trigger] plan[k], o, n)
        != abs_of(n[i].path) by {
        match plan[k] {
            FileAction::Replace { new_index } => {
                if abs_of(n[new_index as int].path) == abs_of(n[i].path) {
                    crate::pkg::lemma_abs_of_injective(n[new_index as int].path, n[i].path);
                    assert(new_index as int == i);
                }
            },
            FileAction::Add { new_index } => {
                if abs_of(n[new_index as int].path) == abs_of(n[i].path) {
                    crate::pkg::lemma_abs_of_injective(n[new_index as int].path, n[i].path);
                    assert(new_index as int == i);
                    assert(old_match(o, n[i].path));
                }
            },
            FileAction::Remove { old_index } => {
                if o[old_index as int].absolute_path == abs_of(n[i].path) {
                    assert(new_match(n, o[old_index as int].absolute_path));
                }
            },
        }
    }
}

} // verus!
