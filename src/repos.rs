//! Which directories of a scanned tree are repositories, and their merge order.

use vstd::prelude::*;
use crate::order::{sort_unique, strictly_sorted};
use crate::text::{chars_of, ends_with, slice_chars, string_from, views};

verus! {

/// The path that marks a repository, below the repository's directory.
pub const MARKER_SUFFIX: &'static str = "/.git";

/// The repository directory that the metadata path `m` marks: `m` without
/// its trailing `/.git`, or nothing where `m` does not end so.
pub open spec fn marked_dir(m: Seq<char>) -> Option<Seq<char>> {
    let suffix = MARKER_SUFFIX@;
    if suffix.len() <= m.len() && m.subrange(m.len() - suffix.len(), m.len() as int) == suffix {
        Some(m.subrange(0, m.len() - suffix.len()))
    } else {
        None
    }
}

/// Some path of `markers` marks the directory `d`.
pub open spec fn marks(markers: Seq<String>, d: Seq<char>) -> bool {
    exists|j: int| 0 <= j < markers.len() && marked_dir(#[trigger] markers[j]@) == Some(d)
}

/// The directories that the metadata paths `markers` mark, sorted ascending,
/// each once. Paths that are no metadata marker are left out.
pub fn repo_dirs(markers: Vec<String>) -> (r: Vec<String>)
    ensures
        strictly_sorted(views(r@)),
        forall|i: int| 0 <= i < r.len() ==> marks(markers@, #[trigger] r@[i]@),
        forall|j: int| 0 <= j < markers.len() && (#[trigger] marked_dir(markers@[j]@)) is Some
            ==> views(r@).contains(marked_dir(markers@[j]@)->0),
{
    let suffix = chars_of(MARKER_SUFFIX);
    let mut dirs: Vec<String> = Vec::new();
    let mut from: Vec<usize> = Vec::new();
    let mut n: usize = 0;
    while n < markers.len()
        invariant
            n <= markers.len(),
            suffix@ == MARKER_SUFFIX@,
            from.len() == dirs.len(),
            forall|k: int| 0 <= k < dirs.len() ==> (#[trigger] from@[k]) < markers.len()
                && marked_dir(markers@[from@[k] as int]@) == Some(dirs@[k]@),
            forall|j: int| 0 <= j < n && (#[trigger] marked_dir(markers@[j]@)) is Some
                ==> views(dirs@).contains(marked_dir(markers@[j]@)->0),
        decreases markers.len() - n,
    {
        let ghost before = views(dirs@);
        let m = chars_of(markers[n].as_str());
        if ends_with(&m, &suffix) {
            let d = slice_chars(&m, 0, m.len() - suffix.len());
            let ds = string_from(&d);
            dirs.push(ds);
            from.push(n);
            proof {
                assert(views(dirs@) =~= before.push(ds@));
                assert forall|j: int| 0 <= j <= n && (#[trigger] marked_dir(markers@[j]@)) is Some
                    implies views(dirs@).contains(marked_dir(markers@[j]@)->0) by {
                    if j < n {
                        let k = choose|k: int| 0 <= k < before.len() && before[k] == marked_dir(markers@[j]@)->0;
                        assert(views(dirs@)[k] == before[k]);
                    } else {
                        assert(views(dirs@)[dirs.len() - 1] == ds@);
                    }
                }
            }
        }
        n = n + 1;
    }
    let r = sort_unique(dirs);
    proof {
        assert forall|i: int| 0 <= i < r.len() implies marks(markers@, #[trigger] r@[i]@) by {
            assert(views(r@)[i] == r@[i]@);
            let k = choose|k: int| 0 <= k < views(dirs@).len() && views(dirs@)[k] == views(r@)[i];
            assert(views(dirs@)[k] == dirs@[k]@);
            assert(marked_dir(markers@[from@[k] as int]@) == Some(dirs@[k]@));
            assert(0 <= from@[k] < markers.len() && marked_dir(markers@[from@[k] as int]@) == Some(r@[i]@));
        }
    }
    r
}

} // verus!
