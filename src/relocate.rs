//! Moving a freshly merged repository's top-level entries into its own directory.
//!
//! The entries go first into a staging directory whose name no real content
//! has, and the staging directory is then renamed to the repository's alias.
//! A repository whose own top level holds a directory named like its alias is
//! moved this way without ambiguity.

use vstd::prelude::*;
use crate::order::{sort_unique, strictly_sorted};
use crate::text::{concatenated, first_segment, owned, views};

verus! {

/// Name of the joined repository's version-control metadata directory.
pub const METADATA_DIR: &'static str = ".git";

/// Name of the directory where merged content waits before its final move.
pub const STAGING_DIR: &'static str = "z_tmp_unique_target_directory_@@@";

/// Top-level names of the joined repository that hold already placed
/// repositories: the first path segment of each merged repository's alias,
/// one entry per merged repository, in merge order.
pub struct ExclusionSet {
    names: Vec<String>,
}

impl View for ExclusionSet {
    type V = Seq<Seq<char>>;

    closed spec fn view(&self) -> Seq<Seq<char>> {
        views(self.names@)
    }
}

impl ExclusionSet {
    /// An exclusion set with no entry.
    pub fn new() -> (r: ExclusionSet)
        ensures
            r@ == Seq::<Seq<char>>::empty(),
    {
        let r = ExclusionSet { names: Vec::new() };
        assert(r@ =~= Seq::<Seq<char>>::empty());
        r
    }

    /// Adds `name` after the entries there are.
    pub fn insert(&mut self, name: String)
        ensures
            final(self)@ == old(self)@.push(name@),
    {
        self.names.push(name);
        assert(self@ =~= old(self)@.push(name@));
    }

    /// Whether `name` is an entry.
    pub fn contains(&self, name: &String) -> (r: bool)
        ensures
            r == self@.contains(name@),
    {
        let mut i: usize = 0;
        while i < self.names.len()
            invariant
                i <= self.names.len(),
                forall|k: int| 0 <= k < i ==> self@[k] != name@,
            decreases self.names.len() - i,
        {
            if self.names[i] == *name {
                assert(self@[i as int] == name@);
                return true;
            }
            i = i + 1;
        }
        false
    }

    /// The entries, in the order they were added.
    pub fn names(&self) -> (r: Vec<String>)
        ensures
            views(r@) == self@,
    {
        let mut r: Vec<String> = Vec::new();
        let mut i: usize = 0;
        while i < self.names.len()
            invariant
                i <= self.names.len(),
                views(r@) == self@.take(i as int),
            decreases self.names.len() - i,
        {
            let ghost before = views(r@);
            let s = self.names[i].clone();
            r.push(s);
            assert(views(r@) =~= before.push(self@[i as int]));
            assert(self@.take(i + 1) =~= self@.take(i as int).push(self@[i as int]));
            i = i + 1;
        }
        assert(self@.take(i as int) =~= self@);
        r
    }
}

/// Whether the top-level entry `e` belongs to the repository merged last:
/// neither metadata, nor the staging directory, nor a placed repository.
pub open spec fn movable(e: Seq<char>, exclusion: Seq<Seq<char>>) -> bool {
    e != METADATA_DIR@ && e != STAGING_DIR@ && !exclusion.contains(e)
}

/// The top-level entries of `listing` to move, ascending, each once.
pub fn entries_to_move(listing: Vec<String>, exclusion: &ExclusionSet) -> (r: Vec<String>)
    ensures
        strictly_sorted(views(r@)),
        forall|e: Seq<char>|
            #![trigger views(r@).contains(e)]
            #![trigger views(listing@).contains(e)]
            views(r@).contains(e) <==> (views(listing@).contains(e) && movable(e, exclusion@)),
{
    let meta = owned(METADATA_DIR);
    let staging = owned(STAGING_DIR);
    let mut kept: Vec<String> = Vec::new();
    let mut i: usize = 0;
    while i < listing.len()
        invariant
            i <= listing.len(),
            meta@ == METADATA_DIR@,
            staging@ == STAGING_DIR@,
            forall|e: Seq<char>|
                #![trigger views(kept@).contains(e)]
                #![trigger views(listing@).take(i as int).contains(e)]
                views(kept@).contains(e) <==> (views(listing@).take(i as int).contains(e) && movable(e, exclusion@)),
        decreases listing.len() - i,
    {
        let ghost before = views(kept@);
        assert(views(listing@).take(i + 1) =~= views(listing@).take(i as int).push(listing@[i as int]@));
        let is_meta = listing[i] == meta;
        let is_staging = listing[i] == staging;
        let is_placed = exclusion.contains(&listing[i]);
        if !is_meta && !is_staging && !is_placed {
            let e = listing[i].clone();
            kept.push(e);
            assert(views(kept@) =~= before.push(listing@[i as int]@));
        }
        proof {
            let cur = views(listing@).take(i + 1);
            assert(cur[i as int] == listing@[i as int]@);
            assert forall|e: Seq<char>| views(kept@).contains(e) <==> (cur.contains(e) && movable(e, exclusion@)) by {
                if cur.contains(e) && e != listing@[i as int]@ {
                    let k = choose|k: int| 0 <= k < cur.len() && cur[k] == e;
                    assert(views(listing@).take(i as int)[k] == e);
                }
                if views(listing@).take(i as int).contains(e) {
                    let k = choose|k: int| 0 <= k < i && views(listing@).take(i as int)[k] == e;
                    assert(cur[k] == e);
                }
                if views(listing@).take(i as int).contains(e) {
                    assert(before.contains(e) == movable(e, exclusion@));
                }
                if views(kept@).contains(e) && !before.contains(e) {
                    assert(e == listing@[i as int]@);
                }
                if before.contains(e) {
                    assert(views(listing@).take(i as int).contains(e));
                    let k = choose|k: int| 0 <= k < before.len() && before[k] == e;
                    assert(views(kept@)[k] == e);
                }
                if e == listing@[i as int]@ && movable(e, exclusion@) {
                    assert(views(kept@)[views(kept@).len() - 1] == e);
                }
            }
        }
        i = i + 1;
    }
    assert(views(listing@).take(i as int) =~= views(listing@));
    let r = sort_unique(kept);
    proof {
        assert forall|e: Seq<char>| views(r@).contains(e) <==> views(kept@).contains(e) by {
            if views(r@).contains(e) {
                let k = choose|k: int| 0 <= k < views(r@).len() && views(r@)[k] == e;
                assert(views(kept@).contains(views(r@)[k]));
            }
            if views(kept@).contains(e) {
                let k = choose|k: int| 0 <= k < views(kept@).len() && views(kept@)[k] == e;
                assert(views(r@).contains(views(kept@)[k]));
            }
        }
    }
    r
}

/// Git arguments that move `entries` into the staging directory.
pub fn stage_args(entries: &Vec<String>) -> (r: Vec<String>)
    ensures
        views(r@) == seq!["mv"@] + views(entries@) + seq![STAGING_DIR@ + "/"@],
{
    let mut r: Vec<String> = Vec::new();
    r.push(owned("mv"));
    let mut i: usize = 0;
    while i < entries.len()
        invariant
            i <= entries.len(),
            views(r@) == seq!["mv"@] + views(entries@).take(i as int),
        decreases entries.len() - i,
    {
        let ghost before = views(r@);
        let e = entries[i].clone();
        r.push(e);
        assert(views(r@) =~= before.push(entries@[i as int]@));
        assert(views(r@) =~= seq!["mv"@] + views(entries@).take(i + 1));
        i = i + 1;
    }
    r.push(concatenated(STAGING_DIR, "/"));
    assert(views(entries@).take(i as int) =~= views(entries@));
    assert(views(r@) =~= seq!["mv"@] + views(entries@) + seq![STAGING_DIR@ + "/"@]);
    r
}

/// Git arguments that commit the move of the repository `alias`.
pub fn commit_args(alias: &str) -> (r: Vec<String>)
    ensures
        views(r@) == seq!["commit"@, "-m"@, "Move "@ + alias@ + " repo contents"@],
{
    let message = concatenated(concatenated("Move ", alias).as_str(), " repo contents");
    let r = vec![owned("commit"), owned("-m"), message];
    assert(views(r@) =~= seq!["commit"@, "-m"@, "Move "@ + alias@ + " repo contents"@]);
    r
}

/// Git arguments that rename the staging directory to `alias`.
pub fn place_args(alias: &str) -> (r: Vec<String>)
    ensures
        views(r@) == seq!["mv"@, STAGING_DIR@, alias@],
{
    let r = vec![owned("mv"), owned(STAGING_DIR), owned(alias)];
    assert(views(r@) =~= seq!["mv"@, STAGING_DIR@, alias@]);
    r
}

/// Git arguments that fold the last change into the previous commit.
pub fn amend_args() -> (r: Vec<String>)
    ensures
        views(r@) == seq!["commit"@, "--amend"@, "--no-edit"@],
{
    let r = vec![owned("commit"), owned("--amend"), owned("--no-edit")];
    assert(views(r@) =~= seq!["commit"@, "--amend"@, "--no-edit"@]);
    r
}

/// Top-level names after the entries `moved` of `top` went into the staging directory.
pub open spec fn after_staging(top: Set<Seq<char>>, moved: Set<Seq<char>>) -> Set<Seq<char>> {
    top.difference(moved).insert(STAGING_DIR@)
}

/// Top-level names after the staging directory of `top` was renamed to `alias`.
pub open spec fn after_placing(top: Set<Seq<char>>, alias: Seq<char>) -> Set<Seq<char>> {
    top.remove(STAGING_DIR@).insert(first_segment(alias))
}

/// The movable entries of `top`.
pub open spec fn movable_entries(top: Set<Seq<char>>, exclusion: Seq<Seq<char>>) -> Set<Seq<char>> {
    top.filter(|e: Seq<char>| movable(e, exclusion))
}

/// Relocating through the staging directory leaves no entry of the staging
/// name at the top level, places the repository under the first segment of its
/// alias, and keeps every entry that was not moved. This holds as well when
/// the alias is itself one of the moved entries.
pub proof fn lemma_relocation_leaves_no_staging(
    top: Set<Seq<char>>,
    exclusion: Seq<Seq<char>>,
    alias: Seq<char>,
)
    requires
        first_segment(alias) != STAGING_DIR@,
    ensures
        ({
            let last = after_placing(after_staging(top, movable_entries(top, exclusion)), alias);
            &&& !last.contains(STAGING_DIR@)
            &&& last.contains(first_segment(alias))
            &&& forall|e: Seq<char>| top.contains(e) && !movable(e, exclusion) && e != STAGING_DIR@
                ==> last.contains(e)
        }),
{
}

} // verus!
