//! The merge run: a state machine that decides, from the outcome of each
//! action, which action comes next.
//!
//! A run first lists the metadata markers below the root, creates and
//! initialises the joined repository, and then merges the repositories one at
//! a time in ascending path order: it resolves the ref to merge, registers the
//! repository as a remote named by its alias, fetches and merges it, and
//! relocates its entries under the alias. Any failure ends the run.

use vstd::prelude::*;
use crate::branch::{manifest_pointer, resolve_manifest, BranchStrategy, Resolution, TAG_BRANCH};
use crate::relocate::{amend_args, commit_args, entries_to_move, movable, place_args, stage_args, ExclusionSet, STAGING_DIR};
use crate::order::strictly_sorted;
use crate::repos::{marks, repo_dirs};
use crate::text::{
    after_last, chars_first_segment, chars_of, concatenated, contains_char, first_segment,
    has_char, last_index_of, owned, chars_before_last, slice_chars, string_from, views,
};

verus! {

/// Why a run stopped.
#[derive(Debug)]
pub enum MergeError {
    /// A repository directory lies outside the root.
    OutsideRoot,
    /// A repository's remote-branch listing holds no manifest pointer.
    NoManifestPointer,
    /// An action failed; its error output.
    ActionFailed(String),
    /// An action reported an outcome of the wrong kind.
    UnexpectedOutcome,
}

/// What the caller does next.
pub enum Action {
    /// List the paths matching `<root>/**/.git`.
    FindMarkers(String),
    /// Create this directory, which must not exist yet.
    CreateDir(String),
    /// Create this directory and its missing parents.
    CreateDirs(String),
    /// List the names of the entries of this directory.
    ListDir(String),
    /// Run git with `args` in the directory `dir`.
    Git { dir: String, args: Vec<String> },
    /// Every repository was merged.
    Finished,
    /// The run stopped.
    Failed(MergeError),
}

/// How the last action went.
pub enum Outcome {
    /// It succeeded, with this output.
    Done(String),
    /// It succeeded, with these names.
    Listed(Vec<String>),
    /// It failed, with this error output.
    Failed(String),
}

/// The last action that a run asked for.
#[derive(Debug, Clone, Copy, PartialEq, Eq, Structural)]
pub enum Phase {
    Find,
    CreateTarget,
    Init,
    ListBranches,
    Checkout,
    CheckoutTag,
    AddRemote,
    Fetch,
    Merge,
    Stage,
    List,
    MoveToStaging,
    Commit,
    MakeParent,
    Place,
    Amend,
    Finished,
    Failed,
}

/// The state of a merge run.
pub struct MergeRun {
    /// Directory below which the repositories lie.
    pub root: String,
    /// The joined repository.
    pub target: String,
    /// How each repository's ref is chosen.
    pub strategy: BranchStrategy,
    /// The repository directories, ascending.
    pub repos: Vec<String>,
    /// Position in `repos` of the repository being merged.
    pub index: usize,
    /// Alias of the repository being merged.
    pub alias: String,
    /// Ref of the repository being merged, below its remote.
    pub merge_ref: String,
    /// First segments of the aliases of the repositories merged.
    pub exclusion: ExclusionSet,
    /// The last action asked for.
    pub phase: Phase,
}

/// The alias of the repository directory `repo` below `root`: its path
/// relative to `root`, or nothing where it does not lie below `root`.
pub open spec fn alias_of(root: Seq<char>, repo: Seq<char>) -> Option<Seq<char>> {
    if repo == root {
        Some(Seq::empty())
    } else if root.len() < repo.len() && repo.take(root.len() as int) == root && repo[root.len() as int] == '/' {
        Some(repo.skip(root.len() as int + 1))
    } else {
        None
    }
}

/// The alias of `repo` below `root`.
pub fn relative_alias(root: &str, repo: &str) -> (r: Option<String>)
    ensures
        r is Some <==> alias_of(root@, repo@) is Some,
        r is Some ==> r->0@ == alias_of(root@, repo@)->0,
{
    let rc = chars_of(root);
    let pc = chars_of(repo);
    if rc.len() > pc.len() {
        return None;
    }
    let mut i: usize = 0;
    while i < rc.len()
        invariant
            i <= rc.len() <= pc.len(),
            rc@ == root@,
            pc@ == repo@,
            pc@.take(i as int) == rc@.take(i as int),
        decreases rc.len() - i,
    {
        if rc[i] != pc[i] {
            assert(pc@.take(rc.len() as int)[i as int] != rc@[i as int]);
            assert(pc@[i as int] != rc@[i as int]);
            assert(pc@ != rc@);
            assert(pc@.take(rc.len() as int) != rc@);
            return None;
        }
        assert(pc@.take(i + 1) =~= pc@.take(i as int).push(pc@[i as int]));
        assert(rc@.take(i + 1) =~= rc@.take(i as int).push(rc@[i as int]));
        i = i + 1;
    }
    assert(rc@.take(rc.len() as int) =~= rc@);
    if rc.len() == pc.len() {
        assert(pc@ =~= rc@);
        return Some(String::new());
    }
    if pc[rc.len()] != '/' {
        assert(pc@ != rc@);
        return None;
    }
    let rest = slice_chars(&pc, rc.len() + 1, pc.len());
    assert(rest@ =~= pc@.skip(rc.len() + 1));
    Some(string_from(&rest))
}

/// `a` is running git in `dir` with the arguments `args`.
pub open spec fn is_git(a: Action, dir: Seq<char>, args: Seq<Seq<char>>) -> bool {
    match a {
        Action::Git { dir: d, args: g } => d@ == dir && views(g@) == args,
        _ => false,
    }
}

/// `a` creates the directory `path`, parents included where `parents`.
pub open spec fn is_create(a: Action, path: Seq<char>, parents: bool) -> bool {
    match a {
        Action::CreateDir(p) => !parents && p@ == path,
        Action::CreateDirs(p) => parents && p@ == path,
        _ => false,
    }
}

/// `a` lists the directory `path`.
pub open spec fn is_list(a: Action, path: Seq<char>) -> bool {
    match a {
        Action::ListDir(p) => p@ == path,
        _ => false,
    }
}

/// `args` moves into the staging directory exactly the movable entries of
/// `listing`, ascending.
pub open spec fn stages(args: Seq<Seq<char>>, listing: Seq<Seq<char>>, exclusion: Seq<Seq<char>>) -> bool {
    &&& args.len() >= 2
    &&& args[0] == "mv"@
    &&& args.last() == STAGING_DIR@ + "/"@
    &&& strictly_sorted(args.subrange(1, args.len() - 1))
    &&& forall|e: Seq<char>| args.subrange(1, args.len() - 1).contains(e)
        <==> (listing.contains(e) && movable(e, exclusion))
}

/// The merge of the repository directory `repo` below `root` starts with `a`,
/// leaving the run in `s`.
pub open spec fn starts_repo(s: MergeRun, a: Action, root: Seq<char>, repo: Seq<char>) -> bool {
    match alias_of(root, repo) {
        None => a matches Action::Failed(MergeError::OutsideRoot) && s.phase == Phase::Failed,
        Some(alias) => s.alias@ == alias && match s.strategy {
            BranchStrategy::Explicit(b) => is_git(a, repo, seq!["checkout"@, b@])
                && s.merge_ref@ == b@ && s.phase == Phase::Checkout,
            BranchStrategy::Manifest => is_git(a, repo, seq!["branch"@, "-r"@])
                && s.phase == Phase::ListBranches,
        },
    }
}

/// `a` begins the repository at position `s.index` of the run `s`, or ends the
/// run where none is left.
pub open spec fn begins(s: MergeRun, a: Action, root: Seq<char>, repos: Seq<String>) -> bool {
    if s.index == repos.len() {
        a is Finished && s.phase == Phase::Finished
    } else {
        starts_repo(s, a, root, repos[s.index as int]@)
    }
}

impl MergeRun {
    /// The run's own state is consistent.
    pub open spec fn wf(&self) -> bool {
        &&& self.index <= self.repos.len()
        &&& (self.phase != Phase::Find && self.phase != Phase::CreateTarget && self.phase != Phase::Init
            && self.phase != Phase::Finished && self.phase != Phase::Failed) ==> self.index < self.repos.len()
    }
}

/// `git` run in `dir` with `args`.
fn git(dir: &String, args: Vec<String>) -> (r: Action)
    ensures
        is_git(r, dir@, views(args@)),
{
    Action::Git { dir: dir.clone(), args }
}

/// `dir` + `/` + `name`.
fn join_path(dir: &String, name: &str) -> (r: String)
    ensures
        r@ == dir@ + "/"@ + name@,
{
    concatenated(concatenated(dir.as_str(), "/").as_str(), name)
}

impl MergeRun {
    /// Starts the repository at `self.index`, or ends the run.
    fn begin_repo(&mut self) -> (r: Action)
        requires
            old(self).index <= old(self).repos.len(),
        ensures
            final(self).wf(),
            final(self).index == old(self).index,
            final(self).root == old(self).root,
            final(self).target == old(self).target,
            final(self).strategy == old(self).strategy,
            final(self).repos == old(self).repos,
            final(self).exclusion == old(self).exclusion,
            begins(*final(self), r, old(self).root@, old(self).repos@),
    {
        if self.index == self.repos.len() {
            self.phase = Phase::Finished;
            return Action::Finished;
        }
        let alias = relative_alias(self.root.as_str(), self.repos[self.index].as_str());
        match alias {
            None => {
                self.phase = Phase::Failed;
                Action::Failed(MergeError::OutsideRoot)
            },
            Some(a) => {
                self.alias = a;
                let repo = self.repos[self.index].clone();
                match &self.strategy {
                    BranchStrategy::Explicit(b) => {
                        self.merge_ref = b.clone();
                        self.phase = Phase::Checkout;
                        let args = vec![owned("checkout"), b.clone()];
                        assert(views(args@) =~= seq!["checkout"@, b@]);
                        git(&repo, args)
                    },
                    BranchStrategy::Manifest => {
                        self.phase = Phase::ListBranches;
                        let args = vec![owned("branch"), owned("-r")];
                        assert(views(args@) =~= seq!["branch"@, "-r"@]);
                        git(&repo, args)
                    },
                }
            },
        }
    }

    /// Ends the run with `e`.
    fn fail(&mut self, e: MergeError) -> (r: Action)
        ensures
            final(self).phase == Phase::Failed,
            final(self).index == old(self).index,
            final(self).root == old(self).root,
            final(self).target == old(self).target,
            final(self).strategy == old(self).strategy,
            final(self).repos == old(self).repos,
            final(self).exclusion == old(self).exclusion,
            final(self).alias == old(self).alias,
            final(self).merge_ref == old(self).merge_ref,
            r matches Action::Failed(f) && f == e,
    {
        self.phase = Phase::Failed;
        Action::Failed(e)
    }
}

impl MergeRun {
    /// The action that follows `outcome`, the outcome of the last action.
    ///
    /// A failed action ends the run, but for the checkout of the tag branch,
    /// which may exist from an earlier run. Each repository is merged by
    /// checking out its ref, adding it as a remote named by its alias,
    /// fetching and merging it, moving its entries into the staging directory,
    /// committing, renaming the staging directory to the alias and amending
    /// the commit. The first segment of its alias then joins the exclusion set.
    #[verifier::rlimit(50)]
    pub fn step(&mut self, outcome: Outcome) -> (r: Action)
        requires
            old(self).wf(),
        ensures
            final(self).wf(),
            final(self).root == old(self).root,
            final(self).target == old(self).target,
            final(self).strategy == old(self).strategy,
            old(self).phase != Phase::Find ==> final(self).repos == old(self).repos,
            final(self).exclusion@ == if old(self).phase == Phase::Amend && outcome is Done {
                old(self).exclusion@.push(first_segment(old(self).alias@))
            } else {
                old(self).exclusion@
            },
            old(self).phase == Phase::Failed ==> r is Failed && final(self).phase == Phase::Failed,
            old(self).phase == Phase::Finished ==> r is Finished && final(self).phase == Phase::Finished,
            outcome is Failed && old(self).phase != Phase::CheckoutTag && old(self).phase != Phase::Finished
                ==> r is Failed && final(self).phase == Phase::Failed,
            ({
                let o = *old(self);
                let f = *final(self);
                let repo = o.repos@[o.index as int]@;
                match outcome {
                    Outcome::Listed(names) => {
                        &&& o.phase == Phase::Find ==> {
                            &&& strictly_sorted(views(f.repos@))
                            &&& forall|i: int| 0 <= i < f.repos.len() ==> marks(names@, #[trigger] f.repos@[i]@)
                            &&& forall|j: int| 0 <= j < names.len() && (#[trigger] crate::repos::marked_dir(names@[j]@)) is Some
                                ==> views(f.repos@).contains(crate::repos::marked_dir(names@[j]@)->0)
                            &&& f.index == 0
                            &&& is_create(r, o.target@, false)
                            &&& f.phase == Phase::CreateTarget
                        }
                        &&& o.phase == Phase::List ==> {
                            &&& (r matches Action::Git { dir, args } && dir@ == o.target@
                                && stages(views(args@), views(names@), o.exclusion@))
                            &&& f.phase == Phase::MoveToStaging
                        }
                    },
                    Outcome::Done(out) => {
                        &&& o.phase == Phase::CreateTarget ==> is_git(r, o.target@, seq!["init"@]) && f.phase == Phase::Init
                        &&& o.phase == Phase::Init ==> f.index == 0 && begins(f, r, o.root@, o.repos@)
                        &&& o.phase == Phase::ListBranches ==> match manifest_pointer(out@) {
                            None => (r matches Action::Failed(MergeError::NoManifestPointer)) && f.phase == Phase::Failed,
                            Some(t) => if has_char(t, '/') {
                                is_git(r, repo, seq!["checkout"@, after_last(t, '/')])
                                    && f.merge_ref@ == after_last(t, '/') && f.phase == Phase::Checkout
                            } else {
                                is_git(r, repo, seq!["checkout"@, "-b"@, TAG_BRANCH@, t])
                                    && f.merge_ref@ == TAG_BRANCH@ && f.phase == Phase::CheckoutTag
                            },
                        }
                        &&& o.phase == Phase::Checkout ==> f.phase == Phase::AddRemote
                            && is_git(r, o.target@, seq!["remote"@, "add"@, o.alias@, repo])
                        &&& o.phase == Phase::AddRemote ==> f.phase == Phase::Fetch
                            && is_git(r, o.target@, seq!["fetch"@, o.alias@])
                        &&& o.phase == Phase::Fetch ==> f.phase == Phase::Merge
                            && is_git(r, o.target@, seq!["merge"@, o.alias@ + "/"@ + o.merge_ref@, "--allow-unrelated-histories"@])
                        &&& o.phase == Phase::Merge ==> f.phase == Phase::Stage
                            && is_create(r, o.target@ + "/"@ + STAGING_DIR@, true)
                        &&& o.phase == Phase::Stage ==> f.phase == Phase::List && is_list(r, o.target@)
                        &&& o.phase == Phase::MoveToStaging ==> f.phase == Phase::Commit
                            && is_git(r, o.target@, seq!["commit"@, "-m"@, "Move "@ + o.alias@ + " repo contents"@])
                        &&& o.phase == Phase::Commit ==> if has_char(o.alias@, '/') {
                            f.phase == Phase::MakeParent
                                && is_create(r, o.target@ + "/"@ + o.alias@.take(last_index_of(o.alias@, '/')), true)
                        } else {
                            f.phase == Phase::Place && is_git(r, o.target@, seq!["mv"@, STAGING_DIR@, o.alias@])
                        }
                        &&& o.phase == Phase::MakeParent ==> f.phase == Phase::Place
                            && is_git(r, o.target@, seq!["mv"@, STAGING_DIR@, o.alias@])
                        &&& o.phase == Phase::Place ==> f.phase == Phase::Amend
                            && is_git(r, o.target@, seq!["commit"@, "--amend"@, "--no-edit"@])
                        &&& o.phase == Phase::Amend ==> f.index == o.index + 1 && begins(f, r, o.root@, o.repos@)
                    },
                    Outcome::Failed(_) => true,
                }
            }),
            old(self).phase != Phase::Find && old(self).phase != Phase::Init && old(self).phase != Phase::Amend
                ==> final(self).index == old(self).index && final(self).alias == old(self).alias,
            old(self).phase != Phase::Init && old(self).phase != Phase::Amend && old(self).phase != Phase::ListBranches
                ==> final(self).merge_ref == old(self).merge_ref,
            outcome is Done && (old(self).phase == Phase::Find || old(self).phase == Phase::List)
                ==> (r matches Action::Failed(MergeError::UnexpectedOutcome)) && final(self).phase == Phase::Failed,
            outcome is Listed && old(self).phase != Phase::Find && old(self).phase != Phase::List
                && old(self).phase != Phase::CheckoutTag && old(self).phase != Phase::Finished
                ==> r is Failed && final(self).phase == Phase::Failed,
            old(self).phase == Phase::CheckoutTag ==> final(self).phase == Phase::AddRemote
                && is_git(r, old(self).target@, seq!["remote"@, "add"@, old(self).alias@, old(self).repos@[old(self).index as int]@]),
    {
        match self.phase {
            Phase::Failed => {
                return Action::Failed(MergeError::UnexpectedOutcome);
            },
            Phase::Finished => {
                return Action::Finished;
            },
            Phase::CheckoutTag => {
                return self.add_remote();
            },
            _ => {},
        }
        let out = match outcome {
            Outcome::Failed(e) => {
                return self.fail(MergeError::ActionFailed(e));
            },
            Outcome::Listed(names) => {
                match self.phase {
                    Phase::Find => {
                        self.repos = repo_dirs(names);
                        self.index = 0;
                        self.phase = Phase::CreateTarget;
                        return Action::CreateDir(self.target.clone());
                    },
                    Phase::List => {
                        let ghost listed = views(names@);
                        let moved = entries_to_move(names, &self.exclusion);
                        let args = stage_args(&moved);
                        proof {
                            let a = views(args@);
                            assert(a.subrange(1, a.len() - 1) =~= views(moved@));
                            assert forall|e: Seq<char>| a.subrange(1, a.len() - 1).contains(e)
                                <==> (listed.contains(e) && movable(e, self.exclusion@)) by {
                                assert(views(moved@).contains(e) <==> (listed.contains(e) && movable(e, self.exclusion@)));
                            }
                        }
                        self.phase = Phase::MoveToStaging;
                        return git(&self.target, args);
                    },
                    _ => {
                        return self.fail(MergeError::UnexpectedOutcome);
                    },
                }
            },
            Outcome::Done(out) => out,
        };
        match self.phase {
            Phase::CreateTarget => {
                self.phase = Phase::Init;
                let args = vec![owned("init")];
                assert(views(args@) =~= seq!["init"@]);
                git(&self.target, args)
            },
            Phase::Init => {
                self.index = 0;
                self.begin_repo()
            },
            Phase::ListBranches => {
                match resolve_manifest(out.as_str()) {
                    Err(_) => self.fail(MergeError::NoManifestPointer),
                    Ok(Resolution::Branch(b)) => {
                        let repo = self.repos[self.index].clone();
                        self.merge_ref = b.clone();
                        self.phase = Phase::Checkout;
                        let args = vec![owned("checkout"), b];
                        assert(views(args@) =~= seq!["checkout"@, self.merge_ref@]);
                        git(&repo, args)
                    },
                    Ok(Resolution::Tag(t)) => {
                        let repo = self.repos[self.index].clone();
                        self.merge_ref = owned(TAG_BRANCH);
                        self.phase = Phase::CheckoutTag;
                        let args = vec![owned("checkout"), owned("-b"), owned(TAG_BRANCH), t];
                        assert(views(args@) =~= seq!["checkout"@, "-b"@, TAG_BRANCH@, manifest_pointer(out@)->0]);
                        git(&repo, args)
                    },
                }
            },
            Phase::Checkout => self.add_remote(),
            Phase::AddRemote => {
                self.phase = Phase::Fetch;
                let args = vec![owned("fetch"), self.alias.clone()];
                assert(views(args@) =~= seq!["fetch"@, self.alias@]);
                git(&self.target, args)
            },
            Phase::Fetch => {
                self.phase = Phase::Merge;
                let remote_ref = concatenated(concatenated(self.alias.as_str(), "/").as_str(), self.merge_ref.as_str());
                let args = vec![owned("merge"), remote_ref, owned("--allow-unrelated-histories")];
                assert(views(args@) =~= seq!["merge"@, self.alias@ + "/"@ + self.merge_ref@, "--allow-unrelated-histories"@]);
                git(&self.target, args)
            },
            Phase::Merge => {
                self.phase = Phase::Stage;
                Action::CreateDirs(join_path(&self.target, STAGING_DIR))
            },
            Phase::Stage => {
                self.phase = Phase::List;
                Action::ListDir(self.target.clone())
            },
            Phase::MoveToStaging => {
                self.phase = Phase::Commit;
                git(&self.target, commit_args(self.alias.as_str()))
            },
            Phase::Commit => {
                let ac = chars_of(self.alias.as_str());
                if contains_char(&ac, '/') {
                    let parent = string_from(&chars_before_last(&ac, '/'));
                    self.phase = Phase::MakeParent;
                    Action::CreateDirs(join_path(&self.target, parent.as_str()))
                } else {
                    self.phase = Phase::Place;
                    git(&self.target, place_args(self.alias.as_str()))
                }
            },
            Phase::MakeParent => {
                self.phase = Phase::Place;
                git(&self.target, place_args(self.alias.as_str()))
            },
            Phase::Place => {
                self.phase = Phase::Amend;
                git(&self.target, amend_args())
            },
            Phase::Amend => {
                let ac = chars_of(self.alias.as_str());
                let first = string_from(&chars_first_segment(&ac));
                self.exclusion.insert(first);
                self.index = self.index + 1;
                self.begin_repo()
            },
            _ => self.fail(MergeError::UnexpectedOutcome),
        }
    }

    /// Registers the repository being merged as a remote of the joined repository.
    fn add_remote(&mut self) -> (r: Action)
        requires
            old(self).index < old(self).repos.len(),
        ensures
            final(self).phase == Phase::AddRemote,
            final(self).index == old(self).index,
            final(self).root == old(self).root,
            final(self).target == old(self).target,
            final(self).strategy == old(self).strategy,
            final(self).repos == old(self).repos,
            final(self).exclusion == old(self).exclusion,
            final(self).alias == old(self).alias,
            final(self).merge_ref == old(self).merge_ref,
            is_git(r, old(self).target@, seq!["remote"@, "add"@, old(self).alias@, old(self).repos@[old(self).index as int]@]),
    {
        self.phase = Phase::AddRemote;
        let args = vec![owned("remote"), owned("add"), self.alias.clone(), self.repos[self.index].clone()];
        assert(views(args@) =~= seq!["remote"@, "add"@, self.alias@, self.repos@[self.index as int]@]);
        git(&self.target, args)
    }
}

/// A run that merges the repositories below `merge_root` into the new
/// repository `merge_root` + `joined_suffix`, merging `branch` of each where
/// it is given and each manifest's ref otherwise. Its first action lists the
/// metadata markers below `merge_root`.
pub fn merge_repositories(merge_root: &str, joined_suffix: &str, branch: Option<&str>) -> (r: (MergeRun, Action))
    ensures
        r.0.wf(),
        r.0.root@ == merge_root@,
        r.0.target@ == merge_root@ + joined_suffix@,
        r.0.repos@.len() == 0,
        r.0.exclusion@.len() == 0,
        r.0.phase == Phase::Find,
        match branch {
            Some(b) => r.0.strategy matches BranchStrategy::Explicit(name) && name@ == b@,
            None => r.0.strategy is Manifest,
        },
        match r.1 {
            Action::FindMarkers(p) => p@ == merge_root@,
            _ => false,
        },
{
    let strategy = match branch {
        Some(b) => BranchStrategy::Explicit(owned(b)),
        None => BranchStrategy::Manifest,
    };
    let run = MergeRun {
        root: owned(merge_root),
        target: concatenated(merge_root, joined_suffix),
        strategy,
        repos: Vec::new(),
        index: 0,
        alias: String::new(),
        merge_ref: String::new(),
        exclusion: ExclusionSet::new(),
        phase: Phase::Find,
    };
    (run, Action::FindMarkers(owned(merge_root)))
}

} // verus!
