use trenza::branch::{resolve_manifest, resolve_pointer, Resolution, ResolveError, TAG_BRANCH};
use trenza::merge::{merge_repositories, relative_alias, Action, MergeError, MergeRun, Outcome, Phase};
use trenza::relocate::{
    amend_args, commit_args, entries_to_move, place_args, stage_args, ExclusionSet, STAGING_DIR,
};
use trenza::repos::repo_dirs;
use trenza::text::concatenated;

fn strings(v: &[&str]) -> Vec<String> {
    v.iter().map(|s| s.to_string()).collect()
}

fn done() -> Outcome {
    Outcome::Done(String::new())
}

fn git_of(a: &Action) -> Option<(String, Vec<String>)> {
    match a {
        Action::Git { dir, args } => Some((dir.clone(), args.clone())),
        _ => None,
    }
}

/// Drives a run to its end, answering every action with success; directory
/// listings of the joined repository come from `listing_for`, one per repository.
fn drive(
    branch: Option<&str>,
    markers: &[&str],
    listings: &[&[&str]],
    branch_listing: &str,
) -> (MergeRun, Vec<Action>) {
    let (mut run, first) = merge_repositories("/w", "_joined", branch);
    let mut actions = vec![];
    let mut outcome = match first {
        Action::FindMarkers(ref root) => {
            assert_eq!(root, "/w");
            Outcome::Listed(strings(markers))
        }
        _ => panic!("a run starts by finding markers"),
    };
    let mut listed = 0;
    for _ in 0..200 {
        let action = run.step(outcome);
        outcome = match &action {
            Action::Finished | Action::Failed(_) => {
                actions.push(action);
                return (run, actions);
            }
            Action::ListDir(_) => {
                let o = Outcome::Listed(strings(listings[listed]));
                listed += 1;
                o
            }
            Action::Git { args, .. } if args == &strings(&["branch", "-r"]) => {
                Outcome::Done(branch_listing.to_string())
            }
            _ => done(),
        };
        actions.push(action);
    }
    panic!("the run did not end");
}

fn gits(actions: &[Action]) -> Vec<(String, Vec<String>)> {
    actions.iter().filter_map(git_of).collect()
}

#[test]
fn repo_dirs_are_marked_sorted_and_unique() {
    let r = repo_dirs(strings(&["/w/b/.git", "/w/a/.git", "/w/b/.git", "/w/a/x/.git"]));
    assert_eq!(r, strings(&["/w/a", "/w/a/x", "/w/b"]));
}

#[test]
fn repo_dirs_leave_out_what_is_no_marker() {
    let r = repo_dirs(strings(&["/w/a/.gitignore", "/w/b/.git", "/w/.git/x"]));
    assert_eq!(r, strings(&["/w/b"]));
    assert!(repo_dirs(vec![]).is_empty());
}

#[test]
fn repo_dirs_order_by_string() {
    let r = repo_dirs(strings(&["/w/a/b/.git", "/w/a-b/.git"]));
    assert_eq!(r, strings(&["/w/a-b", "/w/a/b"]));
}

#[test]
fn manifest_pointer_with_separator_names_a_branch() {
    let listing = "  m/foo -> origin/release-1.0\n  origin/HEAD -> origin/main\n  origin/main\n";
    match resolve_manifest(listing) {
        Ok(Resolution::Branch(b)) => assert_eq!(b, "release-1.0"),
        _ => panic!("expected a branch"),
    }
}

#[test]
fn manifest_pointer_without_separator_names_a_tag() {
    match resolve_manifest("  m/foo -> v1.2\n  origin/main\n") {
        Ok(Resolution::Tag(t)) => assert_eq!(t, "v1.2"),
        _ => panic!("expected a tag"),
    }
}

#[test]
fn listing_without_pointer_fails_resolution() {
    assert!(matches!(
        resolve_manifest("  origin/HEAD -> origin/main\n  origin/main\n"),
        Err(ResolveError::NoManifestPointer)
    ));
    assert!(matches!(resolve_manifest(""), Err(ResolveError::NoManifestPointer)));
}

#[test]
fn pointer_target_resolution() {
    match resolve_pointer(Some("a/b/c".to_string())) {
        Ok(Resolution::Branch(b)) => assert_eq!(b, "c"),
        _ => panic!("expected a branch"),
    }
    match resolve_pointer(Some("tag".to_string())) {
        Ok(Resolution::Tag(t)) => assert_eq!(t, "tag"),
        _ => panic!("expected a tag"),
    }
    assert!(matches!(resolve_pointer(None), Err(ResolveError::NoManifestPointer)));
}

#[test]
fn aliases_are_relative_to_root() {
    assert_eq!(relative_alias("/w", "/w/group/repoB"), Some("group/repoB".to_string()));
    assert_eq!(relative_alias("/w", "/w"), Some(String::new()));
    assert_eq!(relative_alias("/w", "/wx/a"), None);
    assert_eq!(relative_alias("/w", "/v/a"), None);
}

#[test]
fn exclusion_set_keeps_entries_in_order() {
    let mut e = ExclusionSet::new();
    assert!(e.names().is_empty());
    e.insert("a".to_string());
    e.insert("b".to_string());
    assert!(e.contains(&"a".to_string()));
    assert!(!e.contains(&"c".to_string()));
    assert_eq!(e.names(), strings(&["a", "b"]));
}

#[test]
fn entries_to_move_skip_metadata_staging_and_placed() {
    let mut e = ExclusionSet::new();
    e.insert("repoA".to_string());
    let listing = strings(&["src", ".git", STAGING_DIR, "repoA", "README", "src"]);
    assert_eq!(entries_to_move(listing, &e), strings(&["README", "src"]));
}

#[test]
fn relocation_arguments() {
    let staged = stage_args(&strings(&["a", "b"]));
    assert_eq!(staged, strings(&["mv", "a", "b", "z_tmp_unique_target_directory_@@@/"]));
    assert_eq!(commit_args("x/y"), strings(&["commit", "-m", "Move x/y repo contents"]));
    assert_eq!(place_args("x"), strings(&["mv", STAGING_DIR, "x"]));
    assert_eq!(amend_args(), strings(&["commit", "--amend", "--no-edit"]));
    assert_eq!(concatenated("ab", "cd"), "abcd");
}

#[test]
fn end_to_end_explicit_branch() {
    let (run, actions) = drive(
        Some("main"),
        &["/w/repoA/.git", "/w/group/repoB/.git"],
        &[&[".git", STAGING_DIR, "a.txt"], &[".git", STAGING_DIR, "group", "b.txt"]],
        "",
    );
    assert!(matches!(actions.last(), Some(Action::Finished)));
    assert_eq!(run.phase, Phase::Finished);
    assert_eq!(run.exclusion.names(), strings(&["group", "repoA"]));
    assert!(matches!(&actions[0], Action::CreateDir(p) if p == "/w_joined"));
    let g = gits(&actions);
    let t = "/w_joined".to_string();
    let expected = vec![
        (t.clone(), strings(&["init"])),
        ("/w/group/repoB".to_string(), strings(&["checkout", "main"])),
        (t.clone(), strings(&["remote", "add", "group/repoB", "/w/group/repoB"])),
        (t.clone(), strings(&["fetch", "group/repoB"])),
        (t.clone(), strings(&["merge", "group/repoB/main", "--allow-unrelated-histories"])),
        (t.clone(), strings(&["mv", "a.txt", "z_tmp_unique_target_directory_@@@/"])),
        (t.clone(), strings(&["commit", "-m", "Move group/repoB repo contents"])),
        (t.clone(), strings(&["mv", STAGING_DIR, "group/repoB"])),
        (t.clone(), strings(&["commit", "--amend", "--no-edit"])),
        ("/w/repoA".to_string(), strings(&["checkout", "main"])),
        (t.clone(), strings(&["remote", "add", "repoA", "/w/repoA"])),
        (t.clone(), strings(&["fetch", "repoA"])),
        (t.clone(), strings(&["merge", "repoA/main", "--allow-unrelated-histories"])),
        (t.clone(), strings(&["mv", "b.txt", "z_tmp_unique_target_directory_@@@/"])),
        (t.clone(), strings(&["commit", "-m", "Move repoA repo contents"])),
        (t.clone(), strings(&["mv", STAGING_DIR, "repoA"])),
        (t.clone(), strings(&["commit", "--amend", "--no-edit"])),
    ];
    assert_eq!(g, expected);
    let parents: Vec<&Action> = actions.iter().filter(|a| matches!(a, Action::CreateDirs(p) if p == "/w_joined/group")).collect();
    assert_eq!(parents.len(), 1);
    let merges = g.iter().filter(|(_, a)| a[0] == "merge").count();
    assert_eq!(merges, 2);
}

#[test]
fn end_to_end_self_collision() {
    let (run, actions) = drive(Some("main"), &["/w/repoX/.git"], &[&[".git", STAGING_DIR, "repoX", "f"]], "");
    assert!(matches!(actions.last(), Some(Action::Finished)));
    assert_eq!(run.exclusion.names(), strings(&["repoX"]));
    let g = gits(&actions);
    assert!(g.contains(&("/w_joined".to_string(), strings(&["mv", "f", "repoX", "z_tmp_unique_target_directory_@@@/"]))));
    let last_moves: Vec<_> = g.iter().filter(|(_, a)| a[0] == "mv").collect();
    assert_eq!(last_moves.last().unwrap().1, strings(&["mv", STAGING_DIR, "repoX"]));
}

#[test]
fn manifest_run_merges_the_pointed_branch() {
    let (run, actions) = drive(None, &["/w/r/.git"], &[&[".git", STAGING_DIR, "f"]], "  m/x -> origin/release-1.0\n");
    assert!(matches!(actions.last(), Some(Action::Finished)));
    assert_eq!(run.exclusion.names(), strings(&["r"]));
    let g = gits(&actions);
    assert!(g.contains(&("/w/r".to_string(), strings(&["checkout", "release-1.0"]))));
    assert!(g.contains(&("/w_joined".to_string(), strings(&["merge", "r/release-1.0", "--allow-unrelated-histories"]))));
}

#[test]
fn manifest_run_without_pointer_issues_no_remote_command() {
    let (run, actions) = drive(None, &["/w/r/.git"], &[], "  origin/main\n");
    assert!(matches!(actions.last(), Some(Action::Failed(MergeError::NoManifestPointer))));
    assert_eq!(run.phase, Phase::Failed);
    assert!(run.exclusion.names().is_empty());
    let g = gits(&actions);
    assert!(!g.iter().any(|(_, a)| a[0] == "remote" || a[0] == "fetch" || a[0] == "merge"));
}

#[test]
fn existing_tag_branch_does_not_stop_the_run() {
    let (mut run, _) = merge_repositories("/w", "_joined", None);
    run.step(Outcome::Listed(strings(&["/w/r/.git"])));
    run.step(done());
    run.step(done());
    let checkout = run.step(Outcome::Done("  m/x -> v1.2\n".to_string()));
    assert_eq!(git_of(&checkout).unwrap().1, strings(&["checkout", "-b", TAG_BRANCH, "v1.2"]));
    assert_eq!(run.phase, Phase::CheckoutTag);
    let next = run.step(Outcome::Failed("fatal: a branch named 'tmp_join_branch' already exists".to_string()));
    assert_eq!(git_of(&next).unwrap().1, strings(&["remote", "add", "r", "/w/r"]));
    run.step(done());
    let merge = run.step(done());
    assert_eq!(git_of(&merge).unwrap().1, strings(&["merge", "r/tmp_join_branch", "--allow-unrelated-histories"]));
}

#[test]
fn a_failed_action_ends_the_run() {
    let (mut run, _) = merge_repositories("/w", "_joined", Some("main"));
    run.step(Outcome::Listed(strings(&["/w/r/.git"])));
    run.step(done());
    run.step(done());
    let a = run.step(Outcome::Failed("no such branch".to_string()));
    assert!(matches!(a, Action::Failed(MergeError::ActionFailed(ref m)) if m == "no such branch"));
    assert!(matches!(run.step(done()), Action::Failed(_)));
    assert_eq!(run.phase, Phase::Failed);
}

#[test]
fn an_empty_tree_finishes_after_init() {
    let (run, actions) = drive(Some("main"), &[], &[], "");
    assert!(matches!(actions.last(), Some(Action::Finished)));
    assert!(run.exclusion.names().is_empty());
    assert_eq!(gits(&actions), vec![("/w_joined".to_string(), strings(&["init"]))]);
}

#[test]
fn repository_outside_root_fails() {
    let (mut run, _) = merge_repositories("/w", "_joined", Some("main"));
    run.step(Outcome::Listed(strings(&["/v/r/.git"])));
    run.step(done());
    assert!(matches!(run.step(done()), Action::Failed(MergeError::OutsideRoot)));
}

#[test]
fn unexpected_outcome_fails() {
    let (mut run, _) = merge_repositories("/w", "_joined", Some("main"));
    assert!(matches!(run.step(done()), Action::Failed(MergeError::UnexpectedOutcome)));
}
