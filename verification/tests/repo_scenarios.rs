//! End-to-end scenarios against real repositories built in-process.

use virtual_repo_hub::get_status;
use virtual_repo_hub::is_backed_up;
use virtual_repo_hub::policy::Diagnostic;
use virtual_repo_hub::BranchStatus;
use virtual_repo_hub::ClassifyError;
use virtual_repo_hub::TrackingStatus;

fn sig() -> git2::Signature<'static> {
    git2::Signature::now("tester", "tester@example.com").unwrap()
}

/// Commits a single-file tree onto HEAD and forces the working tree and
/// index to match it. Returns the new commit id.
fn commit_file(repo: &git2::Repository, name: &str, content: &[u8], msg: &str) -> git2::Oid {
    let blob = repo.blob(content).unwrap();
    let mut builder = repo.treebuilder(None).unwrap();
    builder.insert(name, blob, 0o100644).unwrap();
    let tree_id = builder.write().unwrap();
    let tree = repo.find_tree(tree_id).unwrap();
    let author = sig();
    let parent = match repo.head() {
        Ok(head) => Some(head.peel_to_commit().unwrap()),
        Err(_) => None,
    };
    let parents: Vec<&git2::Commit> = parent.iter().collect();
    let oid = repo
        .commit(Some("HEAD"), &author, &author, msg, &tree, &parents)
        .unwrap();
    if !repo.is_bare() {
        let mut checkout = git2::build::CheckoutBuilder::new();
        checkout.force();
        repo.checkout_head(Some(&mut checkout)).unwrap();
    }
    oid
}

/// Stages new content for a tracked file without touching the working tree.
fn stage_change(repo: &git2::Repository, name: &str, content: &[u8]) {
    let mut index = repo.index().unwrap();
    let entry = git2::IndexEntry {
        ctime: git2::IndexTime::new(0, 0),
        mtime: git2::IndexTime::new(0, 0),
        dev: 0,
        ino: 0,
        mode: 0o100644,
        uid: 0,
        gid: 0,
        file_size: 0,
        id: git2::Oid::from_bytes(&[0u8; 20]).unwrap(),
        flags: 0,
        flags_extended: 0,
        path: name.as_bytes().to_vec(),
    };
    index.add_frombuffer(&entry, content).unwrap();
    index.write().unwrap();
}

/// Makes the working tree and index dirty by force-checking-out a tree
/// that differs from HEAD.
fn make_dirty(repo: &git2::Repository, name: &str, content: &[u8]) {
    let blob = repo.blob(content).unwrap();
    let mut builder = repo.treebuilder(None).unwrap();
    builder.insert(name, blob, 0o100644).unwrap();
    let tree = repo.find_tree(builder.write().unwrap()).unwrap();
    let mut checkout = git2::build::CheckoutBuilder::new();
    checkout.force();
    repo.checkout_tree(tree.as_object(), Some(&mut checkout))
        .unwrap();
}

fn head_branch_name(repo: &git2::Repository) -> String {
    repo.head().unwrap().shorthand().unwrap().to_string()
}

fn branch_status(
    status: &virtual_repo_hub::RepoStatus,
    name: &str,
) -> Option<BranchStatus> {
    status
        .branches
        .iter()
        .find(|(n, _)| n.as_str() == name)
        .map(|(_, s)| s.clone())
}

#[test]
fn bare_repo_trivially_clean() {
    let dir = tempfile::tempdir().unwrap();
    let mut repo = git2::Repository::init_bare(dir.path()).unwrap();
    repo.remote("origin", "https://example.invalid/repo.git")
        .unwrap();
    // Even a bare repository with a branch must short-circuit to the fixed
    // snapshot: only the remotes are populated.
    commit_file(&repo, "f.txt", b"v1", "c1");

    let status = get_status(&mut repo).unwrap();
    assert!(status.bare);
    assert!(status.clean_status);
    assert!(status.clean_state);
    assert_eq!(status.stashes, 0);
    assert!(status.branches.is_empty());
    assert_eq!(status.remotes.len(), 1);
    assert_eq!(status.remotes[0].name().as_str(), "origin");

    let (ok, diagnostics) = is_backed_up(&status);
    assert!(!ok);
    assert_eq!(diagnostics, vec![Diagnostic::NotEvaluated]);
}

#[test]
fn staged_change_after_three_commits() {
    let dir = tempfile::tempdir().unwrap();
    let mut repo = git2::Repository::init(dir.path()).unwrap();
    commit_file(&repo, "default.txt", b"v1", "c1");
    commit_file(&repo, "default.txt", b"v2", "c2");
    commit_file(&repo, "default.txt", b"v3", "c3");
    stage_change(&repo, "default.txt", b"v4");

    let status = get_status(&mut repo).unwrap();
    assert!(!status.bare);
    // A staged-but-uncommitted modification flags the entry, so the
    // working tree does not count as clean.
    assert!(!status.clean_status);
    assert!(status.clean_state);
    assert_eq!(status.stashes, 0);
    assert!(status.remotes.is_empty());
    // The single local branch has no upstream and no remote branch to be
    // merged into.
    let head = head_branch_name(&repo);
    assert_eq!(status.branches.len(), 1);
    assert_eq!(
        branch_status(&status, &head),
        Some(BranchStatus::LocalBranch {
            merged_in_remote: false
        })
    );

    let (ok, diagnostics) = is_backed_up(&status);
    assert!(!ok);
    assert_eq!(
        diagnostics,
        vec![
            Diagnostic::ModifiedFiles,
            Diagnostic::NoRemotes,
            Diagnostic::UnmergedBranches,
        ]
    );
}

#[test]
fn ahead_by_two_tracking_branch() {
    let dir = tempfile::tempdir().unwrap();
    let mut repo = git2::Repository::init(dir.path()).unwrap();
    let c1 = commit_file(&repo, "f.txt", b"v1", "c1");
    let head = head_branch_name(&repo);

    repo.remote("origin", "https://example.invalid/repo.git")
        .unwrap();
    repo.reference("refs/remotes/origin/master", c1, true, "test")
        .unwrap();
    {
        let mut branch = repo.find_branch(&head, git2::BranchType::Local).unwrap();
        branch.set_upstream(Some("origin/master")).unwrap();
    }

    commit_file(&repo, "f.txt", b"v2", "c2");
    commit_file(&repo, "f.txt", b"v3", "c3");

    let status = get_status(&mut repo).unwrap();
    assert_eq!(
        branch_status(&status, &head),
        Some(BranchStatus::TrackingBranch(TrackingStatus::Ahead))
    );

    // Ahead means not backed up.
    let (ok, diagnostics) = is_backed_up(&status);
    assert!(!ok);
    assert_eq!(diagnostics, vec![Diagnostic::UnmergedBranches]);
}

#[test]
fn behind_tracking_branch_never_ahead() {
    let dir = tempfile::tempdir().unwrap();
    let mut repo = git2::Repository::init(dir.path()).unwrap();
    let c1 = commit_file(&repo, "f.txt", b"v1", "c1");
    let head = head_branch_name(&repo);
    let c2 = commit_file(&repo, "f.txt", b"v2", "c2");

    repo.remote("origin", "https://example.invalid/repo.git")
        .unwrap();
    repo.reference("refs/remotes/origin/master", c2, true, "test")
        .unwrap();
    // Move the local branch back to the older commit: a purely-behind
    // history must classify Behind, never Ahead.
    repo.reference(&format!("refs/heads/{}", head), c1, true, "reset")
        .unwrap();
    let mut checkout = git2::build::CheckoutBuilder::new();
    checkout.force();
    repo.checkout_head(Some(&mut checkout)).unwrap();
    {
        let mut branch = repo.find_branch(&head, git2::BranchType::Local).unwrap();
        branch.set_upstream(Some("origin/master")).unwrap();
    }

    let status = get_status(&mut repo).unwrap();
    assert_eq!(
        branch_status(&status, &head),
        Some(BranchStatus::TrackingBranch(TrackingStatus::Behind))
    );

    // Behind counts as merged in the upstream: with a clean tree and a
    // remote, the repository is backed up.
    let (ok, diagnostics) = is_backed_up(&status);
    assert!(ok);
    assert_eq!(diagnostics, Vec::<Diagnostic>::new());
}

#[test]
fn current_tracking_branch() {
    let dir = tempfile::tempdir().unwrap();
    let mut repo = git2::Repository::init(dir.path()).unwrap();
    let c1 = commit_file(&repo, "f.txt", b"v1", "c1");
    let head = head_branch_name(&repo);

    repo.remote("origin", "https://example.invalid/repo.git")
        .unwrap();
    repo.reference("refs/remotes/origin/master", c1, true, "test")
        .unwrap();
    {
        let mut branch = repo.find_branch(&head, git2::BranchType::Local).unwrap();
        branch.set_upstream(Some("origin/master")).unwrap();
    }

    let status = get_status(&mut repo).unwrap();
    assert_eq!(
        branch_status(&status, &head),
        Some(BranchStatus::TrackingBranch(TrackingStatus::Current))
    );
}

#[test]
fn diverged_tracking_branch() {
    let dir = tempfile::tempdir().unwrap();
    let mut repo = git2::Repository::init(dir.path()).unwrap();
    let c1 = commit_file(&repo, "f.txt", b"v1", "c1");
    let head = head_branch_name(&repo);

    // One child of c1 on the local branch, a different child of c1 on the
    // remote branch.
    commit_file(&repo, "f.txt", b"local", "c2a");
    {
        let c1_commit = repo.find_commit(c1).unwrap();
        let blob = repo.blob(b"remote").unwrap();
        let mut builder = repo.treebuilder(None).unwrap();
        builder.insert("f.txt", blob, 0o100644).unwrap();
        let tree = repo.find_tree(builder.write().unwrap()).unwrap();
        let author = sig();
        repo.commit(
            Some("refs/remotes/origin/master"),
            &author,
            &author,
            "c2b",
            &tree,
            &[&c1_commit],
        )
        .unwrap();
    }

    repo.remote("origin", "https://example.invalid/repo.git")
        .unwrap();
    {
        let mut branch = repo.find_branch(&head, git2::BranchType::Local).unwrap();
        branch.set_upstream(Some("origin/master")).unwrap();
    }

    let status = get_status(&mut repo).unwrap();
    assert_eq!(
        branch_status(&status, &head),
        Some(BranchStatus::TrackingBranch(TrackingStatus::Diverged))
    );
}

#[test]
fn local_branch_merged_in_remote() {
    let dir = tempfile::tempdir().unwrap();
    let mut repo = git2::Repository::init(dir.path()).unwrap();
    let c1 = commit_file(&repo, "f.txt", b"v1", "c1");
    let c2 = commit_file(&repo, "f.txt", b"v2", "c2");

    // A local branch at c1 with no upstream, and a remote branch at c2
    // whose history strictly contains c1.
    {
        let c1_commit = repo.find_commit(c1).unwrap();
        repo.branch("feature", &c1_commit, false).unwrap();
    }
    repo.remote("origin", "https://example.invalid/repo.git")
        .unwrap();
    repo.reference("refs/remotes/origin/main", c2, true, "test")
        .unwrap();

    let status = get_status(&mut repo).unwrap();
    assert_eq!(
        branch_status(&status, "feature"),
        Some(BranchStatus::LocalBranch {
            merged_in_remote: true
        })
    );
}

#[test]
fn local_branch_with_extra_commit_not_merged() {
    let dir = tempfile::tempdir().unwrap();
    let mut repo = git2::Repository::init(dir.path()).unwrap();
    let c1 = commit_file(&repo, "f.txt", b"v1", "c1");
    let c2 = commit_file(&repo, "f.txt", b"v2", "c2");

    // The same shape as the merged case, but the local branch carries one
    // commit that no remote branch contains.
    {
        let c1_commit = repo.find_commit(c1).unwrap();
        repo.branch("feature", &c1_commit, false).unwrap();
        let blob = repo.blob(b"extra").unwrap();
        let mut builder = repo.treebuilder(None).unwrap();
        builder.insert("f.txt", blob, 0o100644).unwrap();
        let tree = repo.find_tree(builder.write().unwrap()).unwrap();
        let author = sig();
        repo.commit(
            Some("refs/heads/feature"),
            &author,
            &author,
            "extra",
            &tree,
            &[&c1_commit],
        )
        .unwrap();
    }
    repo.remote("origin", "https://example.invalid/repo.git")
        .unwrap();
    repo.reference("refs/remotes/origin/main", c2, true, "test")
        .unwrap();

    let status = get_status(&mut repo).unwrap();
    assert_eq!(
        branch_status(&status, "feature"),
        Some(BranchStatus::LocalBranch {
            merged_in_remote: false
        })
    );
}

#[test]
fn stashes_surfaced_as_advisory() {
    let dir = tempfile::tempdir().unwrap();
    let mut repo = git2::Repository::init(dir.path()).unwrap();
    let c1 = commit_file(&repo, "f.txt", b"v1", "c1");
    let head = head_branch_name(&repo);

    repo.remote("origin", "https://example.invalid/repo.git")
        .unwrap();
    repo.reference("refs/remotes/origin/master", c1, true, "test")
        .unwrap();
    {
        let mut branch = repo.find_branch(&head, git2::BranchType::Local).unwrap();
        branch.set_upstream(Some("origin/master")).unwrap();
    }

    make_dirty(&repo, "f.txt", b"stash-me-1");
    repo.stash_save(&sig(), "first", None).unwrap();
    make_dirty(&repo, "f.txt", b"stash-me-2");
    repo.stash_save(&sig(), "second", None).unwrap();

    let status = get_status(&mut repo).unwrap();
    assert!(!status.bare);
    assert!(status.clean_status);
    assert!(status.clean_state);
    assert_eq!(status.stashes, 2);
    assert_eq!(
        branch_status(&status, &head),
        Some(BranchStatus::TrackingBranch(TrackingStatus::Current))
    );

    // Stashes never fail the check by themselves, but are always surfaced.
    let (ok, diagnostics) = is_backed_up(&status);
    assert!(ok);
    assert_eq!(diagnostics, vec![Diagnostic::Stashes { count: 2 }]);
    assert_eq!(diagnostics[0].message(), "has stashes");
}

#[test]
fn classify_twice_yields_equal_snapshots() {
    let dir = tempfile::tempdir().unwrap();
    let mut repo = git2::Repository::init(dir.path()).unwrap();
    let c1 = commit_file(&repo, "f.txt", b"v1", "c1");
    let head = head_branch_name(&repo);
    repo.remote("origin", "https://example.invalid/repo.git")
        .unwrap();
    repo.reference("refs/remotes/origin/master", c1, true, "test")
        .unwrap();
    {
        let mut branch = repo.find_branch(&head, git2::BranchType::Local).unwrap();
        branch.set_upstream(Some("origin/master")).unwrap();
    }
    {
        let c1_commit = repo.find_commit(c1).unwrap();
        repo.branch("feature", &c1_commit, false).unwrap();
    }

    let first = get_status(&mut repo).unwrap();
    let second = get_status(&mut repo).unwrap();
    assert_eq!(first, second);
}

#[test]
fn backend_error_aborts_classification() {
    let dir = tempfile::tempdir().unwrap();
    let mut repo = git2::Repository::init(dir.path()).unwrap();
    commit_file(&repo, "f.txt", b"v1", "c1");

    // A branch reference that does not point at a commit: resolving its tip
    // is a backend failure, which must abort with no partial snapshot.
    let blob = repo.blob(b"not a commit").unwrap();
    repo.reference("refs/heads/broken", blob, true, "test")
        .unwrap();

    let result = get_status(&mut repo);
    assert!(matches!(result, Err(ClassifyError::Backend(_))));
}

#[test]
fn merge_in_progress_is_not_clean_state() {
    let dir = tempfile::tempdir().unwrap();
    let mut repo = git2::Repository::init(dir.path()).unwrap();
    let c1 = commit_file(&repo, "f.txt", b"base", "c1");

    // A conflicting commit on a second branch.
    {
        let c1_commit = repo.find_commit(c1).unwrap();
        repo.branch("other", &c1_commit, false).unwrap();
        let blob = repo.blob(b"theirs").unwrap();
        let mut builder = repo.treebuilder(None).unwrap();
        builder.insert("f.txt", blob, 0o100644).unwrap();
        let tree = repo.find_tree(builder.write().unwrap()).unwrap();
        let author = sig();
        repo.commit(
            Some("refs/heads/other"),
            &author,
            &author,
            "theirs",
            &tree,
            &[&c1_commit],
        )
        .unwrap();
    }
    commit_file(&repo, "f.txt", b"ours", "c2");

    // Start a merge that conflicts and leave it unresolved.
    {
        let other = repo
            .find_branch("other", git2::BranchType::Local)
            .unwrap()
            .get()
            .target()
            .unwrap();
        let theirs = repo.find_annotated_commit(other).unwrap();
        repo.merge(&[&theirs], None, None).unwrap();
    }

    let status = get_status(&mut repo).unwrap();
    assert!(!status.bare);
    assert!(!status.clean_state);
    // The conflicted entries also flag the working tree.
    assert!(!status.clean_status);

    let (ok, diagnostics) = is_backed_up(&status);
    assert!(!ok);
    assert!(diagnostics.contains(&Diagnostic::OperationInProgress));
    assert!(diagnostics.contains(&Diagnostic::ModifiedFiles));
}

#[test]
fn merged_into_later_remote_branch() {
    let dir = tempfile::tempdir().unwrap();
    let mut repo = git2::Repository::init(dir.path()).unwrap();
    let c0 = commit_file(&repo, "f.txt", b"root", "c0");
    let c1 = commit_file(&repo, "f.txt", b"v1", "c1");

    // The local branch under test sits at c1 with no upstream.
    {
        let c1_commit = repo.find_commit(c1).unwrap();
        repo.branch("feature", &c1_commit, false).unwrap();
    }

    // The first remote branch (in enumeration order) sits on a divergent
    // line from the root, so the first pass does not eliminate the branch;
    // the second remote branch contains c1 and does.
    {
        let c0_commit = repo.find_commit(c0).unwrap();
        let blob = repo.blob(b"divergent").unwrap();
        let mut builder = repo.treebuilder(None).unwrap();
        builder.insert("f.txt", blob, 0o100644).unwrap();
        let tree = repo.find_tree(builder.write().unwrap()).unwrap();
        let author = sig();
        repo.commit(
            Some("refs/remotes/origin/aaa"),
            &author,
            &author,
            "divergent",
            &tree,
            &[&c0_commit],
        )
        .unwrap();
    }
    let c2 = commit_file(&repo, "f.txt", b"v2", "c2");
    repo.reference("refs/remotes/origin/bbb", c2, true, "test")
        .unwrap();
    repo.remote("origin", "https://example.invalid/repo.git")
        .unwrap();

    let status = get_status(&mut repo).unwrap();
    assert_eq!(
        branch_status(&status, "feature"),
        Some(BranchStatus::LocalBranch {
            merged_in_remote: true
        })
    );
}

#[test]
fn empty_repository_classifies_cleanly() {
    let dir = tempfile::tempdir().unwrap();
    let mut repo = git2::Repository::init(dir.path()).unwrap();
    let status = get_status(&mut repo).unwrap();
    assert!(!status.bare);
    assert!(status.clean_status);
    assert!(status.clean_state);
    assert_eq!(status.stashes, 0);
    assert!(status.remotes.is_empty());
    assert!(status.branches.is_empty());
}
