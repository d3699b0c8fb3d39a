//! Trusted boundary to the git backend.
//!
//! Each item here either declares an outside type so that it can appear in
//! signatures, or wraps exactly one backend call. The results of these calls
//! depend on what is on disk, so their contracts state only what holds of
//! every outcome; the verified logic in the rest of the crate takes the
//! results as plain values and does all classification itself.

use vstd::prelude::*;

use crate::RepoState;

verus! {

/// An open repository handle of the git backend.
#[verifier::external_type_specification]
#[verifier::external_body]
pub struct ExRepository(git2::Repository);

/// An error of the git backend.
#[verifier::external_type_specification]
#[verifier::external_body]
pub struct ExGitError(git2::Error);

/// A branch handle of the git backend, borrowing the repository.
#[verifier::external_type_specification]
#[verifier::external_body]
pub struct ExBranch<'repo>(git2::Branch<'repo>);

/// Which class of branches to enumerate.
#[derive(Clone, Copy, Debug, PartialEq, Eq, Structural)]
pub enum BranchKind {
    /// Local branches (`refs/heads/*`).
    Local,
    /// Remote-tracking branches (`refs/remotes/*`).
    Remote,
}

/// Relies on `git2::Repository::is_bare`: whether the repository has no
/// working tree.
#[verifier::external_body]
pub(crate) fn repo_is_bare(repo: &git2::Repository) -> bool {
    repo.is_bare()
}

/// Relies on `git2::Repository::state`: the operation currently in progress,
/// reported variant for variant.
#[verifier::external_body]
pub(crate) fn repo_state(repo: &git2::Repository) -> RepoState {
    match repo.state() {
        git2::RepositoryState::Clean => RepoState::Clean,
        git2::RepositoryState::Merge => RepoState::Merge,
        git2::RepositoryState::Revert => RepoState::Revert,
        git2::RepositoryState::RevertSequence => RepoState::RevertSequence,
        git2::RepositoryState::CherryPick => RepoState::CherryPick,
        git2::RepositoryState::CherryPickSequence => RepoState::CherryPickSequence,
        git2::RepositoryState::Bisect => RepoState::Bisect,
        git2::RepositoryState::Rebase => RepoState::Rebase,
        git2::RepositoryState::RebaseInteractive => RepoState::RebaseInteractive,
        git2::RepositoryState::RebaseMerge => RepoState::RebaseMerge,
        git2::RepositoryState::ApplyMailbox => RepoState::ApplyMailbox,
        git2::RepositoryState::ApplyMailboxOrRebase => RepoState::ApplyMailboxOrRebase,
    }
}

/// Relies on `git2::Repository::remotes`: one entry per configured remote,
/// `None` where the name cannot be decoded as text (the enumeration reports
/// such a name as a decoding failure for that entry alone).
#[verifier::external_body]
pub(crate) fn repo_remote_names(repo: &git2::Repository) -> Result<Vec<Option<String>>, git2::Error> {
    let names = repo.remotes()?;
    Ok(names.iter().map(|name| match name {
        Ok(Some(s)) => Some(s.to_string()),
        Ok(None) => None,
        Err(_) => None,
    }).collect())
}

/// Relies on `git2::Repository::statuses`: the raw status flag bits of each
/// working-tree/index entry, in enumeration order.
#[verifier::external_body]
pub(crate) fn repo_entry_status_bits(repo: &git2::Repository) -> Result<Vec<u32>, git2::Error> {
    let statuses = repo.statuses(None)?;
    Ok(statuses.iter().map(|entry| entry.status().bits()).collect())
}

/// Relies on `git2::Repository::stash_foreach`: the index of each stored
/// stash entry; the callback always continues the enumeration.
#[verifier::external_body]
pub(crate) fn repo_stash_indices(repo: &mut git2::Repository) -> Result<Vec<usize>, git2::Error> {
    let mut indices = Vec::new();
    repo.stash_foreach(|index, _message, _id| {
        indices.push(index);
        true
    })?;
    Ok(indices)
}

/// Relies on `git2::Repository::branches`: the branch handles of the given
/// class, in enumeration order.
#[verifier::external_body]
pub(crate) fn repo_branch_handles<'r>(
    repo: &'r git2::Repository,
    kind: BranchKind,
) -> Result<Vec<git2::Branch<'r>>, git2::Error> {
    let filter = match kind {
        BranchKind::Local => git2::BranchType::Local,
        BranchKind::Remote => git2::BranchType::Remote,
    };
    repo.branches(Some(filter))?.map(|entry| entry.map(|(branch, _)| branch)).collect()
}

/// Relies on `git2::Branch::upstream`: the remote-tracking branch configured
/// as this branch's upstream, or an error (`NotFound` when none is
/// configured).
#[verifier::external_body]
pub(crate) fn branch_upstream<'r>(
    branch: &git2::Branch<'r>,
) -> Result<git2::Branch<'r>, git2::Error> {
    branch.upstream()
}

/// Relies on `git2::Branch::name`: the branch's name, `None` where it cannot
/// be decoded as text.
#[verifier::external_body]
pub(crate) fn branch_name(branch: &git2::Branch) -> Result<Option<String>, git2::Error> {
    match branch.name()? {
        Some(s) => Ok(Some(s.to_string())),
        None => Ok(None),
    }
}

/// Relies on `git2::Reference::peel_to_commit` and `git2::Commit::id`: the
/// raw bytes of the commit identifier the branch points at.
#[verifier::external_body]
pub(crate) fn branch_tip(branch: &git2::Branch) -> Result<Vec<u8>, git2::Error> {
    Ok(branch.get().peel_to_commit()?.id().as_bytes().to_vec())
}

/// Relies on `git2::Repository::merge_base`: the raw bytes of the most
/// recent common ancestor of the two given commit identifiers.
#[verifier::external_body]
pub(crate) fn merge_base(
    repo: &git2::Repository,
    one: &Vec<u8>,
    two: &Vec<u8>,
) -> Result<Vec<u8>, git2::Error> {
    let one = git2::Oid::from_bytes(one)?;
    let two = git2::Oid::from_bytes(two)?;
    Ok(repo.merge_base(one, two)?.as_bytes().to_vec())
}

/// Relies on `git2::Error::code`: whether the error is the backend's
/// "not found" condition, which classification recovers from.
#[verifier::external_body]
pub(crate) fn error_is_not_found(err: &git2::Error) -> bool {
    match err.code() {
        git2::ErrorCode::NotFound => true,
        _ => false,
    }
}

} // verus!
