//! Inspects a git working copy and reports whether its contents are durably
//! preserved elsewhere: a status classifier turns raw repository facts into a
//! `RepoStatus` snapshot, and a backup policy interprets that snapshot.

use vstd::prelude::*;

pub mod backend;
pub mod classify;
pub mod config;
pub mod policy;

pub use classify::get_status;
pub use classify::ClassifyError;
pub use policy::is_backed_up;

verus! {

/// Immutable snapshot of the backup-relevant state of one repository.
#[derive(Clone, Debug, PartialEq)]
pub struct RepoStatus {
    /// True if the repository has no working tree.
    pub bare: bool,
    /// True if nothing is staged and there are no untracked files.
    pub clean_status: bool,
    /// True if there is no conflict resolution in progress.
    pub clean_state: bool,
    /// Count of stored stash entries.
    pub stashes: usize,
    /// The configured remotes, in enumeration order.
    pub remotes: Vec<Remote>,
    /// One entry per local branch: branch name mapped to its classification.
    pub branches: Vec<(String, BranchStatus)>,
}

/// A configured remote, known by name alone.
#[derive(Clone, Debug, PartialEq)]
pub struct Remote {
    name: String,
}

impl Remote {
    /// The remote's name as it will be reported.
    pub closed spec fn spec_name(&self) -> Seq<char> {
        self.name@
    }

    pub fn new(name: String) -> (r: Remote)
        ensures
            r.spec_name() == name@,
    {
        Remote { name }
    }

    pub fn name(&self) -> (r: &String)
        ensures
            r@ == self.spec_name(),
    {
        &self.name
    }
}

/// Classification of one local branch.
#[derive(Clone, Copy, Debug, PartialEq, Eq, Structural)]
pub enum BranchStatus {
    /// The branch has a configured upstream.
    TrackingBranch(TrackingStatus),
    /// The branch has no configured upstream; `merged_in_remote` records
    /// whether its history is fully contained in some remote branch.
    LocalBranch { merged_in_remote: bool },
}

/// Relation of a branch to its configured upstream.
#[derive(Clone, Copy, Debug, PartialEq, Eq, Structural)]
pub enum TrackingStatus {
    /// The merge base equals neither endpoint.
    Diverged,
    /// The merge base equals the upstream's commit.
    Ahead,
    /// The merge base equals the branch's commit.
    Behind,
    /// Branch and upstream reference the identical commit.
    Current,
}

impl BranchStatus {
    /// True iff the branch's history is contained in remote-tracked history:
    /// a tracking branch that is `Behind` or `Current`, or a local branch
    /// whose `merged_in_remote` flag is set.
    pub open spec fn spec_merged_in_upstream(self) -> bool {
        match self {
            BranchStatus::TrackingBranch(status) => status is Behind || status is Current,
            BranchStatus::LocalBranch { merged_in_remote } => merged_in_remote,
        }
    }

    pub fn new_tracking_branch(tracking_status: TrackingStatus) -> (r: Self)
        ensures
            r == BranchStatus::TrackingBranch(tracking_status),
    {
        BranchStatus::TrackingBranch(tracking_status)
    }

    pub fn new_local_branch(merged_in_remote: bool) -> (r: Self)
        ensures
            r == (BranchStatus::LocalBranch { merged_in_remote }),
    {
        BranchStatus::LocalBranch { merged_in_remote }
    }

    pub fn merged_in_upstream(&self) -> (r: bool)
        ensures
            r == self.spec_merged_in_upstream(),
    {
        let tracking_status = match self {
            BranchStatus::TrackingBranch(status) => status,
            BranchStatus::LocalBranch { merged_in_remote } => return *merged_in_remote,
        };

        match tracking_status {
            TrackingStatus::Diverged | TrackingStatus::Ahead => false,
            TrackingStatus::Behind | TrackingStatus::Current => true,
        }
    }
}

/// The repository's operational state: whether a multi-step operation
/// (merge, rebase, ...) is in progress and awaiting resolution.
#[derive(Clone, Copy, Debug, PartialEq, Eq, Structural)]
pub enum RepoState {
    /// No operation is in progress.
    Clean,
    Merge,
    Revert,
    RevertSequence,
    CherryPick,
    CherryPickSequence,
    Bisect,
    Rebase,
    RebaseInteractive,
    RebaseMerge,
    ApplyMailbox,
    ApplyMailboxOrRebase,
}

} // verus!
