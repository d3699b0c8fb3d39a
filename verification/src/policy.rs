//! The backup policy: interprets a `RepoStatus` snapshot and decides
//! pass/fail, with the complete ordered list of diagnostics that justify
//! the decision. The policy performs no I/O and is total over snapshots.

use vstd::prelude::*;

use crate::BranchStatus;
use crate::RepoStatus;

verus! {

/// One finding of the backup policy.
#[derive(Clone, Copy, Debug, PartialEq, Eq, Structural)]
pub enum Diagnostic {
    /// The repository is bare and was excluded from evaluation.
    NotEvaluated,
    /// The working tree has staged, modified, or untracked entries.
    ModifiedFiles,
    /// A merge, rebase, or similar operation is in progress.
    OperationInProgress,
    /// No remotes are configured.
    NoRemotes,
    /// Some branch's history is not contained in remote-tracked history.
    UnmergedBranches,
    /// Advisory only: the repository stores this many stash entries.
    Stashes { count: usize },
}

impl Diagnostic {
    /// The human-readable wording of this finding.
    pub open spec fn spec_message(self) -> Seq<char> {
        match self {
            Diagnostic::NotEvaluated => "not evaluated: bare repository"@,
            Diagnostic::ModifiedFiles => "has modified/untracked files"@,
            Diagnostic::OperationInProgress => "operation in progress"@,
            Diagnostic::NoRemotes => "no remotes configured"@,
            Diagnostic::UnmergedBranches => "has branches that are not backed up"@,
            Diagnostic::Stashes { .. } => "has stashes"@,
        }
    }

    pub fn message(&self) -> (r: String)
        ensures
            r@ == self.spec_message(),
    {
        match self {
            Diagnostic::NotEvaluated => "not evaluated: bare repository".to_owned(),
            Diagnostic::ModifiedFiles => "has modified/untracked files".to_owned(),
            Diagnostic::OperationInProgress => "operation in progress".to_owned(),
            Diagnostic::NoRemotes => "no remotes configured".to_owned(),
            Diagnostic::UnmergedBranches => "has branches that are not backed up".to_owned(),
            Diagnostic::Stashes { .. } => "has stashes".to_owned(),
        }
    }
}

/// Every branch of the snapshot is merged in its upstream (or, without an
/// upstream, in some remote branch).
pub open spec fn spec_all_branches_merged(branches: Seq<(String, BranchStatus)>) -> bool {
    forall|i: int| 0 <= i < branches.len()
        ==> (#[trigger] branches[i]).1.spec_merged_in_upstream()
}

/// Whether a snapshot counts as backed up: a non-bare snapshot passes iff
/// the working tree is clean, no operation is in progress, at least one
/// remote is configured, and every branch is merged; a bare snapshot never
/// passes (it is not evaluated at all).
pub open spec fn spec_backed_up(s: RepoStatus) -> bool {
    &&& !s.bare
    &&& s.clean_status
    &&& s.clean_state
    &&& s.remotes@.len() > 0
    &&& spec_all_branches_merged(s.branches@)
}

/// The complete ordered diagnostics for a snapshot: every failed check is
/// reported, not only the first, and a nonzero stash count is always
/// surfaced as an advisory beside pass or fail.
pub open spec fn spec_diagnostics(s: RepoStatus) -> Seq<Diagnostic> {
    if s.bare {
        seq![Diagnostic::NotEvaluated]
    } else {
        (if !s.clean_status {
            seq![Diagnostic::ModifiedFiles]
        } else {
            Seq::empty()
        }) + (if !s.clean_state {
            seq![Diagnostic::OperationInProgress]
        } else {
            Seq::empty()
        }) + (if s.remotes@.len() == 0 {
            seq![Diagnostic::NoRemotes]
        } else {
            Seq::empty()
        }) + (if !spec_all_branches_merged(s.branches@) {
            seq![Diagnostic::UnmergedBranches]
        } else {
            Seq::empty()
        }) + (if s.stashes > 0 {
            seq![(Diagnostic::Stashes { count: s.stashes })]
        } else {
            Seq::empty()
        })
    }
}

/// True iff every branch of the snapshot is merged in its upstream or in
/// some remote branch; the scan visits every branch.
pub fn all_branches_merged(branches: &Vec<(String, BranchStatus)>) -> (r: bool)
    ensures
        r == spec_all_branches_merged(branches@),
{
    let mut merged = true;
    let mut i: usize = 0;
    while i < branches.len()
        invariant
            i <= branches@.len(),
            merged == (forall|k: int| 0 <= k < i
                ==> (#[trigger] branches@[k]).1.spec_merged_in_upstream()),
        decreases branches@.len() - i,
    {
        if !branches[i].1.merged_in_upstream() {
            merged = false;
        }
        i += 1;
    }
    merged
}

/// Decides whether the snapshot's repository is fully backed up, and
/// produces the ordered diagnostics that justify the decision.
///
/// A bare repository is excluded from evaluation: it does not pass, and
/// the single diagnostic says so. Otherwise every check is evaluated and
/// reported independently; the result is the conjunction of all checks,
/// and stashes never fail the check by themselves but are always
/// surfaced.
pub fn is_backed_up(status: &RepoStatus) -> (r: (bool, Vec<Diagnostic>))
    ensures
        r.0 == spec_backed_up(*status),
        r.1@ == spec_diagnostics(*status),
{
    let mut diagnostics: Vec<Diagnostic> = Vec::new();

    if status.bare {
        diagnostics.push(Diagnostic::NotEvaluated);
        proof {
            assert(diagnostics@ =~= spec_diagnostics(*status));
        }
        return (false, diagnostics);
    }

    let mut passes = true;

    if !status.clean_status {
        passes = false;
        diagnostics.push(Diagnostic::ModifiedFiles);
    }
    if !status.clean_state {
        passes = false;
        diagnostics.push(Diagnostic::OperationInProgress);
    }
    if status.remotes.len() == 0 {
        passes = false;
        diagnostics.push(Diagnostic::NoRemotes);
    }
    if !all_branches_merged(&status.branches) {
        passes = false;
        diagnostics.push(Diagnostic::UnmergedBranches);
    }
    if status.stashes > 0 {
        diagnostics.push(Diagnostic::Stashes { count: status.stashes });
    }

    proof {
        assert(diagnostics@ =~= spec_diagnostics(*status));
    }
    (passes, diagnostics)
}

/// A snapshot with no remotes is never backed up, independent of its
/// branch and stash content.
pub proof fn lemma_no_remotes_not_backed_up(s: RepoStatus)
    ensures
        s.remotes@.len() == 0 ==> !spec_backed_up(s),
{
}

} // verus!
