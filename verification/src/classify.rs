//! The status classifier: turns raw repository facts into a `RepoStatus`
//! snapshot.
//!
//! The backend calls themselves stand behind the trusted wrappers in
//! `backend`; everything that decides — sentinel substitution, working-tree
//! cleanliness, ahead/behind/diverged classification, and the multi-pass
//! elimination that detects branches merged into some remote branch — is
//! verified here.

use vstd::prelude::*;

use crate::backend;
use crate::backend::BranchKind;
use crate::BranchStatus;
use crate::Remote;
use crate::RepoState;
use crate::RepoStatus;
use crate::TrackingStatus;

verus! {

/// The status flags of a working-tree/index entry that is unmodified and
/// tracked: no flag bit is set. The encoding is the backend's per-entry
/// status bit set, handed through raw by `backend::repo_entry_status_bits`.
pub const ENTRY_STATUS_CURRENT: u32 = 0;

/// The flag bit of an ignored working-tree/index entry in the backend's
/// per-entry status bit set.
pub const ENTRY_STATUS_IGNORED: u32 = 0x4000;

/// A working-tree/index entry conforms iff it is unmodified-and-tracked or
/// ignored; anything staged, modified, conflicted, or untracked does not.
pub open spec fn spec_entry_conforming(bits: u32) -> bool {
    bits == ENTRY_STATUS_CURRENT || bits & ENTRY_STATUS_IGNORED != 0
}

/// The working tree is clean iff every entry conforms.
pub open spec fn spec_all_conforming(entries: Seq<u32>) -> bool {
    forall|k: int| 0 <= k < entries.len() ==> spec_entry_conforming(#[trigger] entries[k])
}

/// The name under which a remote is reported: its decoded name, or the
/// sentinel where decoding failed.
pub open spec fn spec_decoded_remote_name(name: Option<String>) -> Seq<char> {
    match name {
        Some(s) => s@,
        None => "[non unicode]"@,
    }
}

/// The name under which a branch is reported: its decoded name, or the
/// sentinel where decoding failed.
pub open spec fn spec_decoded_branch_name(name: Option<String>) -> Seq<char> {
    match name {
        Some(s) => s@,
        None => "[non utf-8]"@,
    }
}

/// Classification of a branch tip against its upstream tip, given the merge
/// base of the two: identical tips are `Current`; otherwise the merge base
/// decides — equal to the branch tip means `Behind`, equal to the upstream
/// tip means `Ahead`, and equal to neither means `Diverged`.
pub open spec fn spec_tracking_status(
    branch_tip: Seq<u8>,
    upstream_tip: Seq<u8>,
    base: Seq<u8>,
) -> TrackingStatus {
    if branch_tip == upstream_tip {
        TrackingStatus::Current
    } else if base == branch_tip {
        TrackingStatus::Behind
    } else if base == upstream_tip {
        TrackingStatus::Ahead
    } else {
        TrackingStatus::Diverged
    }
}

/// Byte-wise equality of two commit identifiers.
pub(crate) fn bytes_eq(a: &Vec<u8>, b: &Vec<u8>) -> (r: bool)
    ensures
        r == (a@ == b@),
{
    if a.len() != b.len() {
        return false;
    }
    let mut i: usize = 0;
    while i < a.len()
        invariant
            i <= a@.len(),
            a@.len() == b@.len(),
            forall|k: int| 0 <= k < i ==> a@[k] == b@[k],
        decreases a@.len() - i,
    {
        if a[i] != b[i] {
            return false;
        }
        i += 1;
    }
    proof {
        assert(a@ =~= b@);
    }
    true
}

/// An exact copy of a commit identifier.
pub(crate) fn clone_bytes(a: &Vec<u8>) -> (r: Vec<u8>)
    ensures
        r@ == a@,
{
    let mut out: Vec<u8> = Vec::new();
    let mut i: usize = 0;
    while i < a.len()
        invariant
            i <= a@.len(),
            out@ == a@.take(i as int),
        decreases a@.len() - i,
    {
        out.push(a[i]);
        proof {
            assert(out@ =~= a@.take(i + 1));
        }
        i += 1;
    }
    proof {
        assert(a@.take(a@.len() as int) =~= a@);
    }
    out
}

/// Classifies a branch against an upstream whose tip differs from the
/// branch's tip, given the merge base of the two tips.
pub fn classify_divergence(
    branch_tip: &Vec<u8>,
    upstream_tip: &Vec<u8>,
    base: &Vec<u8>,
) -> (r: TrackingStatus)
    requires
        branch_tip@ != upstream_tip@,
    ensures
        r == spec_tracking_status(branch_tip@, upstream_tip@, base@),
{
    if bytes_eq(base, branch_tip) {
        TrackingStatus::Behind
    } else if bytes_eq(base, upstream_tip) {
        TrackingStatus::Ahead
    } else {
        TrackingStatus::Diverged
    }
}

/// True iff every working-tree/index entry is unmodified-and-tracked or
/// ignored; a single non-conforming entry flips the answer and ends the scan.
pub fn entries_clean(entries: &Vec<u32>) -> (r: bool)
    ensures
        r == spec_all_conforming(entries@),
{
    let mut clean = true;
    let mut i: usize = 0;
    while i < entries.len() && clean
        invariant
            i <= entries@.len(),
            clean ==> forall|k: int| 0 <= k < i ==> spec_entry_conforming(#[trigger] entries@[k]),
            !clean ==> exists|k: int|
                0 <= k < entries@.len() && !spec_entry_conforming(#[trigger] entries@[k]),
        decreases entries@.len() - i,
    {
        let bits = entries[i];
        if !(bits == ENTRY_STATUS_CURRENT || bits & ENTRY_STATUS_IGNORED != 0) {
            clean = false;
        }
        i += 1;
    }
    clean
}

/// Turns the enumerated remote names into reported remotes, substituting the
/// fixed sentinel for each name that could not be decoded as text.
pub fn decode_remotes(names: &Vec<Option<String>>) -> (r: Vec<Remote>)
    ensures
        r@.len() == names@.len(),
        forall|k: int| 0 <= k < names@.len() ==> (#[trigger] r@[k]).spec_name()
            == spec_decoded_remote_name(names@[k]),
{
    let mut out: Vec<Remote> = Vec::new();
    let mut i: usize = 0;
    while i < names.len()
        invariant
            i <= names@.len(),
            out@.len() == i,
            forall|k: int| 0 <= k < i ==> (#[trigger] out@[k]).spec_name()
                == spec_decoded_remote_name(names@[k]),
        decreases names@.len() - i,
    {
        let name = match &names[i] {
            Some(s) => s.clone(),
            None => "[non unicode]".to_owned(),
        };
        out.push(Remote::new(name));
        i += 1;
    }
    out
}

/// The name under which a branch is reported: the decoded name where the
/// backend could decode one, else the fixed sentinel.
pub fn decode_branch_name(name: Option<String>) -> (r: String)
    ensures
        r@ == spec_decoded_branch_name(name),
{
    match name {
        Some(s) => s,
        None => "[non utf-8]".to_owned(),
    }
}

/// The facts about one local branch that classification decides from.
pub struct LocalBranchFacts {
    /// The branch's reported name (sentinel-substituted where undecodable).
    pub name: String,
    /// The commit identifier the branch points at.
    pub tip: Vec<u8>,
    /// The tip of the configured upstream, or `None` where no upstream is
    /// configured.
    pub upstream_tip: Option<Vec<u8>>,
}

/// Resolves upstream, tip, and name of every enumerated local branch.
///
/// A backend "not found" condition on the upstream lookup is recovered
/// locally: the branch is recorded without an upstream and deferred to
/// merge detection. Any other backend error aborts immediately.
pub fn collect_branch_facts<'r>(handles: &Vec<git2::Branch<'r>>) -> (r: Result<
    Vec<LocalBranchFacts>,
    git2::Error,
>)
    ensures
        r matches Ok(facts) ==> facts@.len() == handles@.len(),
        handles@.len() == 0 ==> r is Ok,
{
    let mut facts: Vec<LocalBranchFacts> = Vec::new();
    let mut i: usize = 0;
    while i < handles.len()
        invariant
            i <= handles@.len(),
            facts@.len() == i,
        decreases handles@.len() - i,
    {
        let branch = &handles[i];
        let upstream_tip: Option<Vec<u8>> = match backend::branch_upstream(branch) {
            Ok(upstream) => match backend::branch_tip(&upstream) {
                Ok(tip) => Some(tip),
                Err(e) => return Err(e),
            },
            Err(e) => {
                if backend::error_is_not_found(&e) {
                    None
                } else {
                    return Err(e);
                }
            },
        };
        let tip = match backend::branch_tip(branch) {
            Ok(t) => t,
            Err(e) => return Err(e),
        };
        let name = match backend::branch_name(branch) {
            Ok(decoded) => decode_branch_name(decoded),
            Err(e) => return Err(e),
        };
        facts.push(LocalBranchFacts { name, tip, upstream_tip });
        i += 1;
    }
    Ok(facts)
}

/// What classification promises of the status assigned to one branch:
/// exactly one variant, chosen by whether an upstream is configured, and
/// `Current` exactly where the branch tip and the upstream tip coincide.
pub open spec fn spec_status_matches_fact(fact: LocalBranchFacts, st: BranchStatus) -> bool {
    &&& (fact.upstream_tip is Some ==> st is TrackingBranch)
    &&& (fact.upstream_tip is None ==> st is LocalBranch)
    &&& (fact.upstream_tip matches Some(u) && u@ == fact.tip@ ==> st
        == BranchStatus::TrackingBranch(TrackingStatus::Current))
    &&& (fact.upstream_tip matches Some(u) && u@ != fact.tip@ ==> st
        != BranchStatus::TrackingBranch(TrackingStatus::Current))
}

/// What classification promises of one entry of the branch map.
pub open spec fn spec_entry_matches_fact(
    fact: LocalBranchFacts,
    entry: (String, BranchStatus),
) -> bool {
    &&& entry.0@ == fact.name@
    &&& spec_status_matches_fact(fact, entry.1)
}

/// Classification needs no backend query at all: every branch has a
/// configured upstream whose tip equals the branch's own tip.
pub open spec fn spec_all_current(facts: Seq<LocalBranchFacts>) -> bool {
    forall|k: int| 0 <= k < facts.len()
        ==> ((#[trigger] facts[k]).upstream_tip matches Some(u) && u@ == facts[k].tip@)
}

/// The entry stands for one of the given pending branches, whose merge
/// base (against the remote branch under consideration) equals its own tip
/// exactly when `merged_side` says so.
pub open spec fn spec_came_from_pending(
    entry: (usize, Vec<u8>),
    pending: Seq<(usize, Vec<u8>)>,
    bases: Seq<Vec<u8>>,
    merged_side: bool,
) -> bool {
    exists|j: int|
        {
            &&& 0 <= j < pending.len()
            &&& (#[trigger] pending[j]).0 == entry.0
            &&& pending[j].1@ == entry.1@
            &&& if merged_side {
                bases[j]@ == pending[j].1@
            } else {
                bases[j]@ != pending[j].1@
            }
        }
}

/// The pending entries carry strictly increasing branch indices: each
/// branch is pending at most once, in first-pass order.
pub open spec fn spec_indices_increasing(entries: Seq<(usize, Vec<u8>)>) -> bool {
    forall|t1: int, t2: int| 0 <= t1 < t2 < entries.len()
        ==> (#[trigger] entries[t1]).0 < (#[trigger] entries[t2]).0
}

/// One pass of transitive merge detection: partitions the pending branches
/// (each an index paired with its tip) against a single remote branch,
/// given in `bases[k]` the merge base of `pending[k]`'s tip with that
/// remote branch's tip.
///
/// Every pending branch lands on exactly the side its merge base decides:
/// a branch whose merge base equals its own tip is merged into the remote
/// branch, the rest stay pending; neither side holds anything else, and
/// both keep the input's index order.
#[verifier::rlimit(100)]
pub fn partition_pending(
    pending: Vec<(usize, Vec<u8>)>,
    bases: &Vec<Vec<u8>>,
) -> (r: (Vec<(usize, Vec<u8>)>, Vec<(usize, Vec<u8>)>))
    requires
        bases@.len() == pending@.len(),
    ensures
        r.0@.len() + r.1@.len() == pending@.len(),
        forall|j: int| 0 <= j < pending@.len() && (#[trigger] bases@[j])@ == pending@[j].1@
            ==> exists|i: int| 0 <= i < r.0@.len() && (#[trigger] r.0@[i]).0 == pending@[j].0
                && r.0@[i].1@ == pending@[j].1@,
        forall|j: int| 0 <= j < pending@.len() && (#[trigger] bases@[j])@ != pending@[j].1@
            ==> exists|i: int| 0 <= i < r.1@.len() && (#[trigger] r.1@[i]).0 == pending@[j].0
                && r.1@[i].1@ == pending@[j].1@,
        forall|i: int| 0 <= i < r.0@.len()
            ==> spec_came_from_pending(#[trigger] r.0@[i], pending@, bases@, true),
        forall|i: int| 0 <= i < r.1@.len()
            ==> spec_came_from_pending(#[trigger] r.1@[i], pending@, bases@, false),
        spec_indices_increasing(pending@) ==> spec_indices_increasing(r.0@)
            && spec_indices_increasing(r.1@),
{
    let mut merged: Vec<(usize, Vec<u8>)> = Vec::new();
    let mut still: Vec<(usize, Vec<u8>)> = Vec::new();

    // Ghost bookkeeping: where each output entry came from, and where each
    // input entry went.
    let ghost mut merged_src: Seq<int> = Seq::empty();
    let ghost mut still_src: Seq<int> = Seq::empty();
    let ghost mut went_merged: Seq<bool> = Seq::empty();
    let ghost mut went_pos: Seq<int> = Seq::empty();

    let mut k: usize = 0;
    while k < pending.len()
        invariant
            bases@.len() == pending@.len(),
            k <= pending@.len(),
            merged@.len() + still@.len() == k,
            merged_src.len() == merged@.len(),
            still_src.len() == still@.len(),
            went_merged.len() == k,
            went_pos.len() == k,
            forall|i: int| #![trigger merged@[i]] #![trigger merged_src[i]]
                0 <= i < merged@.len() ==> {
                &&& 0 <= merged_src[i] < k
                &&& merged@[i].0 == pending@[merged_src[i]].0
                &&& merged@[i].1@ == pending@[merged_src[i]].1@
                &&& bases@[merged_src[i]]@ == pending@[merged_src[i]].1@
            },
            forall|i: int| #![trigger still@[i]] #![trigger still_src[i]]
                0 <= i < still@.len() ==> {
                &&& 0 <= still_src[i] < k
                &&& still@[i].0 == pending@[still_src[i]].0
                &&& still@[i].1@ == pending@[still_src[i]].1@
                &&& bases@[still_src[i]]@ != pending@[still_src[i]].1@
            },
            forall|j: int| #![trigger went_pos[j]] #![trigger went_merged[j]]
                0 <= j < k && went_merged[j] ==> {
                &&& bases@[j]@ == pending@[j].1@
                &&& 0 <= went_pos[j] < merged@.len()
                &&& merged@[went_pos[j]].0 == pending@[j].0
                &&& merged@[went_pos[j]].1@ == pending@[j].1@
            },
            forall|j: int| #![trigger went_pos[j]] #![trigger went_merged[j]]
                0 <= j < k && !went_merged[j] ==> {
                &&& bases@[j]@ != pending@[j].1@
                &&& 0 <= went_pos[j] < still@.len()
                &&& still@[went_pos[j]].0 == pending@[j].0
                &&& still@[went_pos[j]].1@ == pending@[j].1@
            },
            forall|i1: int, i2: int| 0 <= i1 < i2 < merged_src.len()
                ==> merged_src[i1] < merged_src[i2],
            forall|i1: int, i2: int| 0 <= i1 < i2 < still_src.len()
                ==> still_src[i1] < still_src[i2],
        decreases pending@.len() - k,
    {
        let entry_index = pending[k].0;
        let ghost merged_snap = merged@;
        let ghost still_snap = still@;
        let ghost merged_src_snap = merged_src;
        let ghost still_src_snap = still_src;
        if bytes_eq(&bases[k], &pending[k].1) {
            merged.push((entry_index, clone_bytes(&pending[k].1)));
            proof {
                merged_src = merged_src.push(k as int);
                went_merged = went_merged.push(true);
                went_pos = went_pos.push(merged@.len() - 1);
                assert forall|i: int| #![trigger merged@[i]] #![trigger merged_src[i]]
                    0 <= i < merged@.len() implies {
                    &&& 0 <= merged_src[i] < k + 1
                    &&& merged@[i].0 == pending@[merged_src[i]].0
                    &&& merged@[i].1@ == pending@[merged_src[i]].1@
                    &&& bases@[merged_src[i]]@ == pending@[merged_src[i]].1@
                } by {
                    if i < merged@.len() - 1 {
                        assert(merged@[i] == merged_snap[i]);
                        assert(merged_src[i] == merged_src_snap[i]);
                    } else {
                        assert(merged_src[i] == k as int);
                        assert(merged@[i].0 == pending@[k as int].0);
                    }
                }
                assert forall|j: int| #![trigger went_pos[j]] #![trigger went_merged[j]]
                    0 <= j < k + 1 && went_merged[j] implies {
                    &&& bases@[j]@ == pending@[j].1@
                    &&& 0 <= went_pos[j] < merged@.len()
                    &&& merged@[went_pos[j]].0 == pending@[j].0
                    &&& merged@[went_pos[j]].1@ == pending@[j].1@
                } by {
                    if j < k {
                        assert(merged@[went_pos[j]] == merged_snap[went_pos[j]]);
                    } else {
                        assert(went_pos[j] == merged@.len() - 1);
                    }
                }
                assert forall|j: int| #![trigger went_pos[j]] #![trigger went_merged[j]]
                    0 <= j < k + 1 && !went_merged[j] implies {
                    &&& bases@[j]@ != pending@[j].1@
                    &&& 0 <= went_pos[j] < still@.len()
                    &&& still@[went_pos[j]].0 == pending@[j].0
                    &&& still@[went_pos[j]].1@ == pending@[j].1@
                } by {
                    assert(j < k);
                }
            }
        } else {
            still.push((entry_index, clone_bytes(&pending[k].1)));
            proof {
                still_src = still_src.push(k as int);
                went_merged = went_merged.push(false);
                went_pos = went_pos.push(still@.len() - 1);
                assert forall|i: int| #![trigger still@[i]] #![trigger still_src[i]]
                    0 <= i < still@.len() implies {
                    &&& 0 <= still_src[i] < k + 1
                    &&& still@[i].0 == pending@[still_src[i]].0
                    &&& still@[i].1@ == pending@[still_src[i]].1@
                    &&& bases@[still_src[i]]@ != pending@[still_src[i]].1@
                } by {
                    if i < still@.len() - 1 {
                        assert(still@[i] == still_snap[i]);
                        assert(still_src[i] == still_src_snap[i]);
                    } else {
                        assert(still_src[i] == k as int);
                        assert(still@[i].0 == pending@[k as int].0);
                    }
                }
                assert forall|j: int| #![trigger went_pos[j]] #![trigger went_merged[j]]
                    0 <= j < k + 1 && !went_merged[j] implies {
                    &&& bases@[j]@ != pending@[j].1@
                    &&& 0 <= went_pos[j] < still@.len()
                    &&& still@[went_pos[j]].0 == pending@[j].0
                    &&& still@[went_pos[j]].1@ == pending@[j].1@
                } by {
                    if j < k {
                        assert(still@[went_pos[j]] == still_snap[went_pos[j]]);
                    } else {
                        assert(went_pos[j] == still@.len() - 1);
                    }
                }
                assert forall|j: int| #![trigger went_pos[j]] #![trigger went_merged[j]]
                    0 <= j < k + 1 && went_merged[j] implies {
                    &&& bases@[j]@ == pending@[j].1@
                    &&& 0 <= went_pos[j] < merged@.len()
                    &&& merged@[went_pos[j]].0 == pending@[j].0
                    &&& merged@[went_pos[j]].1@ == pending@[j].1@
                } by {
                    assert(j < k);
                }
            }
        }
        k += 1;
    }

    let ghost merged_view = merged@;
    let ghost still_view = still@;
    let r = (merged, still);
    proof {
        assert(r.0@ == merged_view);
        assert(r.1@ == still_view);
        assert forall|j: int| 0 <= j < pending@.len() && (#[trigger] bases@[j])@
            == pending@[j].1@ implies exists|i: int|
            0 <= i < r.0@.len() && (#[trigger] r.0@[i]).0 == pending@[j].0
                && r.0@[i].1@ == pending@[j].1@ by {
            let p = went_pos[j];
            assert(went_merged[j]);
            assert(merged_view[p].0 == pending@[j].0 && merged_view[p].1@ == pending@[j].1@);
            assert(r.0@[p].0 == pending@[j].0 && r.0@[p].1@ == pending@[j].1@);
        }
        assert forall|j: int| 0 <= j < pending@.len() && (#[trigger] bases@[j])@
            != pending@[j].1@ implies exists|i: int|
            0 <= i < r.1@.len() && (#[trigger] r.1@[i]).0 == pending@[j].0
                && r.1@[i].1@ == pending@[j].1@ by {
            let p = went_pos[j];
            assert(!went_merged[j]);
            assert(still_view[p].0 == pending@[j].0 && still_view[p].1@ == pending@[j].1@);
            assert(r.1@[p].0 == pending@[j].0 && r.1@[p].1@ == pending@[j].1@);
        }
        assert forall|i: int| 0 <= i < r.0@.len() implies spec_came_from_pending(
            #[trigger] r.0@[i],
            pending@,
            bases@,
            true,
        ) by {
            let j = merged_src[i];
            assert(0 <= j < pending@.len() && merged_view[i].0 == pending@[j].0
                && merged_view[i].1@ == pending@[j].1@ && bases@[j]@ == pending@[j].1@);
            assert(pending@[j].0 == r.0@[i].0 && pending@[j].1@ == r.0@[i].1@);
        }
        assert forall|i: int| 0 <= i < r.1@.len() implies spec_came_from_pending(
            #[trigger] r.1@[i],
            pending@,
            bases@,
            false,
        ) by {
            let j = still_src[i];
            assert(0 <= j < pending@.len() && still_view[i].0 == pending@[j].0
                && still_view[i].1@ == pending@[j].1@ && bases@[j]@ != pending@[j].1@);
            assert(pending@[j].0 == r.1@[i].0 && pending@[j].1@ == r.1@[i].1@);
        }
        if spec_indices_increasing(pending@) {
            assert forall|t1: int, t2: int| 0 <= t1 < t2 < r.0@.len()
                implies (#[trigger] r.0@[t1]).0 < (#[trigger] r.0@[t2]).0 by {
                assert(merged_src[t1] < merged_src[t2]);
                assert(pending@[merged_src[t1]].0 < pending@[merged_src[t2]].0);
                assert(merged_view[t1].0 < merged_view[t2].0);
            }
            assert forall|t1: int, t2: int| 0 <= t1 < t2 < r.1@.len()
                implies (#[trigger] r.1@[t1]).0 < (#[trigger] r.1@[t2]).0 by {
                assert(still_src[t1] < still_src[t2]);
                assert(pending@[still_src[t1]].0 < pending@[still_src[t2]].0);
                assert(still_view[t1].0 < still_view[t2].0);
            }
        }
    }
    r
}

/// A decided classification slot of the promised shape.
pub open spec fn spec_slot_matches(fact: LocalBranchFacts, slot: Option<BranchStatus>) -> bool {
    slot matches Some(st) && spec_status_matches_fact(fact, st)
}

/// Classifies every local branch, given the gathered per-branch facts and
/// the enumerated remote-tracking branch handles.
///
/// Each branch with an upstream is classified from its tip, the upstream
/// tip, and (where the tips differ) their merge base. The branches without
/// an upstream are deferred into a pending list; each remote branch is then
/// taken in enumeration order, and every still-pending branch whose merge
/// base with that remote branch equals the branch's own tip is recorded as
/// merged and removed. The scan over remote branches stops as soon as the
/// pending list is empty, and whatever remains pending at the end is
/// recorded as not merged.
///
/// The result has one entry per fact, in fact order, and each entry carries
/// the fact's name and a status of the promised shape; with no remote
/// branches at all, every branch without an upstream is recorded as not
/// merged.
pub fn classify_branches<'r>(
    repo: &git2::Repository,
    facts: &Vec<LocalBranchFacts>,
    remote_handles: &Vec<git2::Branch<'r>>,
) -> (r: Result<Vec<(String, BranchStatus)>, git2::Error>)
    ensures
        r matches Ok(bs) ==> {
            &&& bs@.len() == facts@.len()
            &&& forall|k: int| 0 <= k < facts@.len()
                ==> spec_entry_matches_fact(facts@[k], #[trigger] bs@[k])
            &&& remote_handles@.len() == 0 ==> forall|k: int|
                0 <= k < facts@.len() && (#[trigger] facts@[k]).upstream_tip is None
                    ==> bs@[k].1 == (BranchStatus::LocalBranch { merged_in_remote: false })
            &&& (forall|k1: int, k2: int| 0 <= k1 < k2 < facts@.len()
                ==> (#[trigger] facts@[k1]).name@ != (#[trigger] facts@[k2]).name@)
                ==> (forall|k1: int, k2: int| 0 <= k1 < k2 < bs@.len()
                    ==> (#[trigger] bs@[k1]).0@ != (#[trigger] bs@[k2]).0@)
        },
        facts@.len() == 0 ==> r is Ok,
        spec_all_current(facts@) ==> r is Ok,
{
    let n = facts.len();

    // One classification slot per branch; `None` means still undecided.
    let mut statuses: Vec<Option<BranchStatus>> = Vec::new();
    let mut i: usize = 0;
    while i < n
        invariant
            n == facts@.len(),
            i <= n,
            statuses@.len() == i,
            forall|k: int| 0 <= k < i ==> (#[trigger] statuses@[k]) is None,
        decreases n - i,
    {
        statuses.push(None);
        i += 1;
    }

    // First pass: classify the branches with a configured upstream; defer
    // the rest (index and tip) into the pending list.
    let mut pending: Vec<(usize, Vec<u8>)> = Vec::new();
    let mut i: usize = 0;
    while i < n
        invariant
            n == facts@.len(),
            i <= n,
            statuses@.len() == n,
            forall|k: int| 0 <= k < i && (#[trigger] facts@[k]).upstream_tip is Some
                ==> spec_slot_matches(facts@[k], statuses@[k]),
            forall|k: int| 0 <= k < n && (i <= k || (#[trigger] facts@[k]).upstream_tip is None)
                ==> statuses@[k] is None,
            forall|t: int| 0 <= t < pending@.len() ==> {
                &&& (#[trigger] pending@[t]).0 < i
                &&& facts@[pending@[t].0 as int].upstream_tip is None
                &&& pending@[t].1@ == facts@[pending@[t].0 as int].tip@
            },
            forall|k: int| 0 <= k < i && (#[trigger] facts@[k]).upstream_tip is None
                ==> exists|t: int| 0 <= t < pending@.len() && (#[trigger] pending@[t]).0 == k,
            spec_indices_increasing(pending@),
        decreases n - i,
    {
        let fact = &facts[i];
        match &fact.upstream_tip {
            Some(upstream_tip) => {
                let ts = if bytes_eq(&fact.tip, upstream_tip) {
                    TrackingStatus::Current
                } else {
                    let base = match backend::merge_base(repo, &fact.tip, upstream_tip) {
                        Ok(b) => b,
                        Err(e) => {
                            proof {
                                assert(facts@[i as int].upstream_tip matches Some(u) && u@
                                    != facts@[i as int].tip@);
                            }
                            return Err(e);
                        },
                    };
                    classify_divergence(&fact.tip, upstream_tip, &base)
                };
                statuses.set(i, Some(BranchStatus::new_tracking_branch(ts)));
            },
            None => {
                let ghost pending_old = pending@;
                pending.push((i, clone_bytes(&fact.tip)));
                proof {
                    assert forall|k: int|
                        0 <= k < i + 1 && (#[trigger] facts@[k]).upstream_tip is None
                    implies exists|t: int|
                        0 <= t < pending@.len() && (#[trigger] pending@[t]).0 == k by {
                        if k == i {
                            assert(pending@[pending@.len() - 1].0 == i);
                        } else {
                            let t = choose|t: int|
                                0 <= t < pending_old.len() && (#[trigger] pending_old[t]).0 == k;
                            assert(pending@[t].0 == k);
                        }
                    }
                }
            },
        }
        i += 1;
    }

    // Transitive merge detection: take each remote branch in enumeration
    // order and remove every pending branch merged into it; stop as soon as
    // nothing is pending.
    let mut j: usize = 0;
    while j < remote_handles.len() && pending.len() > 0
        invariant
            n == facts@.len(),
            statuses@.len() == n,
            j <= remote_handles@.len(),
            forall|k: int| 0 <= k < n && (#[trigger] facts@[k]).upstream_tip is Some
                ==> spec_slot_matches(facts@[k], statuses@[k]),
            forall|k: int| 0 <= k < n && (#[trigger] facts@[k]).upstream_tip is None
                ==> (statuses@[k] is None || statuses@[k] == Some(
                    BranchStatus::LocalBranch { merged_in_remote: true },
                )),
            remote_handles@.len() == 0 ==> forall|k: int|
                0 <= k < n && (#[trigger] facts@[k]).upstream_tip is None
                    ==> statuses@[k] is None,
            forall|t: int| 0 <= t < pending@.len() ==> {
                &&& (#[trigger] pending@[t]).0 < n
                &&& facts@[pending@[t].0 as int].upstream_tip is None
                &&& statuses@[pending@[t].0 as int] is None
                &&& pending@[t].1@ == facts@[pending@[t].0 as int].tip@
            },
            forall|k: int| 0 <= k < n && (#[trigger] facts@[k]).upstream_tip is None
                && statuses@[k] is None
                ==> exists|t: int| 0 <= t < pending@.len() && (#[trigger] pending@[t]).0 == k,
            spec_indices_increasing(pending@),
        decreases remote_handles@.len() - j,
    {
        let remote_tip = match backend::branch_tip(&remote_handles[j]) {
            Ok(t) => t,
            Err(e) => {
                proof {
                    assert(pending@[0].0 < n);
                }
                return Err(e);
            },
        };

        // The merge base of every still-pending branch against this remote
        // branch, in pending order.
        let mut bases: Vec<Vec<u8>> = Vec::new();
        let mut k: usize = 0;
        while k < pending.len()
            invariant
                n == facts@.len(),
                k <= pending@.len(),
                bases@.len() == k,
                pending@.len() > 0,
                forall|t: int| 0 <= t < pending@.len() ==> {
                    &&& (#[trigger] pending@[t]).0 < n
                    &&& facts@[pending@[t].0 as int].upstream_tip is None
                },
            decreases pending@.len() - k,
        {
            match backend::merge_base(repo, &pending[k].1, &remote_tip) {
                Ok(b) => bases.push(b),
                Err(e) => {
                    proof {
                        assert(pending@[0].0 < n);
                    }
                    return Err(e);
                },
            };
            k += 1;
        }

        // Partition the pending list against this remote branch: a pending
        // branch whose merge base with the remote tip equals its own tip is
        // merged; the rest stay pending.
        let ghost pending_prev = pending@;
        let (newly_merged, still) = partition_pending(pending, &bases);

        proof {
            // Both sides hold pending entries only, and the two sides touch
            // disjoint branches.
            assert forall|i: int| 0 <= i < newly_merged@.len() implies {
                &&& (#[trigger] newly_merged@[i]).0 < n
                &&& facts@[newly_merged@[i].0 as int].upstream_tip is None
            } by {
                assert(spec_came_from_pending(newly_merged@[i], pending_prev, bases@, true));
                let jj = choose|jj: int|
                    {
                        &&& 0 <= jj < pending_prev.len()
                        &&& (#[trigger] pending_prev[jj]).0 == newly_merged@[i].0
                        &&& pending_prev[jj].1@ == newly_merged@[i].1@
                        &&& bases@[jj]@ == pending_prev[jj].1@
                    };
                assert(pending_prev[jj].0 < n);
            }
            assert forall|t: int| 0 <= t < still@.len() implies {
                &&& (#[trigger] still@[t]).0 < n
                &&& facts@[still@[t].0 as int].upstream_tip is None
                &&& statuses@[still@[t].0 as int] is None
                &&& still@[t].1@ == facts@[still@[t].0 as int].tip@
            } by {
                assert(spec_came_from_pending(still@[t], pending_prev, bases@, false));
                let jj = choose|jj: int|
                    {
                        &&& 0 <= jj < pending_prev.len()
                        &&& (#[trigger] pending_prev[jj]).0 == still@[t].0
                        &&& pending_prev[jj].1@ == still@[t].1@
                        &&& bases@[jj]@ != pending_prev[jj].1@
                    };
                assert(pending_prev[jj].0 < n);
            }
            assert forall|i: int, t: int|
                0 <= i < newly_merged@.len() && 0 <= t < still@.len()
            implies (#[trigger] newly_merged@[i]).0 != (#[trigger] still@[t]).0 by {
                if newly_merged@[i].0 == still@[t].0 {
                    let j1 = choose|j1: int|
                        {
                            &&& 0 <= j1 < pending_prev.len()
                            &&& (#[trigger] pending_prev[j1]).0 == newly_merged@[i].0
                            &&& pending_prev[j1].1@ == newly_merged@[i].1@
                            &&& bases@[j1]@ == pending_prev[j1].1@
                        };
                    let j2 = choose|j2: int|
                        {
                            &&& 0 <= j2 < pending_prev.len()
                            &&& (#[trigger] pending_prev[j2]).0 == still@[t].0
                            &&& pending_prev[j2].1@ == still@[t].1@
                            &&& bases@[j2]@ != pending_prev[j2].1@
                        };
                    if j1 < j2 {
                        assert(pending_prev[j1].0 < pending_prev[j2].0);
                    }
                    if j2 < j1 {
                        assert(pending_prev[j2].0 < pending_prev[j1].0);
                    }
                    assert(j1 == j2);
                    assert(false);
                }
            }
        }

        // Record the merged branches.
        let ghost statuses_pre = statuses@;
        let mut m: usize = 0;
        while m < newly_merged.len()
            invariant
                n == facts@.len(),
                statuses@.len() == n,
                m <= newly_merged@.len(),
                forall|i: int| 0 <= i < newly_merged@.len() ==> {
                    &&& (#[trigger] newly_merged@[i]).0 < n
                    &&& facts@[newly_merged@[i].0 as int].upstream_tip is None
                },
                forall|i: int, t: int| 0 <= i < newly_merged@.len() && 0 <= t < still@.len()
                    ==> (#[trigger] newly_merged@[i]).0 != (#[trigger] still@[t]).0,
                forall|k: int| 0 <= k < n && (#[trigger] facts@[k]).upstream_tip is Some
                    ==> spec_slot_matches(facts@[k], statuses@[k]),
                forall|k: int| 0 <= k < n && (#[trigger] facts@[k]).upstream_tip is None
                    ==> (statuses@[k] is None || statuses@[k] == Some(
                        BranchStatus::LocalBranch { merged_in_remote: true },
                    )),
                forall|i: int| 0 <= i < m ==> statuses@[(#[trigger] newly_merged@[i]).0 as int]
                    == Some(BranchStatus::LocalBranch { merged_in_remote: true }),
                forall|t: int| 0 <= t < still@.len() ==> {
                    &&& (#[trigger] still@[t]).0 < n
                    &&& facts@[still@[t].0 as int].upstream_tip is None
                    &&& statuses@[still@[t].0 as int] is None
                    &&& still@[t].1@ == facts@[still@[t].0 as int].tip@
                },
                forall|k: int| 0 <= k < n ==> ((#[trigger] statuses@[k]) is None
                    ==> statuses_pre[k] is None),
            decreases newly_merged@.len() - m,
        {
            let idx = newly_merged[m].0;
            statuses.set(idx, Some(BranchStatus::new_local_branch(true)));
            m += 1;
        }

        proof {
            // A branch that is still undecided was pending before this pass
            // and was kept pending by it.
            assert forall|k: int|
                0 <= k < n && (#[trigger] facts@[k]).upstream_tip is None
                    && statuses@[k] is None
            implies exists|t: int| 0 <= t < still@.len() && (#[trigger] still@[t]).0 == k by {
                assert(statuses_pre[k] is None);
                let jj = choose|jj: int|
                    0 <= jj < pending_prev.len() && (#[trigger] pending_prev[jj]).0 == k;
                if bases@[jj]@ == pending_prev[jj].1@ {
                    let ii = choose|ii: int|
                        0 <= ii < newly_merged@.len() && (#[trigger] newly_merged@[ii]).0
                            == pending_prev[jj].0 && newly_merged@[ii].1@
                            == pending_prev[jj].1@;
                    assert(statuses@[k] == Some(
                        BranchStatus::LocalBranch { merged_in_remote: true },
                    ));
                    assert(false);
                } else {
                    let ii = choose|ii: int|
                        0 <= ii < still@.len() && (#[trigger] still@[ii]).0
                            == pending_prev[jj].0 && still@[ii].1@ == pending_prev[jj].1@;
                    assert(still@[ii].0 == k);
                }
            }
        }
        pending = still;
        j += 1;
    }

    // Whatever is still pending was merged into no remote branch.
    let mut t: usize = 0;
    while t < pending.len()
        invariant
            n == facts@.len(),
            statuses@.len() == n,
            t <= pending@.len(),
            forall|k: int| 0 <= k < n && (#[trigger] facts@[k]).upstream_tip is Some
                ==> spec_slot_matches(facts@[k], statuses@[k]),
            forall|k: int| 0 <= k < n && (#[trigger] facts@[k]).upstream_tip is None
                ==> (statuses@[k] is None || (statuses@[k] matches Some(st)
                    && st is LocalBranch)),
            remote_handles@.len() == 0 ==> forall|k: int|
                0 <= k < n && (#[trigger] facts@[k]).upstream_tip is None
                    ==> (statuses@[k] is None || statuses@[k] == Some(
                        BranchStatus::LocalBranch { merged_in_remote: false },
                    )),
            forall|u: int| t <= u < pending@.len() ==> {
                &&& (#[trigger] pending@[u]).0 < n
                &&& facts@[pending@[u].0 as int].upstream_tip is None
                &&& statuses@[pending@[u].0 as int] is None
            },
            forall|k: int| 0 <= k < n && (#[trigger] facts@[k]).upstream_tip is None
                && statuses@[k] is None
                ==> exists|u: int| t <= u < pending@.len() && (#[trigger] pending@[u]).0 == k,
            forall|u1: int, u2: int| t <= u1 < u2 < pending@.len()
                ==> (#[trigger] pending@[u1]).0 < (#[trigger] pending@[u2]).0,
        decreases pending@.len() - t,
    {
        let idx = pending[t].0;
        statuses.set(idx, Some(BranchStatus::new_local_branch(false)));
        t += 1;
    }

    // Assemble the branch map in fact order.
    let mut out: Vec<(String, BranchStatus)> = Vec::new();
    let mut i: usize = 0;
    while i < n
        invariant
            n == facts@.len(),
            statuses@.len() == n,
            i <= n,
            out@.len() == i,
            forall|k: int| 0 <= k < n
                ==> spec_slot_matches(facts@[k], #[trigger] statuses@[k]),
            remote_handles@.len() == 0 ==> forall|k: int|
                0 <= k < n && (#[trigger] facts@[k]).upstream_tip is None
                    ==> statuses@[k] == Some(BranchStatus::LocalBranch { merged_in_remote: false }),
            forall|k: int| 0 <= k < i ==> spec_entry_matches_fact(facts@[k], #[trigger] out@[k]),
            forall|k: int| 0 <= k < i && (#[trigger] facts@[k]).upstream_tip is None
                && remote_handles@.len() == 0
                ==> out@[k].1 == (BranchStatus::LocalBranch { merged_in_remote: false }),
        decreases n - i,
    {
        let st = statuses[i].unwrap();
        out.push((facts[i].name.clone(), st));
        i += 1;
    }
    proof {
        if forall|k1: int, k2: int| 0 <= k1 < k2 < facts@.len()
            ==> (#[trigger] facts@[k1]).name@ != (#[trigger] facts@[k2]).name@ {
            assert forall|k1: int, k2: int| 0 <= k1 < k2 < out@.len()
                implies (#[trigger] out@[k1]).0@ != (#[trigger] out@[k2]).0@ by {
                assert(spec_entry_matches_fact(facts@[k1], out@[k1]));
                assert(spec_entry_matches_fact(facts@[k2], out@[k2]));
            }
        }
    }
    Ok(out)
}

/// A branch whose tip equals its upstream's tip is always classified
/// `Current`, whatever the backend reports as merge base.
pub proof fn lemma_equal_tips_current(tip: Seq<u8>, base: Seq<u8>)
    ensures
        spec_tracking_status(tip, tip, base) == TrackingStatus::Current,
{
}

/// In a purely-behind history — the tips differ and the merge base equals
/// the branch's own tip — classification is `Behind` and never `Ahead`;
/// swapping which commit plays the branch and which the upstream yields
/// `Ahead`. The asymmetry of the two directions is respected.
pub proof fn lemma_tracking_asymmetry(branch_tip: Seq<u8>, upstream_tip: Seq<u8>)
    requires
        branch_tip != upstream_tip,
    ensures
        spec_tracking_status(branch_tip, upstream_tip, branch_tip) == TrackingStatus::Behind,
        spec_tracking_status(upstream_tip, branch_tip, branch_tip) == TrackingStatus::Ahead,
{
}

/// Whether some remote branch contains the given branch tip: the merge base
/// of the branch tip with that remote branch's tip is the branch tip
/// itself. `bases` holds the merge base of the branch tip against each
/// remote branch, in enumeration order.
pub open spec fn spec_merged_into_some_remote(tip: Seq<u8>, bases: Seq<Seq<u8>>) -> bool {
    exists|j: int| 0 <= j < bases.len() && bases[j] == tip
}

/// What the pending-branch walk of `classify_branches` decides for one
/// branch without an upstream: the remote branches are taken in order, and
/// the branch is recorded as merged at the first one whose merge base with
/// the branch equals the branch's own tip; if none matches, it is recorded
/// as not merged.
pub open spec fn spec_elimination_marks_merged(tip: Seq<u8>, bases: Seq<Seq<u8>>) -> bool
    decreases bases.len(),
{
    if bases.len() == 0 {
        false
    } else if bases[0] == tip {
        true
    } else {
        spec_elimination_marks_merged(tip, bases.drop_first())
    }
}

/// The first-match walk detects exactly the branches that are merged into
/// some remote branch: a branch whose full history is contained in any
/// remote branch's history is marked merged, and no other branch is.
pub proof fn lemma_elimination_detects_merged(tip: Seq<u8>, bases: Seq<Seq<u8>>)
    ensures
        spec_elimination_marks_merged(tip, bases) == spec_merged_into_some_remote(tip, bases),
    decreases bases.len(),
{
    if bases.len() == 0 {
    } else if bases[0] == tip {
        assert(0 <= 0 < bases.len() && bases[0] == tip);
    } else {
        lemma_elimination_detects_merged(tip, bases.drop_first());
        if spec_merged_into_some_remote(tip, bases.drop_first()) {
            let j = choose|j: int|
                0 <= j < bases.drop_first().len() && bases.drop_first()[j] == tip;
            assert(bases[j + 1] == tip);
        }
        if spec_merged_into_some_remote(tip, bases) {
            let j = choose|j: int| 0 <= j < bases.len() && bases[j] == tip;
            assert(j != 0);
            assert(bases.drop_first()[j - 1] == tip);
        }
    }
}

/// The outcome of merge detection does not depend on the order in which the
/// remote branches are enumerated: two enumerations that report the same
/// merge bases (as a multiset) mark the same branch merged or not merged.
pub proof fn lemma_merge_detection_order_independent(
    tip: Seq<u8>,
    bases1: Seq<Seq<u8>>,
    bases2: Seq<Seq<u8>>,
)
    requires
        bases1.to_multiset() == bases2.to_multiset(),
    ensures
        spec_elimination_marks_merged(tip, bases1) == spec_elimination_marks_merged(tip, bases2),
{
    broadcast use vstd::seq_lib::to_multiset_contains;

    lemma_elimination_detects_merged(tip, bases1);
    lemma_elimination_detects_merged(tip, bases2);
    assert(spec_merged_into_some_remote(tip, bases1) <==> bases1.contains(tip));
    assert(spec_merged_into_some_remote(tip, bases2) <==> bases2.contains(tip));
    assert(bases1.contains(tip) <==> bases1.to_multiset().count(tip) > 0);
    assert(bases2.contains(tip) <==> bases2.to_multiset().count(tip) > 0);
}

/// Why classification produced no snapshot.
#[derive(Debug)]
pub enum ClassifyError {
    /// The given path does not resolve to a valid repository.
    NotARepository,
    /// Any other backend failure; classification aborts and no partial
    /// snapshot is ever returned.
    Backend(git2::Error),
}

/// Produces the status snapshot of an opened repository.
///
/// A bare repository short-circuits to the fixed trivially-clean snapshot —
/// no working tree, stash, or branch set is evaluated — with only the
/// remotes still populated. Otherwise the working tree is scanned, the
/// operational state and stash count are read, and every local branch is
/// classified.
pub fn get_status(repo: &mut git2::Repository) -> (r: Result<RepoStatus, ClassifyError>)
    ensures
        r matches Ok(s) ==> (s.bare ==> {
            &&& s.clean_status
            &&& s.clean_state
            &&& s.stashes == 0
            &&& s.branches@.len() == 0
        }),
{
    let bare = backend::repo_is_bare(repo);

    // Remotes exist independent of a working tree, so they are read first
    // and reported even for a bare repository.
    let remote_names = match backend::repo_remote_names(repo) {
        Ok(names) => names,
        Err(e) => return Err(ClassifyError::Backend(e)),
    };
    let remotes = decode_remotes(&remote_names);

    if bare {
        return Ok(RepoStatus {
            bare: true,
            clean_status: true,
            clean_state: true,
            stashes: 0,
            remotes,
            branches: Vec::new(),
        });
    }

    let entry_bits = match backend::repo_entry_status_bits(repo) {
        Ok(bits) => bits,
        Err(e) => return Err(ClassifyError::Backend(e)),
    };
    let clean_status = entries_clean(&entry_bits);

    let clean_state = backend::repo_state(repo) == RepoState::Clean;

    let stash_indices = match backend::repo_stash_indices(repo) {
        Ok(indices) => indices,
        Err(e) => return Err(ClassifyError::Backend(e)),
    };
    let stashes = stash_indices.len();

    let local_handles = match backend::repo_branch_handles(repo, BranchKind::Local) {
        Ok(handles) => handles,
        Err(e) => return Err(ClassifyError::Backend(e)),
    };
    let facts = match collect_branch_facts(&local_handles) {
        Ok(facts) => facts,
        Err(e) => return Err(ClassifyError::Backend(e)),
    };
    let remote_handles = match backend::repo_branch_handles(repo, BranchKind::Remote) {
        Ok(handles) => handles,
        Err(e) => return Err(ClassifyError::Backend(e)),
    };
    let branches = match classify_branches(repo, &facts, &remote_handles) {
        Ok(branches) => branches,
        Err(e) => return Err(ClassifyError::Backend(e)),
    };

    Ok(RepoStatus { bare: false, clean_status, clean_state, stashes, remotes, branches })
}

} // verus!
