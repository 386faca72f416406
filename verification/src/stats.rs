//! Line counts: the stat of one diff and the four counters kept per repository.

use vstd::prelude::*;

verus! {

/// Lines inserted and lines deleted, as one diff reports them. The counts are
/// 32 bits wide, so that every sum of two counters fits 64 bits and the
/// totals over any table fit 128 bits: nothing that is derived from counters
/// can leave its range.
#[derive(Clone, Copy, Debug, PartialEq, Eq, Structural)]
pub struct DiffStat {
    pub insertions: u32,
    pub deletions: u32,
}

impl DiffStat {
    /// The stat of a diff that changes nothing.
    pub fn zero() -> (r: DiffStat)
        ensures
            r == (DiffStat { insertions: 0, deletions: 0 }),
    {
        DiffStat { insertions: 0, deletions: 0 }
    }

    /// Whether both counts can be held by a `DiffStat`.
    pub open spec fn representable(insertions: int, deletions: int) -> bool {
        0 <= insertions <= u32::MAX && 0 <= deletions <= u32::MAX
    }

    /// Takes the two counts of a diff; `None` when either is out of range.
    pub fn from_counts(insertions: usize, deletions: usize) -> (r: Option<DiffStat>)
        ensures
            r is Some <==> Self::representable(insertions as int, deletions as int),
            r matches Some(d) ==> d.insertions == insertions && d.deletions == deletions,
    {
        if insertions <= u32::MAX as usize && deletions <= u32::MAX as usize {
            Some(DiffStat { insertions: insertions as u32, deletions: deletions as u32 })
        } else {
            None
        }
    }
}

/// The latest counters of one repository. Every scan computes all four anew.
#[derive(Clone, Copy, Debug, PartialEq, Eq, Structural)]
pub struct RepoStats {
    /// Lines added by today's commits of the tracked author.
    pub committed_additions: u32,
    /// Lines deleted by today's commits of the tracked author.
    pub committed_deletions: u32,
    /// Lines added in the working tree and not committed.
    pub pending_additions: u32,
    /// Lines deleted in the working tree and not committed.
    pub pending_deletions: u32,
}

impl RepoStats {
    /// Puts the committed and the pending stat side by side.
    pub fn new(committed: DiffStat, pending: DiffStat) -> (r: RepoStats)
        ensures
            r.committed() == committed,
            r.pending() == pending,
    {
        RepoStats {
            committed_additions: committed.insertions,
            committed_deletions: committed.deletions,
            pending_additions: pending.insertions,
            pending_deletions: pending.deletions,
        }
    }

    /// The committed half as a stat.
    pub open spec fn committed(self) -> DiffStat {
        DiffStat { insertions: self.committed_additions, deletions: self.committed_deletions }
    }

    /// The pending half as a stat.
    pub open spec fn pending(self) -> DiffStat {
        DiffStat { insertions: self.pending_additions, deletions: self.pending_deletions }
    }

    /// Committed lines of code: committed additions plus committed deletions.
    pub open spec fn spec_committed_loc(self) -> int {
        self.committed_additions + self.committed_deletions
    }

    /// Pending lines of code: pending additions plus pending deletions.
    pub open spec fn spec_pending_loc(self) -> int {
        self.pending_additions + self.pending_deletions
    }

    /// All additions of the scan: committed plus pending.
    pub open spec fn spec_additions(self) -> int {
        self.committed_additions + self.pending_additions
    }

    /// All deletions of the scan: committed plus pending.
    pub open spec fn spec_deletions(self) -> int {
        self.committed_deletions + self.pending_deletions
    }

    /// Committed lines of code: committed additions plus committed deletions.
    pub fn committed_loc(&self) -> (r: u64)
        ensures
            r == self.spec_committed_loc(),
    {
        self.committed_additions as u64 + self.committed_deletions as u64
    }

    /// Pending lines of code: pending additions plus pending deletions.
    pub fn pending_loc(&self) -> (r: u64)
        ensures
            r == self.spec_pending_loc(),
    {
        self.pending_additions as u64 + self.pending_deletions as u64
    }

    /// All additions of the scan: committed plus pending.
    pub fn additions(&self) -> (r: u64)
        ensures
            r == self.spec_additions(),
    {
        self.committed_additions as u64 + self.pending_additions as u64
    }

    /// All deletions of the scan: committed plus pending.
    pub fn deletions(&self) -> (r: u64)
        ensures
            r == self.spec_deletions(),
    {
        self.committed_deletions as u64 + self.pending_deletions as u64
    }
}

} // verus!
