//! What one scan saw of a repository, as plain values, and the rules that turn
//! it into counters: which working tree entries are pending, where the walk
//! through the history stops, and which commits count.

use crate::calendar::{is_commit_from_today, CalendarDate};
use crate::stats::{DiffStat, RepoStats};
use vstd::prelude::*;

verus! {

/// The status word of a path that differs neither from the index nor from
/// HEAD: no bit is set.
pub const STATUS_CURRENT: u32 = 0;

/// One entry of the working tree's status list.
#[derive(Clone, Copy, Debug, PartialEq, Eq, Structural)]
pub struct EntryObservation {
    /// The entry's status bits; `STATUS_CURRENT` for an unchanged path.
    pub status_bits: u32,
    /// The stat of the whole working tree against the index, as it was
    /// computed when this entry was met. Zero where it could not be computed,
    /// and for an entry that is not pending.
    pub working_diff: DiffStat,
}

impl EntryObservation {
    /// An entry is pending when its path is not current.
    pub open spec fn is_pending(self) -> bool {
        self.status_bits != STATUS_CURRENT
    }

    /// Whether the entry is pending.
    pub fn counts(&self) -> (r: bool)
        ensures
            r == self.is_pending(),
    {
        self.status_bits != STATUS_CURRENT
    }
}

/// One commit met on the walk from the tip of the current branch.
#[derive(Clone, Debug)]
pub struct CommitObservation {
    /// The local calendar date on which the commit was authored, `None` where
    /// its time has no date.
    pub authored_on: Option<CalendarDate>,
    /// The author's display name; empty where it is not text.
    pub author: String,
    /// The stat of the diff from the first parent's tree to the commit's own.
    /// `None` for a commit without parent, and where a tree or the diff could
    /// not be read.
    pub first_parent_diff: Option<DiffStat>,
}

impl CommitObservation {
    /// Whether the commit was authored on the day `today`.
    pub open spec fn is_from(self, today: CalendarDate) -> bool {
        self.authored_on == Some(today)
    }

    /// Whether the author's name is `author`, character for character.
    pub open spec fn is_by(self, author: Seq<char>) -> bool {
        self.author@ == author
    }

    /// What the commit adds to the counters of `author`: its first parent diff
    /// if the name matches and there is such a diff, else nothing.
    pub open spec fn counted_diff(self, author: Seq<char>) -> Seq<DiffStat> {
        match self.first_parent_diff {
            Some(diff) if self.is_by(author) => seq![diff],
            _ => Seq::empty(),
        }
    }
}

/// The working diffs that count as pending, in the order of the status list:
/// one for every pending entry.
pub open spec fn pending_diffs(entries: Seq<EntryObservation>) -> Seq<DiffStat>
    decreases entries.len(),
{
    if entries.len() == 0 {
        Seq::empty()
    } else if entries.last().is_pending() {
        pending_diffs(entries.drop_last()).push(entries.last().working_diff)
    } else {
        pending_diffs(entries.drop_last())
    }
}

/// The diffs that count as committed today by `author`, in the order of the
/// walk. The walk ends at the first commit that is not from `today`; of the
/// commits before it, those by `author` count.
pub open spec fn counted_diffs(
    commits: Seq<CommitObservation>,
    author: Seq<char>,
    today: CalendarDate,
) -> Seq<DiffStat>
    decreases commits.len(),
{
    if commits.len() == 0 || !commits.first().is_from(today) {
        Seq::empty()
    } else {
        commits.first().counted_diff(author) + counted_diffs(commits.drop_first(), author, today)
    }
}

/// The insertions of all the stats together.
pub open spec fn sum_insertions(stats: Seq<DiffStat>) -> int
    decreases stats.len(),
{
    if stats.len() == 0 {
        0
    } else {
        sum_insertions(stats.drop_last()) + stats.last().insertions
    }
}

/// The deletions of all the stats together.
pub open spec fn sum_deletions(stats: Seq<DiffStat>) -> int
    decreases stats.len(),
{
    if stats.len() == 0 {
        0
    } else {
        sum_deletions(stats.drop_last()) + stats.last().deletions
    }
}

/// The stats added up, where both sums are in range.
pub open spec fn total(stats: Seq<DiffStat>) -> Option<DiffStat> {
    if DiffStat::representable(sum_insertions(stats), sum_deletions(stats)) {
        Some(
            DiffStat {
                insertions: sum_insertions(stats) as u32,
                deletions: sum_deletions(stats) as u32,
            },
        )
    } else {
        None
    }
}

/// The counters that follow from what a scan saw: the pending diffs added up
/// and the counted diffs added up, where all four sums are in range.
pub open spec fn observed_stats(
    entries: Seq<EntryObservation>,
    commits: Seq<CommitObservation>,
    author: Seq<char>,
    today: CalendarDate,
) -> Option<RepoStats> {
    match (total(counted_diffs(commits, author, today)), total(pending_diffs(entries))) {
        (Some(committed), Some(pending)) => Some(
            RepoStats {
                committed_additions: committed.insertions,
                committed_deletions: committed.deletions,
                pending_additions: pending.insertions,
                pending_deletions: pending.deletions,
            },
        ),
        _ => None,
    }
}

/// Both sums lie between zero and the largest count times the number of stats.
proof fn lemma_sum_bounds(stats: Seq<DiffStat>)
    ensures
        0 <= sum_insertions(stats) <= stats.len() * u32::MAX,
        0 <= sum_deletions(stats) <= stats.len() * u32::MAX,
    decreases stats.len(),
{
    if stats.len() > 0 {
        lemma_sum_bounds(stats.drop_last());
    }
}

/// Picks out the working diffs of the pending entries.
pub fn gather_pending_diffs(entries: &Vec<EntryObservation>) -> (r: Vec<DiffStat>)
    ensures
        r@ == pending_diffs(entries@),
{
    let mut diffs: Vec<DiffStat> = Vec::new();
    let mut i: usize = 0;
    while i < entries.len()
        invariant
            i <= entries.len(),
            diffs@ == pending_diffs(entries@.take(i as int)),
        decreases entries.len() - i,
    {
        assert(entries@.take(i + 1).drop_last() =~= entries@.take(i as int));
        if entries[i].counts() {
            diffs.push(entries[i].working_diff);
        }
        i = i + 1;
    }
    assert(entries@.take(i as int) =~= entries@);
    diffs
}

/// Walks the commits from the tip and picks out the diffs that count for
/// `author` on the day `today`.
pub fn gather_counted_diffs(commits: &Vec<CommitObservation>, author: &str, today: CalendarDate) -> (r:
    Vec<DiffStat>)
    ensures
        r@ == counted_diffs(commits@, author@, today),
{
    let wanted: String = author.to_owned();
    let mut diffs: Vec<DiffStat> = Vec::new();
    let mut i: usize = 0;
    assert(commits@.skip(0) =~= commits@);
    while i < commits.len()
        invariant
            i <= commits.len(),
            wanted@ == author@,
            counted_diffs(commits@, author@, today) == diffs@ + counted_diffs(
                commits@.skip(i as int),
                author@,
                today,
            ),
        decreases commits.len() - i,
    {
        let ghost rest = commits@.skip(i as int);
        assert(rest.first() == commits@[i as int]);
        assert(rest.drop_first() =~= commits@.skip(i + 1));
        if !is_commit_from_today(commits[i].authored_on, today) {
            assert(diffs@ + Seq::<DiffStat>::empty() =~= diffs@);
            return diffs;
        }
        let ghost before = diffs@;
        if commits[i].author == wanted {
            match commits[i].first_parent_diff {
                Some(diff) => {
                    diffs.push(diff);
                },
                None => {},
            }
        }
        assert(diffs@ =~= before + commits@[i as int].counted_diff(author@));
        assert(diffs@ + counted_diffs(commits@.skip(i + 1), author@, today) =~= before
            + counted_diffs(rest, author@, today));
        i = i + 1;
    }
    assert(diffs@ + Seq::<DiffStat>::empty() =~= diffs@);
    diffs
}

/// Adds the stats up; `None` when a sum is out of range.
pub fn add_up(stats: &Vec<DiffStat>) -> (r: Option<DiffStat>)
    ensures
        r == total(stats@),
{
    let mut insertions: u128 = 0;
    let mut deletions: u128 = 0;
    let mut i: usize = 0;
    while i < stats.len()
        invariant
            i <= stats.len(),
            insertions == sum_insertions(stats@.take(i as int)),
            deletions == sum_deletions(stats@.take(i as int)),
        decreases stats.len() - i,
    {
        proof {
            lemma_sum_bounds(stats@.take(i as int));
            assert(stats@.take(i + 1).drop_last() =~= stats@.take(i as int));
            assert(i * u32::MAX <= usize::MAX * u32::MAX) by (nonlinear_arith)
                requires
                    i <= usize::MAX,
            ;
        }
        insertions = insertions + stats[i].insertions as u128;
        deletions = deletions + stats[i].deletions as u128;
        i = i + 1;
    }
    assert(stats@.take(i as int) =~= stats@);
    if insertions <= u32::MAX as u128 && deletions <= u32::MAX as u128 {
        Some(DiffStat { insertions: insertions as u32, deletions: deletions as u32 })
    } else {
        None
    }
}

impl RepoStats {
    /// The counters that follow from what a scan saw; `None` when a counter
    /// would be out of range.
    pub fn from_observation(
        entries: &Vec<EntryObservation>,
        commits: &Vec<CommitObservation>,
        author: &str,
        today: CalendarDate,
    ) -> (r: Option<RepoStats>)
        ensures
            r == observed_stats(entries@, commits@, author@, today),
    {
        let counted = gather_counted_diffs(commits, author, today);
        let pending = gather_pending_diffs(entries);
        match (add_up(&counted), add_up(&pending)) {
            (Some(committed), Some(pending)) => Some(RepoStats::new(committed, pending)),
            _ => None,
        }
    }
}

/// Whether every commit of the walk is from `today`.
pub open spec fn all_from(commits: Seq<CommitObservation>, today: CalendarDate) -> bool {
    forall|i: int| 0 <= i < commits.len() ==> (#[trigger] commits[i]).is_from(today)
}

/// What counts of two stretches of a walk laid end to end: what counts of the
/// first, and after it what counts of the second, unless the walk has ended
/// within the first.
pub proof fn lemma_counted_diffs_of_concat(
    head: Seq<CommitObservation>,
    tail: Seq<CommitObservation>,
    author: Seq<char>,
    today: CalendarDate,
)
    ensures
        counted_diffs(head + tail, author, today) == counted_diffs(head, author, today) + (
        if all_from(head, today) {
            counted_diffs(tail, author, today)
        } else {
            Seq::empty()
        }),
    decreases head.len(),
{
    let whole = head + tail;
    if head.len() == 0 {
        assert(whole =~= tail);
        assert(Seq::<DiffStat>::empty() + counted_diffs(tail, author, today) =~= counted_diffs(
            tail,
            author,
            today,
        ));
    } else if !head.first().is_from(today) {
        assert(whole.first() == head.first());
        assert(!head[0].is_from(today));
        assert(Seq::<DiffStat>::empty() + Seq::<DiffStat>::empty() =~= Seq::<DiffStat>::empty());
    } else {
        assert(whole.first() == head.first());
        assert(whole.drop_first() =~= head.drop_first() + tail);
        lemma_counted_diffs_of_concat(head.drop_first(), tail, author, today);
        assert(all_from(head, today) <==> all_from(head.drop_first(), today)) by {
            if all_from(head.drop_first(), today) {
                assert forall|i: int| 0 <= i < head.len() implies (#[trigger] head[i]).is_from(
                    today,
                ) by {
                    if i > 0 {
                        assert(head[i] == head.drop_first()[i - 1]);
                    }
                }
            }
            if all_from(head, today) {
                assert forall|i: int| 0 <= i < head.drop_first().len() implies (
                #[trigger] head.drop_first()[i]).is_from(today) by {
                    assert(head.drop_first()[i] == head[i + 1]);
                }
            }
        }
        let first = head.first().counted_diff(author);
        let rest = counted_diffs(head.drop_first(), author, today);
        let after = if all_from(head, today) {
            counted_diffs(tail, author, today)
        } else {
            Seq::empty()
        };
        assert(first + (rest + after) =~= (first + rest) + after);
    }
}

/// What counts of a walk that begins with `commit`.
proof fn lemma_counted_diffs_of_cons(
    commit: CommitObservation,
    rest: Seq<CommitObservation>,
    author: Seq<char>,
    today: CalendarDate,
)
    ensures
        counted_diffs(seq![commit] + rest, author, today) == if commit.is_from(today) {
            commit.counted_diff(author) + counted_diffs(rest, author, today)
        } else {
            Seq::empty()
        },
{
    let walk = seq![commit] + rest;
    assert(walk.first() == commit);
    assert(walk.drop_first() =~= rest);
}

/// The counters are sums: of the first parent diffs that count, and of the
/// working diffs of the pending entries. Counters are given exactly where all
/// four sums are within the range of a counter.
pub proof fn lemma_counters_are_sums(
    entries: Seq<EntryObservation>,
    commits: Seq<CommitObservation>,
    author: Seq<char>,
    today: CalendarDate,
)
    ensures
        observed_stats(entries, commits, author, today) is Some <==> DiffStat::representable(
            sum_insertions(counted_diffs(commits, author, today)),
            sum_deletions(counted_diffs(commits, author, today)),
        ) && DiffStat::representable(
            sum_insertions(pending_diffs(entries)),
            sum_deletions(pending_diffs(entries)),
        ),
        observed_stats(entries, commits, author, today) matches Some(stats) ==> {
            &&& stats.committed_additions == sum_insertions(counted_diffs(commits, author, today))
            &&& stats.committed_deletions == sum_deletions(counted_diffs(commits, author, today))
            &&& stats.pending_additions == sum_insertions(pending_diffs(entries))
            &&& stats.pending_deletions == sum_deletions(pending_diffs(entries))
        },
{
}

/// A working tree whose every path is current has nothing pending: no
/// working diff counts, and both pending counters are zero whatever the
/// history holds. Counters are given exactly where the committed sums are
/// within range.
pub proof fn lemma_clean_worktree_pends_nothing(
    entries: Seq<EntryObservation>,
    commits: Seq<CommitObservation>,
    author: Seq<char>,
    today: CalendarDate,
)
    requires
        forall|i: int| 0 <= i < entries.len() ==> (#[trigger] entries[i]).status_bits == STATUS_CURRENT,
    ensures
        pending_diffs(entries) == Seq::<DiffStat>::empty(),
        total(pending_diffs(entries)) == Some(DiffStat { insertions: 0, deletions: 0 }),
        observed_stats(entries, commits, author, today) matches Some(stats)
            ==> stats.pending_additions == 0 && stats.pending_deletions == 0,
        observed_stats(entries, commits, author, today) is Some <==> total(
            counted_diffs(commits, author, today),
        ) is Some,
    decreases entries.len(),
{
    if entries.len() > 0 {
        assert(!entries[entries.len() - 1].is_pending());
        assert forall|i: int| 0 <= i < entries.drop_last().len() implies (
        #[trigger] entries.drop_last()[i]).status_bits == STATUS_CURRENT by {
            assert(entries.drop_last()[i] == entries[i]);
        }
        lemma_clean_worktree_pends_nothing(entries.drop_last(), commits, author, today);
    }
}

/// The walk ends at the first commit that is not from today: neither that
/// commit nor any behind it counts.
pub proof fn lemma_walk_ends_at_other_day(
    commits: Seq<CommitObservation>,
    author: Seq<char>,
    today: CalendarDate,
    k: int,
)
    requires
        0 <= k < commits.len(),
        !commits[k].is_from(today),
    ensures
        counted_diffs(commits, author, today) == counted_diffs(commits.take(k), author, today),
{
    let head = commits.take(k);
    let tail = commits.skip(k);
    assert(commits =~= head + tail);
    assert(tail.first() == commits[k]);
    lemma_counted_diffs_of_concat(head, tail, author, today);
    assert(counted_diffs(head, author, today) + Seq::<DiffStat>::empty() =~= counted_diffs(
        head,
        author,
        today,
    ));
}

/// A commit authored on a day before today ends the walk: the committed
/// counters hold nothing of it nor of any commit behind it.
pub proof fn lemma_older_commit_ends_walk(
    entries: Seq<EntryObservation>,
    commits: Seq<CommitObservation>,
    author: Seq<char>,
    today: CalendarDate,
    k: int,
)
    requires
        0 <= k < commits.len(),
        commits[k].authored_on matches Some(date) && date.precedes(today),
    ensures
        counted_diffs(commits, author, today) == counted_diffs(commits.take(k), author, today),
        observed_stats(entries, commits, author, today) == observed_stats(
            entries,
            commits.take(k),
            author,
            today,
        ),
{
    lemma_walk_ends_at_other_day(commits, author, today, k);
}

/// Only a commit whose author name equals the tracked name counts: whatever
/// the first parent diff of a commit by anyone else holds, the counted diffs
/// stay the same.
pub proof fn lemma_other_author_is_left_out(
    entries: Seq<EntryObservation>,
    commits: Seq<CommitObservation>,
    author: Seq<char>,
    today: CalendarDate,
    k: int,
    diff: Option<DiffStat>,
)
    requires
        0 <= k < commits.len(),
        !commits[k].is_by(author),
    ensures
        counted_diffs(
            commits.update(
                k,
                CommitObservation {
                    authored_on: commits[k].authored_on,
                    author: commits[k].author,
                    first_parent_diff: diff,
                },
            ),
            author,
            today,
        ) == counted_diffs(commits, author, today),
        observed_stats(
            entries,
            commits.update(
                k,
                CommitObservation {
                    authored_on: commits[k].authored_on,
                    author: commits[k].author,
                    first_parent_diff: diff,
                },
            ),
            author,
            today,
        ) == observed_stats(entries, commits, author, today),
{
    let changed = CommitObservation {
        authored_on: commits[k].authored_on,
        author: commits[k].author,
        first_parent_diff: diff,
    };
    let head = commits.take(k);
    let rest = commits.skip(k + 1);
    assert(commits =~= head + (seq![commits[k]] + rest));
    assert(commits.update(k, changed) =~= head + (seq![changed] + rest));
    lemma_counted_diffs_of_concat(head, seq![commits[k]] + rest, author, today);
    lemma_counted_diffs_of_concat(head, seq![changed] + rest, author, today);
    lemma_counted_diffs_of_cons(commits[k], rest, author, today);
    lemma_counted_diffs_of_cons(changed, rest, author, today);
}

/// A commit without a first parent diff, as a root commit is, adds nothing.
/// Where it is from today the walk goes on past it, and the counted diffs are
/// those of the walk without it; where it is not, the walk ends at it.
pub proof fn lemma_root_commit_adds_nothing(
    entries: Seq<EntryObservation>,
    commits: Seq<CommitObservation>,
    author: Seq<char>,
    today: CalendarDate,
    k: int,
)
    requires
        0 <= k < commits.len(),
        commits[k].first_parent_diff is None,
    ensures
        commits[k].is_from(today) ==> counted_diffs(commits, author, today) == counted_diffs(
            commits.remove(k),
            author,
            today,
        ) && observed_stats(entries, commits, author, today) == observed_stats(
            entries,
            commits.remove(k),
            author,
            today,
        ),
        !commits[k].is_from(today) ==> counted_diffs(commits, author, today) == counted_diffs(
            commits.take(k),
            author,
            today,
        ) && observed_stats(entries, commits, author, today) == observed_stats(
            entries,
            commits.take(k),
            author,
            today,
        ),
{
    let head = commits.take(k);
    let rest = commits.skip(k + 1);
    if commits[k].is_from(today) {
        assert(commits =~= head + (seq![commits[k]] + rest));
        assert(commits.remove(k) =~= head + rest);
        lemma_counted_diffs_of_concat(head, seq![commits[k]] + rest, author, today);
        lemma_counted_diffs_of_concat(head, rest, author, today);
        lemma_counted_diffs_of_cons(commits[k], rest, author, today);
        assert(Seq::<DiffStat>::empty() + counted_diffs(rest, author, today) =~= counted_diffs(
            rest,
            author,
            today,
        ));
    } else {
        lemma_walk_ends_at_other_day(commits, author, today, k);
    }
}

} // verus!
