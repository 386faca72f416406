//! Reading a repository: the working tree's status list, the walk through
//! today's history, and the counters that follow from both.

use crate::calendar::{is_commit_from_today, local_date, CalendarDate};
use crate::git::{
    commit_author_name,
    commit_author_seconds,
    commit_parent,
    commit_tree,
    diff_line_counts,
    error_message,
    find_commit,
    index_to_workdir_diff,
    new_revwalk,
    repo_statuses,
    revwalk_next,
    revwalk_push_head,
    status_words,
    tree_to_tree_diff,
};
use crate::observation::{observed_stats, CommitObservation, EntryObservation};
use crate::stats::{DiffStat, RepoStats};
use vstd::prelude::*;

verus! {

/// Why a repository could not be scanned. The texts are git's own.
#[derive(Clone, Debug)]
pub enum RepoAccessError {
    /// The status list of the working tree could not be read.
    StatusUnreadable(String),
    /// The walk through the history could not be set up at the current
    /// branch's tip.
    WalkNotStarted(String),
    /// The walk failed on the way.
    WalkBroken(String),
    /// A commit that the walk came to could not be read.
    CommitUnreadable(String),
    /// The walk met more commits than a vector can hold.
    WalkTooLong,
    /// A counter left the range of the counters.
    CounterOutOfRange,
}

impl RepoAccessError {
    /// Whether the error is one that the walk through the history gives: the
    /// walk was not started, broke on the way, came to a commit that could
    /// not be read, or grew too long.
    pub open spec fn comes_from_walk(self) -> bool {
        self is WalkNotStarted || self is WalkBroken || self is CommitUnreadable
            || self is WalkTooLong
    }
}

/// What the walk hands out when it is asked for its next commit.
#[derive(Clone, Debug)]
pub enum WalkItem {
    /// The walk is at its end.
    End,
    /// The walk itself failed. The text is git's own.
    Broken(String),
    /// The walk came to a commit that could not be read. The text is git's own.
    Unreadable(String),
    /// The walk came to a commit.
    Commit {
        /// The local calendar date on which the commit was authored, `None`
        /// where its time has no date.
        authored_on: Option<CalendarDate>,
        /// The author's display name; empty where it is not text.
        author: String,
    },
}

/// What is done with an item of the walk.
#[derive(Clone, Debug)]
pub enum WalkDecision {
    /// The walk ends and what was recorded stands.
    Finish,
    /// The scan of the repository is given up with this error.
    Abort(RepoAccessError),
    /// The commit is recorded without a diff and the walk ends.
    RecordAndFinish,
    /// The commit is recorded without a diff and the walk goes on.
    RecordAndGoOn,
    /// The first parent diff of the commit is read, the commit is recorded
    /// with it, and the walk goes on.
    ReadDiffAndGoOn,
}

/// What is done with an item of the walk. The end of the walk ends it. An
/// error of the walk itself, and a commit that cannot be read, give up the
/// scan. A commit that is not from `today` is the last one recorded. Of the
/// commits of today, those by `author` have their first parent diff read.
pub open spec fn walk_decision(item: WalkItem, author: Seq<char>, today: CalendarDate) -> WalkDecision {
    match item {
        WalkItem::End => WalkDecision::Finish,
        WalkItem::Broken(text) => WalkDecision::Abort(RepoAccessError::WalkBroken(text)),
        WalkItem::Unreadable(text) => WalkDecision::Abort(RepoAccessError::CommitUnreadable(text)),
        WalkItem::Commit { authored_on, author: name } => if authored_on != Some(today) {
            WalkDecision::RecordAndFinish
        } else if name@ == author {
            WalkDecision::ReadDiffAndGoOn
        } else {
            WalkDecision::RecordAndGoOn
        },
    }
}

/// Decides what is done with an item of the walk.
pub fn decide_walk(item: &WalkItem, author: &str, today: CalendarDate) -> (decision: WalkDecision)
    ensures
        decision == walk_decision(*item, author@, today),
{
    match item {
        WalkItem::End => WalkDecision::Finish,
        WalkItem::Broken(text) => WalkDecision::Abort(RepoAccessError::WalkBroken(text.clone())),
        WalkItem::Unreadable(text) => WalkDecision::Abort(
            RepoAccessError::CommitUnreadable(text.clone()),
        ),
        WalkItem::Commit { authored_on, author: name } => {
            let wanted: String = author.to_owned();
            if !is_commit_from_today(*authored_on, today) {
                WalkDecision::RecordAndFinish
            } else if *name == wanted {
                WalkDecision::ReadDiffAndGoOn
            } else {
                WalkDecision::RecordAndGoOn
            }
        },
    }
}

/// How the walk stands after an item has been dealt with.
#[derive(Clone, Debug)]
pub enum WalkProgress {
    /// The walk goes on with its next item.
    GoOn,
    /// The walk is over and what was recorded stands.
    Done,
    /// The scan of the repository is given up with this error.
    GivenUp(RepoAccessError),
}

/// Does with an item of the walk what was decided. A commit is recorded at
/// the end of `commits`: with `diff` where its first parent diff was to be
/// read, without a diff otherwise. The walk goes on after a commit of today
/// and is over after any other commit and at its end. Where the scan is to
/// be given up, nothing is recorded and the error is handed on.
pub fn record_walk_item(
    commits: &mut Vec<CommitObservation>,
    item: WalkItem,
    decision: WalkDecision,
    diff: Option<DiffStat>,
) -> (progress: WalkProgress)
    ensures
        match (item, decision) {
            (WalkItem::Commit { authored_on, author }, WalkDecision::ReadDiffAndGoOn) => {
                &&& final(commits)@ == old(commits)@.push(
                    CommitObservation { authored_on, author, first_parent_diff: diff },
                )
                &&& progress is GoOn
            },
            (WalkItem::Commit { authored_on, author }, WalkDecision::RecordAndGoOn) => {
                &&& final(commits)@ == old(commits)@.push(
                    CommitObservation { authored_on, author, first_parent_diff: None },
                )
                &&& progress is GoOn
            },
            (WalkItem::Commit { authored_on, author }, _) => {
                &&& final(commits)@ == old(commits)@.push(
                    CommitObservation { authored_on, author, first_parent_diff: None },
                )
                &&& progress is Done
            },
            (_, WalkDecision::Abort(error)) => {
                &&& final(commits)@ == old(commits)@
                &&& progress == WalkProgress::GivenUp(error)
            },
            _ => {
                &&& final(commits)@ == old(commits)@
                &&& progress is Done
            },
        },
{
    match item {
        WalkItem::Commit { authored_on, author } => match decision {
            WalkDecision::ReadDiffAndGoOn => {
                commits.push(CommitObservation { authored_on, author, first_parent_diff: diff });
                WalkProgress::GoOn
            },
            WalkDecision::RecordAndGoOn => {
                commits.push(CommitObservation { authored_on, author, first_parent_diff: None });
                WalkProgress::GoOn
            },
            _ => {
                commits.push(CommitObservation { authored_on, author, first_parent_diff: None });
                WalkProgress::Done
            },
        },
        _ => match decision {
            WalkDecision::Abort(error) => WalkProgress::GivenUp(error),
            _ => WalkProgress::Done,
        },
    }
}

/// What one scan saw of a repository.
#[derive(Clone, Debug)]
pub struct RepoObservation {
    /// The status list of the working tree, in its order.
    pub entries: Vec<EntryObservation>,
    /// The commits that the walk met, from the tip on.
    pub commits: Vec<CommitObservation>,
}

/// A walk as `observe_history` leaves it: only its last commit may be from
/// another day than `today`, and only commits of today by `author` have had
/// their first parent diff read.
pub open spec fn is_walk_record(
    commits: Seq<CommitObservation>,
    author: Seq<char>,
    today: CalendarDate,
) -> bool {
    &&& forall|i: int| 0 <= i < commits.len() - 1 ==> (#[trigger] commits[i]).is_from(today)
    &&& forall|i: int|
        0 <= i < commits.len() && (#[trigger] commits[i]).first_parent_diff is Some
            ==> commits[i].is_from(today) && commits[i].is_by(author)
}

/// A status list as `observe_worktree` leaves it: an entry that is not
/// pending has had no working diff computed.
pub open spec fn is_worktree_record(entries: Seq<EntryObservation>) -> bool {
    forall|i: int|
        0 <= i < entries.len() && !(#[trigger] entries[i]).is_pending() ==> entries[i].working_diff
            == (DiffStat { insertions: 0, deletions: 0 })
}

/// The stat that a pair of line counts stands for. Counts that the stat
/// cannot hold give none, as a diff that could not be read does.
pub fn stat_of_counts(counts: Option<(usize, usize)>) -> (r: Option<DiffStat>)
    ensures
        r == match counts {
            Some((insertions, deletions)) if DiffStat::representable(
                insertions as int,
                deletions as int,
            ) => Some(DiffStat { insertions: insertions as u32, deletions: deletions as u32 }),
            _ => None,
        },
{
    match counts {
        Some((insertions, deletions)) => DiffStat::from_counts(insertions, deletions),
        None => None,
    }
}

/// Counts the lines added and deleted in the whole working tree against the
/// index, from what the diff of the two gave: its insertions and deletions,
/// or nothing where the diff or its stats could not be had. Where there is
/// nothing, and where a count is beyond what a stat can hold, both counts
/// are zero.
pub fn count_file_changes(outcome: Option<(usize, usize)>) -> (r: DiffStat)
    ensures
        r == match outcome {
            Some((insertions, deletions)) if DiffStat::representable(
                insertions as int,
                deletions as int,
            ) => DiffStat { insertions: insertions as u32, deletions: deletions as u32 },
            _ => DiffStat { insertions: 0, deletions: 0 },
        },
{
    match stat_of_counts(outcome) {
        Some(stat) => stat,
        None => DiffStat::zero(),
    }
}

/// Asks git for the diff of the working tree against the index and for its
/// line counts. `None` where the diff or its stats cannot be had.
fn read_working_counts(repo: &git2::Repository) -> Option<(usize, usize)> {
    match index_to_workdir_diff(repo) {
        Ok(diff) => match diff_line_counts(&diff) {
            Ok(counts) => Some(counts),
            Err(_) => None,
        },
        Err(_) => None,
    }
}

/// The stat of the diff from the first parent's tree to the commit's own.
/// `None` for a commit without parent, and where a tree, the diff or its
/// stats cannot be had.
fn first_parent_diff(repo: &git2::Repository, commit: &git2::Commit<'_>) -> Option<DiffStat> {
    let parent = match commit_parent(commit, 0) {
        Ok(parent) => parent,
        Err(_) => { return None; },
    };
    let parent_tree = match commit_tree(&parent) {
        Ok(tree) => tree,
        Err(_) => { return None; },
    };
    let own_tree = match commit_tree(commit) {
        Ok(tree) => tree,
        Err(_) => { return None; },
    };
    let diff = match tree_to_tree_diff(repo, &parent_tree, &own_tree) {
        Ok(diff) => diff,
        Err(_) => { return None; },
    };
    match diff_line_counts(&diff) {
        Ok(counts) => stat_of_counts(Some(counts)),
        Err(_) => None,
    }
}

/// The observation of a status list whose entries have the status words
/// `words`: one entry for every word, in the order of the list. For every
/// pending entry the working diff of the whole tree is computed anew; an
/// entry that is not pending has none.
pub fn observe_entries(repo: &git2::Repository, words: &Vec<u32>) -> (entries: Vec<
    EntryObservation,
>)
    ensures
        entries@.len() == words@.len(),
        forall|i: int| 0 <= i < words@.len() ==> (#[trigger] entries@[i]).status_bits == words@[i],
        is_worktree_record(entries@),
{
    let mut entries: Vec<EntryObservation> = Vec::new();
    let mut i: usize = 0;
    while i < words.len()
        invariant
            i <= words.len(),
            entries@.len() == i,
            forall|j: int| 0 <= j < i ==> (#[trigger] entries@[j]).status_bits == words@[j],
            is_worktree_record(entries@),
        decreases words.len() - i,
    {
        let mut entry = EntryObservation { status_bits: words[i], working_diff: DiffStat::zero() };
        if entry.counts() {
            entry.working_diff = count_file_changes(read_working_counts(repo));
        }
        entries.push(entry);
        i = i + 1;
    }
    entries
}

/// Reads the status list of the working tree, untracked files included, and
/// for every pending entry computes the working diff of the whole tree anew.
/// The one error is that of a status list that cannot be read.
pub fn observe_worktree(repo: &git2::Repository) -> (r: Result<
    Vec<EntryObservation>,
    RepoAccessError,
>)
    ensures
        r matches Ok(entries) ==> is_worktree_record(entries@),
        r matches Err(error) ==> error is StatusUnreadable,
{
    let statuses = match repo_statuses(repo, true) {
        Ok(statuses) => statuses,
        Err(error) => { return Err(RepoAccessError::StatusUnreadable(error_message(&error))); },
    };
    let words = status_words(&statuses);
    Ok(observe_entries(repo, &words))
}

/// Asks the walk for its next commit and reads the commit's date and author.
/// The commit itself comes back with the item exactly where the item is a
/// commit.
fn next_walk_item<'r>(repo: &'r git2::Repository, walk: &mut git2::Revwalk<'_>) -> (r: (
    WalkItem,
    Option<git2::Commit<'r>>,
))
    ensures
        r.1 is Some <==> r.0 is Commit,
{
    let id = match revwalk_next(walk) {
        None => { return (WalkItem::End, None); },
        Some(Err(error)) => { return (WalkItem::Broken(error_message(&error)), None); },
        Some(Ok(id)) => id,
    };
    let commit = match find_commit(repo, id) {
        Ok(commit) => commit,
        Err(error) => { return (WalkItem::Unreadable(error_message(&error)), None); },
    };
    let authored_on = local_date(commit_author_seconds(&commit));
    let author = match commit_author_name(&commit) {
        Some(name) => name,
        None => String::new(),
    };
    (WalkItem::Commit { authored_on, author }, Some(commit))
}

/// Walks the history from the tip of the current branch and records each
/// commit it meets: `decide_walk` says what is done with every item of the
/// walk and `record_walk_item` does it. The walk ends at the first commit
/// that is not from `today`, which is the last it records. The first parent
/// diff is read for the commits of today whose author name is `author`; a
/// diff that cannot be had is left out and the walk goes on. The errors are
/// those of the walk.
pub fn observe_history(repo: &git2::Repository, author: &str, today: CalendarDate) -> (r: Result<
    Vec<CommitObservation>,
    RepoAccessError,
>)
    ensures
        r matches Ok(commits) ==> is_walk_record(commits@, author@, today),
        r matches Err(error) ==> error.comes_from_walk(),
{
    let mut walk = match new_revwalk(repo) {
        Ok(walk) => walk,
        Err(error) => { return Err(RepoAccessError::WalkNotStarted(error_message(&error))); },
    };
    match revwalk_push_head(&mut walk) {
        Ok(()) => {},
        Err(error) => { return Err(RepoAccessError::WalkNotStarted(error_message(&error))); },
    }
    let mut commits: Vec<CommitObservation> = Vec::new();
    while commits.len() < usize::MAX
        invariant
            forall|i: int| 0 <= i < commits.len() ==> (#[trigger] commits[i]).is_from(today),
            is_walk_record(commits@, author@, today),
        decreases usize::MAX - commits.len(),
    {
        let (item, commit) = next_walk_item(repo, &mut walk);
        let decision = decide_walk(&item, author, today);
        let diff = match decision {
            WalkDecision::ReadDiffAndGoOn => first_parent_diff(repo, &commit.unwrap()),
            _ => None,
        };
        match record_walk_item(&mut commits, item, decision, diff) {
            WalkProgress::GoOn => {},
            WalkProgress::Done => { return Ok(commits); },
            WalkProgress::GivenUp(error) => { return Err(error); },
        }
    }
    Err(RepoAccessError::WalkTooLong)
}

/// Scans a repository: first the working tree, then the history. The scan
/// fails with the error of the status list or with that of the walk, and
/// with no other.
pub fn observe_repository(repo: &git2::Repository, author: &str, today: CalendarDate) -> (r: Result<
    RepoObservation,
    RepoAccessError,
>)
    ensures
        r matches Ok(seen) ==> is_worktree_record(seen.entries@) && is_walk_record(
            seen.commits@,
            author@,
            today,
        ),
        r matches Err(error) ==> error is StatusUnreadable || error.comes_from_walk(),
{
    let entries = match observe_worktree(repo) {
        Ok(entries) => entries,
        Err(error) => { return Err(error); },
    };
    let commits = match observe_history(repo, author, today) {
        Ok(commits) => commits,
        Err(error) => { return Err(error); },
    };
    Ok(RepoObservation { entries, commits })
}

/// The counters of a scan, or the error for a counter that is out of range.
pub fn stats_or_error(stats: Option<RepoStats>) -> (r: Result<RepoStats, RepoAccessError>)
    ensures
        match stats {
            Some(stats) => r == Ok::<RepoStats, RepoAccessError>(stats),
            None => r == Err::<RepoStats, RepoAccessError>(RepoAccessError::CounterOutOfRange),
        },
{
    match stats {
        Some(stats) => Ok(stats),
        None => Err(RepoAccessError::CounterOutOfRange),
    }
}

/// The changes that `author` made to a repository, from what a scan saw of
/// it: what is pending in the working tree and what was committed on the day
/// `today`. Where a counter would be out of range, the error says so.
pub fn get_repo_changes(seen: &RepoObservation, author: &str, today: CalendarDate) -> (r: Result<
    RepoStats,
    RepoAccessError,
>)
    ensures
        match observed_stats(seen.entries@, seen.commits@, author@, today) {
            Some(stats) => r == Ok::<RepoStats, RepoAccessError>(stats),
            None => r == Err::<RepoStats, RepoAccessError>(RepoAccessError::CounterOutOfRange),
        },
{
    stats_or_error(RepoStats::from_observation(&seen.entries, &seen.commits, author, today))
}

} // verus!
