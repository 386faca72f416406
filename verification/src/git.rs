//! The calls into git2, and the types of git2 that pass through the library.
//! Each function here makes one call and converts what comes back. What
//! comes back depends on the repository on disk at the moment of the call, so
//! none of these functions promises anything of its result, and the types
//! are opaque: the library reads a repository only through these calls.

use vstd::prelude::*;

verus! {

/// git2's handle of an open repository.
#[verifier::external_type_specification]
#[verifier::external_body]
pub struct ExRepository(git2::Repository);

/// The error of a git2 call.
#[verifier::external_type_specification]
#[verifier::external_body]
pub struct ExGitError(git2::Error);

/// git2's status list of a working tree, as it was when the list was made.
#[verifier::external_type_specification]
#[verifier::external_body]
pub struct ExStatuses<'repo>(git2::Statuses<'repo>);

/// A diff that git2 has computed.
#[verifier::external_type_specification]
#[verifier::external_body]
pub struct ExDiff<'repo>(git2::Diff<'repo>);

/// git2's walk through the commits of a repository.
#[verifier::external_type_specification]
#[verifier::external_body]
pub struct ExRevwalk<'repo>(git2::Revwalk<'repo>);

/// The id of a git object.
#[verifier::external_type_specification]
#[verifier::external_body]
pub struct ExOid(git2::Oid);

/// A commit that git2 has read.
#[verifier::external_type_specification]
#[verifier::external_body]
pub struct ExCommit<'repo>(git2::Commit<'repo>);

/// A tree that git2 has read.
#[verifier::external_type_specification]
#[verifier::external_body]
pub struct ExTree<'repo>(git2::Tree<'repo>);

/// A path of the file system, as std holds it.
#[verifier::external_type_specification]
#[verifier::external_body]
pub struct ExPathBuf(std::path::PathBuf);

/// `Repository::open`: opens the repository at `path`.
#[verifier::external_body]
pub(crate) fn open_repository(path: &std::path::PathBuf) -> Result<git2::Repository, git2::Error> {
    git2::Repository::open(path)
}

/// `Path::file_name`: the final component of the path as text, `None` where
/// the path has none.
#[verifier::external_body]
pub(crate) fn path_file_name(path: &std::path::PathBuf) -> Option<String> {
    path.file_name().map(|name| name.to_string_lossy().into_owned())
}

/// `Error::message`: the text of a git2 error.
#[verifier::external_body]
pub(crate) fn error_message(error: &git2::Error) -> String {
    error.message().to_owned()
}

/// `Repository::statuses` with default options but for the untracked files,
/// which are listed when `include_untracked` is set.
#[verifier::external_body]
pub(crate) fn repo_statuses<'r>(repo: &'r git2::Repository, include_untracked: bool) -> Result<
    git2::Statuses<'r>,
    git2::Error,
> {
    let mut options = git2::StatusOptions::new();
    options.include_untracked(include_untracked);
    repo.statuses(Some(&mut options))
}

/// `Statuses::iter`: the entries of a status list in its order, each as the
/// bits of its status (`StatusEntry::status`).
#[verifier::external_body]
pub(crate) fn status_words(statuses: &git2::Statuses<'_>) -> Vec<u32> {
    statuses.iter().map(|entry| entry.status().bits()).collect()
}

/// `Repository::diff_index_to_workdir` on the repository's own index, with
/// default options.
#[verifier::external_body]
pub(crate) fn index_to_workdir_diff<'r>(repo: &'r git2::Repository) -> Result<
    git2::Diff<'r>,
    git2::Error,
> {
    repo.diff_index_to_workdir(None, None)
}

/// `Diff::stats`: the insertions and deletions that the diff's stats report.
#[verifier::external_body]
pub(crate) fn diff_line_counts(diff: &git2::Diff<'_>) -> Result<(usize, usize), git2::Error> {
    diff.stats().map(|stats| (stats.insertions(), stats.deletions()))
}

/// `Repository::revwalk`: a new, empty history walk.
#[verifier::external_body]
pub(crate) fn new_revwalk<'r>(repo: &'r git2::Repository) -> Result<git2::Revwalk<'r>, git2::Error> {
    repo.revwalk()
}

/// `Revwalk::push_head`: starts the walk at the tip of the current branch.
#[verifier::external_body]
pub(crate) fn revwalk_push_head(walk: &mut git2::Revwalk<'_>) -> Result<(), git2::Error> {
    walk.push_head()
}

/// `Revwalk::next`: the id of the next commit of the walk, `None` at its end.
#[verifier::external_body]
pub(crate) fn revwalk_next(walk: &mut git2::Revwalk<'_>) -> Option<Result<git2::Oid, git2::Error>> {
    walk.next()
}

/// `Repository::find_commit`: the commit with the given id.
#[verifier::external_body]
pub(crate) fn find_commit<'r>(repo: &'r git2::Repository, id: git2::Oid) -> Result<
    git2::Commit<'r>,
    git2::Error,
> {
    repo.find_commit(id)
}

/// `Commit::author`: the seconds since the epoch at which the commit was authored.
#[verifier::external_body]
pub(crate) fn commit_author_seconds(commit: &git2::Commit<'_>) -> i64 {
    commit.author().when().seconds()
}

/// `Commit::author`: the author's display name, `None` where it is not UTF-8.
#[verifier::external_body]
pub(crate) fn commit_author_name(commit: &git2::Commit<'_>) -> Option<String> {
    commit.author().name().ok().map(str::to_owned)
}

/// `Commit::parent`: the parent of the commit at `index`, counted from zero.
#[verifier::external_body]
pub(crate) fn commit_parent<'r>(commit: &git2::Commit<'r>, index: usize) -> Result<
    git2::Commit<'r>,
    git2::Error,
> {
    commit.parent(index)
}

/// `Commit::tree`: the tree that the commit points to.
#[verifier::external_body]
pub(crate) fn commit_tree<'r>(commit: &git2::Commit<'r>) -> Result<git2::Tree<'r>, git2::Error> {
    commit.tree()
}

/// `Repository::diff_tree_to_tree` from `old` to `new`, with default options.
#[verifier::external_body]
pub(crate) fn tree_to_tree_diff<'r>(
    repo: &'r git2::Repository,
    old: &git2::Tree<'_>,
    new: &git2::Tree<'_>,
) -> Result<git2::Diff<'r>, git2::Error> {
    repo.diff_tree_to_tree(Some(old), Some(new), None)
}

} // verus!
