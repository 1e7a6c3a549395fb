//! The errors of the Git side of the explorer.

use vstd::prelude::*;

use crate::text::{concat, concat3};

verus! {

/// Why a request to a repository was refused or failed.
#[derive(Debug, PartialEq, Eq)]
pub enum GitError {
    /// The main worktree was to be deleted.
    MainWorktree,
    /// The identifier of a linked worktree is not one single name.
    InvalidIdentifier,
    /// The worktree is not listed any more.
    WorktreeGone,
    /// The administrative directory is not directly inside the directory for these.
    MetadataOutside,
    /// The checkout is something other than a directory.
    NotADirectory,
    /// The checkout's `.git` entry is something other than a file.
    GitEntryNotFile,
    /// The checkout belongs to another administrative directory.
    WrongMetadata,
    /// The checkout belongs to another repository.
    WrongRepository,
    /// The current directory lies in the checkout.
    CurrentDirectory,
    /// The checkout at the path shown is not there.
    Unavailable(String),
    /// The branch of this name is checked out.
    CheckedOut(String),
    /// The name cannot be that of a local branch; the second text says why.
    InvalidBranchName(String, String),
    /// The branch of this name does not point to an object.
    NoObject(String),
    /// A branch points to something other than a commit.
    NotACommit,
    /// The time of a branch's commit cannot be read.
    BranchTime(String),
    /// A commit of the history cannot be decoded.
    CommitData(String),
    /// The author of a commit cannot be decoded.
    CommitAuthor(String),
    /// The time of a commit cannot be decoded.
    CommitTime(String),
    /// The search path shown is not a directory.
    NotSearchable(String),
    /// The directory shown holds no repository, nor do its children.
    NoRepositories(String),
    /// Reading or changing the repository failed, with this message.
    Failed(String),
}

impl GitError {
    /// The text that is shown for an error.
    pub open spec fn text(self) -> Seq<char> {
        match self {
            GitError::MainWorktree => "the main worktree cannot be deleted"@,
            GitError::InvalidIdentifier => "invalid linked worktree identifier"@,
            GitError::WorktreeGone => "selected worktree no longer exists"@,
            GitError::MetadataOutside => {
                "worktree metadata is outside the repository worktrees directory"@
            },
            GitError::NotADirectory => "worktree path is not a real directory"@,
            GitError::GitEntryNotFile => "worktree .git entry is not a file"@,
            GitError::WrongMetadata => {
                "worktree .git entry does not point to its administrative directory"@
            },
            GitError::WrongRepository => "worktree belongs to a different common repository"@,
            GitError::CurrentDirectory => {
                "the worktree containing the current directory cannot be deleted"@
            },
            GitError::Unavailable(path) => "worktree "@ + path@ + " is unavailable"@,
            GitError::CheckedOut(name) => "branch "@ + name@ + " is checked out in a worktree"@,
            GitError::InvalidBranchName(name, cause) => {
                "invalid local branch name "@ + name@ + ": "@ + cause@
            },
            GitError::NoObject(name) => {
                "local branch "@ + name@ + " does not point to an object"@
            },
            GitError::NotACommit => "branch tip is not a commit"@,
            GitError::BranchTime(cause) => "failed to read branch commit time: "@ + cause@,
            GitError::CommitData(cause) => "failed to decode commit: "@ + cause@,
            GitError::CommitAuthor(cause) => "failed to decode commit author: "@ + cause@,
            GitError::CommitTime(cause) => "failed to decode commit time: "@ + cause@,
            GitError::NotSearchable(path) => "search path "@ + path@ + " is not a directory"@,
            GitError::NoRepositories(path) => {
                "no Git repositories found in "@ + path@ + " or its immediate children"@
            },
            GitError::Failed(message) => message@,
        }
    }

    /// Writes the error for the user.
    pub fn message(&self) -> (r: String)
        ensures
            r@ == self.text(),
    {
        match self {
            GitError::MainWorktree => "the main worktree cannot be deleted".to_owned(),
            GitError::InvalidIdentifier => "invalid linked worktree identifier".to_owned(),
            GitError::WorktreeGone => "selected worktree no longer exists".to_owned(),
            GitError::MetadataOutside => {
                "worktree metadata is outside the repository worktrees directory".to_owned()
            },
            GitError::NotADirectory => "worktree path is not a real directory".to_owned(),
            GitError::GitEntryNotFile => "worktree .git entry is not a file".to_owned(),
            GitError::WrongMetadata => {
                "worktree .git entry does not point to its administrative directory".to_owned()
            },
            GitError::WrongRepository => {
                "worktree belongs to a different common repository".to_owned()
            },
            GitError::CurrentDirectory => {
                "the worktree containing the current directory cannot be deleted".to_owned()
            },
            GitError::Unavailable(path) => concat3("worktree ", path, " is unavailable"),
            GitError::CheckedOut(name) => concat3("branch ", name, " is checked out in a worktree"),
            GitError::InvalidBranchName(name, cause) => {
                let mut out = concat3("invalid local branch name ", name, ": ");
                out.append(cause);
                out
            },
            GitError::NoObject(name) => {
                concat3("local branch ", name, " does not point to an object")
            },
            GitError::NotACommit => "branch tip is not a commit".to_owned(),
            GitError::BranchTime(cause) => concat("failed to read branch commit time: ", cause),
            GitError::CommitData(cause) => concat("failed to decode commit: ", cause),
            GitError::CommitAuthor(cause) => concat("failed to decode commit author: ", cause),
            GitError::CommitTime(cause) => concat("failed to decode commit time: ", cause),
            GitError::NotSearchable(path) => concat3("search path ", path, " is not a directory"),
            GitError::NoRepositories(path) => {
                concat3("no Git repositories found in ", path, " or its immediate children")
            },
            GitError::Failed(message) => message.clone(),
        }
    }
}

/// What an error says: a fixed sentence, with the path, name or cause that it is about in its
/// place, or the message of a failure as it came.
pub proof fn errors_say_what_they_are_about(first: String, second: String)
    ensures
        GitError::Unavailable(first).text() == "worktree "@ + first@ + " is unavailable"@,
        GitError::CheckedOut(first).text() == "branch "@ + first@ + " is checked out in a worktree"@,
        GitError::InvalidBranchName(first, second).text() == "invalid local branch name "@ + first@
            + ": "@ + second@,
        GitError::NoObject(first).text() == "local branch "@ + first@
            + " does not point to an object"@,
        GitError::BranchTime(first).text() == "failed to read branch commit time: "@ + first@,
        GitError::CommitData(first).text() == "failed to decode commit: "@ + first@,
        GitError::CommitAuthor(first).text() == "failed to decode commit author: "@ + first@,
        GitError::CommitTime(first).text() == "failed to decode commit time: "@ + first@,
        GitError::NotSearchable(first).text() == "search path "@ + first@ + " is not a directory"@,
        GitError::NoRepositories(first).text() == "no Git repositories found in "@ + first@
            + " or its immediate children"@,
        GitError::Failed(first).text() == first@,
{
}

/// Errors that are about the one thing that was asked for are told in a fixed sentence each.
pub proof fn refusals_have_their_sentence(error: GitError)
    ensures
        error is MainWorktree ==> error.text() == "the main worktree cannot be deleted"@,
        error is InvalidIdentifier ==> error.text() == "invalid linked worktree identifier"@,
        error is WorktreeGone ==> error.text() == "selected worktree no longer exists"@,
        error is MetadataOutside ==> error.text()
            == "worktree metadata is outside the repository worktrees directory"@,
        error is NotADirectory ==> error.text() == "worktree path is not a real directory"@,
        error is GitEntryNotFile ==> error.text() == "worktree .git entry is not a file"@,
        error is WrongMetadata ==> error.text()
            == "worktree .git entry does not point to its administrative directory"@,
        error is WrongRepository ==> error.text()
            == "worktree belongs to a different common repository"@,
        error is CurrentDirectory ==> error.text()
            == "the worktree containing the current directory cannot be deleted"@,
        error is NotACommit ==> error.text() == "branch tip is not a commit"@,
{
}

} // verus!
