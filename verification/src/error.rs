//! The ways in which an operation of the orchestrator fails.

use vstd::prelude::*;

verus! {

/// Why an operation failed.
#[derive(Debug)]
pub enum SessionError {
    /// No registered session has the given identifier.
    NotFound,
    /// The registry already holds as many sessions as it may.
    AtCapacity,
    /// The project path is not under version control.
    NotARepo(String),
    /// The workspace could not be created; carries what the tool reported.
    VcsCreateFailed(String),
    /// The workspace could not be removed; carries what the tool reported.
    VcsRemoveFailed(String),
    /// Pending work could not be committed; carries what the tool reported.
    VcsCommitFailed(String),
    /// A directory could not be created.
    FilesystemFailed,
    /// The child process could not be started.
    SpawnFailed,
    /// Writing to the child's standard input failed.
    InputFailed,
    /// The session has no running child.
    NotRunning,
    /// The session is not paused.
    NotPaused,
    /// The session is completed or terminated.
    Terminal,
    /// The persistence layer reported an error.
    PersistFailed,
}

/// Mathematical model of a [`SessionError`].
pub enum ErrorView {
    NotFound,
    AtCapacity,
    NotARepo(Seq<char>),
    VcsCreateFailed(Seq<char>),
    VcsRemoveFailed(Seq<char>),
    VcsCommitFailed(Seq<char>),
    FilesystemFailed,
    SpawnFailed,
    InputFailed,
    NotRunning,
    NotPaused,
    Terminal,
    PersistFailed,
}

impl View for SessionError {
    type V = ErrorView;

    open spec fn view(&self) -> ErrorView {
        match *self {
            SessionError::NotFound => ErrorView::NotFound,
            SessionError::AtCapacity => ErrorView::AtCapacity,
            SessionError::NotARepo(path) => ErrorView::NotARepo(path@),
            SessionError::VcsCreateFailed(text) => ErrorView::VcsCreateFailed(text@),
            SessionError::VcsRemoveFailed(text) => ErrorView::VcsRemoveFailed(text@),
            SessionError::VcsCommitFailed(text) => ErrorView::VcsCommitFailed(text@),
            SessionError::FilesystemFailed => ErrorView::FilesystemFailed,
            SessionError::SpawnFailed => ErrorView::SpawnFailed,
            SessionError::InputFailed => ErrorView::InputFailed,
            SessionError::NotRunning => ErrorView::NotRunning,
            SessionError::NotPaused => ErrorView::NotPaused,
            SessionError::Terminal => ErrorView::Terminal,
            SessionError::PersistFailed => ErrorView::PersistFailed,
        }
    }
}

/// What an error says to a reader.
pub open spec fn message_of(error: ErrorView) -> Seq<char> {
    match error {
        ErrorView::NotFound => "Session not found"@,
        ErrorView::AtCapacity => "Maximum concurrent sessions reached"@,
        ErrorView::NotARepo(path) => "Not a git repository: "@ + path,
        ErrorView::VcsCreateFailed(text) => "Failed to create worktree: "@ + text,
        ErrorView::VcsRemoveFailed(text) => "Failed to remove worktree: "@ + text,
        ErrorView::VcsCommitFailed(text) => "Failed to commit: "@ + text,
        ErrorView::FilesystemFailed => "Failed to create worktree parent directory"@,
        ErrorView::SpawnFailed => "Failed to spawn session process"@,
        ErrorView::InputFailed => "Failed to write to process stdin"@,
        ErrorView::NotRunning => "Session process not running"@,
        ErrorView::NotPaused => "Session is not paused"@,
        ErrorView::Terminal => "Session is completed or terminated"@,
        ErrorView::PersistFailed => "Failed to update session store"@,
    }
}

/// `head` followed by `tail`.
fn prefixed(head: &str, tail: &String) -> (text: String)
    ensures
        text@ == head@ + tail@,
{
    let mut text = head.to_owned();
    text.append(tail.as_str());
    text
}

impl SessionError {
    /// What the error says to a reader.
    pub fn message(&self) -> (text: String)
        ensures
            text@ == message_of(self@),
    {
        match self {
            SessionError::NotFound => "Session not found".to_owned(),
            SessionError::AtCapacity => "Maximum concurrent sessions reached".to_owned(),
            SessionError::NotARepo(path) => prefixed("Not a git repository: ", path),
            SessionError::VcsCreateFailed(text) => prefixed("Failed to create worktree: ", text),
            SessionError::VcsRemoveFailed(text) => prefixed("Failed to remove worktree: ", text),
            SessionError::VcsCommitFailed(text) => prefixed("Failed to commit: ", text),
            SessionError::FilesystemFailed => "Failed to create worktree parent directory".to_owned(),
            SessionError::SpawnFailed => "Failed to spawn session process".to_owned(),
            SessionError::InputFailed => "Failed to write to process stdin".to_owned(),
            SessionError::NotRunning => "Session process not running".to_owned(),
            SessionError::NotPaused => "Session is not paused".to_owned(),
            SessionError::Terminal => "Session is completed or terminated".to_owned(),
            SessionError::PersistFailed => "Failed to update session store".to_owned(),
        }
    }
}

} // verus!
