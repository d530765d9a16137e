//! What the orchestrator reports about its sessions: lifecycle events, diff
//! summaries and session snapshots.

use vstd::prelude::*;
use crate::session::SessionStatus;

verus! {

/// Number of events that the event bus holds for a subscriber that lags
/// before the subscriber starts to lose the oldest ones.
pub const EVENT_BUS_CAPACITY: usize = 1000;

/// Summary of the changes in a workspace against its branch base.
#[derive(Debug, Clone, Copy, PartialEq, Eq, Structural)]
pub struct DiffStats {
    pub files_changed: usize,
    pub insertions: usize,
    pub deletions: usize,
}

impl DiffStats {
    /// The summary of a workspace without changes.
    pub open spec fn zero() -> DiffStats {
        DiffStats { files_changed: 0, insertions: 0, deletions: 0 }
    }

    /// The summary of a workspace without changes.
    pub fn zeros() -> (stats: DiffStats)
        ensures
            stats == DiffStats::zero(),
    {
        DiffStats { files_changed: 0, insertions: 0, deletions: 0 }
    }
}

/// One delta published on the event bus.
#[derive(Debug)]
pub enum SessionEvent {
    StatusChanged { session_id: String, status: SessionStatus },
    OutputAppended { session_id: String, output: String },
    DiffUpdated { session_id: String, stats: DiffStats },
    SessionCreated { session_id: String },
    SessionTerminated { session_id: String },
    Error { session_id: String, error: String },
}

/// Mathematical model of a [`SessionEvent`].
pub enum EventView {
    StatusChanged { session_id: Seq<char>, status: SessionStatus },
    OutputAppended { session_id: Seq<char>, output: Seq<char> },
    DiffUpdated { session_id: Seq<char>, stats: DiffStats },
    SessionCreated { session_id: Seq<char> },
    SessionTerminated { session_id: Seq<char> },
    Error { session_id: Seq<char>, error: Seq<char> },
}

impl View for SessionEvent {
    type V = EventView;

    open spec fn view(&self) -> EventView {
        match *self {
            SessionEvent::StatusChanged { session_id, status } => EventView::StatusChanged {
                session_id: session_id@,
                status,
            },
            SessionEvent::OutputAppended { session_id, output } => EventView::OutputAppended {
                session_id: session_id@,
                output: output@,
            },
            SessionEvent::DiffUpdated { session_id, stats } => EventView::DiffUpdated {
                session_id: session_id@,
                stats,
            },
            SessionEvent::SessionCreated { session_id } => EventView::SessionCreated {
                session_id: session_id@,
            },
            SessionEvent::SessionTerminated { session_id } => EventView::SessionTerminated {
                session_id: session_id@,
            },
            SessionEvent::Error { session_id, error } => EventView::Error {
                session_id: session_id@,
                error: error@,
            },
        }
    }
}

impl Clone for SessionEvent {
    fn clone(&self) -> (c: SessionEvent)
        ensures
            c@ == self@,
    {
        match self {
            SessionEvent::StatusChanged { session_id, status } => SessionEvent::StatusChanged {
                session_id: session_id.clone(),
                status: *status,
            },
            SessionEvent::OutputAppended { session_id, output } => SessionEvent::OutputAppended {
                session_id: session_id.clone(),
                output: output.clone(),
            },
            SessionEvent::DiffUpdated { session_id, stats } => SessionEvent::DiffUpdated {
                session_id: session_id.clone(),
                stats: *stats,
            },
            SessionEvent::SessionCreated { session_id } => SessionEvent::SessionCreated {
                session_id: session_id.clone(),
            },
            SessionEvent::SessionTerminated { session_id } => SessionEvent::SessionTerminated {
                session_id: session_id.clone(),
            },
            SessionEvent::Error { session_id, error } => SessionEvent::Error {
                session_id: session_id.clone(),
                error: error.clone(),
            },
        }
    }
}

/// The models of a sequence of events, element by element.
pub open spec fn event_views(events: Seq<SessionEvent>) -> Seq<EventView> {
    Seq::new(events.len(), |i: int| events[i]@)
}

/// Immutable snapshot of one session.
#[derive(Debug)]
pub struct SessionInfo {
    pub id: String,
    pub project_id: String,
    pub project_path: String,
    pub worktree_path: String,
    pub branch_name: String,
    pub status: SessionStatus,
    pub created_at: String,
    pub updated_at: String,
    pub auto_yes: bool,
    pub output_preview: String,
    pub diff_stats: Option<DiffStats>,
}

/// Mathematical model of a [`SessionInfo`].
pub struct SessionInfoView {
    pub id: Seq<char>,
    pub project_id: Seq<char>,
    pub project_path: Seq<char>,
    pub worktree_path: Seq<char>,
    pub branch_name: Seq<char>,
    pub status: SessionStatus,
    pub created_at: Seq<char>,
    pub updated_at: Seq<char>,
    pub auto_yes: bool,
    pub output_preview: Seq<char>,
    pub diff_stats: Option<DiffStats>,
}

impl View for SessionInfo {
    type V = SessionInfoView;

    open spec fn view(&self) -> SessionInfoView {
        SessionInfoView {
            id: self.id@,
            project_id: self.project_id@,
            project_path: self.project_path@,
            worktree_path: self.worktree_path@,
            branch_name: self.branch_name@,
            status: self.status,
            created_at: self.created_at@,
            updated_at: self.updated_at@,
            auto_yes: self.auto_yes,
            output_preview: self.output_preview@,
            diff_stats: self.diff_stats,
        }
    }
}

impl Clone for SessionInfo {
    fn clone(&self) -> (c: SessionInfo)
        ensures
            c@ == self@,
    {
        SessionInfo {
            id: self.id.clone(),
            project_id: self.project_id.clone(),
            project_path: self.project_path.clone(),
            worktree_path: self.worktree_path.clone(),
            branch_name: self.branch_name.clone(),
            status: self.status,
            created_at: self.created_at.clone(),
            updated_at: self.updated_at.clone(),
            auto_yes: self.auto_yes,
            output_preview: self.output_preview.clone(),
            diff_stats: self.diff_stats,
        }
    }
}

/// The models of a list of snapshots, element by element.
pub open spec fn info_views(infos: Seq<SessionInfo>) -> Seq<SessionInfoView> {
    Seq::new(infos.len(), |i: int| infos[i]@)
}

} // verus!
