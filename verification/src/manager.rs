//! The registry of sessions and the decisions of every operation on it.
//!
//! The manager holds no process, file or connection. An operation changes
//! the registry and returns the actions that its caller has to carry out, in
//! order, stopping at the first that fails. Where the registry may only
//! change once an action has succeeded, the operation comes in two parts:
//! the first returns the action, the second records its success.

use vstd::prelude::*;
use crate::auto_yes::{default_patterns, pattern_views, AutoYesManager, PromptPatternView};
use crate::error::{ErrorView, SessionError};
use crate::events::{
    event_views, info_views, DiffStats, EventView, SessionEvent, SessionInfo, SessionInfoView,
};
use crate::git_worktree::{
    branch_name_of, workspace_path_of, GitWorktree, GitWorktreeView,
};
use crate::outside::{fresh_uuid, now_rfc3339};
use crate::process::{
    after_stderr, after_stdout, is_critical_line, launch_of, status_of_line, stderr_events,
    stdout_events, LaunchSpec, LaunchSpecView, ProcessManager,
};
use crate::session::{last_n, Session, SessionConfig, SessionConfigView, SessionStatus, SessionView};
use crate::text::{lemma_lex_total, lemma_lex_transitive, lex_less, text_less, texts};

verus! {

/// The row that the persistence layer stores for a new session.
#[derive(Debug)]
pub struct SessionRecord {
    pub id: String,
    pub project_id: String,
    pub worktree_path: String,
    pub branch_name: String,
    pub status: String,
    pub created_at: String,
    pub updated_at: String,
    pub auto_yes: bool,
    pub output_log: String,
}

/// Mathematical model of a [`SessionRecord`].
pub struct SessionRecordView {
    pub id: Seq<char>,
    pub project_id: Seq<char>,
    pub worktree_path: Seq<char>,
    pub branch_name: Seq<char>,
    pub status: Seq<char>,
    pub created_at: Seq<char>,
    pub updated_at: Seq<char>,
    pub auto_yes: bool,
    pub output_log: Seq<char>,
}

impl View for SessionRecord {
    type V = SessionRecordView;

    open spec fn view(&self) -> SessionRecordView {
        SessionRecordView {
            id: self.id@,
            project_id: self.project_id@,
            worktree_path: self.worktree_path@,
            branch_name: self.branch_name@,
            status: self.status@,
            created_at: self.created_at@,
            updated_at: self.updated_at@,
            auto_yes: self.auto_yes,
            output_log: self.output_log@,
        }
    }
}

/// One thing for the caller of the manager to carry out.
#[derive(Debug)]
pub enum Action {
    /// Create the workspace.
    CreateWorkspace(GitWorktree),
    /// Remove the workspace and its branch.
    RemoveWorkspace(GitWorktree),
    /// Commit the pending work of the workspace under the message.
    CommitWorkspace { worktree: GitWorktree, message: String },
    /// Store the row of a new session.
    StoreSession(SessionRecord),
    /// Store the new status of a session.
    UpdateStatus { session_id: String, status: SessionStatus },
    /// Store the new automatic-reply flag of a session.
    UpdateAutoYes { session_id: String, auto_yes: bool },
    /// Start the child of the session and the pumps of its output.
    Spawn { session_id: String, launch: LaunchSpec },
    /// Kill the child of the session and drop its handle.
    Kill { session_id: String },
    /// Write the data to the standard input of the session's child and
    /// flush.
    Write { session_id: String, data: String },
    /// Publish the event on the event bus.
    Emit(SessionEvent),
}

/// Mathematical model of an [`Action`].
pub enum ActionView {
    CreateWorkspace(GitWorktreeView),
    RemoveWorkspace(GitWorktreeView),
    CommitWorkspace { worktree: GitWorktreeView, message: Seq<char> },
    StoreSession(SessionRecordView),
    UpdateStatus { session_id: Seq<char>, status: SessionStatus },
    UpdateAutoYes { session_id: Seq<char>, auto_yes: bool },
    Spawn { session_id: Seq<char>, launch: LaunchSpecView },
    Kill { session_id: Seq<char> },
    Write { session_id: Seq<char>, data: Seq<char> },
    Emit(EventView),
}

impl View for Action {
    type V = ActionView;

    open spec fn view(&self) -> ActionView {
        match *self {
            Action::CreateWorkspace(worktree) => ActionView::CreateWorkspace(worktree@),
            Action::RemoveWorkspace(worktree) => ActionView::RemoveWorkspace(worktree@),
            Action::CommitWorkspace { worktree, message } => ActionView::CommitWorkspace {
                worktree: worktree@,
                message: message@,
            },
            Action::StoreSession(record) => ActionView::StoreSession(record@),
            Action::UpdateStatus { session_id, status } => ActionView::UpdateStatus {
                session_id: session_id@,
                status,
            },
            Action::UpdateAutoYes { session_id, auto_yes } => ActionView::UpdateAutoYes {
                session_id: session_id@,
                auto_yes,
            },
            Action::Spawn { session_id, launch } => ActionView::Spawn {
                session_id: session_id@,
                launch: launch@,
            },
            Action::Kill { session_id } => ActionView::Kill { session_id: session_id@ },
            Action::Write { session_id, data } => ActionView::Write {
                session_id: session_id@,
                data: data@,
            },
            Action::Emit(event) => ActionView::Emit(event@),
        }
    }
}

/// The step of a creation that an action carries out, if it is one.
pub open spec fn create_stage_of(action: ActionView) -> Option<CreateStage> {
    match action {
        ActionView::CreateWorkspace(_) => Some(CreateStage::Workspace),
        ActionView::StoreSession(_) => Some(CreateStage::Persist),
        ActionView::Spawn { .. } => Some(CreateStage::Spawn),
        _ => None,
    }
}

impl Action {
    /// The step of a creation that this action carries out, if it is one:
    /// what to report where the action fails.
    pub fn create_stage(&self) -> (stage: Option<CreateStage>)
        ensures
            stage == create_stage_of(self@),
    {
        match self {
            Action::CreateWorkspace(_) => Some(CreateStage::Workspace),
            Action::StoreSession(_) => Some(CreateStage::Persist),
            Action::Spawn { .. } => Some(CreateStage::Spawn),
            _ => None,
        }
    }
}

/// The models of a list of actions, element by element.
pub open spec fn action_views(actions: Seq<Action>) -> Seq<ActionView> {
    Seq::new(actions.len(), |i: int| actions[i]@)
}

/// The models of a list of sessions, element by element.
pub open spec fn session_views(sessions: Seq<Session>) -> Seq<SessionView> {
    Seq::new(sessions.len(), |i: int| sessions[i]@)
}

/// The step of a creation at which an action failed.
#[derive(Debug, Clone, Copy, PartialEq, Eq, Structural)]
pub enum CreateStage {
    /// Creating the workspace.
    Workspace,
    /// Storing the row of the session.
    Persist,
    /// Starting the child.
    Spawn,
}

/// The workspace of a session.
pub open spec fn worktree_of(session: SessionView) -> GitWorktreeView {
    GitWorktreeView {
        repo_path: session.project_path,
        worktree_path: session.worktree_path,
        branch_name: session.branch_name,
    }
}

/// The row stored for a new session: its status is `running`, both
/// timestamps are the instant of creation, and the output log is empty.
pub open spec fn record_of(session: SessionView) -> SessionRecordView {
    SessionRecordView {
        id: session.id,
        project_id: session.project_id,
        worktree_path: session.worktree_path,
        branch_name: session.branch_name,
        status: "running"@,
        created_at: session.created_at,
        updated_at: session.created_at,
        auto_yes: session.config.auto_yes,
        output_log: Seq::empty(),
    }
}

/// Two sessions may not be live together: they share their identifier,
/// their workspace or their branch.
pub open spec fn clash(a: SessionView, b: SessionView) -> bool {
    a.id == b.id || a.worktree_path == b.worktree_path || a.branch_name == b.branch_name
}

/// Some session of `list` clashes with `session`.
pub open spec fn clashes_in(list: Seq<SessionView>, session: SessionView) -> bool {
    exists|i: int| 0 <= i < list.len() && clash(#[trigger] list[i], session)
}

/// What every live session satisfies: its buffer is within its bound, its
/// workspace and branch are set, and it has no child while paused.
pub open spec fn entry_wf(session: SessionView) -> bool {
    &&& session.wf()
    &&& session.worktree_path.len() > 0
    &&& session.branch_name.len() > 0
    &&& (session.status == SessionStatus::Paused ==> !session.has_process)
}

/// The index of the session of `list` with the identifier `id`.
pub open spec fn position(list: Seq<SessionView>, id: Seq<char>) -> Option<int>
    decreases list.len(),
{
    if list.len() == 0 {
        None
    } else {
        match position(list.drop_last(), id) {
            Some(i) => Some(i),
            None => if list.last().id == id {
                Some(list.len() - 1)
            } else {
                None
            },
        }
    }
}

/// The session that a creation reserves: initializing, without child,
/// output or error, with the workspace and the branch that follow from its
/// identifier.
pub open spec fn reserved_session(
    id: Seq<char>,
    now: Seq<char>,
    project_id: Seq<char>,
    project_path: Seq<char>,
    config: SessionConfigView,
) -> SessionView {
    SessionView {
        id,
        project_id,
        project_path,
        worktree_path: workspace_path_of(project_path, id),
        branch_name: branch_name_of(config.branch_prefix, id),
        has_process: false,
        status: SessionStatus::Initializing,
        output: Seq::empty(),
        created_at: now,
        updated_at: now,
        config,
        error_message: None,
    }
}

/// What creating `session` takes, in order: its workspace, its row, its
/// child.
pub open spec fn create_actions(session: SessionView, program: Seq<char>) -> Seq<ActionView> {
    seq![
        ActionView::CreateWorkspace(worktree_of(session)),
        ActionView::StoreSession(record_of(session)),
        ActionView::Spawn { session_id: session.id, launch: launch_of(session, program) },
    ]
}

/// What follows a successful creation: the creation and the change to the
/// running status are announced.
pub open spec fn created_actions(id: Seq<char>) -> Seq<ActionView> {
    seq![
        ActionView::Emit(EventView::SessionCreated { session_id: id }),
        ActionView::Emit(
            EventView::StatusChanged { session_id: id, status: SessionStatus::Running },
        ),
    ]
}

/// What follows a failed creation: the workspace is torn down unless it
/// was the step that failed.
pub open spec fn abort_actions(session: SessionView, failed: CreateStage) -> Seq<ActionView> {
    if failed == CreateStage::Workspace {
        Seq::empty()
    } else {
        seq![ActionView::RemoveWorkspace(worktree_of(session))]
    }
}

/// The kill of the child of `session`, where it has one.
pub open spec fn kill_actions(session: SessionView) -> Seq<ActionView> {
    if session.has_process {
        seq![ActionView::Kill { session_id: session.id }]
    } else {
        Seq::empty()
    }
}

/// The storing and the announcement of a new status.
pub open spec fn status_actions(id: Seq<char>, status: SessionStatus) -> Seq<ActionView> {
    seq![
        ActionView::UpdateStatus { session_id: id, status },
        ActionView::Emit(EventView::StatusChanged { session_id: id, status }),
    ]
}

/// What terminating `session` takes, in order: its child is killed, its
/// workspace removed, its new status stored and announced, and last the
/// termination announced.
pub open spec fn terminate_actions(session: SessionView) -> Seq<ActionView> {
    kill_actions(session) + seq![ActionView::RemoveWorkspace(worktree_of(session))]
        + status_actions(session.id, SessionStatus::Terminated) + seq![
        ActionView::Emit(EventView::SessionTerminated { session_id: session.id }),
    ]
}

/// What pausing `session` starts with: its pending work is committed.
pub open spec fn pause_actions(session: SessionView) -> Seq<ActionView> {
    seq![
        ActionView::CommitWorkspace {
            worktree: worktree_of(session),
            message: "WIP: Pausing session"@,
        },
    ]
}

/// What follows the commit of a pause: the child is killed, and the new
/// status stored and announced.
pub open spec fn paused_actions(session: SessionView) -> Seq<ActionView> {
    kill_actions(session) + status_actions(session.id, SessionStatus::Paused)
}

/// What resuming `session` starts with: its child is started again.
pub open spec fn resume_actions(session: SessionView, program: Seq<char>) -> Seq<ActionView> {
    seq![ActionView::Spawn { session_id: session.id, launch: launch_of(session, program) }]
}

/// What sending `input` to `session` takes: the text and a line feed are
/// written to its child.
pub open spec fn input_actions(session: SessionView, input: Seq<char>) -> Seq<ActionView> {
    seq![ActionView::Write { session_id: session.id, data: input.push('\n') }]
}

/// What publishing `events` takes: each event is announced in its turn,
/// and a change of status is stored before it is announced.
pub open spec fn publish_actions(events: Seq<EventView>) -> Seq<ActionView>
    decreases events.len(),
{
    if events.len() == 0 {
        Seq::empty()
    } else {
        let before = publish_actions(events.drop_last());
        match events.last() {
            EventView::StatusChanged { session_id, status } => before + status_actions(
                session_id,
                status,
            ),
            event => before.push(ActionView::Emit(event)),
        }
    }
}

/// What a line on standard output takes: the status it announces, if any,
/// is stored and announced, then the line is announced.
pub open spec fn stdout_actions(id: Seq<char>, line: Seq<char>) -> Seq<ActionView> {
    publish_actions(stdout_events(id, line))
}

/// What a line on standard error takes: nothing unless it is critical;
/// then the error status is stored and announced, and the error announced.
pub open spec fn stderr_actions(id: Seq<char>, line: Seq<char>) -> Seq<ActionView> {
    publish_actions(stderr_events(id, line))
}

/// The actions of a line of output, written out.
pub proof fn lemma_line_actions(id: Seq<char>, line: Seq<char>)
    ensures
        stdout_actions(id, line) == match status_of_line(line) {
            Some(status) => status_actions(id, status) + seq![
                ActionView::Emit(EventView::OutputAppended { session_id: id, output: line }),
            ],
            None => seq![
                ActionView::Emit(EventView::OutputAppended { session_id: id, output: line }),
            ],
        },
        stderr_actions(id, line) == if is_critical_line(line) {
            status_actions(id, SessionStatus::Error) + seq![
                ActionView::Emit(EventView::Error { session_id: id, error: line }),
            ]
        } else {
            Seq::empty()
        },
{
    reveal_with_fuel(publish_actions, 3);
    let out = stdout_events(id, line);
    let err = stderr_events(id, line);
    if out.len() == 2 {
        assert(out.drop_last().drop_last() =~= Seq::<EventView>::empty());
    } else {
        assert(out.drop_last() =~= Seq::<EventView>::empty());
    }
    if err.len() == 2 {
        assert(err.drop_last().drop_last() =~= Seq::<EventView>::empty());
    }
    assert(stdout_actions(id, line) =~= match status_of_line(line) {
        Some(status) => status_actions(id, status) + seq![
            ActionView::Emit(EventView::OutputAppended { session_id: id, output: line }),
        ],
        None => seq![ActionView::Emit(EventView::OutputAppended { session_id: id, output: line })],
    });
    assert(stderr_actions(id, line) =~= if is_critical_line(line) {
        status_actions(id, SessionStatus::Error) + seq![
            ActionView::Emit(EventView::Error { session_id: id, error: line }),
        ]
    } else {
        Seq::empty()
    });
}

/// Mathematical model of a [`SessionManager`].
pub struct ManagerView {
    /// The registered sessions, in the order in which they were registered.
    pub sessions: Seq<SessionView>,
    /// The sessions that are being created.
    pub pending: Seq<SessionView>,
    pub max_concurrent_sessions: nat,
    pub assistant_program: Seq<char>,
    /// The prompts that the responder of the manager answers.
    pub patterns: Seq<PromptPatternView>,
    /// Seconds between two scans of the responder.
    pub poll_interval_secs: nat,
}

impl ManagerView {
    /// Number of sessions that count against the cap: the registered ones
    /// and those being created.
    pub open spec fn live(self) -> nat {
        self.sessions.len() + self.pending.len()
    }

    /// No further session can be created.
    pub open spec fn is_full(self) -> bool {
        self.live() >= self.max_concurrent_sessions
    }

    /// Some live session clashes with `session`.
    pub open spec fn clashes(self, session: SessionView) -> bool {
        clashes_in(self.sessions, session) || clashes_in(self.pending, session)
    }

    /// The invariant of the manager: the cap is kept; every live session is
    /// well formed; no two live sessions share an identifier, a workspace or
    /// a branch; and a session that is being created is still initializing.
    pub open spec fn wf(self) -> bool {
        &&& self.live() <= self.max_concurrent_sessions
        &&& forall|i: int| 0 <= i < self.sessions.len() ==> entry_wf(#[trigger] self.sessions[i])
        &&& forall|i: int|
            0 <= i < self.pending.len() ==> {
                &&& entry_wf(#[trigger] self.pending[i])
                &&& self.pending[i].status == SessionStatus::Initializing
                &&& !self.pending[i].has_process
            }
        &&& forall|i: int, j: int|
            0 <= i < j < self.sessions.len() ==> !clash(
                #[trigger] self.sessions[i],
                #[trigger] self.sessions[j],
            )
        &&& forall|i: int, j: int|
            0 <= i < j < self.pending.len() ==> !clash(
                #[trigger] self.pending[i],
                #[trigger] self.pending[j],
            )
        &&& forall|i: int, j: int|
            0 <= i < self.sessions.len() && 0 <= j < self.pending.len() ==> !clash(
                #[trigger] self.sessions[i],
                #[trigger] self.pending[j],
            )
    }

    /// The manager with `session` added to the sessions being created.
    pub open spec fn reserve(self, session: SessionView) -> ManagerView {
        ManagerView { pending: self.pending.push(session), ..self }
    }

    /// What comes of asking for the creation of `session`: a full manager
    /// refuses it, so does one in which a live session clashes with it, and
    /// any other reserves a place for it.
    pub open spec fn create(self, session: SessionView) -> Result<ManagerView, ErrorView> {
        if self.is_full() {
            Err(ErrorView::AtCapacity)
        } else if self.clashes(session) {
            Err(ErrorView::VcsCreateFailed("Workspace or branch already in use"@))
        } else {
            Ok(self.reserve(session))
        }
    }

    /// The manager after the creation of the session at `i` of those being
    /// created was completed at the instant `now`: the session is
    /// registered behind the others, runs and has a child.
    pub open spec fn register(self, i: int, now: Seq<char>) -> ManagerView {
        ManagerView {
            sessions: self.sessions.push(
                SessionView {
                    has_process: true,
                    status: SessionStatus::Running,
                    updated_at: now,
                    ..self.pending[i]
                },
            ),
            pending: self.pending.remove(i),
            ..self
        }
    }

    /// The manager after each of `created` was created in turn and its
    /// creation completed at once, or `None` where one of them was refused.
    pub open spec fn create_all(self, created: Seq<SessionView>) -> Option<ManagerView>
        decreases created.len(),
    {
        if created.len() == 0 {
            Some(self)
        } else {
            match self.create_all(created.drop_last()) {
                Some(before) => match before.create(created.last()) {
                    Ok(reserved) => Some(
                        reserved.register(reserved.pending.len() - 1, created.last().updated_at),
                    ),
                    Err(_) => None,
                },
                None => None,
            }
        }
    }

    /// The manager with the session at `i` replaced by `session`.
    pub open spec fn with_session(self, i: int, session: SessionView) -> ManagerView {
        ManagerView { sessions: self.sessions.update(i, session), ..self }
    }

    /// The manager without the registered session at `i`.
    pub open spec fn without_session(self, i: int) -> ManagerView {
        ManagerView { sessions: self.sessions.remove(i), ..self }
    }

    /// The manager without the session at `i` of those being created.
    pub open spec fn without_pending(self, i: int) -> ManagerView {
        ManagerView { pending: self.pending.remove(i), ..self }
    }
}

/// A session found at the end of a list is found in every longer list.
pub proof fn lemma_position_extends(part: Seq<SessionView>, list: Seq<SessionView>, id: Seq<char>)
    requires
        part.len() <= list.len(),
        part == list.take(part.len() as int),
        position(part, id) is Some,
    ensures
        position(list, id) == position(part, id),
    decreases list.len() - part.len(),
{
    if part.len() < list.len() {
        let next = list.take(part.len() as int + 1);
        assert(next.drop_last() =~= part);
        lemma_position_extends(next, list, id);
    } else {
        assert(part =~= list);
    }
}

/// What the position of an identifier says of the list.
pub proof fn lemma_position(list: Seq<SessionView>, id: Seq<char>)
    ensures
        match position(list, id) {
            Some(i) => 0 <= i < list.len() && list[i].id == id && forall|k: int|
                0 <= k < i ==> (#[trigger] list[k]).id != id,
            None => forall|k: int| 0 <= k < list.len() ==> (#[trigger] list[k]).id != id,
        },
    decreases list.len(),
{
    if list.len() > 0 {
        let head = list.drop_last();
        lemma_position(head, id);
        match position(head, id) {
            Some(i) => {
                assert(head[i] == list[i]);
                assert forall|k: int| 0 <= k < i implies (#[trigger] list[k]).id != id by {
                    assert(head[k] == list[k]);
                }
            },
            None => {
                assert forall|k: int| 0 <= k < list.len() - 1 implies (#[trigger] list[k]).id
                    != id by {
                    assert(head[k] == list[k]);
                }
            },
        }
    }
}

/// Whether the session at `a` is listed before the session at `b`: the one
/// created later comes first, and of two created at the same instant the
/// one registered first.
pub open spec fn listed_before(sessions: Seq<SessionView>, a: int, b: int) -> bool {
    lex_less(sessions[b].created_at, sessions[a].created_at) || (sessions[a].created_at
        == sessions[b].created_at && a < b)
}

/// `order` lists the indices of `sessions` by creation time, latest first.
pub open spec fn is_listing_order(sessions: Seq<SessionView>, order: Seq<int>) -> bool {
    &&& order.len() == sessions.len()
    &&& forall|k: int| 0 <= k < order.len() ==> 0 <= #[trigger] order[k] < sessions.len()
    &&& forall|j: int, k: int|
        0 <= j < k < order.len() ==> listed_before(sessions, #[trigger] order[j], #[trigger] order[k])
}

/// Where the session at `x` goes into `order`: before the first session of
/// `order` that was created earlier, or at the end.
pub open spec fn insert_at(sessions: Seq<SessionView>, order: Seq<int>, x: int) -> int
    decreases order.len(),
{
    if order.len() == 0 || lex_less(sessions[order[0]].created_at, sessions[x].created_at) {
        0
    } else {
        1 + insert_at(sessions, order.drop_first(), x)
    }
}

/// The first `n` sessions in the order in which they are listed.
pub open spec fn order_of(sessions: Seq<SessionView>, n: int) -> Seq<int>
    decreases n,
{
    if n <= 0 {
        Seq::empty()
    } else {
        let before = order_of(sessions, n - 1);
        before.insert(insert_at(sessions, before, n - 1), n - 1)
    }
}

/// The order in which `sessions` are listed.
pub open spec fn listing_order_of(sessions: Seq<SessionView>) -> Seq<int> {
    order_of(sessions, sessions.len() as int)
}

/// The place of a session lies in the order, behind the sessions that were
/// not created before it and at the first that was.
pub proof fn lemma_insert_at(sessions: Seq<SessionView>, order: Seq<int>, x: int)
    ensures
        0 <= insert_at(sessions, order, x) <= order.len(),
        forall|j: int|
            0 <= j < insert_at(sessions, order, x) ==> !lex_less(
                sessions[#[trigger] order[j]].created_at,
                sessions[x].created_at,
            ),
        insert_at(sessions, order, x) < order.len() ==> lex_less(
            sessions[order[insert_at(sessions, order, x)]].created_at,
            sessions[x].created_at,
        ),
    decreases order.len(),
{
    if order.len() == 0 || lex_less(sessions[order[0]].created_at, sessions[x].created_at) {
    } else {
        let rest = order.drop_first();
        lemma_insert_at(sessions, rest, x);
        let p = insert_at(sessions, rest, x);
        assert forall|j: int| 0 <= j < p + 1 implies !lex_less(
            sessions[#[trigger] order[j]].created_at,
            sessions[x].created_at,
        ) by {
            if j > 0 {
                assert(order[j] == rest[j - 1]);
            }
        }
        if p < rest.len() {
            assert(order[p + 1] == rest[p]);
        }
    }
}

/// The first `n` sessions are listed each once, the one created later
/// before the one created earlier, and of two created at the same instant
/// the one registered first.
pub proof fn lemma_order_of(sessions: Seq<SessionView>, n: int)
    requires
        0 <= n <= sessions.len(),
    ensures
        order_of(sessions, n).len() == n,
        forall|k: int| 0 <= k < n ==> 0 <= #[trigger] order_of(sessions, n)[k] < n,
        forall|j: int, k: int|
            0 <= j < k < n ==> listed_before(
                sessions,
                #[trigger] order_of(sessions, n)[j],
                #[trigger] order_of(sessions, n)[k],
            ),
    decreases n,
{
    if n > 0 {
        let x = n - 1;
        let before = order_of(sessions, x);
        lemma_order_of(sessions, x);
        lemma_insert_at(sessions, before, x);
        let p = insert_at(sessions, before, x);
        let after = order_of(sessions, n);
        assert(after == before.insert(p, x));
        let created = sessions[x].created_at;
        assert forall|k: int| 0 <= k < n implies 0 <= #[trigger] after[k] < n by {
            if k < p {
                assert(after[k] == before[k]);
            } else if k > p {
                assert(after[k] == before[k - 1]);
            }
        }
        assert forall|j: int, k: int| 0 <= j < k < n implies listed_before(
            sessions,
            #[trigger] after[j],
            #[trigger] after[k],
        ) by {
            if k < p {
                assert(after[j] == before[j] && after[k] == before[k]);
            } else if k == p {
                assert(after[j] == before[j]);
                lemma_lex_total(sessions[before[j]].created_at, created);
            } else if j < p {
                assert(after[j] == before[j] && after[k] == before[k - 1]);
            } else if j == p {
                assert(after[k] == before[k - 1]);
                let first = sessions[before[p]].created_at;
                let other = sessions[before[k - 1]].created_at;
                assert(lex_less(first, created));
                if k - 1 > p {
                    assert(listed_before(sessions, before[p], before[k - 1]));
                    if lex_less(other, first) {
                        lemma_lex_transitive(other, first, created);
                    }
                }
            } else {
                assert(after[j] == before[j - 1] && after[k] == before[k - 1]);
            }
        }
    }
}

/// Sessions are listed each once, the one created later before the one
/// created earlier, and of two created at the same instant the one
/// registered first.
pub proof fn lemma_listing_order(sessions: Seq<SessionView>)
    ensures
        is_listing_order(sessions, listing_order_of(sessions)),
{
    lemma_order_of(sessions, sessions.len() as int);
}

/// The indices of a list as integers.
pub open spec fn indices(order: Seq<usize>) -> Seq<int> {
    Seq::new(order.len(), |k: int| order[k] as int)
}

/// The models of a list of diff summaries by session.
pub open spec fn diff_pairs(diffs: Seq<(String, DiffStats)>) -> Seq<(Seq<char>, DiffStats)> {
    Seq::new(diffs.len(), |i: int| (diffs[i].0@, diffs[i].1))
}

/// The first diff summary that `diffs` holds for the session `id`.
pub open spec fn diff_for(diffs: Seq<(Seq<char>, DiffStats)>, id: Seq<char>) -> Option<DiffStats>
    decreases diffs.len(),
{
    if diffs.len() == 0 {
        None
    } else {
        match diff_for(diffs.drop_last(), id) {
            Some(stats) => Some(stats),
            None => if diffs.last().0 == id {
                Some(diffs.last().1)
            } else {
                None
            },
        }
    }
}

/// The snapshots of `sessions` in the order `order`, each with the diff
/// summary that `diffs` holds for it.
pub open spec fn listing(
    sessions: Seq<SessionView>,
    order: Seq<int>,
    diffs: Seq<(Seq<char>, DiffStats)>,
) -> Seq<SessionInfoView> {
    Seq::new(
        order.len(),
        |k: int| sessions[order[k]].info(diff_for(diffs, sessions[order[k]].id)),
    )
}

/// A diff summary found in a part of a list is found in the whole list.
pub proof fn lemma_diff_for_extends(
    part: Seq<(Seq<char>, DiffStats)>,
    diffs: Seq<(Seq<char>, DiffStats)>,
    id: Seq<char>,
)
    requires
        part.len() <= diffs.len(),
        part == diffs.take(part.len() as int),
        diff_for(part, id) is Some,
    ensures
        diff_for(diffs, id) == diff_for(part, id),
    decreases diffs.len() - part.len(),
{
    if part.len() < diffs.len() {
        let next = diffs.take(part.len() as int + 1);
        assert(next.drop_last() =~= part);
        lemma_diff_for_extends(next, diffs, id);
    } else {
        assert(part =~= diffs);
    }
}

/// Finds the first diff summary for the session `id`.
fn find_diff(diffs: &Vec<(String, DiffStats)>, id: &String) -> (found: Option<DiffStats>)
    ensures
        found == diff_for(diff_pairs(diffs@), id@),
{
    let n = diffs.len();
    let mut i: usize = 0;
    let ghost pairs = diff_pairs(diffs@);
    assert(pairs.take(0) =~= Seq::empty());
    while i < n
        invariant
            n == diffs@.len(),
            i <= n,
            pairs == diff_pairs(diffs@),
            diff_for(pairs.take(i as int), id@) is None,
        decreases n - i,
    {
        let ghost next = pairs.take(i + 1);
        proof {
            assert(next.drop_last() =~= pairs.take(i as int));
            assert(next.last() == (diffs@[i as int].0@, diffs@[i as int].1));
        }
        if diffs[i].0 == *id {
            proof {
                lemma_diff_for_extends(next, pairs, id@);
            }
            return Some(diffs[i].1);
        }
        i += 1;
    }
    assert(pairs.take(n as int) =~= pairs);
    None
}

/// The cap holds. Starting from a manager without live sessions, once as
/// many sessions were created as the cap allows, the creation of one more is
/// refused with `AtCapacity`, whatever that session is; and a creation that
/// is refused asks for no action, so that no workspace is made for it.
pub proof fn lemma_capacity(start: ManagerView, created: Seq<SessionView>, extra: SessionView)
    requires
        start.live() == 0,
        created.len() == start.max_concurrent_sessions,
        start.create_all(created) is Some,
    ensures
        start.create_all(created)->0.live() == start.max_concurrent_sessions,
        start.create_all(created)->0.create(extra) == Err::<ManagerView, ErrorView>(
            ErrorView::AtCapacity,
        ),
{
    lemma_create_all_counts(start, created);
}

/// Creating sessions one after the other adds one live session each and
/// leaves the cap as it is.
pub proof fn lemma_create_all_counts(start: ManagerView, created: Seq<SessionView>)
    requires
        start.create_all(created) is Some,
    ensures
        start.create_all(created)->0.live() == start.live() + created.len(),
        start.create_all(created)->0.max_concurrent_sessions == start.max_concurrent_sessions,
    decreases created.len(),
{
    if created.len() > 0 {
        lemma_create_all_counts(start, created.drop_last());
    }
}

/// No two registered sessions share a workspace, a branch or an identifier.
/// Every operation of the manager keeps its invariant, so this holds of
/// every manager that can be reached.
pub proof fn lemma_unique_workspaces(manager: ManagerView, i: int, j: int)
    requires
        manager.wf(),
        0 <= i < manager.sessions.len(),
        0 <= j < manager.sessions.len(),
        i != j,
    ensures
        manager.sessions[i].worktree_path != manager.sessions[j].worktree_path,
        manager.sessions[i].branch_name != manager.sessions[j].branch_name,
        manager.sessions[i].id != manager.sessions[j].id,
{
    if i < j {
        assert(!clash(manager.sessions[i], manager.sessions[j]));
    } else {
        assert(!clash(manager.sessions[j], manager.sessions[i]));
    }
}

/// A creation that is granted keeps the invariant of the manager: the new
/// session shares nothing with those that are live.
pub proof fn lemma_create_keeps_wf(manager: ManagerView, session: SessionView)
    requires
        manager.wf(),
        entry_wf(session),
        session.status == SessionStatus::Initializing,
        !session.has_process,
        manager.create(session) is Ok,
    ensures
        manager.create(session)->Ok_0.wf(),
{
    let after = manager.reserve(session);
    assert forall|a: int, b: int| 0 <= a < b < after.pending.len() implies !clash(
        #[trigger] after.pending[a],
        #[trigger] after.pending[b],
    ) by {
        if b == manager.pending.len() {
            assert(!clash(manager.pending[a], session));
        }
    }
    assert forall|a: int, b: int|
        0 <= a < after.sessions.len() && 0 <= b < after.pending.len() implies !clash(
        #[trigger] after.sessions[a],
        #[trigger] after.pending[b],
    ) by {
        if b == manager.pending.len() {
            assert(!clash(manager.sessions[a], session));
        }
    }
}

/// Registry of the live sessions and façade of every operation on them.
#[derive(Debug)]
pub struct SessionManager {
    sessions: Vec<Session>,
    pending: Vec<Session>,
    max_concurrent_sessions: usize,
    assistant_program: String,
    auto_yes_manager: AutoYesManager,
}

impl View for SessionManager {
    type V = ManagerView;

    closed spec fn view(&self) -> ManagerView {
        ManagerView {
            sessions: session_views(self.sessions@),
            pending: session_views(self.pending@),
            max_concurrent_sessions: self.max_concurrent_sessions as nat,
            assistant_program: self.assistant_program@,
            patterns: pattern_views(self.auto_yes_manager.patterns@),
            poll_interval_secs: self.auto_yes_manager.poll_interval_secs as nat,
        }
    }
}

/// Finds the session with the identifier `id`.
fn find(list: &Vec<Session>, id: &String) -> (found: Option<usize>)
    ensures
        match position(session_views(list@), id@) {
            Some(i) => found matches Some(k) && k == i && 0 <= i < list@.len(),
            None => found is None,
        },
{
    let n = list.len();
    let mut i: usize = 0;
    let ghost views = session_views(list@);
    assert(views.take(0) =~= Seq::empty());
    while i < n
        invariant
            n == list@.len(),
            i <= n,
            views == session_views(list@),
            position(views.take(i as int), id@) is None,
        decreases n - i,
    {
        let ghost next = views.take(i + 1);
        proof {
            assert(next.drop_last() =~= views.take(i as int));
            assert(next.last() == list@[i as int]@);
        }
        if list[i].id == *id {
            proof {
                lemma_position_extends(next, views, id@);
            }
            return Some(i);
        }
        i += 1;
    }
    assert(views.take(n as int) =~= views);
    None
}

/// Whether some session of `list` clashes with `session`.
fn clashes_with(list: &Vec<Session>, session: &Session) -> (found: bool)
    ensures
        found == clashes_in(session_views(list@), session@),
{
    let n = list.len();
    let mut i: usize = 0;
    let ghost views = session_views(list@);
    while i < n
        invariant
            n == list@.len(),
            i <= n,
            views == session_views(list@),
            forall|k: int| 0 <= k < i ==> !clash(#[trigger] views[k], session@),
        decreases n - i,
    {
        let other = &list[i];
        assert(views[i as int] == other@);
        if other.id == session.id || other.worktree_path == session.worktree_path
            || other.branch_name == session.branch_name {
            return true;
        }
        i += 1;
    }
    false
}

/// The workspace of a session.
fn worktree_for(session: &Session) -> (worktree: GitWorktree)
    ensures
        worktree@ == worktree_of(session@),
{
    GitWorktree {
        repo_path: session.project_path.clone(),
        worktree_path: session.worktree_path.clone(),
        branch_name: session.branch_name.clone(),
    }
}

/// The row stored for a new session.
fn record_for(session: &Session) -> (record: SessionRecord)
    ensures
        record@ == record_of(session@),
{
    SessionRecord {
        id: session.id.clone(),
        project_id: session.project_id.clone(),
        worktree_path: session.worktree_path.clone(),
        branch_name: session.branch_name.clone(),
        status: "running".to_owned(),
        created_at: session.created_at.clone(),
        updated_at: session.created_at.clone(),
        auto_yes: session.config.auto_yes,
        output_log: String::new(),
    }
}

/// The kill of the child of a session, where it has one.
fn kill_for(id: &String, has_process: bool) -> (actions: Vec<Action>)
    ensures
        action_views(actions@) == if has_process {
            seq![ActionView::Kill { session_id: id@ }]
        } else {
            Seq::empty()
        },
{
    let mut actions: Vec<Action> = Vec::new();
    if has_process {
        actions.push(Action::Kill { session_id: id.clone() });
    }
    assert(action_views(actions@) =~= if has_process {
        seq![ActionView::Kill { session_id: id@ }]
    } else {
        Seq::empty()
    });
    actions
}

/// Appends the storing and the announcement of a new status.
fn push_status(actions: &mut Vec<Action>, id: &String, status: SessionStatus)
    ensures
        action_views(final(actions)@) == action_views(old(actions)@) + status_actions(id@, status),
{
    let ghost before = action_views(actions@);
    actions.push(Action::UpdateStatus { session_id: id.clone(), status });
    actions.push(Action::Emit(SessionEvent::StatusChanged { session_id: id.clone(), status }));
    assert(action_views(actions@) =~= before + status_actions(id@, status)) by {
        assert forall|k: int| 0 <= k < before.len() implies action_views(actions@)[k]
            == before[k] by {
            assert(actions@[k] == old(actions)@[k]);
            assert(before[k] == old(actions)@[k]@);
        }
    }
}

/// Appends one action.
fn push_action(actions: &mut Vec<Action>, action: Action)
    ensures
        action_views(final(actions)@) == action_views(old(actions)@).push(action@),
{
    let ghost before = action_views(actions@);
    actions.push(action);
    assert(action_views(actions@) =~= before.push(action@)) by {
        assert forall|k: int| 0 <= k < before.len() implies action_views(actions@)[k]
            == before[k] by {
            assert(actions@[k] == old(actions)@[k]);
            assert(before[k] == old(actions)@[k]@);
        }
    }
}

/// The actions that publish `events`: each event is announced in its turn,
/// and a change of status is stored before it is announced.
fn publish(events: &Vec<SessionEvent>) -> (actions: Vec<Action>)
    ensures
        action_views(actions@) == publish_actions(event_views(events@)),
{
    let n = events.len();
    let ghost all = event_views(events@);
    let mut actions: Vec<Action> = Vec::new();
    let mut i: usize = 0;
    assert(all.take(0) =~= Seq::empty());
    assert(action_views(actions@) =~= Seq::empty());
    while i < n
        invariant
            n == events@.len(),
            i <= n,
            all == event_views(events@),
            action_views(actions@) == publish_actions(all.take(i as int)),
        decreases n - i,
    {
        let ghost next = all.take(i + 1);
        proof {
            assert(next.drop_last() =~= all.take(i as int));
            assert(next.last() == events@[i as int]@);
        }
        match &events[i] {
            SessionEvent::StatusChanged { session_id, status } => {
                push_status(&mut actions, session_id, *status);
            },
            event => {
                push_action(&mut actions, Action::Emit(event.clone()));
            },
        }
        i += 1;
    }
    assert(all.take(n as int) =~= all);
    actions
}

impl SessionManager {
    /// The invariant of the manager holds.
    pub open spec fn wf(&self) -> bool {
        self@.wf()
    }

    /// A manager without sessions that admits up to
    /// `max_concurrent_sessions` of them and launches `assistant_program`
    /// as their child. Its responder answers the default prompts.
    pub fn new(assistant_program: String, max_concurrent_sessions: usize) -> (manager:
        SessionManager)
        ensures
            manager@ == (ManagerView {
                sessions: Seq::empty(),
                pending: Seq::empty(),
                max_concurrent_sessions: max_concurrent_sessions as nat,
                assistant_program: assistant_program@,
                patterns: default_patterns(),
                poll_interval_secs: 2,
            }),
            manager.wf(),
    {
        let manager = SessionManager {
            sessions: Vec::new(),
            pending: Vec::new(),
            max_concurrent_sessions,
            assistant_program,
            auto_yes_manager: AutoYesManager::new(),
        };
        assert(manager@.sessions =~= Seq::empty());
        assert(manager@.pending =~= Seq::empty());
        manager
    }

    /// The responder of this manager.
    pub fn auto_yes_manager(&self) -> (responder: &AutoYesManager)
        ensures
            pattern_views(responder.patterns@) == self@.patterns,
            responder.poll_interval_secs == self@.poll_interval_secs,
    {
        &self.auto_yes_manager
    }

    /// Number of registered sessions.
    pub fn session_count(&self) -> (count: usize)
        ensures
            count == self@.sessions.len(),
    {
        self.sessions.len()
    }

    /// The cap on live sessions.
    pub fn max_concurrent_sessions(&self) -> (cap: usize)
        ensures
            cap == self@.max_concurrent_sessions,
    {
        self.max_concurrent_sessions
    }

    /// Reserves a place for a new session under the identifier `id`, created
    /// at the instant `now`, and returns what creating it takes. Fails, and
    /// changes nothing, where the cap is reached or where a live session
    /// already has the identifier, the workspace or the branch that the new
    /// one would get.
    pub fn create_session_with(
        &mut self,
        id: String,
        now: String,
        project_id: String,
        project_path: String,
        config: SessionConfig,
    ) -> (result: Result<Vec<Action>, SessionError>)
        requires
            old(self).wf(),
            id@.len() >= 8,
        ensures
            final(self).wf(),
            ({
                let session = reserved_session(
                    id@,
                    now@,
                    project_id@,
                    project_path@,
                    config@,
                );
                match old(self)@.create(session) {
                    Ok(reserved) => {
                        &&& result matches Ok(actions) && action_views(actions@)
                            == create_actions(session, old(self)@.assistant_program)
                        &&& final(self)@ == reserved
                    },
                    Err(error) => {
                        &&& result matches Err(e) && e@ == error
                        &&& final(self)@ == old(self)@
                    },
                }
            }),
    {
        if self.sessions.len() + self.pending.len() >= self.max_concurrent_sessions {
            return Err(SessionError::AtCapacity);
        }
        let worktree = match GitWorktree::new(
            project_path.clone(),
            id.as_str(),
            config.branch_prefix.as_str(),
        ) {
            Ok(worktree) => worktree,
            Err(e) => {
                return Err(e);
            },
        };
        let session = Session::assemble(
            id,
            now,
            project_id,
            project_path,
            worktree.worktree_path.clone(),
            worktree.branch_name.clone(),
            config,
        );
        if clashes_with(&self.sessions, &session) || clashes_with(&self.pending, &session) {
            return Err(
                SessionError::VcsCreateFailed("Workspace or branch already in use".to_owned()),
            );
        }
        let mut actions: Vec<Action> = Vec::new();
        let launch = ProcessManager::spawn_claude_session(&session, self.assistant_program.as_str());
        let record = record_for(&session);
        let session_id = session.id.clone();
        actions.push(Action::CreateWorkspace(worktree));
        actions.push(Action::StoreSession(record));
        actions.push(Action::Spawn { session_id, launch });
        proof {
            assert(action_views(actions@) =~= create_actions(
                session@,
                old(self)@.assistant_program,
            ));
            assert(session_views(self.pending@.push(session)) =~= session_views(
                self.pending@,
            ).push(session@));
        }
        self.pending.push(session);
        Ok(actions)
    }

    /// Reserves a place for a new session under a fresh identifier and
    /// returns the identifier with what creating the session takes: its
    /// workspace, its row, its child. The creation is then completed with
    /// [`SessionManager::complete_create`] or given up with
    /// [`SessionManager::abort_create`]. Fails with `AtCapacity`, and
    /// returns no action, where the cap is reached; fails otherwise only
    /// where the fresh identifier gives a workspace or a branch that a live
    /// session already has.
    pub fn create_session(&mut self, project_id: String, project_path: String, config: SessionConfig)
        -> (result: Result<(String, Vec<Action>), SessionError>)
        requires
            old(self).wf(),
        ensures
            final(self).wf(),
            old(self)@.is_full() ==> (result matches Err(e) && e@ == ErrorView::AtCapacity),
            match result {
                Ok((id, actions)) => {
                    let session = final(self)@.pending.last();
                    &&& id@.len() == 36
                    &&& session == reserved_session(
                        id@,
                        session.created_at,
                        project_id@,
                        project_path@,
                        config@,
                    )
                    &&& old(self)@.create(session) == Ok::<ManagerView, ErrorView>(final(self)@)
                    &&& action_views(actions@) == create_actions(
                        session,
                        old(self)@.assistant_program,
                    )
                },
                Err(e) => {
                    &&& final(self)@ == old(self)@
                    &&& e@ == ErrorView::AtCapacity || e@ == ErrorView::VcsCreateFailed(
                        "Workspace or branch already in use"@,
                    )
                    &&& e@ == ErrorView::AtCapacity <==> old(self)@.is_full()
                    &&& e@ != ErrorView::AtCapacity ==> exists|id: Seq<char>, now: Seq<char>|
                        id.len() == 36 && old(self)@.clashes(
                            #[trigger] reserved_session(
                                id,
                                now,
                                project_id@,
                                project_path@,
                                config@,
                            ),
                        )
                },
            },
    {
        if self.sessions.len() + self.pending.len() >= self.max_concurrent_sessions {
            return Err(SessionError::AtCapacity);
        }
        let id = fresh_uuid();
        let now = now_rfc3339();
        let ghost session = reserved_session(id@, now@, project_id@, project_path@, config@);
        match self.create_session_with(id.clone(), now, project_id, project_path, config) {
            Ok(actions) => {
                assert(final(self)@.pending.last() == session) by {
                    assert(self@.pending == old(self)@.pending.push(session));
                }
                Ok((id, actions))
            },
            Err(e) => {
                assert(old(self)@.clashes(session));
                Err(e)
            },
        }
    }

    /// Records that the session `id` was created: its child runs. The
    /// session is registered and running from now on. Returns the events to
    /// publish.
    pub fn complete_create(&mut self, id: &str) -> (result: Result<Vec<Action>, SessionError>)
        requires
            old(self).wf(),
        ensures
            final(self).wf(),
            match position(old(self)@.pending, id@) {
                Some(i) => {
                    &&& result matches Ok(actions) && action_views(actions@) == created_actions(
                        id@,
                    )
                    &&& final(self)@ == old(self)@.register(
                        i,
                        final(self)@.sessions.last().updated_at,
                    )
                },
                None => {
                    &&& result matches Err(e) && e@ == ErrorView::NotFound
                    &&& final(self)@ == old(self)@
                },
            },
    {
        let key = id.to_owned();
        let i = match find(&self.pending, &key) {
            Some(i) => i,
            None => {
                return Err(SessionError::NotFound);
            },
        };
        let ghost before = self@;
        proof {
            lemma_position(before.pending, id@);
        }
        let mut session = self.pending.remove(i);
        assert(session@ == before.pending[i as int]);
        session.has_process = true;
        session.set_status(SessionStatus::Running);
        let mut actions: Vec<Action> = Vec::new();
        push_action(&mut actions, Action::Emit(SessionEvent::SessionCreated { session_id: key.clone() }));
        push_action(
            &mut actions,
            Action::Emit(
                SessionEvent::StatusChanged { session_id: key, status: SessionStatus::Running },
            ),
        );
        proof {
            assert(action_views(actions@) =~= created_actions(id@));
            assert(session_views(self.pending@) =~= before.pending.remove(i as int));
            assert(session_views(self.sessions@.push(session)) =~= before.sessions.push(session@));
        }
        self.sessions.push(session);
        proof {
            let after = self@;
            assert(after.sessions.last() == session@);
            assert forall|a: int, b: int| 0 <= a < b < after.pending.len() implies !clash(
                #[trigger] after.pending[a],
                #[trigger] after.pending[b],
            ) by {
                let a0 = if a < i { a } else { a + 1 };
                let b0 = if b < i { b } else { b + 1 };
                assert(after.pending[a] == before.pending[a0]);
                assert(after.pending[b] == before.pending[b0]);
            }
            assert forall|a: int| 0 <= a < after.pending.len() implies {
                &&& entry_wf(#[trigger] after.pending[a])
                &&& after.pending[a].status == SessionStatus::Initializing
                &&& !after.pending[a].has_process
            } by {
                let a0 = if a < i { a } else { a + 1 };
                assert(after.pending[a] == before.pending[a0]);
            }
            assert forall|a: int, b: int|
                0 <= a < after.sessions.len() && 0 <= b < after.pending.len() implies !clash(
                #[trigger] after.sessions[a],
                #[trigger] after.pending[b],
            ) by {
                let b0 = if b < i { b } else { b + 1 };
                assert(after.pending[b] == before.pending[b0]);
                if a < before.sessions.len() {
                    assert(after.sessions[a] == before.sessions[a]);
                } else {
                    assert(clash(after.sessions[a], after.pending[b]) == clash(
                        before.pending[i as int],
                        before.pending[b0],
                    ));
                }
            }
            assert forall|a: int, b: int| 0 <= a < b < after.sessions.len() implies !clash(
                #[trigger] after.sessions[a],
                #[trigger] after.sessions[b],
            ) by {
                assert(after.sessions[a] == before.sessions[a]);
                if b < before.sessions.len() {
                    assert(after.sessions[b] == before.sessions[b]);
                } else {
                    assert(clash(after.sessions[a], after.sessions[b]) == clash(
                        before.sessions[a],
                        before.pending[i as int],
                    ));
                }
            }
            assert forall|a: int| 0 <= a < after.sessions.len() implies entry_wf(
                #[trigger] after.sessions[a],
            ) by {
                if a < before.sessions.len() {
                    assert(after.sessions[a] == before.sessions[a]);
                } else {
                    assert(entry_wf(before.pending[i as int]));
                }
            }
        }
        Ok(actions)
    }

    /// Gives up the creation of the session `id` after the step `failed`
    /// did not succeed: the reservation is dropped, and the workspace is to
    /// be torn down unless creating it was what failed. Does nothing where
    /// no such creation is under way.
    pub fn abort_create(&mut self, id: &str, failed: CreateStage) -> (actions: Vec<Action>)
        requires
            old(self).wf(),
        ensures
            final(self).wf(),
            match position(old(self)@.pending, id@) {
                Some(i) => {
                    &&& action_views(actions@) == abort_actions(old(self)@.pending[i], failed)
                    &&& final(self)@ == old(self)@.without_pending(i)
                },
                None => {
                    &&& actions@.len() == 0
                    &&& final(self)@ == old(self)@
                },
            },
    {
        let key = id.to_owned();
        let mut actions: Vec<Action> = Vec::new();
        let i = match find(&self.pending, &key) {
            Some(i) => i,
            None => {
                return actions;
            },
        };
        let ghost before = self@;
        let session = self.pending.remove(i);
        assert(session@ == before.pending[i as int]);
        match failed {
            CreateStage::Workspace => {},
            _ => {
                actions.push(Action::RemoveWorkspace(worktree_for(&session)));
            },
        }
        proof {
            assert(action_views(actions@) =~= abort_actions(session@, failed));
            assert(session_views(self.pending@) =~= before.pending.remove(i as int));
            let after = self@;
            assert forall|a: int, b: int| 0 <= a < b < after.pending.len() implies !clash(
                #[trigger] after.pending[a],
                #[trigger] after.pending[b],
            ) by {
                let a0 = if a < i { a } else { a + 1 };
                let b0 = if b < i { b } else { b + 1 };
                assert(after.pending[a] == before.pending[a0]);
                assert(after.pending[b] == before.pending[b0]);
            }
            assert forall|a: int| 0 <= a < after.pending.len() implies {
                &&& entry_wf(#[trigger] after.pending[a])
                &&& after.pending[a].status == SessionStatus::Initializing
                &&& !after.pending[a].has_process
            } by {
                let a0 = if a < i { a } else { a + 1 };
                assert(after.pending[a] == before.pending[a0]);
            }
            assert forall|a: int, b: int|
                0 <= a < after.sessions.len() && 0 <= b < after.pending.len() implies !clash(
                #[trigger] after.sessions[a],
                #[trigger] after.pending[b],
            ) by {
                let b0 = if b < i { b } else { b + 1 };
                assert(after.pending[b] == before.pending[b0]);
            }
        }
        actions
    }

    /// Removes the session `id` from the registry and returns what ending
    /// it takes: its child is killed, its workspace removed, the terminated
    /// status stored and announced, and the termination announced.
    pub fn terminate_session(&mut self, id: &str) -> (result: Result<Vec<Action>, SessionError>)
        requires
            old(self).wf(),
        ensures
            final(self).wf(),
            match position(old(self)@.sessions, id@) {
                Some(i) => {
                    &&& result matches Ok(actions) && action_views(actions@) == terminate_actions(
                        old(self)@.sessions[i],
                    )
                    &&& final(self)@ == old(self)@.without_session(i)
                },
                None => {
                    &&& result matches Err(e) && e@ == ErrorView::NotFound
                    &&& final(self)@ == old(self)@
                },
            },
    {
        let key = id.to_owned();
        let i = match find(&self.sessions, &key) {
            Some(i) => i,
            None => {
                return Err(SessionError::NotFound);
            },
        };
        let ghost before = self@;
        proof {
            lemma_position(before.sessions, id@);
        }
        let mut session = self.sessions.remove(i);
        assert(session@ == before.sessions[i as int]);
        let worktree = worktree_for(&session);
        let kill = session.terminate();
        let mut actions = kill_for(&key, kill);
        push_action(&mut actions, Action::RemoveWorkspace(worktree));
        push_status(&mut actions, &key, SessionStatus::Terminated);
        push_action(&mut actions, Action::Emit(SessionEvent::SessionTerminated { session_id: key }));
        proof {
            assert(action_views(actions@) =~= terminate_actions(before.sessions[i as int]));
            assert(session_views(self.sessions@) =~= before.sessions.remove(i as int));
            let after = self@;
            assert forall|a: int, b: int| 0 <= a < b < after.sessions.len() implies !clash(
                #[trigger] after.sessions[a],
                #[trigger] after.sessions[b],
            ) by {
                let a0 = if a < i { a } else { a + 1 };
                let b0 = if b < i { b } else { b + 1 };
                assert(after.sessions[a] == before.sessions[a0]);
                assert(after.sessions[b] == before.sessions[b0]);
            }
            assert forall|a: int| 0 <= a < after.sessions.len() implies entry_wf(
                #[trigger] after.sessions[a],
            ) by {
                let a0 = if a < i { a } else { a + 1 };
                assert(after.sessions[a] == before.sessions[a0]);
            }
            assert forall|a: int, b: int|
                0 <= a < after.sessions.len() && 0 <= b < after.pending.len() implies !clash(
                #[trigger] after.sessions[a],
                #[trigger] after.pending[b],
            ) by {
                let a0 = if a < i { a } else { a + 1 };
                assert(after.sessions[a] == before.sessions[a0]);
            }
        }
        Ok(actions)
    }

    /// Starts pausing the session `id`: returns the commit of its pending
    /// work. Once that has succeeded the pause is completed with
    /// [`SessionManager::complete_pause`].
    pub fn pause_session(&self, id: &str) -> (result: Result<Vec<Action>, SessionError>)
        ensures
            match position(self@.sessions, id@) {
                Some(i) => if self@.sessions[i].status.is_terminal() {
                    result matches Err(e) && e@ == ErrorView::Terminal
                } else {
                    result matches Ok(actions) && action_views(actions@) == pause_actions(
                        self@.sessions[i],
                    )
                },
                None => result matches Err(e) && e@ == ErrorView::NotFound,
            },
    {
        let key = id.to_owned();
        let i = match find(&self.sessions, &key) {
            Some(i) => i,
            None => {
                return Err(SessionError::NotFound);
            },
        };
        let session = &self.sessions[i];
        assert(session@ == self@.sessions[i as int]);
        if session.status.terminal() {
            return Err(SessionError::Terminal);
        }
        let mut actions: Vec<Action> = Vec::new();
        actions.push(
            Action::CommitWorkspace {
                worktree: worktree_for(session),
                message: "WIP: Pausing session".to_owned(),
            },
        );
        assert(action_views(actions@) =~= pause_actions(session@));
        Ok(actions)
    }

    /// Completes the pause of the session `id` after its pending work was
    /// committed: the session is paused and has no child, which is to be
    /// killed where there was one, and the new status is to be stored and
    /// announced.
    pub fn complete_pause(&mut self, id: &str) -> (result: Result<Vec<Action>, SessionError>)
        requires
            old(self).wf(),
        ensures
            final(self).wf(),
            match position(old(self)@.sessions, id@) {
                Some(i) => {
                    let session = old(self)@.sessions[i];
                    if session.status.is_terminal() {
                        &&& result matches Err(e) && e@ == ErrorView::Terminal
                        &&& final(self)@ == old(self)@
                    } else {
                        &&& result matches Ok(actions) && action_views(actions@) == paused_actions(
                            session,
                        )
                        &&& final(self)@ == old(self)@.with_session(
                            i,
                            SessionView {
                                has_process: false,
                                status: SessionStatus::Paused,
                                updated_at: final(self)@.sessions[i].updated_at,
                                ..session
                            },
                        )
                    }
                },
                None => {
                    &&& result matches Err(e) && e@ == ErrorView::NotFound
                    &&& final(self)@ == old(self)@
                },
            },
    {
        let key = id.to_owned();
        let i = match find(&self.sessions, &key) {
            Some(i) => i,
            None => {
                return Err(SessionError::NotFound);
            },
        };
        let ghost before = self@;
        proof {
            lemma_position(before.sessions, id@);
        }
        assert(self.sessions@[i as int]@ == before.sessions[i as int]);
        if self.sessions[i].status.terminal() {
            return Err(SessionError::Terminal);
        }
        let session = &mut self.sessions[i];
        let kill = session.has_process;
        session.has_process = false;
        session.set_status(SessionStatus::Paused);
        let mut actions = kill_for(&key, kill);
        push_status(&mut actions, &key, SessionStatus::Paused);
        proof {
            let after = self@;
            assert(action_views(actions@) =~= paused_actions(before.sessions[i as int]));
            assert(after.sessions =~= before.sessions.update(i as int, after.sessions[i as int]));
            Self::lemma_update_keeps_wf(before, i as int, after.sessions[i as int]);
        }
        Ok(actions)
    }

    /// Starts resuming the session `id`, which must be paused: returns the
    /// start of its child. Once the child runs the resumption is completed
    /// with [`SessionManager::complete_resume`]. A session that is not
    /// paused is refused and nothing is started.
    pub fn resume_session(&self, id: &str) -> (result: Result<Vec<Action>, SessionError>)
        ensures
            match position(self@.sessions, id@) {
                Some(i) => if self@.sessions[i].status != SessionStatus::Paused {
                    result matches Err(e) && e@ == ErrorView::NotPaused
                } else {
                    result matches Ok(actions) && action_views(actions@) == resume_actions(
                        self@.sessions[i],
                        self@.assistant_program,
                    )
                },
                None => result matches Err(e) && e@ == ErrorView::NotFound,
            },
    {
        let key = id.to_owned();
        let i = match find(&self.sessions, &key) {
            Some(i) => i,
            None => {
                return Err(SessionError::NotFound);
            },
        };
        let session = &self.sessions[i];
        assert(session@ == self@.sessions[i as int]);
        match session.status {
            SessionStatus::Paused => {},
            _ => {
                return Err(SessionError::NotPaused);
            },
        }
        let mut actions: Vec<Action> = Vec::new();
        actions.push(
            Action::Spawn {
                session_id: key,
                launch: ProcessManager::spawn_claude_session(
                    session,
                    self.assistant_program.as_str(),
                ),
            },
        );
        proof {
            lemma_position(self@.sessions, id@);
            assert(action_views(actions@) =~= resume_actions(session@, self@.assistant_program));
        }
        Ok(actions)
    }

    /// Completes the resumption of the session `id` after its child was
    /// started: the session runs again, and the new status is to be stored
    /// and announced. A session that is not paused is refused and left as
    /// it is.
    pub fn complete_resume(&mut self, id: &str) -> (result: Result<Vec<Action>, SessionError>)
        requires
            old(self).wf(),
        ensures
            final(self).wf(),
            match position(old(self)@.sessions, id@) {
                Some(i) => {
                    let session = old(self)@.sessions[i];
                    if session.status != SessionStatus::Paused {
                        &&& result matches Err(e) && e@ == ErrorView::NotPaused
                        &&& final(self)@ == old(self)@
                    } else {
                        &&& result matches Ok(actions) && action_views(actions@) == status_actions(
                            id@,
                            SessionStatus::Running,
                        )
                        &&& final(self)@ == old(self)@.with_session(
                            i,
                            SessionView {
                                has_process: true,
                                status: SessionStatus::Running,
                                updated_at: final(self)@.sessions[i].updated_at,
                                ..session
                            },
                        )
                    }
                },
                None => {
                    &&& result matches Err(e) && e@ == ErrorView::NotFound
                    &&& final(self)@ == old(self)@
                },
            },
    {
        let key = id.to_owned();
        let i = match find(&self.sessions, &key) {
            Some(i) => i,
            None => {
                return Err(SessionError::NotFound);
            },
        };
        let ghost before = self@;
        assert(self.sessions@[i as int]@ == before.sessions[i as int]);
        match self.sessions[i].status {
            SessionStatus::Paused => {},
            _ => {
                return Err(SessionError::NotPaused);
            },
        }
        let session = &mut self.sessions[i];
        session.has_process = true;
        session.set_status(SessionStatus::Running);
        let mut actions: Vec<Action> = Vec::new();
        push_status(&mut actions, &key, SessionStatus::Running);
        proof {
            let after = self@;
            assert(action_views(actions@) =~= status_actions(id@, SessionStatus::Running));
            assert(after.sessions =~= before.sessions.update(i as int, after.sessions[i as int]));
            Self::lemma_update_keeps_wf(before, i as int, after.sessions[i as int]);
        }
        Ok(actions)
    }

    /// What sending `input` to the session `id` takes: the text and a line
    /// feed are written to its child. Fails where the session is completed
    /// or has no child.
    pub fn send_input(&self, id: &str, input: &str) -> (result: Result<Vec<Action>, SessionError>)
        ensures
            match position(self@.sessions, id@) {
                Some(i) => {
                    let session = self@.sessions[i];
                    if session.status.is_terminal() {
                        result matches Err(e) && e@ == ErrorView::Terminal
                    } else if !session.has_process {
                        result matches Err(e) && e@ == ErrorView::NotRunning
                    } else {
                        result matches Ok(actions) && action_views(actions@) == input_actions(
                            session,
                            input@,
                        )
                    }
                },
                None => result matches Err(e) && e@ == ErrorView::NotFound,
            },
    {
        let key = id.to_owned();
        let i = match find(&self.sessions, &key) {
            Some(i) => i,
            None => {
                return Err(SessionError::NotFound);
            },
        };
        let session = &self.sessions[i];
        assert(session@ == self@.sessions[i as int]);
        if session.status.terminal() {
            return Err(SessionError::Terminal);
        }
        if !session.has_process {
            return Err(SessionError::NotRunning);
        }
        let mut actions: Vec<Action> = Vec::new();
        actions.push(Action::Write { session_id: key, data: ProcessManager::send_input(input) });
        proof {
            lemma_position(self@.sessions, id@);
            assert(action_views(actions@) =~= input_actions(session@, input@));
        }
        Ok(actions)
    }

    /// The last `lines` lines of output of the session `id`, oldest first.
    pub fn get_session_output(&self, id: &str, lines: usize) -> (result: Result<
        Vec<String>,
        SessionError,
    >)
        ensures
            match position(self@.sessions, id@) {
                Some(i) => result matches Ok(output) && texts(output@) == last_n(
                    self@.sessions[i].output,
                    lines as nat,
                ),
                None => result matches Err(e) && e@ == ErrorView::NotFound,
            },
    {
        let key = id.to_owned();
        let i = match find(&self.sessions, &key) {
            Some(i) => i,
            None => {
                return Err(SessionError::NotFound);
            },
        };
        let session = &self.sessions[i];
        assert(session@ == self@.sessions[i as int]);
        Ok(session.get_output_preview(lines))
    }

    /// The workspace whose diff summary is the one of the session `id`.
    /// Fails where the session is completed.
    pub fn get_session_diff(&self, id: &str) -> (result: Result<GitWorktree, SessionError>)
        ensures
            match position(self@.sessions, id@) {
                Some(i) => if self@.sessions[i].status.is_terminal() {
                    result matches Err(e) && e@ == ErrorView::Terminal
                } else {
                    result matches Ok(worktree) && worktree@ == worktree_of(self@.sessions[i])
                },
                None => result matches Err(e) && e@ == ErrorView::NotFound,
            },
    {
        let key = id.to_owned();
        let i = match find(&self.sessions, &key) {
            Some(i) => i,
            None => {
                return Err(SessionError::NotFound);
            },
        };
        let session = &self.sessions[i];
        assert(session@ == self@.sessions[i as int]);
        if session.status.terminal() {
            return Err(SessionError::Terminal);
        }
        Ok(worktree_for(session))
    }

    /// Changes the configuration of the session `id`. Only the flag for
    /// automatic replies is taken from `config`; every other option stays as
    /// it was when the session was created. The new flag is to be stored.
    pub fn update_session_config(&mut self, id: &str, config: SessionConfig) -> (result: Result<
        Vec<Action>,
        SessionError,
    >)
        requires
            old(self).wf(),
        ensures
            final(self).wf(),
            match position(old(self)@.sessions, id@) {
                Some(i) => {
                    let session = old(self)@.sessions[i];
                    if session.status.is_terminal() {
                        &&& result matches Err(e) && e@ == ErrorView::Terminal
                        &&& final(self)@ == old(self)@
                    } else {
                        &&& result matches Ok(actions) && action_views(actions@) == seq![
                            ActionView::UpdateAutoYes {
                                session_id: id@,
                                auto_yes: config.auto_yes,
                            },
                        ]
                        &&& final(self)@ == old(self)@.with_session(
                            i,
                            SessionView {
                                config: SessionConfigView {
                                    auto_yes: config.auto_yes,
                                    ..session.config
                                },
                                ..session
                            },
                        )
                    }
                },
                None => {
                    &&& result matches Err(e) && e@ == ErrorView::NotFound
                    &&& final(self)@ == old(self)@
                },
            },
    {
        let key = id.to_owned();
        let i = match find(&self.sessions, &key) {
            Some(i) => i,
            None => {
                return Err(SessionError::NotFound);
            },
        };
        let ghost before = self@;
        assert(self.sessions@[i as int]@ == before.sessions[i as int]);
        if self.sessions[i].status.terminal() {
            return Err(SessionError::Terminal);
        }
        let session = &mut self.sessions[i];
        session.config.auto_yes = config.auto_yes;
        let mut actions: Vec<Action> = Vec::new();
        actions.push(Action::UpdateAutoYes { session_id: key, auto_yes: config.auto_yes });
        proof {
            let after = self@;
            assert(action_views(actions@) =~= seq![
                ActionView::UpdateAutoYes { session_id: id@, auto_yes: config.auto_yes },
            ]);
            assert(after.sessions =~= before.sessions.update(i as int, after.sessions[i as int]));
            Self::lemma_update_keeps_wf(before, i as int, after.sessions[i as int]);
        }
        Ok(actions)
    }

    /// Takes one line that the child of the session `id` wrote to standard
    /// output: the line is buffered and the status it announces applied.
    /// Returns what is to be stored and published. A line of a session that
    /// is not registered is dropped.
    pub fn record_stdout(&mut self, id: &str, line: String) -> (actions: Vec<Action>)
        requires
            old(self).wf(),
        ensures
            final(self).wf(),
            match position(old(self)@.sessions, id@) {
                Some(i) => {
                    &&& action_views(actions@) == stdout_actions(id@, line@)
                    &&& final(self)@ == old(self)@.with_session(
                        i,
                        SessionView {
                            updated_at: final(self)@.sessions[i].updated_at,
                            ..after_stdout(old(self)@.sessions[i], line@)
                        },
                    )
                },
                None => {
                    &&& actions@.len() == 0
                    &&& final(self)@ == old(self)@
                },
            },
    {
        let key = id.to_owned();
        let i = match find(&self.sessions, &key) {
            Some(i) => i,
            None => {
                return Vec::new();
            },
        };
        let ghost before = self@;
        proof {
            lemma_position(before.sessions, id@);
        }
        assert(self.sessions@[i as int]@ == before.sessions[i as int]);
        let session = &mut self.sessions[i];
        let events = ProcessManager::handle_stdout_line(session, line);
        let actions = publish(&events);
        proof {
            let after = self@;
            assert(after.sessions =~= before.sessions.update(i as int, after.sessions[i as int]));
            Self::lemma_update_keeps_wf(before, i as int, after.sessions[i as int]);
        }
        actions
    }

    /// Takes one line that the child of the session `id` wrote to standard
    /// error: the line is buffered behind its marker, and a critical line
    /// puts the session into the error status. Returns what is to be stored
    /// and published. A line of a session that is not registered is dropped.
    pub fn record_stderr(&mut self, id: &str, line: String) -> (actions: Vec<Action>)
        requires
            old(self).wf(),
        ensures
            final(self).wf(),
            match position(old(self)@.sessions, id@) {
                Some(i) => {
                    &&& action_views(actions@) == stderr_actions(id@, line@)
                    &&& final(self)@ == old(self)@.with_session(
                        i,
                        SessionView {
                            updated_at: final(self)@.sessions[i].updated_at,
                            ..after_stderr(old(self)@.sessions[i], line@)
                        },
                    )
                },
                None => {
                    &&& actions@.len() == 0
                    &&& final(self)@ == old(self)@
                },
            },
    {
        let key = id.to_owned();
        let i = match find(&self.sessions, &key) {
            Some(i) => i,
            None => {
                return Vec::new();
            },
        };
        let ghost before = self@;
        proof {
            lemma_position(before.sessions, id@);
        }
        assert(self.sessions@[i as int]@ == before.sessions[i as int]);
        let session = &mut self.sessions[i];
        let events = ProcessManager::handle_stderr_line(session, line);
        let actions = publish(&events);
        proof {
            let after = self@;
            assert(after.sessions =~= before.sessions.update(i as int, after.sessions[i as int]));
            Self::lemma_update_keeps_wf(before, i as int, after.sessions[i as int]);
        }
        actions
    }

    /// The identifiers of the registered sessions, in the order in which
    /// they were registered.
    pub fn session_ids(&self) -> (ids: Vec<String>)
        ensures
            ids@.len() == self@.sessions.len(),
            forall|i: int| 0 <= i < ids@.len() ==> (#[trigger] ids@[i])@ == self@.sessions[i].id,
    {
        let n = self.sessions.len();
        let mut ids: Vec<String> = Vec::new();
        let mut i: usize = 0;
        while i < n
            invariant
                n == self.sessions@.len(),
                i <= n,
                ids@.len() == i,
                forall|k: int| 0 <= k < i ==> (#[trigger] ids@[k])@ == self.sessions@[k].id@,
            decreases n - i,
        {
            ids.push(self.sessions[i].id.clone());
            i += 1;
        }
        ids
    }

    /// The indices of the registered sessions in the order in which they
    /// are listed: by creation time, latest first.
    pub fn listing_order(&self) -> (order: Vec<usize>)
        ensures
            indices(order@) == listing_order_of(self@.sessions),
    {
        let n = self.sessions.len();
        let ghost views = self@.sessions;
        let mut order: Vec<usize> = Vec::new();
        let mut i: usize = 0;
        assert(indices(order@) =~= order_of(views, 0));
        while i < n
            invariant
                n == self.sessions@.len(),
                views == session_views(self.sessions@),
                i <= n,
                indices(order@) == order_of(views, i as int),
            decreases n - i,
        {
            let ghost before = indices(order@);
            proof {
                lemma_order_of(views, i as int);
            }
            let len = order.len();
            let mut p: usize = 0;
            let mut found = false;
            assert(before.skip(0) =~= before);
            while p < len && !found
                invariant
                    n == self.sessions@.len(),
                    views == session_views(self.sessions@),
                    i < n,
                    len == i,
                    order@.len() == i,
                    before == indices(order@),
                    forall|k: int| 0 <= k < i ==> 0 <= #[trigger] before[k] < i,
                    p <= len,
                    insert_at(views, before, i as int) == p + insert_at(
                        views,
                        before.skip(p as int),
                        i as int,
                    ),
                    found ==> p < len && insert_at(views, before.skip(p as int), i as int) == 0,
                decreases len - p + if found { 0int } else { 1int },
            {
                let ghost rest = before.skip(p as int);
                assert(rest[0] == before[p as int]);
                assert(rest.drop_first() =~= before.skip(p + 1));
                assert(0 <= before[p as int] < i);
                let at = order[p];
                assert(at == before[p as int]);
                if text_less(
                    self.sessions[at].created_at.as_str(),
                    self.sessions[i].created_at.as_str(),
                ) {
                    found = true;
                } else {
                    p += 1;
                }
            }
            assert(insert_at(views, before, i as int) == p) by {
                if !found {
                    assert(before.skip(p as int).len() == 0);
                }
            }
            order.insert(p, i);
            assert(indices(order@) =~= before.insert(p as int, i as int));
            i += 1;
        }
        order
    }

    /// The snapshots of the registered sessions by creation time, latest
    /// first. Each carries the first diff summary that `diffs` holds for
    /// its session, if any.
    pub fn list_active_sessions(&self, diffs: &Vec<(String, DiffStats)>) -> (infos: Vec<
        SessionInfo,
    >)
        ensures
            info_views(infos@) == listing(
                self@.sessions,
                listing_order_of(self@.sessions),
                diff_pairs(diffs@),
            ),
    {
        let order = self.listing_order();
        let ghost listed = indices(order@);
        let ghost views = self@.sessions;
        proof {
            lemma_listing_order(views);
        }
        let n = order.len();
        let mut infos: Vec<SessionInfo> = Vec::new();
        let mut k: usize = 0;
        while k < n
            invariant
                n == order@.len(),
                k <= n,
                listed == indices(order@),
                views == session_views(self.sessions@),
                is_listing_order(views, listed),
                infos@.len() == k,
                forall|j: int|
                    0 <= j < k ==> (#[trigger] infos@[j])@ == listing(
                        views,
                        listed,
                        diff_pairs(diffs@),
                    )[j],
            decreases n - k,
        {
            assert(0 <= listed[k as int] < views.len());
            let session = &self.sessions[order[k]];
            assert(session@ == views[listed[k as int]]);
            let diff = find_diff(diffs, &session.id);
            infos.push(session.to_info(diff));
            k += 1;
        }
        assert(info_views(infos@) =~= listing(views, listed, diff_pairs(diffs@)));
        infos
    }

    /// Replacing a registered session by one with the same identity that is
    /// itself well formed keeps the invariant.
    proof fn lemma_update_keeps_wf(before: ManagerView, i: int, session: SessionView)
        requires
            before.wf(),
            0 <= i < before.sessions.len(),
            entry_wf(session),
            session.id == before.sessions[i].id,
            session.worktree_path == before.sessions[i].worktree_path,
            session.branch_name == before.sessions[i].branch_name,
        ensures
            before.with_session(i, session).wf(),
    {
        let after = before.with_session(i, session);
        assert forall|a: int, b: int| 0 <= a < b < after.sessions.len() implies !clash(
            #[trigger] after.sessions[a],
            #[trigger] after.sessions[b],
        ) by {
            assert(clash(after.sessions[a], after.sessions[b]) == clash(
                before.sessions[a],
                before.sessions[b],
            ));
        }
        assert forall|a: int, b: int|
            0 <= a < after.sessions.len() && 0 <= b < after.pending.len() implies !clash(
            #[trigger] after.sessions[a],
            #[trigger] after.pending[b],
        ) by {
            assert(clash(after.sessions[a], after.pending[b]) == clash(
                before.sessions[a],
                before.pending[b],
            ));
        }
        assert forall|a: int| 0 <= a < after.sessions.len() implies entry_wf(
            #[trigger] after.sessions[a],
        ) by {
            if a != i {
                assert(after.sessions[a] == before.sessions[a]);
            }
        }
    }
}

} // verus!
