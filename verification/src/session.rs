//! One orchestrated session: its identity, its bounded output buffer, its
//! status and its configuration.

use std::collections::VecDeque;
use vstd::prelude::*;
use crate::events::{DiffStats, SessionInfo, SessionInfoView};
use crate::outside::{fresh_uuid, now_rfc3339};
use crate::text::{join, join_lines, lemma_texts_push, lemma_texts_subrange, opt_text, texts};

verus! {

/// Where a session stands in its life.
#[derive(Debug, Clone, Copy, PartialEq, Eq, Structural)]
pub enum SessionStatus {
    Initializing,
    Running,
    Ready,
    Loading,
    Paused,
    Error,
    Completed,
    Terminated,
}

impl SessionStatus {
    /// Completed and terminated sessions accept no further work.
    pub open spec fn is_terminal(self) -> bool {
        self == SessionStatus::Completed || self == SessionStatus::Terminated
    }

    /// Whether the status is one of the two terminal ones.
    pub fn terminal(&self) -> (b: bool)
        ensures
            b == self.is_terminal(),
    {
        match self {
            SessionStatus::Completed => true,
            SessionStatus::Terminated => true,
            _ => false,
        }
    }
}

/// The options a session is created with.
#[derive(Debug)]
pub struct SessionConfig {
    pub auto_yes: bool,
    pub max_output_buffer: usize,
    pub environment_vars: Vec<(String, String)>,
    pub working_directory: Option<String>,
    pub branch_prefix: String,
    pub claude_args: Vec<String>,
}

/// Mathematical model of a [`SessionConfig`].
pub struct SessionConfigView {
    pub auto_yes: bool,
    pub max_output_buffer: nat,
    pub environment_vars: Seq<(Seq<char>, Seq<char>)>,
    pub working_directory: Option<Seq<char>>,
    pub branch_prefix: Seq<char>,
    pub claude_args: Seq<Seq<char>>,
}

/// The models of a list of key and value pairs, element by element.
pub open spec fn pair_texts(v: Seq<(String, String)>) -> Seq<(Seq<char>, Seq<char>)> {
    Seq::new(v.len(), |i: int| (v[i].0@, v[i].1@))
}

/// Pushing a pair pushes its model.
pub proof fn lemma_pair_texts_push(v: Seq<(String, String)>, p: (String, String))
    ensures
        pair_texts(v.push(p)) == pair_texts(v).push((p.0@, p.1@)),
{
    assert(pair_texts(v.push(p)) =~= pair_texts(v).push((p.0@, p.1@))) by {
        assert forall|k: int| 0 <= k < v.len() + 1 implies #[trigger] pair_texts(v.push(p))[k]
            == pair_texts(v).push((p.0@, p.1@))[k] by {
            if k < v.len() {
                assert(pair_texts(v)[k] == (v[k].0@, v[k].1@));
            }
        }
    }
}

impl View for SessionConfig {
    type V = SessionConfigView;

    open spec fn view(&self) -> SessionConfigView {
        SessionConfigView {
            auto_yes: self.auto_yes,
            max_output_buffer: self.max_output_buffer as nat,
            environment_vars: pair_texts(self.environment_vars@),
            working_directory: opt_text(self.working_directory),
            branch_prefix: self.branch_prefix@,
            claude_args: texts(self.claude_args@),
        }
    }
}

/// A copy of a list of strings.
pub fn copy_strings(v: &Vec<String>) -> (c: Vec<String>)
    ensures
        texts(c@) == texts(v@),
{
    let mut c: Vec<String> = Vec::new();
    let n = v.len();
    let mut i: usize = 0;
    while i < n
        invariant
            n == v@.len(),
            i <= n,
            texts(c@) == texts(v@).take(i as int),
        decreases n - i,
    {
        let s = v[i].clone();
        proof {
            lemma_texts_push(c@, s);
            assert(texts(v@).take(i as int).push(s@) =~= texts(v@).take(i + 1));
        }
        c.push(s);
        i += 1;
    }
    assert(texts(v@).take(n as int) =~= texts(v@));
    c
}

/// A copy of a list of key and value pairs.
pub fn copy_pairs(v: &Vec<(String, String)>) -> (c: Vec<(String, String)>)
    ensures
        pair_texts(c@) == pair_texts(v@),
{
    let mut c: Vec<(String, String)> = Vec::new();
    let n = v.len();
    let mut i: usize = 0;
    while i < n
        invariant
            n == v@.len(),
            i <= n,
            pair_texts(c@) == pair_texts(v@).take(i as int),
        decreases n - i,
    {
        let pair = (v[i].0.clone(), v[i].1.clone());
        proof {
            lemma_pair_texts_push(c@, pair);
            assert(pair_texts(v@).take(i as int).push((pair.0@, pair.1@)) =~= pair_texts(v@).take(
                i + 1,
            ));
        }
        c.push(pair);
        i += 1;
    }
    assert(pair_texts(v@).take(n as int) =~= pair_texts(v@));
    c
}

impl Default for SessionConfig {
    /// Automatic replies off, ten thousand buffered lines, the branch
    /// prefix `session`, and nothing else set.
    fn default() -> (config: SessionConfig)
        ensures
            config@ == (SessionConfigView {
                auto_yes: false,
                max_output_buffer: 10000,
                environment_vars: Seq::empty(),
                working_directory: None,
                branch_prefix: "session"@,
                claude_args: Seq::empty(),
            }),
    {
        let config = SessionConfig {
            auto_yes: false,
            max_output_buffer: 10000,
            environment_vars: Vec::new(),
            working_directory: None,
            branch_prefix: "session".to_owned(),
            claude_args: Vec::new(),
        };
        assert(config@.environment_vars =~= Seq::empty());
        assert(config@.claude_args =~= Seq::empty());
        config
    }
}

impl Clone for SessionConfig {
    fn clone(&self) -> (c: SessionConfig)
        ensures
            c@ == self@,
    {
        SessionConfig {
            auto_yes: self.auto_yes,
            max_output_buffer: self.max_output_buffer,
            environment_vars: copy_pairs(&self.environment_vars),
            working_directory: match &self.working_directory {
                Some(d) => Some(d.clone()),
                None => None,
            },
            branch_prefix: self.branch_prefix.clone(),
            claude_args: copy_strings(&self.claude_args),
        }
    }
}

/// One child process with its isolated workspace. The process itself is
/// held by whoever spawned it; the session records whether one is attached.
#[derive(Debug)]
pub struct Session {
    pub id: String,
    pub project_id: String,
    pub project_path: String,
    pub worktree_path: String,
    pub branch_name: String,
    pub has_process: bool,
    pub status: SessionStatus,
    pub output_buffer: VecDeque<String>,
    pub created_at: String,
    pub updated_at: String,
    pub config: SessionConfig,
    pub error_message: Option<String>,
}

/// Mathematical model of a [`Session`].
pub struct SessionView {
    pub id: Seq<char>,
    pub project_id: Seq<char>,
    pub project_path: Seq<char>,
    pub worktree_path: Seq<char>,
    pub branch_name: Seq<char>,
    pub has_process: bool,
    pub status: SessionStatus,
    pub output: Seq<Seq<char>>,
    pub created_at: Seq<char>,
    pub updated_at: Seq<char>,
    pub config: SessionConfigView,
    pub error_message: Option<Seq<char>>,
}

impl View for Session {
    type V = SessionView;

    open spec fn view(&self) -> SessionView {
        SessionView {
            id: self.id@,
            project_id: self.project_id@,
            project_path: self.project_path@,
            worktree_path: self.worktree_path@,
            branch_name: self.branch_name@,
            has_process: self.has_process,
            status: self.status,
            output: texts(self.output_buffer@),
            created_at: self.created_at@,
            updated_at: self.updated_at@,
            config: self.config@,
            error_message: opt_text(self.error_message),
        }
    }
}

/// The last `n` elements of `s`, or all of `s` where it holds fewer.
pub open spec fn last_n<T>(s: Seq<T>, n: nat) -> Seq<T> {
    if s.len() <= n {
        s
    } else {
        s.skip(s.len() - n)
    }
}

/// The buffer after one more line arrived: the newest `cap` lines of what
/// was buffered followed by the new line.
pub open spec fn ring_push(buffer: Seq<Seq<char>>, cap: nat, line: Seq<char>) -> Seq<Seq<char>> {
    last_n(buffer.push(line), cap)
}

/// The buffer after the lines of `lines` arrived one by one.
pub open spec fn ring_push_all(buffer: Seq<Seq<char>>, cap: nat, lines: Seq<Seq<char>>) -> Seq<
    Seq<char>,
>
    decreases lines.len(),
{
    if lines.len() == 0 {
        buffer
    } else {
        ring_push(ring_push_all(buffer, cap, lines.drop_last()), cap, lines.last())
    }
}

impl SessionView {
    /// The buffer never holds more lines than the configuration allows.
    pub open spec fn wf(self) -> bool {
        self.output.len() <= self.config.max_output_buffer
    }

    /// The snapshot of a session in this state.
    pub open spec fn info(self, diff_stats: Option<DiffStats>) -> SessionInfoView {
        SessionInfoView {
            id: self.id,
            project_id: self.project_id,
            project_path: self.project_path,
            worktree_path: self.worktree_path,
            branch_name: self.branch_name,
            status: self.status,
            created_at: self.created_at,
            updated_at: self.updated_at,
            auto_yes: self.config.auto_yes,
            output_preview: join_lines(last_n(self.output, 5)),
            diff_stats,
        }
    }
}

impl Session {
    /// The buffer never holds more lines than the configuration allows.
    pub open spec fn wf(&self) -> bool {
        self@.wf()
    }

    /// A session that was given the identifier `id` at the instant `now`:
    /// initializing, without process, output or error.
    pub fn assemble(
        id: String,
        now: String,
        project_id: String,
        project_path: String,
        worktree_path: String,
        branch_name: String,
        config: SessionConfig,
    ) -> (session: Session)
        ensures
            session@ == (SessionView {
                id: id@,
                project_id: project_id@,
                project_path: project_path@,
                worktree_path: worktree_path@,
                branch_name: branch_name@,
                has_process: false,
                status: SessionStatus::Initializing,
                output: Seq::empty(),
                created_at: now@,
                updated_at: now@,
                config: config@,
                error_message: None,
            }),
            session.wf(),
    {
        let updated_at = now.clone();
        let session = Session {
            id,
            project_id,
            project_path,
            worktree_path,
            branch_name,
            has_process: false,
            status: SessionStatus::Initializing,
            output_buffer: VecDeque::new(),
            created_at: now,
            updated_at,
            config,
            error_message: None,
        };
        assert(session@.output =~= Seq::empty());
        session
    }

    /// A new session under a fresh random identifier, stamped with the
    /// current time.
    pub fn new(
        project_id: String,
        project_path: String,
        worktree_path: String,
        branch_name: String,
        config: SessionConfig,
    ) -> (session: Session)
        ensures
            session@ == (SessionView {
                id: session@.id,
                project_id: project_id@,
                project_path: project_path@,
                worktree_path: worktree_path@,
                branch_name: branch_name@,
                has_process: false,
                status: SessionStatus::Initializing,
                output: Seq::empty(),
                created_at: session@.created_at,
                updated_at: session@.created_at,
                config: config@,
                error_message: None,
            }),
            session@.id.len() == 36,
            session.wf(),
    {
        let id = fresh_uuid();
        let now = now_rfc3339();
        Session::assemble(id, now, project_id, project_path, worktree_path, branch_name, config)
    }

    /// Appends `line` at the instant `now`, evicting the oldest lines where
    /// the buffer is full.
    pub fn append_output_at(&mut self, line: String, now: String)
        ensures
            final(self)@ == (SessionView {
                output: ring_push(old(self)@.output, old(self)@.config.max_output_buffer, line@),
                updated_at: now@,
                ..old(self)@
            }),
            final(self).wf(),
    {
        let cap = self.config.max_output_buffer;
        let ghost before = self.output_buffer@;
        if cap == 0 {
            self.output_buffer.clear();
            assert(texts(self.output_buffer@) =~= ring_push(texts(before), 0, line@));
        } else {
            let mut len = self.output_buffer.len();
            while len >= cap
                invariant
                    cap > 0,
                    len == self.output_buffer@.len(),
                    len <= before.len(),
                    len == before.len() || len + 1 >= cap,
                    self.output_buffer@ == before.subrange(before.len() - len, before.len() as int),
                    self.config == old(self).config,
                    self.id == old(self).id,
                    self.project_id == old(self).project_id,
                    self.project_path == old(self).project_path,
                    self.worktree_path == old(self).worktree_path,
                    self.branch_name == old(self).branch_name,
                    self.has_process == old(self).has_process,
                    self.status == old(self).status,
                    self.created_at == old(self).created_at,
                    self.error_message == old(self).error_message,
                decreases len,
            {
                self.output_buffer.pop_front();
                len = len - 1;
                assert(self.output_buffer@ =~= before.subrange(
                    before.len() - len,
                    before.len() as int,
                ));
            }
            proof {
                lemma_texts_push(self.output_buffer@, line);
                lemma_texts_subrange(before, before.len() - len, before.len() as int);
            }
            self.output_buffer.push_back(line);
            assert(texts(self.output_buffer@) =~= ring_push(texts(before), cap as nat, line@));
        }
        self.updated_at = now;
    }

    /// Appends `line` to the buffer and stamps the session with the current
    /// time.
    pub fn append_output(&mut self, line: String)
        ensures
            final(self)@ == (SessionView {
                output: ring_push(old(self)@.output, old(self)@.config.max_output_buffer, line@),
                updated_at: final(self)@.updated_at,
                ..old(self)@
            }),
            final(self).wf(),
    {
        let now = now_rfc3339();
        self.append_output_at(line, now);
    }

    /// The last `lines` buffered lines, oldest first.
    pub fn get_output_preview(&self, lines: usize) -> (preview: Vec<String>)
        ensures
            texts(preview@) == last_n(self@.output, lines as nat),
    {
        let len = self.output_buffer.len();
        let start = if len <= lines {
            0
        } else {
            len - lines
        };
        let mut preview: Vec<String> = Vec::new();
        let mut i: usize = start;
        while i < len
            invariant
                len == self.output_buffer@.len(),
                start <= i <= len,
                texts(preview@) == texts(self.output_buffer@).subrange(start as int, i as int),
            decreases len - i,
        {
            let line = self.output_buffer[i].clone();
            proof {
                lemma_texts_push(preview@, line);
                assert(texts(self.output_buffer@).subrange(start as int, i as int).push(line@)
                    =~= texts(self.output_buffer@).subrange(start as int, i + 1));
            }
            preview.push(line);
            i += 1;
        }
        assert(texts(self.output_buffer@).subrange(start as int, len as int) =~= last_n(
            self@.output,
            lines as nat,
        ));
        preview
    }

    /// Replaces the status at the instant `now`.
    pub fn set_status_at(&mut self, status: SessionStatus, now: String)
        ensures
            final(self)@ == (SessionView { status, updated_at: now@, ..old(self)@ }),
    {
        self.status = status;
        self.updated_at = now;
    }

    /// Replaces the status and stamps the session with the current time.
    pub fn set_status(&mut self, status: SessionStatus)
        ensures
            final(self)@ == (SessionView {
                status,
                updated_at: final(self)@.updated_at,
                ..old(self)@
            }),
    {
        let now = now_rfc3339();
        self.set_status_at(status, now);
    }

    /// Records `error` as the last critical error at the instant `now` and
    /// moves the session to the error status.
    pub fn set_error_at(&mut self, error: String, now: String)
        ensures
            final(self)@ == (SessionView {
                error_message: Some(error@),
                status: SessionStatus::Error,
                updated_at: now@,
                ..old(self)@
            }),
    {
        self.error_message = Some(error);
        self.set_status_at(SessionStatus::Error, now);
    }

    /// Records `error` as the last critical error and moves the session to
    /// the error status.
    pub fn set_error(&mut self, error: String)
        ensures
            final(self)@ == (SessionView {
                error_message: Some(error@),
                status: SessionStatus::Error,
                updated_at: final(self)@.updated_at,
                ..old(self)@
            }),
    {
        let now = now_rfc3339();
        self.set_error_at(error, now);
    }

    /// Detaches the process at the instant `now` and moves the session to
    /// the terminated status. Returns whether a process was attached, which
    /// the caller then has to kill.
    pub fn terminate_at(&mut self, now: String) -> (kill: bool)
        ensures
            kill == old(self)@.has_process,
            final(self)@ == (SessionView {
                has_process: false,
                status: SessionStatus::Terminated,
                updated_at: now@,
                ..old(self)@
            }),
    {
        let kill = self.has_process;
        self.has_process = false;
        self.set_status_at(SessionStatus::Terminated, now);
        kill
    }

    /// Detaches the process and moves the session to the terminated status.
    /// Returns whether a process was attached, which the caller then has to
    /// kill.
    pub fn terminate(&mut self) -> (kill: bool)
        ensures
            kill == old(self)@.has_process,
            final(self)@ == (SessionView {
                has_process: false,
                status: SessionStatus::Terminated,
                updated_at: final(self)@.updated_at,
                ..old(self)@
            }),
    {
        let now = now_rfc3339();
        self.terminate_at(now)
    }

    /// The snapshot of the session: its identity, status and timestamps, the
    /// last five lines of output joined by line feeds, and `diff_stats`.
    pub fn to_info(&self, diff_stats: Option<DiffStats>) -> (info: SessionInfo)
        ensures
            info@ == self@.info(diff_stats),
    {
        let recent = self.get_output_preview(5);
        let output_preview = join(&recent);
        SessionInfo {
            id: self.id.clone(),
            project_id: self.project_id.clone(),
            project_path: self.project_path.clone(),
            worktree_path: self.worktree_path.clone(),
            branch_name: self.branch_name.clone(),
            status: self.status,
            created_at: self.created_at.clone(),
            updated_at: self.updated_at.clone(),
            auto_yes: self.config.auto_yes,
            output_preview,
            diff_stats,
        }
    }
}

impl Clone for Session {
    fn clone(&self) -> (c: Session)
        ensures
            c@ == self@,
    {
        let mut output_buffer: VecDeque<String> = VecDeque::new();
        let n = self.output_buffer.len();
        let mut i: usize = 0;
        while i < n
            invariant
                n == self.output_buffer@.len(),
                i <= n,
                texts(output_buffer@) == texts(self.output_buffer@).take(i as int),
            decreases n - i,
        {
            let line = self.output_buffer[i].clone();
            proof {
                lemma_texts_push(output_buffer@, line);
                assert(texts(self.output_buffer@).take(i as int).push(line@) =~= texts(
                    self.output_buffer@,
                ).take(i + 1));
            }
            output_buffer.push_back(line);
            i += 1;
        }
        assert(texts(self.output_buffer@).take(n as int) =~= texts(self.output_buffer@));
        Session {
            id: self.id.clone(),
            project_id: self.project_id.clone(),
            project_path: self.project_path.clone(),
            worktree_path: self.worktree_path.clone(),
            branch_name: self.branch_name.clone(),
            has_process: self.has_process,
            status: self.status,
            output_buffer,
            created_at: self.created_at.clone(),
            updated_at: self.updated_at.clone(),
            config: self.config.clone(),
            error_message: match &self.error_message {
                Some(e) => Some(e.clone()),
                None => None,
            },
        }
    }
}

/// After more lines have arrived than the buffer can hold, the buffer holds
/// exactly the newest of them, as many as it can hold, in arrival order.
/// More generally the buffer always holds the newest lines of what it held
/// followed by what arrived.
pub proof fn lemma_ring_buffer_keeps_newest(
    buffer: Seq<Seq<char>>,
    cap: nat,
    lines: Seq<Seq<char>>,
)
    requires
        buffer.len() <= cap,
    ensures
        ring_push_all(buffer, cap, lines) == last_n(buffer + lines, cap),
        lines.len() >= cap ==> ring_push_all(buffer, cap, lines) == last_n(lines, cap),
        ring_push_all(buffer, cap, lines).len() <= cap,
    decreases lines.len(),
{
    if lines.len() == 0 {
        assert(buffer + lines =~= buffer);
        if cap == 0 {
            assert(buffer =~= lines);
        }
    } else {
        let head = lines.drop_last();
        lemma_ring_buffer_keeps_newest(buffer, cap, head);
        let all = buffer + lines;
        assert(all =~= (buffer + head).push(lines.last()));
        assert(ring_push_all(buffer, cap, lines) =~= last_n(all, cap));
        if lines.len() >= cap {
            assert(last_n(all, cap) =~= last_n(lines, cap));
        }
    }
}

} // verus!
