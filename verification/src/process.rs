//! Supervision of a session's child process: how it is launched, what each
//! line it writes does to the session, and how input is framed for it.

use vstd::prelude::*;
use crate::events::{event_views, EventView, SessionEvent};
use crate::session::{
    copy_strings, lemma_pair_texts_push, pair_texts, ring_push, Session, SessionStatus,
    SessionView,
};
use crate::text::{chars_contain, has_substring, texts, to_chars};

verus! {

/// Everything needed to start the child of a session: the program, its
/// arguments, its working directory, and the variables to set on top of the
/// inherited environment, each key once. All three standard streams of the
/// child are piped.
#[derive(Debug)]
pub struct LaunchSpec {
    pub program: String,
    pub args: Vec<String>,
    pub working_dir: String,
    pub env: Vec<(String, String)>,
}

/// Mathematical model of a [`LaunchSpec`].
pub struct LaunchSpecView {
    pub program: Seq<char>,
    pub args: Seq<Seq<char>>,
    pub working_dir: Seq<char>,
    pub env: Seq<(Seq<char>, Seq<char>)>,
}

impl View for LaunchSpec {
    type V = LaunchSpecView;

    open spec fn view(&self) -> LaunchSpecView {
        LaunchSpecView {
            program: self.program@,
            args: texts(self.args@),
            working_dir: self.working_dir@,
            env: pair_texts(self.env@),
        }
    }
}

/// What a non-blocking poll of a child process found.
#[derive(Debug, Clone, Copy, PartialEq, Eq, Structural)]
pub enum ProcessPoll {
    /// The child has not exited yet.
    StillRunning,
    /// The child has exited.
    Exited,
    /// The poll itself failed.
    Failed,
}

/// The status that a line of standard output announces, if any. The first
/// matching row decides.
pub open spec fn status_of_line(line: Seq<char>) -> Option<SessionStatus> {
    if has_substring(line, "Ready"@) || has_substring(line, "Human:"@) {
        Some(SessionStatus::Ready)
    } else if has_substring(line, "Working"@) || has_substring(line, "Thinking"@) {
        Some(SessionStatus::Loading)
    } else if has_substring(line, "Running"@) || has_substring(line, "Executing"@) {
        Some(SessionStatus::Running)
    } else if has_substring(line, "Complete"@) || has_substring(line, "Done"@) {
        Some(SessionStatus::Completed)
    } else {
        None
    }
}

/// Whether a line of standard error reports a critical failure.
pub open spec fn is_critical_line(line: Seq<char>) -> bool {
    ||| has_substring(line, "FATAL"@)
    ||| has_substring(line, "CRITICAL"@)
    ||| has_substring(line, "Failed to initialize"@)
    ||| has_substring(line, "Permission denied"@)
}

/// The working directory of a session's child: the configured one, or the
/// session's workspace where none is configured.
pub open spec fn working_dir_of(session: SessionView) -> Seq<char> {
    match session.config.working_directory {
        Some(dir) => dir,
        None => session.worktree_path,
    }
}

/// Some pair of `pairs` has the key `key`.
pub open spec fn has_key(pairs: Seq<(Seq<char>, Seq<char>)>, key: Seq<char>) -> bool {
    exists|j: int| 0 <= j < pairs.len() && (#[trigger] pairs[j]).0 == key
}

/// The value that setting the pairs one after the other leaves for `key`:
/// that of the last pair with this key.
pub open spec fn env_value(pairs: Seq<(Seq<char>, Seq<char>)>, key: Seq<char>) -> Option<
    Seq<char>,
>
    decreases pairs.len(),
{
    if pairs.len() == 0 {
        None
    } else {
        match env_value(pairs.drop_first(), key) {
            Some(value) => Some(value),
            None => if pairs[0].0 == key {
                Some(pairs[0].1)
            } else {
                None
            },
        }
    }
}

/// The pairs that count: those whose key is not set again by a later pair,
/// in their order.
pub open spec fn effective_env(pairs: Seq<(Seq<char>, Seq<char>)>) -> Seq<(Seq<char>, Seq<char>)>
    decreases pairs.len(),
{
    if pairs.len() == 0 {
        Seq::empty()
    } else if has_key(pairs.drop_first(), pairs[0].0) {
        effective_env(pairs.drop_first())
    } else {
        seq![pairs[0]] + effective_env(pairs.drop_first())
    }
}

/// A key has a value exactly where some pair sets it.
pub proof fn lemma_env_value_some(pairs: Seq<(Seq<char>, Seq<char>)>, key: Seq<char>)
    ensures
        env_value(pairs, key) is Some <==> has_key(pairs, key),
    decreases pairs.len(),
{
    if pairs.len() > 0 {
        let rest = pairs.drop_first();
        lemma_env_value_some(rest, key);
        if has_key(rest, key) {
            let j = choose|j: int| 0 <= j < rest.len() && (#[trigger] rest[j]).0 == key;
            assert(pairs[j + 1] == rest[j]);
        }
        if has_key(pairs, key) && pairs[0].0 != key {
            let j = choose|j: int| 0 <= j < pairs.len() && (#[trigger] pairs[j]).0 == key;
            assert(rest[j - 1] == pairs[j]);
        }
    }
}

/// Later pairs override earlier ones: the pairs that count give every key
/// the value of the last pair that sets it, and set no key twice.
pub proof fn lemma_effective_env(pairs: Seq<(Seq<char>, Seq<char>)>, key: Seq<char>)
    ensures
        env_value(effective_env(pairs), key) == env_value(pairs, key),
        has_key(effective_env(pairs), key) == has_key(pairs, key),
        forall|i: int, j: int|
            0 <= i < j < effective_env(pairs).len() ==> (#[trigger] effective_env(pairs)[i]).0 != (
            #[trigger] effective_env(pairs)[j]).0,
    decreases pairs.len(),
{
    if pairs.len() > 0 {
        let rest = pairs.drop_first();
        let kept = effective_env(rest);
        lemma_effective_env(rest, key);
        lemma_effective_env(rest, pairs[0].0);
        lemma_env_value_some(rest, key);
        lemma_env_value_some(kept, key);
        lemma_env_value_some(pairs, key);
        lemma_env_value_some(effective_env(pairs), key);
        if !has_key(rest, pairs[0].0) {
            let all = seq![pairs[0]] + kept;
            assert(all.drop_first() =~= kept);
            assert forall|i: int, j: int| 0 <= i < j < all.len() implies (#[trigger] all[i]).0 != (
            #[trigger] all[j]).0 by {
                if i == 0 {
                    assert(all[j] == kept[j - 1]);
                    if all[j].0 == pairs[0].0 {
                        assert(has_key(kept, pairs[0].0));
                    }
                } else {
                    assert(all[i] == kept[i - 1] && all[j] == kept[j - 1]);
                }
            }
        }
    }
}

/// How the child of `session` is launched, `program` being the assistant
/// binary.
pub open spec fn launch_of(session: SessionView, program: Seq<char>) -> LaunchSpecView {
    LaunchSpecView {
        program,
        args: session.config.claude_args,
        working_dir: working_dir_of(session),
        env: effective_env(session.config.environment_vars),
    }
}

/// The session after `line` arrived on standard output, but for its
/// timestamp.
pub open spec fn after_stdout(session: SessionView, line: Seq<char>) -> SessionView {
    SessionView {
        output: ring_push(session.output, session.config.max_output_buffer, line),
        status: match status_of_line(line) {
            Some(status) => status,
            None => session.status,
        },
        ..session
    }
}

/// The events that a line on standard output causes, in order: the status
/// change that the line announces, if any, then the line itself.
pub open spec fn stdout_events(id: Seq<char>, line: Seq<char>) -> Seq<EventView> {
    match status_of_line(line) {
        Some(status) => seq![
            EventView::StatusChanged { session_id: id, status },
            EventView::OutputAppended { session_id: id, output: line },
        ],
        None => seq![EventView::OutputAppended { session_id: id, output: line }],
    }
}

/// The session after `line` arrived on standard error, but for its
/// timestamp.
pub open spec fn after_stderr(session: SessionView, line: Seq<char>) -> SessionView {
    let output = ring_push(
        session.output,
        session.config.max_output_buffer,
        "[ERROR] "@ + line,
    );
    if is_critical_line(line) {
        SessionView {
            output,
            status: SessionStatus::Error,
            error_message: Some(line),
            ..session
        }
    } else {
        SessionView { output, ..session }
    }
}

/// The events that a line on standard error causes: none unless it is
/// critical, else the change to the error status and the error itself.
pub open spec fn stderr_events(id: Seq<char>, line: Seq<char>) -> Seq<EventView> {
    if is_critical_line(line) {
        seq![
            EventView::StatusChanged { session_id: id, status: SessionStatus::Error },
            EventView::Error { session_id: id, error: line },
        ]
    } else {
        Seq::empty()
    }
}

/// Every row of the status table maps as the table says: a line that holds
/// a token of a row, and no token of a row above it, announces the status
/// of that row, and a line without any token announces none. Whatever the
/// line, it causes the change to the status it announces, if any, and then
/// itself, in that order and once each.
pub proof fn lemma_status_table(id: Seq<char>, line: Seq<char>)
    ensures
        has_substring(line, "Ready"@) || has_substring(line, "Human:"@) ==> status_of_line(line)
            == Some(SessionStatus::Ready),
        status_of_line(line) == Some(SessionStatus::Loading) <==> !(has_substring(line, "Ready"@)
            || has_substring(line, "Human:"@)) && (has_substring(line, "Working"@)
            || has_substring(line, "Thinking"@)),
        status_of_line(line) == Some(SessionStatus::Running) <==> !(has_substring(line, "Ready"@)
            || has_substring(line, "Human:"@) || has_substring(line, "Working"@) || has_substring(
            line,
            "Thinking"@,
        )) && (has_substring(line, "Running"@) || has_substring(line, "Executing"@)),
        status_of_line(line) == Some(SessionStatus::Completed) ==> has_substring(
            line,
            "Complete"@,
        ) || has_substring(line, "Done"@),
        status_of_line(line) matches Some(status) ==> stdout_events(id, line) == seq![
            EventView::StatusChanged { session_id: id, status },
            EventView::OutputAppended { session_id: id, output: line },
        ],
        status_of_line(line) is None ==> stdout_events(id, line) == seq![
            EventView::OutputAppended { session_id: id, output: line },
        ],
{
}

/// Namespace of the supervisor's decisions.
#[derive(Debug)]
pub struct ProcessManager;

impl ProcessManager {
    /// Prepares the launch of the child of `session`: the assistant binary
    /// `program` with the configured arguments, in the configured working
    /// directory or else the workspace, with the configured variables added
    /// to the environment.
    pub fn spawn_claude_session(session: &Session, program: &str) -> (spec: LaunchSpec)
        ensures
            spec@ == launch_of(session@, program@),
    {
        let working_dir = match &session.config.working_directory {
            Some(dir) => dir.clone(),
            None => session.worktree_path.clone(),
        };
        LaunchSpec {
            program: program.to_owned(),
            args: copy_strings(&session.config.claude_args),
            working_dir,
            env: Self::effective_environment(&session.config.environment_vars),
        }
    }

    /// The configured variables that count: of several pairs with one key
    /// the last.
    pub fn effective_environment(pairs: &Vec<(String, String)>) -> (env: Vec<(String, String)>)
        ensures
            pair_texts(env@) == effective_env(pair_texts(pairs@)),
    {
        let n = pairs.len();
        let ghost all = pair_texts(pairs@);
        let mut env: Vec<(String, String)> = Vec::new();
        let mut i: usize = 0;
        assert(all.skip(0) =~= all);
        assert(pair_texts(env@) =~= Seq::empty());
        while i < n
            invariant
                n == pairs@.len(),
                i <= n,
                all == pair_texts(pairs@),
                effective_env(all) == pair_texts(env@) + effective_env(all.skip(i as int)),
            decreases n - i,
        {
            let ghost rest = all.skip(i as int);
            let ghost later = rest.drop_first();
            proof {
                assert(later =~= all.skip(i + 1));
                assert(rest[0] == all[i as int]);
            }
            let mut again = false;
            let mut j: usize = i + 1;
            while j < n
                invariant
                    n == pairs@.len(),
                    i < j <= n,
                    all == pair_texts(pairs@),
                    later == all.skip(i + 1),
                    again == exists|k: int| i < k < j && (#[trigger] all[k]).0 == all[i as int].0,
                decreases n - j,
            {
                if pairs[j].0 == pairs[i].0 {
                    assert(all[j as int].0 == all[i as int].0);
                    again = true;
                }
                j += 1;
            }
            proof {
                if again {
                    let k = choose|k: int| i < k < n && (#[trigger] all[k]).0 == all[i as int].0;
                    assert(later[k - i - 1] == all[k]);
                }
                if has_key(later, all[i as int].0) {
                    let k = choose|k: int|
                        0 <= k < later.len() && (#[trigger] later[k]).0 == all[i as int].0;
                    assert(all[k + i + 1] == later[k]);
                }
                assert(again == has_key(later, rest[0].0));
            }
            if !again {
                let pair = (pairs[i].0.clone(), pairs[i].1.clone());
                proof {
                    lemma_pair_texts_push(env@, pair);
                    assert(pair_texts(env@).push(all[i as int]) + effective_env(later)
                        =~= pair_texts(env@) + (seq![rest[0]] + effective_env(later)));
                }
                env.push(pair);
            }
            i += 1;
        }
        assert(pair_texts(env@) + Seq::<(Seq<char>, Seq<char>)>::empty() =~= pair_texts(env@));
        env
    }

    /// Takes one line that the child wrote to standard output: buffers it
    /// verbatim, applies the status it announces, and returns the events to
    /// publish, the status change before the line.
    pub fn handle_stdout_line(session: &mut Session, line: String) -> (events: Vec<SessionEvent>)
        ensures
            final(session)@ == (SessionView {
                updated_at: final(session)@.updated_at,
                ..after_stdout(old(session)@, line@)
            }),
            event_views(events@) == stdout_events(old(session)@.id, line@),
            final(session).wf(),
    {
        let mut events: Vec<SessionEvent> = Vec::new();
        let detected = Self::detect_status_from_output(line.as_str());
        match detected {
            Some(status) => {
                session.set_status(status);
                events.push(
                    SessionEvent::StatusChanged { session_id: session.id.clone(), status },
                );
            },
            None => {},
        }
        events.push(
            SessionEvent::OutputAppended { session_id: session.id.clone(), output: line.clone() },
        );
        session.append_output(line);
        assert(event_views(events@) =~= stdout_events(old(session)@.id, line@));
        events
    }

    /// Takes one line that the child wrote to standard error: buffers it
    /// behind the marker `[ERROR] `, and where the line is critical records
    /// it as the session's error and returns the events to publish.
    pub fn handle_stderr_line(session: &mut Session, line: String) -> (events: Vec<SessionEvent>)
        ensures
            final(session)@ == (SessionView {
                updated_at: final(session)@.updated_at,
                ..after_stderr(old(session)@, line@)
            }),
            event_views(events@) == stderr_events(old(session)@.id, line@),
            final(session).wf(),
    {
        let mut events: Vec<SessionEvent> = Vec::new();
        let mut marked = "[ERROR] ".to_owned();
        marked.append(line.as_str());
        session.append_output(marked);
        if Self::is_critical_error(line.as_str()) {
            events.push(
                SessionEvent::StatusChanged {
                    session_id: session.id.clone(),
                    status: SessionStatus::Error,
                },
            );
            events.push(SessionEvent::Error { session_id: session.id.clone(), error: line.clone() });
            session.set_error(line);
        }
        assert(event_views(events@) =~= stderr_events(old(session)@.id, line@));
        events
    }

    /// The status that a line of standard output announces, if any.
    pub fn detect_status_from_output(line: &str) -> (status: Option<SessionStatus>)
        ensures
            status == status_of_line(line@),
    {
        let chars = to_chars(line);
        if chars_contain(&chars, &to_chars("Ready")) || chars_contain(&chars, &to_chars("Human:")) {
            Some(SessionStatus::Ready)
        } else if chars_contain(&chars, &to_chars("Working")) || chars_contain(
            &chars,
            &to_chars("Thinking"),
        ) {
            Some(SessionStatus::Loading)
        } else if chars_contain(&chars, &to_chars("Running")) || chars_contain(
            &chars,
            &to_chars("Executing"),
        ) {
            Some(SessionStatus::Running)
        } else if chars_contain(&chars, &to_chars("Complete")) || chars_contain(
            &chars,
            &to_chars("Done"),
        ) {
            Some(SessionStatus::Completed)
        } else {
            None
        }
    }

    /// Whether a line of standard error reports a critical failure.
    pub fn is_critical_error(line: &str) -> (critical: bool)
        ensures
            critical == is_critical_line(line@),
    {
        let chars = to_chars(line);
        chars_contain(&chars, &to_chars("FATAL")) || chars_contain(&chars, &to_chars("CRITICAL"))
            || chars_contain(&chars, &to_chars("Failed to initialize")) || chars_contain(
            &chars,
            &to_chars("Permission denied"),
        )
    }

    /// What is written to the child's standard input to send it `input`: the
    /// text followed by one line feed.
    pub fn send_input(input: &str) -> (frame: String)
        ensures
            frame@ == input@.push('\n'),
    {
        let mut frame = input.to_owned();
        frame.append("\n");
        proof {
            reveal_strlit("\n");
            assert(input@ + "\n"@ =~= input@.push('\n'));
        }
        frame
    }

    /// A child is alive if and only if the poll found it still running.
    pub fn check_process_health(poll: ProcessPoll) -> (alive: bool)
        ensures
            alive == (poll == ProcessPoll::StillRunning),
    {
        match poll {
            ProcessPoll::StillRunning => true,
            _ => false,
        }
    }
}

} // verus!
