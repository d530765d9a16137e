use multi_session::events::DiffStats;
use multi_session::session::{Session, SessionConfig, SessionStatus};

fn config(cap: usize) -> SessionConfig {
    SessionConfig {
        auto_yes: false,
        max_output_buffer: cap,
        environment_vars: Vec::new(),
        working_directory: None,
        branch_prefix: "s".to_string(),
        claude_args: Vec::new(),
    }
}

fn session(cap: usize) -> Session {
    Session::assemble(
        "0123456789abcdef".to_string(),
        "2024-05-06T07:08:09+00:00".to_string(),
        "project-1".to_string(),
        "/home/u/repo".to_string(),
        "/home/u/.session-workspaces/session-01234567".to_string(),
        "s-01234567".to_string(),
        config(cap),
    )
}

fn lines(s: &Session) -> Vec<String> {
    s.output_buffer.iter().cloned().collect()
}

#[test]
fn default_config_values() {
    let c = SessionConfig::default();
    assert!(!c.auto_yes);
    assert_eq!(c.max_output_buffer, 10000);
    assert!(c.environment_vars.is_empty());
    assert_eq!(c.working_directory, None);
    assert_eq!(c.branch_prefix, "session");
    assert!(c.claude_args.is_empty());
}

#[test]
fn config_clone_copies_every_option() {
    let c = SessionConfig {
        auto_yes: true,
        max_output_buffer: 7,
        environment_vars: vec![("A".to_string(), "1".to_string())],
        working_directory: Some("/tmp/w".to_string()),
        branch_prefix: "p".to_string(),
        claude_args: vec!["--x".to_string(), "y".to_string()],
    };
    let d = c.clone();
    assert_eq!(d.auto_yes, c.auto_yes);
    assert_eq!(d.max_output_buffer, c.max_output_buffer);
    assert_eq!(d.environment_vars, c.environment_vars);
    assert_eq!(d.working_directory, c.working_directory);
    assert_eq!(d.branch_prefix, c.branch_prefix);
    assert_eq!(d.claude_args, c.claude_args);
}

#[test]
fn assembled_session_is_initializing_and_empty() {
    let s = session(10);
    assert_eq!(s.id, "0123456789abcdef");
    assert_eq!(s.project_id, "project-1");
    assert_eq!(s.project_path, "/home/u/repo");
    assert_eq!(s.worktree_path, "/home/u/.session-workspaces/session-01234567");
    assert_eq!(s.branch_name, "s-01234567");
    assert_eq!(s.status, SessionStatus::Initializing);
    assert!(!s.has_process);
    assert!(s.output_buffer.is_empty());
    assert_eq!(s.created_at, "2024-05-06T07:08:09+00:00");
    assert_eq!(s.updated_at, s.created_at);
    assert_eq!(s.error_message, None);
}

#[test]
fn new_session_gets_a_fresh_hyphenated_identifier() {
    let a = Session::new("p".into(), "/r".into(), String::new(), String::new(), config(3));
    let b = Session::new("p".into(), "/r".into(), String::new(), String::new(), config(3));
    assert_eq!(a.id.len(), 36);
    assert!(a.id.is_ascii());
    assert_ne!(a.id, b.id);
    let bytes = a.id.as_bytes();
    for (i, byte) in bytes.iter().enumerate() {
        if i == 8 || i == 13 || i == 18 || i == 23 {
            assert_eq!(*byte, b'-');
        } else {
            assert!(byte.is_ascii_hexdigit() && !byte.is_ascii_uppercase());
        }
    }
    assert_eq!(a.status, SessionStatus::Initializing);
    assert_eq!(a.created_at, a.updated_at);
}

#[test]
fn new_session_is_stamped_with_a_readable_instant() {
    let before = chrono::Utc::now();
    let s = Session::new("p".into(), "/r".into(), String::new(), String::new(), config(3));
    let after = chrono::Utc::now();
    let stamp = chrono::DateTime::parse_from_rfc3339(&s.created_at).expect("rfc 3339");
    assert!(before <= stamp && stamp <= after);
}

#[test]
fn buffer_overflow_keeps_newest_lines() {
    let mut s = session(3);
    for l in ["a", "b", "c", "d", "e"] {
        s.append_output(l.to_string());
    }
    assert_eq!(s.get_output_preview(5), vec!["c".to_string(), "d".to_string(), "e".to_string()]);
    assert_eq!(lines(&s), vec!["c", "d", "e"]);
    assert_eq!(s.status, SessionStatus::Initializing);
}

#[test]
fn ring_buffer_holds_exactly_the_last_lines() {
    for cap in 0usize..6 {
        let mut s = session(cap);
        let mut all: Vec<String> = Vec::new();
        for i in 0..20 {
            let line = format!("line {i}");
            s.append_output(line.clone());
            all.push(line);
            let keep = all.len().min(cap);
            let expected: Vec<String> = all[all.len() - keep..].to_vec();
            assert_eq!(lines(&s), expected);
            assert!(s.output_buffer.len() <= cap);
        }
    }
}

#[test]
fn append_with_given_instant_sets_updated_at() {
    let mut s = session(2);
    s.append_output_at("x".to_string(), "2025-01-01T00:00:00+00:00".to_string());
    assert_eq!(s.updated_at, "2025-01-01T00:00:00+00:00");
    assert_eq!(s.created_at, "2024-05-06T07:08:09+00:00");
    assert_eq!(lines(&s), vec!["x"]);
}

#[test]
fn append_touches_updated_at() {
    let mut s = session(2);
    s.append_output("x".to_string());
    assert_ne!(s.updated_at, s.created_at);
    assert!(chrono::DateTime::parse_from_rfc3339(&s.updated_at).is_ok());
}

#[test]
fn an_overlong_buffer_is_cut_back() {
    let mut s = session(2);
    for l in ["a", "b", "c", "d"] {
        s.output_buffer.push_back(l.to_string());
    }
    s.append_output("e".to_string());
    assert_eq!(lines(&s), vec!["d", "e"]);
}

#[test]
fn preview_returns_what_exists_in_arrival_order() {
    let mut s = session(10);
    for l in ["a", "b", "c"] {
        s.append_output(l.to_string());
    }
    assert_eq!(s.get_output_preview(0), Vec::<String>::new());
    assert_eq!(s.get_output_preview(1), vec!["c"]);
    assert_eq!(s.get_output_preview(2), vec!["b", "c"]);
    assert_eq!(s.get_output_preview(3), vec!["a", "b", "c"]);
    assert_eq!(s.get_output_preview(usize::MAX), vec!["a", "b", "c"]);
    assert_eq!(lines(&s), vec!["a", "b", "c"]);
}

#[test]
fn set_status_replaces_the_status() {
    let mut s = session(3);
    s.set_status_at(SessionStatus::Ready, "t1".to_string());
    assert_eq!(s.status, SessionStatus::Ready);
    assert_eq!(s.updated_at, "t1");
    s.set_status(SessionStatus::Loading);
    assert_eq!(s.status, SessionStatus::Loading);
    assert_ne!(s.updated_at, "t1");
    assert_eq!(s.id, "0123456789abcdef");
}

#[test]
fn set_error_records_the_message_and_moves_to_error() {
    let mut s = session(3);
    s.set_error_at("FATAL: boom".to_string(), "t2".to_string());
    assert_eq!(s.error_message, Some("FATAL: boom".to_string()));
    assert_eq!(s.status, SessionStatus::Error);
    assert_eq!(s.updated_at, "t2");
    s.set_error("again".to_string());
    assert_eq!(s.error_message, Some("again".to_string()));
    assert_eq!(s.status, SessionStatus::Error);
}

#[test]
fn terminate_detaches_the_process() {
    let mut s = session(3);
    s.has_process = true;
    assert!(s.terminate_at("t3".to_string()));
    assert!(!s.has_process);
    assert_eq!(s.status, SessionStatus::Terminated);
    assert_eq!(s.updated_at, "t3");
    assert!(!s.terminate());
    assert_eq!(s.status, SessionStatus::Terminated);
}

#[test]
fn terminal_statuses() {
    for s in [
        SessionStatus::Initializing,
        SessionStatus::Running,
        SessionStatus::Ready,
        SessionStatus::Loading,
        SessionStatus::Paused,
        SessionStatus::Error,
    ] {
        assert!(!s.terminal());
    }
    assert!(SessionStatus::Completed.terminal());
    assert!(SessionStatus::Terminated.terminal());
}

#[test]
fn snapshot_carries_identity_preview_and_diff() {
    let mut s = session(10);
    for i in 1..=7 {
        s.append_output_at(format!("l{i}"), "t9".to_string());
    }
    s.set_status_at(SessionStatus::Ready, "t10".to_string());
    s.config.auto_yes = true;
    let stats = DiffStats { files_changed: 1, insertions: 2, deletions: 3 };
    let info = s.to_info(Some(stats));
    assert_eq!(info.id, "0123456789abcdef");
    assert_eq!(info.project_id, "project-1");
    assert_eq!(info.project_path, "/home/u/repo");
    assert_eq!(info.worktree_path, "/home/u/.session-workspaces/session-01234567");
    assert_eq!(info.branch_name, "s-01234567");
    assert_eq!(info.status, SessionStatus::Ready);
    assert_eq!(info.created_at, "2024-05-06T07:08:09+00:00");
    assert_eq!(info.updated_at, "t10");
    assert!(info.auto_yes);
    assert_eq!(info.output_preview, "l3\nl4\nl5\nl6\nl7");
    assert_eq!(info.diff_stats, Some(stats));
    let bare = session(10).to_info(None);
    assert_eq!(bare.output_preview, "");
    assert_eq!(bare.diff_stats, None);
    assert!(!bare.auto_yes);
}

#[test]
fn clone_copies_the_whole_session() {
    let mut s = session(4);
    s.append_output("a".to_string());
    s.set_error_at("e".to_string(), "t".to_string());
    s.has_process = true;
    let c = s.clone();
    assert_eq!(c.id, s.id);
    assert_eq!(c.project_id, s.project_id);
    assert_eq!(c.project_path, s.project_path);
    assert_eq!(c.worktree_path, s.worktree_path);
    assert_eq!(c.branch_name, s.branch_name);
    assert_eq!(c.has_process, s.has_process);
    assert_eq!(c.status, s.status);
    assert_eq!(lines(&c), lines(&s));
    assert_eq!(c.created_at, s.created_at);
    assert_eq!(c.updated_at, s.updated_at);
    assert_eq!(c.error_message, s.error_message);
    assert_eq!(c.config.max_output_buffer, 4);
}
