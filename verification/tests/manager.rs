use multi_session::error::SessionError;
use multi_session::events::{DiffStats, SessionEvent};
use multi_session::manager::{Action, CreateStage, SessionManager};
use multi_session::session::{SessionConfig, SessionStatus};

fn config(prefix: &str, cap: usize) -> SessionConfig {
    SessionConfig {
        auto_yes: false,
        max_output_buffer: cap,
        environment_vars: Vec::new(),
        working_directory: None,
        branch_prefix: prefix.to_string(),
        claude_args: Vec::new(),
    }
}

fn shape(action: &Action) -> String {
    match action {
        Action::CreateWorkspace(w) => {
            format!("create {} {} {}", w.repo_path, w.worktree_path, w.branch_name)
        }
        Action::RemoveWorkspace(w) => {
            format!("remove {} {} {}", w.repo_path, w.worktree_path, w.branch_name)
        }
        Action::CommitWorkspace { worktree, message } => {
            format!("commit {} {:?}", worktree.worktree_path, message)
        }
        Action::StoreSession(r) => format!(
            "store {} {} {} {} {} {} {:?}",
            r.id, r.project_id, r.worktree_path, r.branch_name, r.status, r.auto_yes, r.output_log
        ),
        Action::UpdateStatus { session_id, status } => format!("persist {session_id} {status:?}"),
        Action::UpdateAutoYes { session_id, auto_yes } => format!("flag {session_id} {auto_yes}"),
        Action::Spawn { session_id, launch } => format!(
            "spawn {} {} {:?} {}",
            session_id, launch.program, launch.args, launch.working_dir
        ),
        Action::Kill { session_id } => format!("kill {session_id}"),
        Action::Write { session_id, data } => format!("write {session_id} {data:?}"),
        Action::Emit(SessionEvent::StatusChanged { session_id, status }) => {
            format!("emit status {session_id} {status:?}")
        }
        Action::Emit(SessionEvent::OutputAppended { session_id, output }) => {
            format!("emit output {session_id} {output}")
        }
        Action::Emit(SessionEvent::DiffUpdated { session_id, .. }) => {
            format!("emit diff {session_id}")
        }
        Action::Emit(SessionEvent::SessionCreated { session_id }) => {
            format!("emit created {session_id}")
        }
        Action::Emit(SessionEvent::SessionTerminated { session_id }) => {
            format!("emit terminated {session_id}")
        }
        Action::Emit(SessionEvent::Error { session_id, error }) => {
            format!("emit error {session_id} {error}")
        }
    }
}

fn shapes(actions: &[Action]) -> Vec<String> {
    actions.iter().map(shape).collect()
}

fn kind(result: &Result<Vec<Action>, SessionError>) -> String {
    match result {
        Ok(actions) => format!("{:?}", shapes(actions)),
        Err(e) => format!("{e:?}"),
    }
}

fn create_at(m: &mut SessionManager, id: &str, now: &str, repo: &str) {
    m.create_session_with(
        id.to_string(),
        now.to_string(),
        "project".to_string(),
        repo.to_string(),
        config("s", 10),
    )
    .unwrap();
    m.complete_create(id).unwrap();
}

fn manager_with(ids: &[&str]) -> SessionManager {
    let mut m = SessionManager::new("assistant".to_string(), 8);
    for (i, id) in ids.iter().enumerate() {
        create_at(&mut m, id, &format!("2024-01-01T00:00:0{i}+00:00"), "/home/u/repo");
    }
    m
}

#[test]
fn create_then_terminate() {
    let mut m = SessionManager::new("assistant".to_string(), 4);
    let mut cfg = config("s", 10);
    cfg.claude_args = vec!["--verbose".to_string()];
    let (id, actions) =
        m.create_session("project-9".to_string(), "/home/u/repo".to_string(), cfg).unwrap();
    assert_eq!(id.len(), 36);
    let head = &id[..8];
    let workspace = format!("/home/u/.session-workspaces/session-{head}");
    assert_eq!(
        shapes(&actions),
        vec![
            format!("create /home/u/repo {workspace} s-{head}"),
            format!("store {id} project-9 {workspace} s-{head} running false \"\""),
            format!("spawn {id} assistant [\"--verbose\"] {workspace}"),
        ]
    );
    match &actions[1] {
        Action::StoreSession(record) => {
            assert_eq!(record.created_at, record.updated_at);
            assert!(chrono::DateTime::parse_from_rfc3339(&record.created_at).is_ok());
        }
        other => panic!("{other:?}"),
    }
    assert_eq!(m.session_count(), 0);
    assert!(m.list_active_sessions(&Vec::new()).is_empty());

    let events = m.complete_create(&id).unwrap();
    assert_eq!(
        shapes(&events),
        vec![format!("emit created {id}"), format!("emit status {id} Running")]
    );
    assert_eq!(m.session_count(), 1);
    let listed = m.list_active_sessions(&Vec::new());
    assert_eq!(listed.len(), 1);
    assert_eq!(listed[0].id, id);
    assert_eq!(listed[0].status, SessionStatus::Running);
    assert_eq!(listed[0].worktree_path, workspace);
    assert_eq!(listed[0].branch_name, format!("s-{head}"));
    assert_eq!(listed[0].project_id, "project-9");
    assert_eq!(listed[0].project_path, "/home/u/repo");

    let actions = m.terminate_session(&id).unwrap();
    assert_eq!(
        shapes(&actions),
        vec![
            format!("kill {id}"),
            format!("remove /home/u/repo {workspace} s-{head}"),
            format!("persist {id} Terminated"),
            format!("emit status {id} Terminated"),
            format!("emit terminated {id}"),
        ]
    );
    assert_eq!(m.session_count(), 0);
    assert!(matches!(m.terminate_session(&id), Err(SessionError::NotFound)));
}

#[test]
fn the_cap_is_enforced() {
    for cap in 0usize..4 {
        let mut m = SessionManager::new("assistant".to_string(), cap);
        assert_eq!(m.max_concurrent_sessions(), cap);
        for _ in 0..cap {
            let (id, actions) =
                m.create_session("p".to_string(), "/home/u/repo".to_string(), config("s", 5)).unwrap();
            assert_eq!(actions.len(), 3);
            m.complete_create(&id).unwrap();
        }
        assert_eq!(m.session_count(), cap);
        let refused = m.create_session("p".to_string(), "/home/u/repo".to_string(), config("s", 5));
        assert!(matches!(refused, Err(SessionError::AtCapacity)));
        assert_eq!(m.session_count(), cap);
        let refused = m.create_session_with(
            "ffffffffffffffff".to_string(),
            "now".to_string(),
            "p".to_string(),
            "/home/u/repo".to_string(),
            config("s", 5),
        );
        assert!(matches!(refused, Err(SessionError::AtCapacity)));
    }
}

#[test]
fn creations_under_way_count_against_the_cap() {
    let mut m = SessionManager::new("assistant".to_string(), 2);
    let (a, _) = m.create_session("p".to_string(), "/r/x".to_string(), config("s", 5)).unwrap();
    let (_b, _) = m.create_session("p".to_string(), "/r/x".to_string(), config("s", 5)).unwrap();
    assert!(matches!(
        m.create_session("p".to_string(), "/r/x".to_string(), config("s", 5)),
        Err(SessionError::AtCapacity)
    ));
    assert!(m.abort_create(&a, CreateStage::Workspace).is_empty());
    assert!(m.create_session("p".to_string(), "/r/x".to_string(), config("s", 5)).is_ok());
    assert_eq!(m.session_count(), 0);
}

#[test]
fn a_place_is_free_again_after_terminate() {
    let mut m = SessionManager::new("assistant".to_string(), 1);
    create_at(&mut m, "aaaaaaaa11111111", "t0", "/r/x");
    assert!(matches!(
        m.create_session("p".to_string(), "/r/x".to_string(), config("s", 5)),
        Err(SessionError::AtCapacity)
    ));
    m.terminate_session("aaaaaaaa11111111").unwrap();
    assert!(m.create_session("p".to_string(), "/r/x".to_string(), config("s", 5)).is_ok());
}

#[test]
fn workspaces_and_branches_are_unique() {
    let mut m = SessionManager::new("assistant".to_string(), 8);
    create_at(&mut m, "aaaaaaaa11111111", "t0", "/home/u/repo");
    let same_id = m.create_session_with(
        "aaaaaaaa11111111".to_string(),
        "t1".to_string(),
        "p".to_string(),
        "/elsewhere/repo".to_string(),
        config("other", 5),
    );
    match same_id {
        Err(SessionError::VcsCreateFailed(text)) => {
            assert_eq!(text, "Workspace or branch already in use")
        }
        other => panic!("{}", kind(&other)),
    }
    let same_workspace = m.create_session_with(
        "aaaaaaaa22222222".to_string(),
        "t1".to_string(),
        "p".to_string(),
        "/home/u/repo".to_string(),
        config("other", 5),
    );
    assert!(matches!(same_workspace, Err(SessionError::VcsCreateFailed(_))));
    let same_branch = m.create_session_with(
        "aaaaaaaa33333333".to_string(),
        "t1".to_string(),
        "p".to_string(),
        "/elsewhere/repo".to_string(),
        config("s", 5),
    );
    assert!(matches!(same_branch, Err(SessionError::VcsCreateFailed(_))));
    let fine = m.create_session_with(
        "aaaaaaaa44444444".to_string(),
        "t1".to_string(),
        "p".to_string(),
        "/elsewhere/repo".to_string(),
        config("other", 5),
    );
    assert!(fine.is_ok());
    let pending_clash = m.create_session_with(
        "aaaaaaaa55555555".to_string(),
        "t1".to_string(),
        "p".to_string(),
        "/elsewhere/repo".to_string(),
        config("third", 5),
    );
    assert!(matches!(pending_clash, Err(SessionError::VcsCreateFailed(_))));
    assert_eq!(m.session_count(), 1);

    let mut many = SessionManager::new("assistant".to_string(), 50);
    for _ in 0..50 {
        let (id, _) =
            many.create_session("p".to_string(), "/home/u/repo".to_string(), config("s", 5)).unwrap();
        many.complete_create(&id).unwrap();
    }
    let listed = many.list_active_sessions(&Vec::new());
    for i in 0..listed.len() {
        assert!(!listed[i].worktree_path.is_empty());
        assert!(!listed[i].branch_name.is_empty());
        for j in 0..i {
            assert_ne!(listed[i].worktree_path, listed[j].worktree_path);
            assert_ne!(listed[i].branch_name, listed[j].branch_name);
            assert_ne!(listed[i].id, listed[j].id);
        }
    }
}

#[test]
fn a_failed_creation_tears_the_workspace_down() {
    let mut m = SessionManager::new("assistant".to_string(), 4);
    for (stage, torn_down) in [
        (CreateStage::Workspace, false),
        (CreateStage::Persist, true),
        (CreateStage::Spawn, true),
    ] {
        m.create_session_with(
            "bbbbbbbb11111111".to_string(),
            "t".to_string(),
            "p".to_string(),
            "/home/u/repo".to_string(),
            config("s", 5),
        )
        .unwrap();
        let actions = m.abort_create("bbbbbbbb11111111", stage);
        if torn_down {
            assert_eq!(
                shapes(&actions),
                vec!["remove /home/u/repo /home/u/.session-workspaces/session-bbbbbbbb s-bbbbbbbb"]
            );
        } else {
            assert!(actions.is_empty());
        }
        assert_eq!(m.session_count(), 0);
        assert!(matches!(m.complete_create("bbbbbbbb11111111"), Err(SessionError::NotFound)));
    }
    assert!(m.abort_create("nobody", CreateStage::Spawn).is_empty());
}

#[test]
fn completing_an_unknown_creation_fails() {
    let mut m = manager_with(&["aaaaaaaa11111111"]);
    assert!(matches!(m.complete_create("aaaaaaaa11111111"), Err(SessionError::NotFound)));
    assert!(matches!(m.complete_create("zzzzzzzz"), Err(SessionError::NotFound)));
    assert_eq!(m.session_count(), 1);
}

#[test]
fn pause_commits_then_kills() {
    let mut m = manager_with(&["aaaaaaaa11111111"]);
    let actions = m.pause_session("aaaaaaaa11111111").unwrap();
    assert_eq!(
        shapes(&actions),
        vec!["commit /home/u/.session-workspaces/session-aaaaaaaa \"WIP: Pausing session\""]
    );
    assert_eq!(m.list_active_sessions(&Vec::new())[0].status, SessionStatus::Running);
    let actions = m.complete_pause("aaaaaaaa11111111").unwrap();
    assert_eq!(
        shapes(&actions),
        vec![
            "kill aaaaaaaa11111111",
            "persist aaaaaaaa11111111 Paused",
            "emit status aaaaaaaa11111111 Paused",
        ]
    );
    assert_eq!(m.list_active_sessions(&Vec::new())[0].status, SessionStatus::Paused);
    assert!(matches!(m.send_input("aaaaaaaa11111111", "x"), Err(SessionError::NotRunning)));
    let again = m.complete_pause("aaaaaaaa11111111").unwrap();
    assert_eq!(
        shapes(&again),
        vec!["persist aaaaaaaa11111111 Paused", "emit status aaaaaaaa11111111 Paused"]
    );
    assert!(matches!(m.pause_session("nobody"), Err(SessionError::NotFound)));
    assert!(matches!(m.complete_pause("nobody"), Err(SessionError::NotFound)));
}

#[test]
fn resume_needs_a_paused_session() {
    let mut m = manager_with(&["aaaaaaaa11111111"]);
    assert!(matches!(m.resume_session("aaaaaaaa11111111"), Err(SessionError::NotPaused)));
    assert!(matches!(m.complete_resume("aaaaaaaa11111111"), Err(SessionError::NotPaused)));
    for line in ["Ready", "Working", "Running", "Done"] {
        m.record_stdout("aaaaaaaa11111111", line.to_string());
        assert!(matches!(m.resume_session("aaaaaaaa11111111"), Err(SessionError::NotPaused)));
        assert!(matches!(m.complete_resume("aaaaaaaa11111111"), Err(SessionError::NotPaused)));
    }
    m.record_stderr("aaaaaaaa11111111", "FATAL".to_string());
    assert!(matches!(m.resume_session("aaaaaaaa11111111"), Err(SessionError::NotPaused)));
    assert!(matches!(m.resume_session("nobody"), Err(SessionError::NotFound)));
    assert!(matches!(m.complete_resume("nobody"), Err(SessionError::NotFound)));
    assert_eq!(m.list_active_sessions(&Vec::new())[0].status, SessionStatus::Error);
}

#[test]
fn resume_restarts_the_child() {
    let mut m = manager_with(&["aaaaaaaa11111111"]);
    m.pause_session("aaaaaaaa11111111").unwrap();
    m.complete_pause("aaaaaaaa11111111").unwrap();
    let actions = m.resume_session("aaaaaaaa11111111").unwrap();
    assert_eq!(
        shapes(&actions),
        vec!["spawn aaaaaaaa11111111 assistant [] /home/u/.session-workspaces/session-aaaaaaaa"]
    );
    assert_eq!(m.list_active_sessions(&Vec::new())[0].status, SessionStatus::Paused);
    let actions = m.complete_resume("aaaaaaaa11111111").unwrap();
    assert_eq!(
        shapes(&actions),
        vec!["persist aaaaaaaa11111111 Running", "emit status aaaaaaaa11111111 Running"]
    );
    assert_eq!(m.list_active_sessions(&Vec::new())[0].status, SessionStatus::Running);
    assert!(m.send_input("aaaaaaaa11111111", "go").is_ok());
}

#[test]
fn input_goes_to_running_sessions_only() {
    let mut m = manager_with(&["aaaaaaaa11111111"]);
    let actions = m.send_input("aaaaaaaa11111111", "yes").unwrap();
    assert_eq!(shapes(&actions), vec!["write aaaaaaaa11111111 \"yes\\n\""]);
    assert!(matches!(m.send_input("nobody", "yes"), Err(SessionError::NotFound)));
    m.record_stdout("aaaaaaaa11111111", "Done".to_string());
    assert!(matches!(m.send_input("aaaaaaaa11111111", "yes"), Err(SessionError::Terminal)));
    assert!(matches!(m.pause_session("aaaaaaaa11111111"), Err(SessionError::Terminal)));
    assert!(matches!(m.complete_pause("aaaaaaaa11111111"), Err(SessionError::Terminal)));
    assert!(matches!(m.get_session_diff("aaaaaaaa11111111"), Err(SessionError::Terminal)));
    assert!(matches!(
        m.update_session_config("aaaaaaaa11111111", config("s", 1)),
        Err(SessionError::Terminal)
    ));
    assert!(m.get_session_output("aaaaaaaa11111111", 5).is_ok());
    assert_eq!(m.list_active_sessions(&Vec::new()).len(), 1);
    assert!(m.terminate_session("aaaaaaaa11111111").is_ok());
}

#[test]
fn output_of_a_session() {
    let mut m = manager_with(&["aaaaaaaa11111111"]);
    for line in ["one", "two", "three"] {
        m.record_stdout("aaaaaaaa11111111", line.to_string());
    }
    m.record_stderr("aaaaaaaa11111111", "oops".to_string());
    assert_eq!(
        m.get_session_output("aaaaaaaa11111111", 2).unwrap(),
        vec!["three".to_string(), "[ERROR] oops".to_string()]
    );
    assert_eq!(m.get_session_output("aaaaaaaa11111111", 100).unwrap().len(), 4);
    assert!(matches!(m.get_session_output("nobody", 2), Err(SessionError::NotFound)));
}

#[test]
fn lines_of_the_child_are_recorded() {
    let mut m = manager_with(&["aaaaaaaa11111111"]);
    let actions = m.record_stdout("aaaaaaaa11111111", "Ready for input".to_string());
    assert_eq!(
        shapes(&actions),
        vec![
            "persist aaaaaaaa11111111 Ready",
            "emit status aaaaaaaa11111111 Ready",
            "emit output aaaaaaaa11111111 Ready for input",
        ]
    );
    let actions = m.record_stdout("aaaaaaaa11111111", "plain".to_string());
    assert_eq!(shapes(&actions), vec!["emit output aaaaaaaa11111111 plain"]);
    let actions = m.record_stderr("aaaaaaaa11111111", "just a warning".to_string());
    assert!(actions.is_empty());
    let actions = m.record_stderr("aaaaaaaa11111111", "FATAL: boom".to_string());
    assert_eq!(
        shapes(&actions),
        vec![
            "persist aaaaaaaa11111111 Error",
            "emit status aaaaaaaa11111111 Error",
            "emit error aaaaaaaa11111111 FATAL: boom",
        ]
    );
    let info = &m.list_active_sessions(&Vec::new())[0];
    assert_eq!(info.status, SessionStatus::Error);
    assert_eq!(
        info.output_preview,
        "Ready for input\nplain\n[ERROR] just a warning\n[ERROR] FATAL: boom"
    );
    assert!(m.record_stdout("nobody", "Ready".to_string()).is_empty());
    assert!(m.record_stderr("nobody", "FATAL".to_string()).is_empty());
}

#[test]
fn lines_of_a_session_under_creation_are_dropped() {
    let mut m = SessionManager::new("assistant".to_string(), 2);
    m.create_session_with(
        "cccccccc11111111".to_string(),
        "t".to_string(),
        "p".to_string(),
        "/r/x".to_string(),
        config("s", 5),
    )
    .unwrap();
    assert!(m.record_stdout("cccccccc11111111", "Ready".to_string()).is_empty());
    assert!(matches!(m.send_input("cccccccc11111111", "x"), Err(SessionError::NotFound)));
    assert!(matches!(m.terminate_session("cccccccc11111111"), Err(SessionError::NotFound)));
}

#[test]
fn diff_is_taken_in_the_workspace_of_the_session() {
    let m = manager_with(&["aaaaaaaa11111111"]);
    let wt = m.get_session_diff("aaaaaaaa11111111").unwrap();
    assert_eq!(wt.repo_path, "/home/u/repo");
    assert_eq!(wt.worktree_path, "/home/u/.session-workspaces/session-aaaaaaaa");
    assert_eq!(wt.branch_name, "s-aaaaaaaa");
    assert!(matches!(m.get_session_diff("nobody"), Err(SessionError::NotFound)));
}

#[test]
fn only_the_auto_yes_flag_can_be_changed() {
    let mut m = manager_with(&["aaaaaaaa11111111"]);
    let mut wanted = config("other-prefix", 99);
    wanted.auto_yes = true;
    wanted.claude_args = vec!["--new".to_string()];
    let actions = m.update_session_config("aaaaaaaa11111111", wanted).unwrap();
    assert_eq!(shapes(&actions), vec!["flag aaaaaaaa11111111 true"]);
    let info = &m.list_active_sessions(&Vec::new())[0];
    assert!(info.auto_yes);
    assert_eq!(info.branch_name, "s-aaaaaaaa");
    m.complete_pause("aaaaaaaa11111111").unwrap();
    let relaunch = m.resume_session("aaaaaaaa11111111").unwrap();
    assert_eq!(
        shapes(&relaunch),
        vec!["spawn aaaaaaaa11111111 assistant [] /home/u/.session-workspaces/session-aaaaaaaa"]
    );
    let actions = m.update_session_config("aaaaaaaa11111111", config("s", 1)).unwrap();
    assert_eq!(shapes(&actions), vec!["flag aaaaaaaa11111111 false"]);
    assert!(!m.list_active_sessions(&Vec::new())[0].auto_yes);
    assert!(matches!(
        m.update_session_config("nobody", config("s", 1)),
        Err(SessionError::NotFound)
    ));
}

#[test]
fn sessions_are_listed_latest_first() {
    let mut m = SessionManager::new("assistant".to_string(), 8);
    create_at(&mut m, "aaaaaaaa00000000", "2024-03-01T10:00:00+00:00", "/r/x");
    create_at(&mut m, "bbbbbbbb00000000", "2024-03-01T12:00:00+00:00", "/r/x");
    create_at(&mut m, "cccccccc00000000", "2024-02-28T23:59:59+00:00", "/r/x");
    create_at(&mut m, "dddddddd00000000", "2024-03-01T12:00:00+00:00", "/r/x");
    create_at(&mut m, "eeeeeeee00000000", "2024-03-01T12:00:00.250+00:00", "/r/x");
    assert_eq!(
        m.session_ids(),
        vec![
            "aaaaaaaa00000000",
            "bbbbbbbb00000000",
            "cccccccc00000000",
            "dddddddd00000000",
            "eeeeeeee00000000"
        ]
    );
    assert_eq!(m.listing_order(), vec![4, 1, 3, 0, 2]);
    let diffs = vec![
        ("cccccccc00000000".to_string(), DiffStats { files_changed: 1, insertions: 2, deletions: 3 }),
        ("cccccccc00000000".to_string(), DiffStats { files_changed: 9, insertions: 9, deletions: 9 }),
        ("unknown".to_string(), DiffStats { files_changed: 5, insertions: 5, deletions: 5 }),
    ];
    let listed = m.list_active_sessions(&diffs);
    let ids: Vec<&str> = listed.iter().map(|i| i.id.as_str()).collect();
    assert_eq!(
        ids,
        vec![
            "eeeeeeee00000000",
            "bbbbbbbb00000000",
            "dddddddd00000000",
            "aaaaaaaa00000000",
            "cccccccc00000000"
        ]
    );
    for pair in listed.windows(2) {
        assert!(pair[0].created_at >= pair[1].created_at);
    }
    assert_eq!(listed[4].diff_stats, Some(DiffStats { files_changed: 1, insertions: 2, deletions: 3 }));
    for info in &listed[..4] {
        assert_eq!(info.diff_stats, None);
    }
}

#[test]
fn the_manager_has_the_default_responder() {
    let m = SessionManager::new("assistant".to_string(), 1);
    assert_eq!(m.auto_yes_manager().patterns.len(), 4);
    assert_eq!(m.auto_yes_manager().poll_interval_secs, 2);
}

#[test]
fn auto_yes_answers_a_ready_session() {
    let mut m = SessionManager::new("assistant".to_string(), 2);
    let mut cfg = config("s", 10);
    cfg.auto_yes = true;
    m.create_session_with(
        "aaaaaaaa11111111".to_string(),
        "t".to_string(),
        "p".to_string(),
        "/r/x".to_string(),
        cfg,
    )
    .unwrap();
    m.complete_create("aaaaaaaa11111111").unwrap();
    m.record_stdout("aaaaaaaa11111111", "Ready".to_string());
    m.record_stdout("aaaaaaaa11111111", "Continue?".to_string());
    let infos = m.list_active_sessions(&Vec::new());
    let replies = m.auto_yes_manager().check_all_sessions(&infos);
    assert_eq!(replies.len(), 1);
    let actions = m.send_input(&replies[0].session_id, &replies[0].response).unwrap();
    assert_eq!(shapes(&actions), vec!["write aaaaaaaa11111111 \"yes\\n\""]);
}

#[test]
fn error_messages() {
    let cases = [
        (SessionError::NotFound, "Session not found"),
        (SessionError::AtCapacity, "Maximum concurrent sessions reached"),
        (SessionError::NotARepo("/x".to_string()), "Not a git repository: /x"),
        (SessionError::VcsCreateFailed("a".to_string()), "Failed to create worktree: a"),
        (SessionError::VcsRemoveFailed("b".to_string()), "Failed to remove worktree: b"),
        (SessionError::VcsCommitFailed("c".to_string()), "Failed to commit: c"),
        (SessionError::FilesystemFailed, "Failed to create worktree parent directory"),
        (SessionError::SpawnFailed, "Failed to spawn session process"),
        (SessionError::InputFailed, "Failed to write to process stdin"),
        (SessionError::NotRunning, "Session process not running"),
        (SessionError::NotPaused, "Session is not paused"),
        (SessionError::Terminal, "Session is completed or terminated"),
        (SessionError::PersistFailed, "Failed to update session store"),
    ];
    for (error, text) in cases {
        assert_eq!(error.message(), text);
    }
}
