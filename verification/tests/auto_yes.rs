use multi_session::auto_yes::{AutoYesManager, MonitorAction, MonitorEvent};
use multi_session::events::SessionInfo;
use multi_session::session::SessionStatus;

fn info(id: &str, auto_yes: bool, status: SessionStatus, preview: &str) -> SessionInfo {
    SessionInfo {
        id: id.to_string(),
        project_id: "p".to_string(),
        project_path: "/r".to_string(),
        worktree_path: "/w".to_string(),
        branch_name: "b".to_string(),
        status,
        created_at: "2024-01-01T00:00:00+00:00".to_string(),
        updated_at: "2024-01-01T00:00:00+00:00".to_string(),
        auto_yes,
        output_preview: preview.to_string(),
        diff_stats: None,
    }
}

fn reply_to(manager: &AutoYesManager, output: &str) -> Option<String> {
    manager.detect_prompt(output).map(|p| p.response.clone())
}

#[test]
fn default_prompt_table() {
    let m = AutoYesManager::new();
    assert_eq!(m.poll_interval_secs, 2);
    let table: Vec<(&str, &str, &str)> = m
        .patterns
        .iter()
        .map(|p| (p.pattern.as_str(), p.response.as_str(), p.description.as_str()))
        .collect();
    assert_eq!(
        table,
        vec![
            (
                r"(?i)(continue|proceed|yes/no|y/n)\s*[?:]?\s*$",
                "yes",
                "General confirmation prompts"
            ),
            (r"(?i)press enter to continue", "", "Press enter prompts"),
            (r"(?i)would you like to", "yes", "Would you like prompts"),
            (r"(?i)is this correct", "yes", "Confirmation prompts"),
        ]
    );
    for p in &m.patterns {
        assert!(regex::Regex::new(&p.pattern).is_ok());
    }
}

#[test]
fn continue_prompt_is_answered_with_yes() {
    let m = AutoYesManager::new();
    assert_eq!(reply_to(&m, "Continue?"), Some("yes".to_string()));
    assert_eq!(reply_to(&m, "Do you want to proceed: "), Some("yes".to_string()));
    assert_eq!(reply_to(&m, "Apply changes (y/n)"), None);
    assert_eq!(reply_to(&m, "Apply changes y/n ?  "), Some("yes".to_string()));
    assert_eq!(reply_to(&m, "Overwrite [YES/NO]:"), None);
    assert_eq!(reply_to(&m, "Overwrite YES/NO:"), Some("yes".to_string()));
}

#[test]
fn other_default_prompts() {
    let m = AutoYesManager::new();
    assert_eq!(reply_to(&m, "Press ENTER to continue..."), Some("".to_string()));
    assert_eq!(reply_to(&m, "Would you like to save the file first"), Some("yes".to_string()));
    assert_eq!(reply_to(&m, "Is this correct (check the path)"), Some("yes".to_string()));
    assert_eq!(reply_to(&m, "Compiling..."), None);
    assert_eq!(reply_to(&m, ""), None);
    assert_eq!(reply_to(&m, "\n\n"), None);
}

#[test]
fn only_the_last_five_lines_are_scanned() {
    let m = AutoYesManager::new();
    assert_eq!(reply_to(&m, "Continue?\n1\n2\n3\n4"), Some("yes".to_string()));
    assert_eq!(reply_to(&m, "Continue?\n1\n2\n3\n4\n5"), None);
    assert_eq!(reply_to(&m, "Continue?\n1\n2\n3\n4\n"), Some("yes".to_string()));
}

#[test]
fn the_newest_line_decides_before_older_ones() {
    let m = AutoYesManager::new();
    assert_eq!(reply_to(&m, "continue?\npress enter to continue now"), Some("".to_string()));
    assert_eq!(reply_to(&m, "press enter to continue now\ncontinue?"), Some("yes".to_string()));
}

#[test]
fn the_first_pattern_decides_within_a_line() {
    let mut m = AutoYesManager::new();
    assert_eq!(reply_to(&m, "press enter to continue"), Some("yes".to_string()));
    m.add_pattern("needle", "first", "one").unwrap();
    m.add_pattern("need", "second", "two").unwrap();
    assert_eq!(reply_to(&m, "a needle in a haystack"), Some("first".to_string()));
    assert_eq!(reply_to(&m, "I need this"), Some("second".to_string()));
    let found = m.detect_prompt("a needle").unwrap();
    assert_eq!(found.description, "one");
    assert_eq!(found.pattern, "needle");
}

#[test]
fn patterns_can_be_added_at_run_time() {
    let mut m = AutoYesManager::new();
    assert!(m.add_pattern(r"^\[sudo\] password", "hunter2", "Password prompts").is_ok());
    assert_eq!(m.patterns.len(), 5);
    assert_eq!(m.patterns[4].pattern, r"^\[sudo\] password");
    assert_eq!(m.patterns[4].response, "hunter2");
    assert_eq!(m.patterns[4].description, "Password prompts");
    assert_eq!(reply_to(&m, "[sudo] password for u:"), Some("hunter2".to_string()));
    assert_eq!(m.poll_interval_secs, 2);
}

#[test]
fn an_invalid_pattern_is_refused() {
    let mut m = AutoYesManager::new();
    let error = m.add_pattern("foo(bar", "x", "broken").unwrap_err();
    assert_eq!(error.pattern, "foo(bar");
    assert!(!error.reason.is_empty());
    assert_eq!(m.patterns.len(), 4);
    let too_big = m.add_pattern(r"\w{1000}", "x", "too big").unwrap_err();
    assert_eq!(too_big.pattern, r"\w{1000}");
    assert_eq!(m.patterns.len(), 4);
}

#[test]
fn a_pattern_that_does_not_compile_matches_nothing() {
    let mut m = AutoYesManager::new();
    m.patterns.insert(
        0,
        multi_session::auto_yes::PromptPattern {
            pattern: "(".to_string(),
            response: "never".to_string(),
            description: "broken".to_string(),
        },
    );
    assert_eq!(reply_to(&m, "Continue?"), Some("yes".to_string()));
    assert_eq!(reply_to(&m, "("), None);
}

#[test]
fn select_pattern_takes_the_first_hit_of_the_first_row_with_one() {
    let pick = |rows: &[&[bool]]| {
        let table: Vec<Vec<bool>> = rows.iter().map(|r| r.to_vec()).collect();
        AutoYesManager::select_pattern(&table)
    };
    assert_eq!(pick(&[]), None);
    assert_eq!(pick(&[&[]]), None);
    assert_eq!(pick(&[&[false, false], &[false, false]]), None);
    assert_eq!(pick(&[&[false, true], &[true, false]]), Some(1));
    assert_eq!(pick(&[&[false, false], &[false, true, true]]), Some(1));
    assert_eq!(pick(&[&[true, true]]), Some(0));
    assert_eq!(pick(&[&[], &[false], &[false, false, true]]), Some(2));
}

#[test]
fn dangerous_prompts_are_not_safe() {
    assert!(!AutoYesManager::is_safe_prompt("Delete all files? (y/n)"));
    for word in [
        "delete",
        "remove",
        "force",
        "overwrite",
        "destructive",
        "permanent",
        "cannot be undone",
        "are you sure",
    ] {
        assert!(!AutoYesManager::is_safe_prompt(word), "{word:?}");
        assert!(!AutoYesManager::is_safe_prompt(&word.to_uppercase()), "{word:?}");
        let mixed: String = word
            .chars()
            .enumerate()
            .map(|(i, c)| if i % 2 == 0 { c.to_ascii_uppercase() } else { c })
            .collect();
        assert!(!AutoYesManager::is_safe_prompt(&format!("xx {mixed} yy")), "{mixed:?}");
    }
    assert!(!AutoYesManager::is_safe_prompt("This is PERMANENTLY lost"));
    assert!(!AutoYesManager::is_safe_prompt("git push --force\nContinue?"));
}

#[test]
fn harmless_prompts_are_safe() {
    for text in ["", "Continue?", "Would you like to save", "del ete", "cannot be  undone", "sure"] {
        assert!(AutoYesManager::is_safe_prompt(text), "{text:?}");
    }
}

#[test]
fn replies_go_to_ready_sessions_that_asked_for_them() {
    let m = AutoYesManager::new();
    let sessions = vec![
        info("a", true, SessionStatus::Ready, "building\nContinue?"),
        info("b", false, SessionStatus::Ready, "Continue?"),
        info("c", true, SessionStatus::Running, "Continue?"),
        info("d", true, SessionStatus::Ready, "nothing to see"),
        info("e", true, SessionStatus::Ready, "Press enter to continue..."),
        info("f", true, SessionStatus::Paused, "Continue?"),
    ];
    let replies = m.check_all_sessions(&sessions);
    let pairs: Vec<(&str, &str)> =
        replies.iter().map(|r| (r.session_id.as_str(), r.response.as_str())).collect();
    assert_eq!(pairs, vec![("a", "yes"), ("e", "")]);
    assert!(m.check_all_sessions(&Vec::new()).is_empty());
}

#[test]
fn the_monitor_replies_on_ticks_and_stops_on_shutdown() {
    let m = AutoYesManager::new();
    let tick = MonitorEvent::Tick(vec![info("a", true, SessionStatus::Ready, "Continue?")]);
    match m.start_monitoring(tick) {
        MonitorAction::Reply(replies) => {
            assert_eq!(replies.len(), 1);
            assert_eq!(replies[0].session_id, "a");
            assert_eq!(replies[0].response, "yes");
        }
        other => panic!("{other:?}"),
    }
    assert!(matches!(m.start_monitoring(MonitorEvent::Shutdown), MonitorAction::Stop));
    match m.start_monitoring(MonitorEvent::Tick(Vec::new())) {
        MonitorAction::Reply(replies) => assert!(replies.is_empty()),
        other => panic!("{other:?}"),
    }
}

fn safe_by_patterns(output: &str) -> bool {
    let patterns = [
        r"(?i)delete",
        r"(?i)remove",
        r"(?i)force",
        r"(?i)overwrite",
        r"(?i)destructive",
        r"(?i)permanent",
        r"(?i)cannot be undone",
        r"(?i)are you sure",
    ];
    for pattern in patterns {
        if let Ok(re) = regex::Regex::new(pattern) {
            if re.is_match(output) {
                return false;
            }
        }
    }
    true
}

#[test]
fn the_guard_agrees_with_its_patterns() {
    let texts = [
        "",
        "Delete all files? (y/n)",
        "DELETE",
        "dElEtE",
        "de lete",
        "This will remove the branch",
        "forced",
        "Force-push?",
        "OverWrite existing file",
        "a de\u{17f}tructive change",
        "DE\u{17f}TRUCTIVE",
        "permanent",
        "This cannot be undone.",
        "This cannot  be undone.",
        "Are You Sure?",
        "are you \u{17f}ure",
        "Continue?",
        "Would you like to proceed",
        "rem\u{f6}ve",
        "line one\nplease REMOVE this\nline three",
    ];
    for text in texts {
        assert_eq!(AutoYesManager::is_safe_prompt(text), safe_by_patterns(text), "{text:?}");
    }
    assert!(!AutoYesManager::is_safe_prompt("a de\u{17f}tructive change"));
}
