use cc_session::prompts::extract_prompts;
use cc_session::scriptable::{parse_selection, scriptable_matches};
use cc_session::session::Session;
use cc_session::tui::{handle_input, Action, App, DetailButton, Key, Mode};

const NOW: i64 = 1_800_000_000_000;

fn picker_session(id: &str, name: &str, branch: Option<&str>, msg: &str, ts: i64) -> Session {
    Session {
        id: id.to_string(),
        project_path: format!("/home/user/{}", name),
        project_name: name.to_string(),
        git_branch: branch.map(|b| b.to_string()),
        timestamp: ts,
        first_message: msg.to_string(),
        cwd: format!("/home/user/{}", name),
        project_exists: false,
    }
}

fn picker_sessions() -> Vec<Session> {
    vec![
        picker_session("s1", "alpha", Some("main"), "Fix the flaky test", NOW - 1000),
        picker_session("s2", "beta", Some("feat-oauth"), "Add OAuth2 support", NOW - 2000),
        picker_session("s3", "gamma", None, "Refactor the parser", NOW - 3000),
    ]
}

#[test]
fn new_app_starts_browsing_everything() {
    let app = App::new(picker_sessions());
    assert!(matches!(app.mode, Mode::Browsing));
    assert_eq!(app.filtered_indices, vec![0, 1, 2]);
    assert_eq!(app.selected, 0);
    assert_eq!(app.scroll_offset, 0);
    assert!(app.status_message.is_none());
    assert!(app.detail.is_none());
}

#[test]
fn selection_moves_and_saturates() {
    let mut app = App::new(picker_sessions());
    app.move_down();
    app.move_down();
    assert_eq!(app.selected, 2);
    app.move_down();
    assert_eq!(app.selected, 2, "no wraparound at the bottom");
    app.move_up();
    app.move_up();
    app.move_up();
    assert_eq!(app.selected, 0, "no wraparound at the top");
}

#[test]
fn interrupt_key_always_quits() {
    let mut app = App::new(picker_sessions());
    assert!(matches!(handle_input(&mut app, Key::CtrlC), Action::Quit));
    app.mode = Mode::Filtering;
    assert!(matches!(handle_input(&mut app, Key::CtrlC), Action::Quit));
}

#[test]
fn filtering_flow_narrows_and_cancels() {
    let mut app = App::new(picker_sessions());
    assert!(matches!(handle_input(&mut app, Key::Char('/')), Action::Continue));
    assert!(matches!(app.mode, Mode::Filtering));
    assert_eq!(app.filter_query, "");
    for c in "beta".chars() {
        handle_input(&mut app, Key::Char(c));
    }
    assert_eq!(app.filter_query, "beta");
    assert_eq!(app.filtered_indices, vec![1], "only the beta session matches");
    assert_eq!(app.selected, 0);
    handle_input(&mut app, Key::Backspace);
    assert_eq!(app.filter_query, "bet");
    assert!(matches!(handle_input(&mut app, Key::Esc), Action::Continue));
    assert!(matches!(app.mode, Mode::Browsing));
    assert_eq!(app.filter_query, "");
    assert_eq!(app.filtered_indices, vec![0, 1, 2], "cancel restores the identity order");
}

#[test]
fn deep_search_needs_a_query() {
    let mut app = App::new(picker_sessions());
    app.mode = Mode::Filtering;
    assert!(matches!(handle_input(&mut app, Key::CtrlG), Action::Continue));
    for c in "oauth".chars() {
        handle_input(&mut app, Key::Char(c));
    }
    match handle_input(&mut app, Key::CtrlG) {
        Action::DeepSearch(q) => assert_eq!(q, "oauth"),
        _ => panic!("a non-empty query should request a deep search"),
    }
}

#[test]
fn confirm_enters_detail_and_copy_emits_resume_command() {
    let mut app = App::new(picker_sessions());
    app.move_down();
    let idx = match handle_input(&mut app, Key::Enter) {
        Action::EnterDetail(idx) => idx,
        _ => panic!("confirm should drill into the selection"),
    };
    assert_eq!(idx, 1);
    app.enter_detail(idx, Vec::new());
    assert!(matches!(app.mode, Mode::Detail));
    let d = app.detail.as_ref().unwrap();
    assert_eq!(d.session_idx, 1);
    assert!(matches!(d.focused_button, DetailButton::CopyAndExit));
    match handle_input(&mut app, Key::Enter) {
        Action::CopyCommand(cmd) => {
            assert_eq!(cmd, "cd '/home/user/beta' && resume s2");
        },
        _ => panic!("confirm in detail should emit the resume command"),
    }
    assert!(matches!(handle_input(&mut app, Key::Esc), Action::BackToList));
    app.leave_detail();
    assert!(matches!(app.mode, Mode::Browsing));
    assert!(app.detail.is_none());
}

#[test]
fn deep_search_results_replace_the_list() {
    let mut app = App::new(picker_sessions());
    app.mode = Mode::Filtering;
    let results = vec![
        picker_session("r1", "delta", None, "Found one", NOW - 10),
        picker_session("r2", "delta", None, "Found two", NOW - 20),
    ];
    app.apply_search_results(results, "delta", NOW);
    assert!(matches!(app.mode, Mode::Browsing));
    assert_eq!(app.sessions.len(), 2);
    assert_eq!(app.filtered_indices, vec![0, 1]);
    assert_eq!(app.filter_query, "");
    let (msg, at) = app.status_message.clone().unwrap();
    assert_eq!(msg, "Deep search: 2 sessions match \"delta\"");
    assert_eq!(at, NOW);
}

#[test]
fn empty_deep_search_keeps_the_list() {
    let mut app = App::new(picker_sessions());
    app.mode = Mode::Filtering;
    app.apply_search_results(Vec::new(), "zzz", NOW);
    assert!(matches!(app.mode, Mode::Browsing));
    assert_eq!(app.sessions.len(), 3, "an empty deep search leaves the list unchanged");
    let (msg, _) = app.status_message.clone().unwrap();
    assert_eq!(msg, "No sessions match \"zzz\"");
}

#[test]
fn status_message_expires_after_timeout() {
    let mut app = App::new(picker_sessions());
    app.set_status("copied".to_string(), 1000);
    app.tick_status(4000);
    assert!(app.status_message.is_some(), "still visible at the timeout boundary");
    app.tick_status(4001);
    assert!(app.status_message.is_none(), "cleared once the timeout has passed");
}

#[test]
fn scroll_window_follows_the_selection() {
    let many: Vec<Session> = (0..20)
        .map(|i| picker_session(&format!("s{}", i), "proj", None, "msg", NOW - i as i64))
        .collect();
    let mut app = App::new(many);
    for _ in 0..10 {
        app.move_down();
    }
    app.ensure_visible(5);
    assert_eq!(app.scroll_offset, 6, "window moves down just enough");
    for _ in 0..9 {
        app.move_up();
    }
    app.ensure_visible(5);
    assert_eq!(app.scroll_offset, 1, "window moves up just enough");
    app.move_down();
    app.ensure_visible(5);
    assert_eq!(app.scroll_offset, 1, "no adjustment while the selection is visible");
}

#[test]
fn detail_view_pins_to_newest_prompts() {
    let mut app = App::new(picker_sessions());
    let prompts = (0..30)
        .map(|i| cc_session::session::UserPrompt {
            text: format!("prompt {}", i),
            timestamp: NOW - i as i64,
            uuid: None,
        })
        .collect();
    app.enter_detail(0, prompts);
    app.ensure_visible(10);
    assert_eq!(app.detail.as_ref().unwrap().scroll_offset, 20);
}

#[test]
fn prompt_tail_keeps_the_last_entries_in_order() {
    let lines = vec![
        r#"{"type":"user","timestamp":"2025-03-10T10:00:00.000Z","message":{"role":"user","content":"first question"},"uuid":"u1"}"#.to_string(),
        r#"{"type":"assistant","timestamp":"2025-03-10T10:00:05.000Z","message":{"role":"assistant","content":"an answer"},"uuid":"a1"}"#.to_string(),
        r#"{"type":"user","timestamp":"2025-03-10T10:01:00.000Z","message":{"role":"user","content":"<command-message></command-message>"},"uuid":"u2"}"#.to_string(),
        r#"{"type":"user","timestamp":"2025-03-10T10:02:00.000Z","message":{"role":"user","content":"second question"},"uuid":"u3"}"#.to_string(),
        r#"{"type":"user","timestamp":"2025-03-10T10:03:00.000Z","message":{"role":"user","content":"third question"},"uuid":"u4"}"#.to_string(),
    ];
    let all = extract_prompts(&lines, 20, NOW);
    assert_eq!(all.len(), 3, "meta and assistant entries yield no prompts");
    assert_eq!(all[0].text, "first question");
    let tail = extract_prompts(&lines, 2, NOW);
    assert_eq!(tail.len(), 2);
    assert_eq!(tail[0].text, "second question");
    assert_eq!(tail[1].text, "third question");
    assert_eq!(tail[1].uuid.as_deref(), Some("u4"));
}

#[test]
fn scriptable_matches_follow_the_query() {
    let sessions = picker_sessions();
    let all = scriptable_matches(&sessions, "");
    assert_eq!(all, vec![0, 1, 2], "an empty query offers every session in order");
    let hits = scriptable_matches(&sessions, "beta");
    assert_eq!(hits, vec![1]);
}

#[test]
fn menu_selection_accepts_only_valid_numbers() {
    assert_eq!(parse_selection("2", 5), Some(2));
    assert_eq!(parse_selection(" 3 ", 5), Some(3));
    assert_eq!(parse_selection("+4", 5), Some(4));
    assert_eq!(parse_selection("0", 5), None);
    assert_eq!(parse_selection("6", 5), None);
    assert_eq!(parse_selection("abc", 5), None);
    assert_eq!(parse_selection("", 5), None);
    assert_eq!(parse_selection("99999999999999999999", 5), None);
}
