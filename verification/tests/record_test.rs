use cc_session::scan::{apply_filters, parse_duration, parse_session_lines};
use cc_session::session::{
    clean_message, dashed_path, first_chars, is_meta_message, truncate_str, Session,
};
use cc_session::prompts::transcript_rel_path;

const NOW: i64 = 1_800_000_000_000;

fn session_with(id: &str, cwd: &str, timestamp: i64) -> Session {
    Session {
        id: id.to_string(),
        project_path: cwd.to_string(),
        project_name: "proj".to_string(),
        git_branch: None,
        timestamp,
        first_message: String::new(),
        cwd: cwd.to_string(),
        project_exists: false,
    }
}

#[test]
fn markup_is_stripped_and_kept_text_survives() {
    assert_eq!(clean_message("<command-message>run</command-message>"), "run");
    assert_eq!(clean_message("Add OAuth2 support"), "Add OAuth2 support");
    assert!(!is_meta_message("Add OAuth2 support"));
}

#[test]
fn tag_only_message_is_meta() {
    assert!(is_meta_message("<command-message></command-message>"));
    assert!(is_meta_message("<command-name>x</command-name>"));
    assert!(is_meta_message("hi"));
    assert!(is_meta_message("   "));
}

#[test]
fn whitespace_collapses_to_single_spaces() {
    assert_eq!(clean_message("  a\n\n b\tc  "), "a b c");
    assert_eq!(clean_message("\n\t "), "");
}

#[test]
fn stray_closing_bracket_is_kept() {
    assert_eq!(clean_message("a > b"), "a > b");
    assert_eq!(clean_message("unclosed <tag still open"), "unclosed");
}

#[test]
fn dashed_path_handles_edges() {
    assert_eq!(dashed_path(""), "");
    assert_eq!(dashed_path("/a/b/"), "-a-b-");
    assert_eq!(dashed_path("no-slashes"), "no-slashes");
}

#[test]
fn truncate_str_adds_ellipsis() {
    assert_eq!(truncate_str("hello world", 8), "hello...");
    assert_eq!(truncate_str("hello", 8), "hello");
    assert_eq!(truncate_str("hello", 3), "hel");
}

#[test]
fn resume_command_escapes_single_quotes() {
    let s = session_with("abc", "/tmp/it's", NOW);
    assert_eq!(s.resume_command(), "cd '/tmp/it'\\''s' && resume abc");
}

#[test]
fn resume_command_plain_path() {
    let s = session_with("11111111-1111-1111-1111-111111111111", "/home/user/project-a", NOW);
    assert_eq!(
        s.resume_command(),
        "cd '/home/user/project-a' && resume 11111111-1111-1111-1111-111111111111"
    );
}

#[test]
fn transcript_path_follows_the_convention() {
    assert_eq!(
        transcript_rel_path("/home/user/project-a", "abc"),
        "projects/-home-user-project-a/abc.jsonl"
    );
    assert_eq!(dashed_path("/a/b"), "-a-b");
}

#[test]
fn project_name_is_last_path_component() {
    let lines = vec![
        r#"{"type":"user","cwd":"/home/user/project-a","timestamp":"2025-03-10T10:00:00.000Z","message":{"role":"user","content":"Question about the build"},"uuid":"u1"}"#.to_string(),
    ];
    let s = parse_session_lines("id1".to_string(), &lines, NOW).unwrap();
    assert_eq!(s.project_name, "project-a");

    let lines2 = vec![
        r#"{"type":"user","timestamp":"2025-03-10T10:00:00.000Z","message":{"role":"user","content":"Question about the build"},"uuid":"u1"}"#.to_string(),
    ];
    let s2 = parse_session_lines("id2".to_string(), &lines2, NOW).unwrap();
    assert_eq!(s2.project_name, "unknown");
    assert_eq!(s2.cwd, "");
}

#[test]
fn timestamp_parsed_to_epoch_millis() {
    let lines = vec![
        r#"{"type":"user","cwd":"/tmp","timestamp":"1970-01-01T00:00:01.500Z","message":{"role":"user","content":"Early in the epoch"},"uuid":"u1"}"#.to_string(),
    ];
    let s = parse_session_lines("id1".to_string(), &lines, NOW).unwrap();
    assert_eq!(s.timestamp, 1500);
}

#[test]
fn unparsable_timestamp_falls_back_to_now() {
    let lines = vec![
        r#"{"type":"user","cwd":"/tmp","timestamp":"not a date","message":{"role":"user","content":"Whenever this was"},"uuid":"u1"}"#.to_string(),
    ];
    let s = parse_session_lines("id1".to_string(), &lines, NOW).unwrap();
    assert_eq!(s.timestamp, NOW);
}

#[test]
fn no_user_entry_in_window_yields_no_session() {
    let mut lines: Vec<String> = Vec::new();
    for i in 0..50 {
        lines.push(format!(r#"{{"type":"summary","summary":"line {}"}}"#, i));
    }
    lines.push(
        r#"{"type":"user","cwd":"/tmp","timestamp":"2025-03-10T10:00:00.000Z","message":{"role":"user","content":"Past the window"},"uuid":"u1"}"#.to_string(),
    );
    assert!(parse_session_lines("id1".to_string(), &lines, NOW).is_none());
}

#[test]
fn user_entry_just_inside_window_yields_a_session() {
    let mut lines: Vec<String> = Vec::new();
    for i in 0..49 {
        lines.push(format!(r#"{{"type":"summary","summary":"line {}"}}"#, i));
    }
    lines.push(
        r#"{"type":"user","cwd":"/tmp","timestamp":"2025-03-10T10:00:00.000Z","message":{"role":"user","content":"Inside the window"},"uuid":"u1"}"#.to_string(),
    );
    let s = parse_session_lines("id1".to_string(), &lines, NOW).unwrap();
    assert_eq!(s.first_message, "Inside the window");
}

#[test]
fn first_message_is_capped_at_200_chars() {
    let long: String = "x".repeat(250);
    let line = format!(
        r#"{{"type":"user","cwd":"/tmp","timestamp":"2025-03-10T10:00:00.000Z","message":{{"role":"user","content":"{}"}},"uuid":"u1"}}"#,
        long
    );
    let s = parse_session_lines("id1".to_string(), &vec![line], NOW).unwrap();
    assert_eq!(s.first_message.chars().count(), 200);
    assert_eq!(first_chars(&long, 200).chars().count(), 200);
}

#[test]
fn meta_first_entry_still_supplies_metadata() {
    let lines = vec![
        r#"{"type":"user","cwd":"/home/user/project-a","gitBranch":"main","timestamp":"2025-03-10T10:00:00.000Z","message":{"role":"user","content":"<command-message></command-message>"},"uuid":"u1"}"#.to_string(),
        r#"{"type":"user","cwd":"/somewhere/else","gitBranch":"other","timestamp":"2025-03-10T11:00:00.000Z","message":{"role":"user","content":"The real first prompt"},"uuid":"u2"}"#.to_string(),
    ];
    let s = parse_session_lines("id1".to_string(), &lines, NOW).unwrap();
    assert_eq!(s.cwd, "/home/user/project-a");
    assert_eq!(s.git_branch.as_deref(), Some("main"));
    assert_eq!(s.first_message, "The real first prompt");
}

#[test]
fn apply_filters_keeps_newest_two_of_five() {
    let sessions: Vec<Session> = (0..5)
        .map(|i| session_with(&format!("s{}", i), "/tmp", NOW - (i as i64) * 1000))
        .collect();
    let filtered = apply_filters(sessions, None, Some(2), NOW);
    assert_eq!(filtered.len(), 2);
    assert_eq!(filtered[0].id, "s0");
    assert_eq!(filtered[1].id, "s1");
}

#[test]
fn apply_filters_since_drops_old_sessions() {
    let sessions = vec![
        session_with("new", "/tmp", NOW - 1000),
        session_with("old", "/tmp", NOW - 10_000_000),
    ];
    let filtered = apply_filters(sessions, Some(5000), None, NOW);
    assert_eq!(filtered.len(), 1);
    assert_eq!(filtered[0].id, "new");
}

#[test]
fn parse_duration_units() {
    assert_eq!(parse_duration("7d").unwrap(), 7 * 86_400_000);
    assert_eq!(parse_duration("2w").unwrap(), 2 * 604_800_000);
    assert_eq!(parse_duration("1m").unwrap(), 2_592_000_000);
    assert_eq!(parse_duration(" 3d ").unwrap(), 3 * 86_400_000);
    assert_eq!(parse_duration("-3d").unwrap(), -3 * 86_400_000);
}

#[test]
fn parse_duration_rejects_bad_input() {
    assert!(parse_duration("").is_err());
    assert!(parse_duration("   ").is_err());
    assert!(parse_duration("7x").is_err());
    assert!(parse_duration("abc").is_err());
    assert!(parse_duration("d").is_err());
    assert!(parse_duration("+d").is_err());
    assert!(parse_duration("99999999999999999999d").is_err());
}
