use cc_session::filter::fuzzy_filter;
use cc_session::scan::{discover_from_files, TranscriptFile};
use cc_session::session::Session;

const NOW: i64 = 1_800_000_000_000;

fn fixture_sessions() -> Vec<Session> {
    let endpoints = vec![
        r#"{"type":"user","sessionId":"11111111-1111-1111-1111-111111111111","cwd":"/home/user/project-a","gitBranch":"feat-endpoints","timestamp":"2025-03-10T10:00:00.000Z","message":{"role":"user","content":"Help me implement the list endpoints feature"},"uuid":"u1"}"#.to_string(),
    ];
    let oauth = vec![
        r#"{"type":"user","sessionId":"22222222-2222-2222-2222-222222222222","cwd":"/home/user/project-b","gitBranch":"oauth","timestamp":"2025-03-11T09:00:00.000Z","message":{"role":"user","content":[{"type":"text","text":"Add OAuth2 support"},{"type":"thinking","thinking":"..."},{"type":"text","text":" to the client"}]},"uuid":"u2"}"#.to_string(),
    ];
    let conn = vec![
        r#"{"type":"user","sessionId":"33333333-3333-3333-3333-333333333333","cwd":"/home/user/project-a","gitBranch":"fix-conn","timestamp":"2025-03-09T08:00:00.000Z","message":{"role":"user","content":"Why does the server fail to start?"},"uuid":"u3"}"#.to_string(),
    ];
    let files = vec![
        TranscriptFile { id: "11111111-1111-1111-1111-111111111111".to_string(), lines: endpoints },
        TranscriptFile { id: "22222222-2222-2222-2222-222222222222".to_string(), lines: oauth },
        TranscriptFile { id: "33333333-3333-3333-3333-333333333333".to_string(), lines: conn },
    ];
    discover_from_files(&files, NOW)
}

#[test]
fn filter_by_project_name() {
    let sessions = fixture_sessions();
    let matches = fuzzy_filter(&sessions, "project-b");
    assert!(!matches.is_empty(), "should match project-b sessions");
    assert!(matches[0].1 > 0, "a matching session gets a positive score");
}

#[test]
fn filter_by_message_content() {
    let sessions = fixture_sessions();
    let matches = fuzzy_filter(&sessions, "OAuth2");
    assert!(!matches.is_empty(), "should match session with OAuth2 message");
}

#[test]
fn empty_query_returns_all() {
    let sessions = fixture_sessions();
    let matches = fuzzy_filter(&sessions, "");
    // An empty query returns nothing from the oracle; callers
    // short-circuit it to "all sessions" themselves.
    assert!(matches.is_empty() || matches.len() == sessions.len());
}

#[test]
fn nonmatching_query_returns_empty() {
    let sessions = fixture_sessions();
    let matches = fuzzy_filter(&sessions, "xyzzynonexistent12345");
    assert!(matches.is_empty());
}

#[test]
fn results_sorted_by_score() {
    let sessions = fixture_sessions();
    let matches = fuzzy_filter(&sessions, "endpoint");
    if matches.len() >= 2 {
        for i in 1..matches.len() {
            assert!(matches[i - 1].1 >= matches[i].1, "should be sorted by score desc");
        }
    }
}
