use cc_session::scan::TranscriptFile;
use cc_session::search::deep_search;

const NOW: i64 = 1_800_000_000_000;

fn corpus_files() -> Vec<TranscriptFile> {
    let endpoints = vec![
        r#"{"type":"user","sessionId":"11111111-1111-1111-1111-111111111111","cwd":"/home/user/project-a","gitBranch":"feat-endpoints","timestamp":"2025-03-10T10:00:00.000Z","message":{"role":"user","content":"Help me implement the list endpoints feature"},"uuid":"u1"}"#.to_string(),
    ];
    let oauth = vec![
        r#"{"type":"user","sessionId":"22222222-2222-2222-2222-222222222222","cwd":"/home/user/project-b","gitBranch":"oauth","timestamp":"2025-03-11T09:00:00.000Z","message":{"role":"user","content":"Add OAuth2 support to the client"},"uuid":"u2"}"#.to_string(),
    ];
    let conn = vec![
        r#"{"type":"user","sessionId":"33333333-3333-3333-3333-333333333333","cwd":"/home/user/project-a","gitBranch":"fix-conn","timestamp":"2025-03-09T08:00:00.000Z","message":{"role":"user","content":"Why does the server fail to start?"},"uuid":"u3"}"#.to_string(),
        r#"{"type":"assistant","sessionId":"33333333-3333-3333-3333-333333333333","cwd":"/home/user/project-a","timestamp":"2025-03-09T08:00:10.000Z","message":{"role":"assistant","content":[{"type":"text","text":"The error ConnectionRefused means the port is closed."}]},"uuid":"a3"}"#.to_string(),
    ];
    vec![
        TranscriptFile { id: "11111111-1111-1111-1111-111111111111".to_string(), lines: endpoints },
        TranscriptFile { id: "22222222-2222-2222-2222-222222222222".to_string(), lines: oauth },
        TranscriptFile { id: "33333333-3333-3333-3333-333333333333".to_string(), lines: conn },
    ]
}

#[test]
fn pattern_in_assistant_response() {
    let sessions = deep_search(&corpus_files(), "ConnectionRefused", NOW).unwrap();
    assert_eq!(
        sessions.len(),
        1,
        "should find session with ConnectionRefused in assistant response"
    );
    assert_eq!(sessions[0].id, "33333333-3333-3333-3333-333333333333");
}

#[test]
fn pattern_in_user_message() {
    let sessions = deep_search(&corpus_files(), "OAuth2", NOW).unwrap();
    assert!(!sessions.is_empty(), "should find session with OAuth2 in user message");
}

#[test]
fn pattern_not_found() {
    let sessions = deep_search(&corpus_files(), "xyzzynonexistent12345", NOW).unwrap();
    assert!(sessions.is_empty());
}

#[test]
fn regex_pattern_works() {
    let sessions = deep_search(&corpus_files(), "Connection[A-Z]", NOW).unwrap();
    assert!(!sessions.is_empty(), "regex pattern should match");
}

#[test]
fn invalid_regex_returns_empty() {
    let result = deep_search(&corpus_files(), "[invalid(regex", NOW);
    assert!(result.is_err(), "an invalid pattern is a usage error with no matches");
}
