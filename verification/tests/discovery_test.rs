use cc_session::scan::{apply_filters, discover_from_files, TranscriptFile};

const NOW: i64 = 1_800_000_000_000;

fn fixture_files() -> Vec<TranscriptFile> {
    let endpoints = vec![
        r#"{"type":"summary","summary":"Endpoints work"}"#.to_string(),
        r#"{"type":"user","sessionId":"11111111-1111-1111-1111-111111111111","cwd":"/home/user/project-a","gitBranch":"feat-endpoints","timestamp":"2025-03-10T10:00:00.000Z","version":"1.0.0","message":{"role":"user","content":"Help me implement the list endpoints feature"},"uuid":"u1"}"#.to_string(),
        r#"{"type":"assistant","sessionId":"11111111-1111-1111-1111-111111111111","cwd":"/home/user/project-a","gitBranch":"feat-endpoints","timestamp":"2025-03-10T10:00:05.000Z","message":{"role":"assistant","content":[{"type":"text","text":"Sure, let's add the endpoints."}]},"uuid":"a1"}"#.to_string(),
    ];
    let oauth = vec![
        r#"{"type":"user","sessionId":"22222222-2222-2222-2222-222222222222","cwd":"/home/user/project-b","gitBranch":"oauth","timestamp":"2025-03-11T09:00:00.000Z","message":{"role":"user","content":[{"type":"text","text":"Add OAuth2 support"},{"type":"thinking","thinking":"..."},{"type":"text","text":" to the client"}]},"uuid":"u2"}"#.to_string(),
    ];
    let conn = vec![
        r#"{"type":"user","sessionId":"33333333-3333-3333-3333-333333333333","cwd":"/home/user/project-a","gitBranch":"fix-conn","timestamp":"2025-03-09T08:00:00.000Z","message":{"role":"user","content":"Why does the server fail to start?"},"uuid":"u3"}"#.to_string(),
        r#"{"type":"assistant","sessionId":"33333333-3333-3333-3333-333333333333","cwd":"/home/user/project-a","timestamp":"2025-03-09T08:00:10.000Z","message":{"role":"assistant","content":[{"type":"text","text":"The error ConnectionRefused means the port is closed."}]},"uuid":"a3"}"#.to_string(),
    ];
    vec![
        TranscriptFile { id: "11111111-1111-1111-1111-111111111111".to_string(), lines: endpoints },
        TranscriptFile { id: "22222222-2222-2222-2222-222222222222".to_string(), lines: oauth },
        TranscriptFile { id: "33333333-3333-3333-3333-333333333333".to_string(), lines: conn },
    ]
}

#[test]
fn discover_sessions_from_fixtures() {
    let sessions = discover_from_files(&fixture_files(), NOW);
    assert_eq!(sessions.len(), 3, "should find 3 session files");
}

#[test]
fn sessions_sorted_newest_first() {
    let sessions = discover_from_files(&fixture_files(), NOW);
    for i in 1..sessions.len() {
        assert!(
            sessions[i - 1].timestamp >= sessions[i].timestamp,
            "sessions should be sorted newest first"
        );
    }
}

#[test]
fn session_id_from_filename() {
    let sessions = discover_from_files(&fixture_files(), NOW);
    let ids: Vec<&str> = sessions.iter().map(|s| s.id.as_str()).collect();
    assert!(ids.contains(&"11111111-1111-1111-1111-111111111111"));
    assert!(ids.contains(&"22222222-2222-2222-2222-222222222222"));
    assert!(ids.contains(&"33333333-3333-3333-3333-333333333333"));
}

#[test]
fn first_user_message_extracted() {
    let sessions = discover_from_files(&fixture_files(), NOW);
    let s = sessions
        .iter()
        .find(|s| s.id == "11111111-1111-1111-1111-111111111111")
        .unwrap();
    assert_eq!(s.first_message, "Help me implement the list endpoints feature");
    assert_eq!(s.git_branch.as_deref(), Some("feat-endpoints"));
}

#[test]
fn array_content_extracted() {
    let sessions = discover_from_files(&fixture_files(), NOW);
    let s = sessions
        .iter()
        .find(|s| s.id == "22222222-2222-2222-2222-222222222222")
        .unwrap();
    assert_eq!(s.first_message, "Add OAuth2 support to the client");
}

#[test]
fn apply_last_filter() {
    let sessions = discover_from_files(&fixture_files(), NOW);
    let filtered = apply_filters(sessions, None, Some(2), NOW);
    assert_eq!(filtered.len(), 2);
}

#[test]
fn end_to_end_discover_filter_resume() {
    let sessions = discover_from_files(&fixture_files(), NOW);
    assert_eq!(sessions.len(), 3);
    let matches = cc_session::filter::fuzzy_filter(&sessions, "feat-endpoints");
    for (idx, _) in &matches {
        let branch = sessions[*idx].git_branch.as_deref().unwrap_or("");
        assert!(branch.contains("feat"), "only branch matches should remain");
    }
    assert_eq!(matches.len(), 1, "the branch substring narrows to one session");
    let chosen = &sessions[matches[0].0];
    assert_eq!(
        chosen.resume_command(),
        "cd '/home/user/project-a' && resume 11111111-1111-1111-1111-111111111111"
    );
}

#[test]
fn empty_directory_returns_empty() {
    let sessions = discover_from_files(&Vec::new(), NOW);
    assert!(sessions.is_empty());
}
