use harnessd::codex_sessions::{
    list_sessions, list_sessions_from_home, session_from_meta, truncate_preview,
    CodexSessionInfo, CodexSessionsParams,
};
use harnessd::codex_sessions::first_user_preview;
use harnessd::codex_sessions::scan_session;

fn session(id: &str, project: bool, at: u64, ts: &str) -> CodexSessionInfo {
    CodexSessionInfo {
        id: id.to_string(),
        path: format!("/h/{id}.jsonl"),
        cwd: "/w".to_string(),
        timestamp: ts.to_string(),
        originator: None,
        source: None,
        cli_version: None,
        model_provider: None,
        preview: None,
        modified_at: at,
        project_match: project,
    }
}

fn ids(r: &[CodexSessionInfo]) -> Vec<&str> {
    r.iter().map(|s| s.id.as_str()).collect()
}

#[test]
fn lists_project_sessions_first_and_newest_first() {
    let all = vec![
        session("other-new", false, 9, "b"),
        session("project-old", true, 1, "a"),
        session("project-new", true, 5, "a"),
        session("project-tie-later", true, 5, "c"),
    ];
    let params = CodexSessionsParams { workspace: "/w".to_string(), all: true, limit: Some(10) };
    let r = list_sessions_from_home(all.clone(), &params);
    assert_eq!(ids(&r.sessions), vec!["project-tie-later", "project-new", "project-old", "other-new"]);
    let only = CodexSessionsParams { workspace: "/w".to_string(), all: false, limit: Some(2) };
    let r = list_sessions(all, &only);
    assert_eq!(ids(&r.sessions), vec!["project-tie-later", "project-new"]);
}

#[test]
fn keeps_ties_in_scan_order() {
    let all = vec![session("a", true, 1, "t"), session("b", true, 1, "t")];
    let params = CodexSessionsParams { workspace: "/w".to_string(), all: false, limit: None };
    assert_eq!(ids(&list_sessions(all, &params).sessions), vec!["a", "b"]);
}

#[test]
fn previews_and_metadata() {
    assert_eq!(truncate_preview("  hello \n world "), "hello world");
    let long = "x".repeat(161);
    assert_eq!(truncate_preview(&long), format!("{}...", "x".repeat(160)));
    assert!(session_from_meta(String::new(), "p".into(), "/w".into(), String::new(), None, None, None, None, None, 0, "/w").is_none());
    let s = session_from_meta("id".into(), "p".into(), "/w/".into(), "t".into(), None, None, None, None, None, 3, "/w").unwrap();
    assert!(s.project_match);
    assert_eq!(s.modified_at, 3);
}

#[test]
fn previews_first_user_words() {
    assert_eq!(
        first_user_preview("{\"type\":\"user_message\",\"payload\":{\"message\":\"hello   there\"}}").as_deref(),
        Some("hello there")
    );
    assert_eq!(
        first_user_preview("{\"type\":\"user_message\",\"payload\":{\"text\":\"via text\"}}").as_deref(),
        Some("via text")
    );
    assert_eq!(
        first_user_preview("{\"type\":\"user_message\",\"payload\":{\"message\":5,\"text\":\"x\"}}"),
        None
    );
    let item = "{\"type\":\"response_item\",\"payload\":{\"type\":\"message\",\"role\":\"user\",\"content\":[{\"kind\":1},{\"input_text\":\"from input\"}]}}";
    assert_eq!(first_user_preview(item).as_deref(), Some("from input"));
    let assistant = "{\"type\":\"response_item\",\"payload\":{\"type\":\"message\",\"role\":\"assistant\",\"content\":[{\"text\":\"no\"}]}}";
    assert_eq!(first_user_preview(assistant), None);
    let long = format!("{{\"type\":\"user_message\",\"payload\":{{\"message\":\"{}\"}}}}", "a".repeat(200));
    let preview = first_user_preview(&long).unwrap();
    assert_eq!(preview.chars().count(), 163);
    assert!(preview.ends_with("..."));
}

#[test]
fn scans_session_lines() {
    let lines = vec![
        "not json".to_string(),
        "{\"type\":\"session_meta\",\"payload\":{\"id\":\"project\",\"cwd\":\"/w\",\"timestamp\":\"2026-05-29T00:00:00Z\",\"originator\":\"cli\"}}".to_string(),
        "{\"type\":\"user_message\",\"payload\":{\"message\":\"hello from project session\"}}".to_string(),
    ];
    let meta = scan_session(&lines).expect("meta");
    assert_eq!(meta.id, "project");
    assert_eq!(meta.cwd, "/w");
    assert_eq!(meta.timestamp, "2026-05-29T00:00:00Z");
    assert_eq!(meta.originator.as_deref(), Some("cli"));
    assert_eq!(meta.source, None);
    assert_eq!(meta.preview.as_deref(), Some("hello from project session"));

    let no_meta = vec!["{\"type\":\"user_message\",\"payload\":{\"message\":\"hi\"}}".to_string()];
    assert!(scan_session(&no_meta).is_none());

    let bare = vec!["{\"type\":\"session_meta\",\"payload\":{}}".to_string()];
    let meta = scan_session(&bare).expect("meta without fields");
    assert_eq!(meta.id, "");
    assert!(meta.preview.is_none());
}

#[test]
fn picks_the_codex_home() {
    assert_eq!(harnessd::codex_sessions::codex_home(Some("/c".to_string())), "/c");
    assert!(harnessd::codex_sessions::codex_home(None).ends_with("/.codex"));
}
