use harnessd::requests::{
    check_live_buffer_request, parse_usize, plan_bridge_request, BridgeRequest, RequestError,
};
use harnessd::cli::ThreadCommands;
use harnessd::requests::{plan_thread_request, ThreadRequest};

#[test]
fn bridge_builds_complete_request() {
    let r = plan_bridge_request("complete", Some("/w/a.rs".to_string()), None, Some("7".to_string()));
    assert_eq!(r, Ok(BridgeRequest::Complete { file: "/w/a.rs".to_string(), offset: 7 }));
}

#[test]
fn bridge_builds_prefetch_request() {
    let r = plan_bridge_request("prefetch", Some("/w".to_string()), None, None);
    assert_eq!(r, Ok(BridgeRequest::Prefetch { path: "/w".to_string() }));
}

#[test]
fn bridge_builds_generate_request() {
    let r = plan_bridge_request("generate", Some("/w/a.rs".to_string()), None, Some("7".to_string()));
    assert_eq!(r, Ok(BridgeRequest::Generate { file: "/w/a.rs".to_string(), offset: 7 }));
}

#[test]
fn bridge_complete_requires_cursor() {
    let error = plan_bridge_request("complete", Some("/w/a.rs".to_string()), None, None).unwrap_err();
    assert!(error
        .message()
        .contains("`--cursor` is required for `bridge --method complete`"));
}

#[test]
fn bridge_checks_files_and_cursors() {
    assert_eq!(
        plan_bridge_request("anchors", None, None, None),
        Err(RequestError::MissingFile("anchors".to_string()))
    );
    assert_eq!(
        plan_bridge_request("generate", Some("f".to_string()), None, Some("x".to_string())),
        Err(RequestError::BadCursor("generate".to_string()))
    );
    assert_eq!(
        plan_bridge_request("custom", None, Some(3), Some("c".to_string())),
        Ok(BridgeRequest::Other {
            method: "custom".to_string(),
            file: None,
            line: Some(3),
            cursor: Some("c".to_string())
        })
    );
}

#[test]
fn inline_rejects_empty_content_and_prompt() {
    assert!(check_live_buffer_request("inline", "ask", "").is_err());
    assert!(check_live_buffer_request("inline", " ", "fn x() {}").is_err());
    assert!(check_live_buffer_request("inline", "ask", "fn x() {}").is_ok());
    assert_eq!(
        check_live_buffer_request("scratch", "ask", "").unwrap_err().message(),
        "`scratch` requires live buffer contents on stdin"
    );
    assert_eq!(
        check_live_buffer_request("inline", "", "x").unwrap_err().message(),
        "`--prompt` must not be empty for `inline`"
    );
}

#[test]
fn parses_offsets_like_str_parse() {
    assert_eq!(parse_usize("42"), Some(42));
    assert_eq!(parse_usize("+0"), Some(0));
    assert_eq!(parse_usize(" 4"), None);
    assert_eq!(parse_usize(""), None);
    assert_eq!(parse_usize("18446744073709551615"), Some(usize::MAX));
    assert_eq!(parse_usize("18446744073709551616"), None);
}

#[test]
fn plans_thread_requests() {
    let create = ThreadCommands::Create {
        workspace: "/w".to_string(),
        file: "/w/a.rs".to_string(),
        offset: 0,
        prompt: "p".to_string(),
        selection_start: None,
        selection_end: None,
        model: None,
        reasoning_effort: None,
    };
    assert_eq!(
        plan_thread_request(create.clone(), String::new()).unwrap_err(),
        RequestError::EmptyContent("thread create".to_string())
    );
    match plan_thread_request(create, "x".to_string()).unwrap() {
        ThreadRequest::Create(p) => assert_eq!((p.content.as_str(), p.prompt.as_str()), ("x", "p")),
        other => panic!("unexpected {other:?}"),
    }
    let list = ThreadCommands::List { workspace: "/w".to_string(), file: None };
    match plan_thread_request(list.clone(), String::new()).unwrap() {
        ThreadRequest::List(p) => assert!(p.content.is_none()),
        other => panic!("unexpected {other:?}"),
    }
    match plan_thread_request(list, "buf".to_string()).unwrap() {
        ThreadRequest::List(p) => assert_eq!(p.content.as_deref(), Some("buf")),
        other => panic!("unexpected {other:?}"),
    }
    let attach = ThreadCommands::Attach {
        workspace: "/w".to_string(),
        file: "/w/a.rs".to_string(),
        offset: 0,
        session_id: "s".to_string(),
    };
    assert_eq!(
        plan_thread_request(attach, String::new()).unwrap_err().message(),
        "`thread attach` requires live buffer contents on stdin"
    );
    match plan_thread_request(ThreadCommands::Delete { thread_id: "t".to_string() }, String::new()).unwrap() {
        ThreadRequest::Delete(p) => assert_eq!(p.thread_id, "t"),
        other => panic!("unexpected {other:?}"),
    }
}

#[test]
fn scratch_rejects_empty_content_and_prompt() {
    assert!(check_live_buffer_request("scratch", "ask", "").is_err());
    assert!(check_live_buffer_request("scratch", " ", "fn x() {}").is_err());
    assert_eq!(
        check_live_buffer_request("scratch", " ", "fn x() {}").unwrap_err(),
        RequestError::EmptyPrompt("scratch".to_string())
    );
}
