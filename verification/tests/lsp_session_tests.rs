use harnessd::lsp_session::{
    completion_items_from_suggestions, count_failure_of, error_response, frame_header, frame_length, header_line,
    initialize_result, json_array, success_response, CountError, FrameError, HeaderStep, LspAction,
    LspDocuments, LspSession,
};
use harnessd::rpc::CompletionSuggestion;

#[test]
fn maps_suggestions_to_completion_items() {
    let items = completion_items_from_suggestions(&[CompletionSuggestion {
        label: "Implement TODO".to_string(),
        insert_text: "todo!(\"demo\");".to_string(),
        detail: Some("cached".to_string()),
        documentation: Some("Generated by harnessd".to_string()),
    }]);

    assert_eq!(items.len(), 1);
    let item: serde_json::Value = serde_json::from_str(&items[0]).unwrap();
    assert_eq!(item["label"], "Implement TODO");
    assert_eq!(item["insertText"], "todo!(\"demo\");");
    assert_eq!(item["detail"], "cached");
    assert_eq!(item["kind"], 15);
    let array: serde_json::Value = serde_json::from_str(&json_array(&items)).unwrap();
    assert_eq!(array[0]["documentation"], "Generated by harnessd");
    assert_eq!(json_array(&vec![]), "[]");
    assert_eq!(json_array(&vec!["1".to_string(), "2".to_string()]), "[1,2]");
}

#[test]
fn documents_read_back_what_was_written() {
    let mut docs = LspDocuments::new();
    assert_eq!(docs.get("file:///a"), None);
    docs.insert("file:///a".to_string(), "one".to_string());
    docs.insert("file:///b".to_string(), "two".to_string());
    docs.insert("file:///a".to_string(), "three".to_string());
    assert_eq!(docs.get("file:///a").as_deref(), Some("three"));
    assert_eq!(docs.get("file:///b").as_deref(), Some("two"));
}

#[test]
fn builds_responses() {
    let ok: serde_json::Value = serde_json::from_str(&success_response("1", "null")).unwrap();
    assert_eq!(ok["id"], 1);
    assert!(ok["result"].is_null());
    let err: serde_json::Value =
        serde_json::from_str(&error_response("\"x\"", -32601, "Method not found: a")).unwrap();
    assert_eq!(err["error"]["code"], -32601);
    assert_eq!(err["error"]["message"], "Method not found: a");
    assert_eq!(err["id"], "x");
    let init: serde_json::Value = serde_json::from_str(&initialize_result("9.9")).unwrap();
    assert_eq!(init["capabilities"]["textDocumentSync"], 1);
    assert_eq!(init["capabilities"]["completionProvider"]["triggerCharacters"][1], ":");
    assert_eq!(init["serverInfo"]["version"], "9.9");
}

#[test]
fn handles_editor_messages() {
    let mut session = LspSession::new("1.0.0");
    assert_eq!(session.handle_json_message("{\"jsonrpc\":\"2.0\"}"), LspAction::Nothing);
    match session.handle_json_message("{\"id\":1,\"method\":\"initialize\",\"params\":{}}") {
        LspAction::Reply(text) => {
            let v: serde_json::Value = serde_json::from_str(&text).unwrap();
            assert_eq!(v["result"]["serverInfo"]["name"], "harnessd");
        }
        other => panic!("unexpected {other:?}"),
    }
    let open = "{\"method\":\"textDocument/didOpen\",\"params\":{\"textDocument\":{\"uri\":\"file:///w/a.rs\",\"text\":\"fn a() {}\"}}}";
    assert_eq!(session.handle_json_message(open), LspAction::Prefetch("file:///w/a.rs".to_string()));
    assert_eq!(session.documents.get("file:///w/a.rs").as_deref(), Some("fn a() {}"));
    let change = "{\"method\":\"textDocument/didChange\",\"params\":{\"textDocument\":{\"uri\":\"file:///w/a.rs\"},\"contentChanges\":[{\"text\":\"old\"},{\"text\":\"new\"}]}}";
    assert_eq!(session.handle_json_message(change), LspAction::Nothing);
    assert_eq!(session.documents.get("file:///w/a.rs").as_deref(), Some("new"));
    let save = "{\"method\":\"textDocument/didSave\",\"params\":{\"textDocument\":{\"uri\":\"file:///w/a.rs\"}}}";
    assert_eq!(session.handle_json_message(save), LspAction::Prefetch("file:///w/a.rs".to_string()));
    let complete = "{\"id\":7,\"method\":\"textDocument/completion\",\"params\":{\"textDocument\":{\"uri\":\"file:///w/a.rs\"},\"position\":{\"line\":1,\"character\":4}}}";
    assert_eq!(
        session.handle_json_message(complete),
        LspAction::Complete { id: "7".to_string(), uri: "file:///w/a.rs".to_string(), line: 1, character: 4 }
    );
    match session.handle_json_message("{\"id\":8,\"method\":\"textDocument/completion\",\"params\":{\"textDocument\":{\"uri\":\"u\"}}}") {
        LspAction::Reply(text) => assert!(text.contains("completion position.line is required")),
        other => panic!("unexpected {other:?}"),
    }
    match session.handle_json_message("{\"id\":9,\"method\":\"textDocument/completion\"}") {
        LspAction::Reply(text) => assert!(text.contains("completion params are required")),
        other => panic!("unexpected {other:?}"),
    }
    match session.handle_json_message("{\"id\":2,\"method\":\"workspace/symbol\"}") {
        LspAction::Reply(text) => {
            let v: serde_json::Value = serde_json::from_str(&text).unwrap();
            assert_eq!(v["error"]["code"], -32601);
            assert_eq!(v["error"]["message"], "Method not found: workspace/symbol");
        }
        other => panic!("unexpected {other:?}"),
    }
    assert_eq!(session.handle_json_message("{\"method\":\"workspace/symbol\"}"), LspAction::Nothing);
    match session.handle_json_message("{\"id\":3,\"method\":\"shutdown\"}") {
        LspAction::Reply(text) => assert_eq!(text, "{\"jsonrpc\":\"2.0\",\"id\":3,\"result\":null}"),
        other => panic!("unexpected {other:?}"),
    }
}

#[test]
fn reads_frame_headers() {
    assert_eq!(header_line("\r\n", None), Ok(HeaderStep::End));
    assert_eq!(header_line("Content-Length: 42\r\n", None), Ok(HeaderStep::Continue(Some(42))));
    assert_eq!(
        header_line("Content-Type: application/json\r\n", Some(3)),
        Ok(HeaderStep::Continue(Some(3)))
    );
    assert_eq!(
        header_line("Content-Length: x1\r\n", None),
        Err(FrameError::BadContentLength("x1".to_string()))
    );
    assert_eq!(frame_length(None), Err(FrameError::MissingContentLength));
    assert_eq!(frame_length(Some(5)), Ok(5));
    assert_eq!(FrameError::MissingContentLength.message(), "missing Content-Length header");
    for value in ["", "x1", "+", "-5", "1 2", "99999999999999999999", "99999999999999999999x", "12x99999999999999999999"] {
        let expected = value.parse::<usize>().unwrap_err().to_string();
        assert_eq!(FrameError::BadContentLength(value.to_string()).message(), expected, "value {value:?}");
    }
    assert_eq!(count_failure_of("+"), CountError::InvalidDigit);
    assert_eq!(count_failure_of(""), CountError::Empty);
    assert_eq!(count_failure_of("184467440737095516160"), CountError::Overflow);
    assert_eq!(frame_header(12), "Content-Length: 12\r\n\r\n");
}

#[test]
fn quotes_messages_as_serde_json_does() {
    let message = "q\" b\\ \u{8}\u{c}\n\r\t \u{1}\u{1f} é \u{7f}";
    let expected = format!(
        "{{\"jsonrpc\":\"2.0\",\"id\":1,\"error\":{{\"code\":1,\"message\":{}}}}}",
        serde_json::to_string(message).unwrap()
    );
    assert_eq!(error_response("1", 1, message), expected);
    assert!(expected.contains("\\u0001\\u001f"));
    assert!(expected.contains("\\b\\f\\n\\r\\t"));
}
