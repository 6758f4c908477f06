use harnessd::acp::{
    classify_message, generation_prompt, inline_prompt, normalize_output, reasoning_config_arg,
    AcpError, AcpMessage, AcpStep, GenerationContext, InlineContext, ReusableSessionKey,
};
use harnessd::cache::{MAX_BYTES, MAX_LINES};
use harnessd::acp::read_acp_message;
use harnessd::acp::{initialize_request, refusal_reply, session_id_of, session_new_request, session_prompt_request};
use harnessd::acp::{AcpAction, AcpSession, TurnPhase};

#[test]
fn strips_one_code_fence() {
    assert_eq!(
        normalize_output("```rust\nlet x = 1;\n```".to_string()).unwrap(),
        "let x = 1;"
    );
}

#[test]
fn rejects_empty_and_oversized_output() {
    assert!(normalize_output(" \n".to_string()).is_err());
    assert!(normalize_output("x\n".repeat(MAX_LINES + 1)).is_err());
    assert!(normalize_output("x".repeat(MAX_BYTES + 1)).is_err());
}

#[test]
fn reasoning_effort_is_passed_as_codex_config_override() {
    assert_eq!(
        reasoning_config_arg("low"),
        "model_reasoning_effort=\"low\""
    );
    assert_eq!(
        reasoning_config_arg("high"),
        "model_reasoning_effort=\"high\""
    );
}

#[test]
fn output_errors_carry_counts() {
    assert_eq!(
        normalize_output("```\n```".to_string()),
        Err(AcpError::EmptySuggestion)
    );
    assert_eq!(
        normalize_output("x\n".repeat(MAX_LINES + 1)),
        Err(AcpError::TooManyLines(MAX_LINES + 1))
    );
    assert_eq!(
        normalize_output("x".repeat(MAX_BYTES + 1)),
        Err(AcpError::TooManyBytes(MAX_BYTES + 1))
    );
    assert_eq!(normalize_output("  keep  ".to_string()), Ok("keep".to_string()));
    assert_eq!(normalize_output("```".to_string()), Ok("```".to_string()));
}

#[test]
fn prompts_embed_their_context() {
    let g = generation_prompt(&GenerationContext {
        file: "/w/a.rs",
        language: "Rust",
        anchor_kind: "todo_comment",
        anchor_text: "// TODO",
        region_text: "fn a() {}",
    });
    assert!(g.starts_with("Generate inline completion insertion text for this Rust anchor.\nAnchor kind: todo_comment\nAnchor text: // TODO\n\nEnclosing function/region context only:\nfn a() {}\n\nReturn only code"));
    let i = inline_prompt(&InlineContext {
        file: "/w/a.rs",
        language: "Rust",
        prompt: "add one",
        cursor_context: "x<HARNESSD_CURSOR>",
    });
    assert!(i.starts_with("Generate insertion text at <HARNESSD_CURSOR> for this Rust source file.\nUser request: add one\n\nBounded source context:\nx<HARNESSD_CURSOR>\n\n"));
    assert!(i.ends_with("Do not execute tools or read other files."));
}

#[test]
fn session_keys_compare_by_all_parts() {
    let a = ReusableSessionKey::new("/w", "low", None);
    let b = ReusableSessionKey::new("/w", "low", Some("m"));
    assert_ne!(a, b);
    assert_eq!(a, ReusableSessionKey::new("/w", "low", None));
    assert_eq!(b.model.as_deref(), Some("m"));
}

fn message() -> AcpMessage {
    AcpMessage {
        method: None,
        id: None,
        id_is_expected: false,
        session_update: None,
        content_type: None,
        text: None,
        tool_kind: None,
        error: None,
    }
}

#[test]
fn classifies_agent_messages() {
    let mut chunk = message();
    chunk.method = Some("session/update".to_string());
    chunk.session_update = Some("agent_message_chunk".to_string());
    chunk.content_type = Some("text".to_string());
    chunk.text = Some("abc".to_string());
    assert_eq!(classify_message(&chunk, true), AcpStep::AppendText("abc".to_string()));
    assert_eq!(classify_message(&chunk, false), AcpStep::Skip);

    let mut tool = message();
    tool.method = Some("session/update".to_string());
    tool.session_update = Some("tool_call".to_string());
    tool.tool_kind = Some("execute".to_string());
    assert_eq!(classify_message(&tool, true), AcpStep::DisallowedTool);
    tool.tool_kind = Some("read".to_string());
    assert_eq!(classify_message(&tool, true), AcpStep::Skip);

    let mut permission = message();
    permission.method = Some("session/request_permission".to_string());
    permission.id = Some("7".to_string());
    assert_eq!(
        classify_message(&permission, true),
        AcpStep::CancelPermission("session/request_permission".to_string())
    );
    let mut other = message();
    other.method = Some("fs/write_text_file".to_string());
    other.id = Some("8".to_string());
    assert_eq!(
        classify_message(&other, true),
        AcpStep::RefuseRequest("fs/write_text_file".to_string())
    );
    other.id = None;
    assert_eq!(classify_message(&other, true), AcpStep::Skip);

    let mut done = message();
    done.id_is_expected = true;
    assert_eq!(classify_message(&done, true), AcpStep::Done);
    done.error = Some("{\"code\":1}".to_string());
    assert_eq!(classify_message(&done, true), AcpStep::Failed("{\"code\":1}".to_string()));
    let unrelated = message();
    assert_eq!(classify_message(&unrelated, true), AcpStep::Skip);
}

#[test]
fn acp_error_messages() {
    assert_eq!(AcpError::EmptySuggestion.message(), "ACP generated an empty suggestion");
    assert_eq!(
        AcpError::TooManyLines(21).message(),
        "generated suggestion exceeds max lines (21 > 20)"
    );
}

#[test]
fn reads_agent_lines() {
    assert!(read_acp_message("not json", 0).is_none());
    let m = read_acp_message(
        " {\"jsonrpc\":\"2.0\",\"method\":\"session/update\",\"params\":{\"update\":{\"sessionUpdate\":\"agent_message_chunk\",\"content\":{\"type\":\"text\",\"text\":\"hi\"}}}}\n",
        2,
    )
    .expect("json");
    assert_eq!(m.method.as_deref(), Some("session/update"));
    assert_eq!(m.text.as_deref(), Some("hi"));
    assert!(m.id.is_none());
    let r = read_acp_message("{\"id\":2,\"error\":{\"code\":1}}", 2).unwrap();
    assert!(r.id_is_expected);
    assert_eq!(r.id.as_deref(), Some("2"));
    assert_eq!(r.error.as_deref(), Some("{\"code\":1}"));
    assert!(!read_acp_message("{\"id\":3}", 2).unwrap().id_is_expected);
}

#[test]
fn builds_requests() {
    let init: serde_json::Value = serde_json::from_str(&initialize_request(0, "1.2.3")).unwrap();
    assert_eq!(init["method"], "initialize");
    assert_eq!(init["id"], 0);
    assert_eq!(init["params"]["clientInfo"]["version"], "1.2.3");
    assert_eq!(init["params"]["protocolVersion"], 1);
    let new: serde_json::Value = serde_json::from_str(&session_new_request(1, "/w \"q\"")).unwrap();
    assert_eq!(new["params"]["cwd"], "/w \"q\"");
    assert!(new["params"]["mcpServers"].as_array().unwrap().is_empty());
    let prompt: serde_json::Value =
        serde_json::from_str(&session_prompt_request(2, "s1", "line\nnext")).unwrap();
    assert_eq!(prompt["params"]["sessionId"], "s1");
    assert_eq!(prompt["params"]["prompt"][0]["text"], "line\nnext");
    let cancel: serde_json::Value = serde_json::from_str(&refusal_reply("\"x\"", true)).unwrap();
    assert_eq!(cancel["result"]["outcome"]["outcome"], "cancelled");
    assert_eq!(cancel["id"], "x");
    let refuse: serde_json::Value = serde_json::from_str(&refusal_reply("4", false)).unwrap();
    assert_eq!(refuse["error"]["code"], -32601);
    assert_eq!(session_id_of("{\"result\":{\"sessionId\":\"abc\"}}").as_deref(), Some("abc"));
    assert_eq!(session_id_of("{\"result\":{}}"), None);
}

#[test]
fn runs_a_session_turn() {
    let (mut session, init) = AcpSession::start("/w", "0.1.0");
    assert!(init.contains("\"initialize\""));
    let sent = session.on_line(Some("{\"jsonrpc\":\"2.0\",\"id\":0,\"result\":{}}"));
    match sent {
        AcpAction::Send(line) => assert!(line.contains("session/new") && line.contains("\"id\":1")),
        other => panic!("unexpected {other:?}"),
    }
    assert_eq!(session.on_line(Some("{\"id\":1,\"result\":{\"sessionId\":\"s9\"}}")), AcpAction::Ready);
    assert_eq!(session.phase, TurnPhase::Ready);
    assert_eq!(session.session_id, "s9");
    let prompt = session.begin_prompt("go");
    assert!(prompt.contains("\"id\":2") && prompt.contains("s9"));
    let chunk = |t: &str| {
        format!(
            "{{\"method\":\"session/update\",\"params\":{{\"update\":{{\"sessionUpdate\":\"agent_message_chunk\",\"content\":{{\"type\":\"text\",\"text\":\"{t}\"}}}}}}}}"
        )
    };
    assert_eq!(session.on_line(Some(&chunk("ab"))), AcpAction::Read);
    assert_eq!(session.on_line(Some(&chunk("cd"))), AcpAction::Read);
    assert_eq!(
        session.on_line(Some("{\"id\":2,\"result\":{\"stopReason\":\"end_turn\"}}")),
        AcpAction::Finished("abcd".to_string())
    );
    assert_eq!(session.phase, TurnPhase::Ready);
    let second = session.begin_prompt("again");
    assert!(second.contains("\"id\":3"));
    assert_eq!(
        session.on_line(None),
        AcpAction::Fail("ACP process exited before responding to request 3".to_string())
    );
    assert_eq!(
        session.on_line(Some("garbage")),
        AcpAction::Fail("ACP emitted invalid JSON-RPC".to_string())
    );
    match session.on_line(Some("{\"id\":5,\"method\":\"fs/write_text_file\"}")) {
        AcpAction::SendThenFail(reply, error) => {
            assert!(reply.contains("\"id\":5") && reply.contains("-32601"));
            assert_eq!(error, "ACP requested a disallowed client operation: fs/write_text_file");
        }
        other => panic!("unexpected {other:?}"),
    }
    let tool = "{\"method\":\"session/update\",\"params\":{\"update\":{\"sessionUpdate\":\"tool_call\",\"kind\":\"edit\"}}}";
    assert_eq!(
        session.on_line(Some(tool)),
        AcpAction::Fail("ACP attempted a disallowed write or command tool call".to_string())
    );
    assert_eq!(
        session.on_line(Some("{\"id\":3,\"error\":{\"code\":7}}")),
        AcpAction::Fail("ACP request failed: {\"code\":7}".to_string())
    );
}

#[test]
fn session_new_without_id_fails() {
    let (mut session, _) = AcpSession::start("/w", "0.1.0");
    let _ = session.on_line(Some("{\"id\":0,\"result\":{}}"));
    assert_eq!(
        session.on_line(Some("{\"id\":1,\"result\":{}}")),
        AcpAction::Fail("ACP session/new response omitted sessionId".to_string())
    );
}
