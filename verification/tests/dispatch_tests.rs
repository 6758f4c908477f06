use harnessd::cache::{compute_hash, Proposal};
use harnessd::dispatch::{
    anchor_info, check_inline, failure_report, generated_suggestion, inline_refresh_key,
    inline_suggestion, merge_complete, plan_complete, prefetch_entries, refresh_prompt,
    region_at, route, stable_refresh_region, InlineError, Method,
};
use harnessd::anchoring::OffsetError;
use harnessd::dispatch::{params_offset_saturating, validate_live_buffer};
use harnessd::parser::{AnchorKind, SupportedLanguage};
use harnessd::parser::LanguageParsers;
use harnessd::rpc::InlineParams;
use harnessd::syntax::{regions_for_anchors, SyntaxNode};

fn parse_rust(source: &str) -> SyntaxNode {
    let mut parsers = LanguageParsers::new().expect("parsers");
    parsers.parse_file("main.rs", source).expect("parse").root
}

fn proposal(label: &str, snippet: &str) -> Proposal {
    Proposal {
        id: 1,
        file_path: "/w/a.rs".to_string(),
        byte_start: 0,
        byte_end: 1,
        content_hash: "h".to_string(),
        snippet: snippet.to_string(),
        label: label.to_string(),
        created_at: 0,
    }
}

const SOURCE: &str = "fn main() {\n    todo!(\"later\");\n}\n";

#[test]
fn routes_method_names() {
    assert_eq!(route("complete"), Method::Complete);
    assert_eq!(route("thread.attach"), Method::ThreadAttach);
    assert_eq!(route("shutdown"), Method::Shutdown);
    assert_eq!(route("nope"), Method::NotFound);
}

#[test]
fn reports_failures_per_method() {
    let g = failure_report(Method::Generate);
    assert_eq!((g.code, g.prefix.as_str(), g.retryable), (-32001, "Generation failed: ", true));
    let c = failure_report(Method::Complete);
    assert_eq!((c.code, c.prefix.as_str(), c.retryable), (-32000, "Complete failed: ", false));
    let n = failure_report(Method::NotFound);
    assert_eq!((n.code, n.prefix.as_str()), (-32601, "Method not found: "));
}

#[test]
fn plans_completion_lookups() {
    let root = parse_rust(SOURCE);
    let offset = SOURCE.find("todo").unwrap();
    let plan = plan_complete(&root, SupportedLanguage::Rust, "/w/a.rs", offset);
    let node = plan.node.expect("node at cursor");
    assert!(node.start <= offset && offset <= node.end);
    assert_eq!(plan.regions.len(), 1);
    let function = plan.function.expect("function");
    assert_eq!((function.start, function.end), (0, SOURCE.len() - 1));
    assert_eq!(function.hash, compute_hash(&SOURCE[..SOURCE.len() - 1]));
    assert_eq!(plan.regions[0].hash, function.hash);
    let outside = plan_complete(&root, SupportedLanguage::Rust, "/w/a.rs", SOURCE.len());
    assert!(outside.regions.is_empty());
}

#[test]
fn merges_lookups_in_order() {
    let none = merge_complete(None, vec![vec![proposal("a", "x")]], None, None);
    assert!(none.is_empty());

    let node_first = merge_complete(
        Some(vec![proposal("node", "n")]),
        vec![vec![proposal("region", "r")]],
        Some(vec![proposal("fn", "f")]),
        None,
    );
    assert_eq!(node_first.len(), 1);
    assert_eq!(node_first[0].label, "node");
    assert_eq!(node_first[0].detail.as_deref(), Some("cached"));

    let regions = merge_complete(
        Some(vec![]),
        vec![vec![proposal("r1", "one")], vec![], vec![proposal("r2", "two")]],
        Some(vec![proposal("fn", "f")]),
        None,
    );
    assert_eq!(regions.len(), 2);
    assert_eq!(regions[1].label, "r2");
    assert_eq!(regions[0].detail.as_deref(), Some("cached (anchor)"));

    let function = merge_complete(Some(vec![]), vec![vec![]], Some(vec![proposal("fn", "f")]), None);
    assert_eq!(function[0].detail.as_deref(), Some("cached (function)"));

    let filtered = merge_complete(
        Some(vec![]),
        vec![vec![proposal("alpha", "one"), proposal("beta", "two")]],
        None,
        Some("two"),
    );
    assert_eq!(filtered.len(), 1);
    assert_eq!(filtered[0].label, "beta");
    let empty_prefix = merge_complete(
        Some(vec![proposal("alpha", "one"), proposal("beta", "two")]),
        vec![],
        None,
        Some(""),
    );
    assert_eq!(empty_prefix.len(), 2);
}

#[test]
fn reports_anchor_states() {
    let root = parse_rust(SOURCE);
    let regions = regions_for_anchors(&root, SupportedLanguage::Rust, "/w/a.rs");
    let ready = anchor_info(&regions[0], true, true);
    assert_eq!(ready.status, "ready");
    assert_eq!(ready.kind, "todo_macro");
    assert_eq!(ready.label, "Replace todo!()");
    assert_eq!(anchor_info(&regions[0], false, true).status, "failed");
    assert_eq!(anchor_info(&regions[0], false, false).status, "candidate");
}

#[test]
fn finds_generation_region() {
    let root = parse_rust(SOURCE);
    let regions = regions_for_anchors(&root, SupportedLanguage::Rust, "/w/a.rs");
    let at = SOURCE.find("todo").unwrap();
    assert_eq!(region_at(&regions, at), Some(0));
    assert_eq!(region_at(&regions, 0), None);
}

#[test]
fn builds_generated_suggestions() {
    let g = generated_suggestion(AnchorKind::TodoComment, "x".to_string());
    assert_eq!(g.label, "Implement TODO");
    assert_eq!(g.detail.as_deref(), Some("generated through ACP"));
    let i = inline_suggestion("y".to_string());
    assert_eq!(i.label, "Inline ask");
    assert_eq!(i.detail.as_deref(), Some("generated through ACP inline ask"));
}

#[test]
fn checks_inline_requests() {
    let mut p = InlineParams {
        file: "/w/a.rs".to_string(),
        offset: 1,
        content: "aé".to_string(),
        prompt: "  ".to_string(),
    };
    assert_eq!(check_inline(&p), Err(InlineError::EmptyPrompt));
    assert_eq!(
        check_inline(&p).unwrap_err().message(),
        "inline prompt must not be empty"
    );
    p.prompt = "do it".to_string();
    assert_eq!(check_inline(&p), Ok(()));
    p.offset = 2;
    assert_eq!(check_inline(&p), Err(InlineError::Offset(OffsetError::NotCharBoundary)));
    p.offset = 9;
    assert_eq!(check_inline(&p), Err(InlineError::Offset(OffsetError::OutsideContent)));
}

#[test]
fn prefetch_stores_placeholders() {
    let root = parse_rust(SOURCE);
    let entries = prefetch_entries(&root, SupportedLanguage::Rust, "/w/a.rs");
    assert_eq!(entries.len(), 1);
    assert_eq!(entries[0].label, "Replace todo!()");
    assert_eq!(entries[0].snippet, "todo!(\"todo!(later)\");");
    assert_eq!(entries[0].hash, compute_hash(&SOURCE[..SOURCE.len() - 1]));
}

#[test]
fn refresh_prompt_and_key() {
    assert_eq!(refresh_prompt(Some("  ")), None);
    assert_eq!(refresh_prompt(Some(" go ")).as_deref(), Some("go"));
    assert_eq!(
        refresh_prompt(None).as_deref(),
        Some("Complete the code at the cursor with the smallest useful insertion.")
    );
    let key = inline_refresh_key("/w/a.rs", &None, 3, "p", Some("m"), None);
    assert_eq!(key, format!("/w/a.rs\u{0}3\u{0}3\u{0}{}\u{0}m\u{0}\u{0}p", compute_hash("")));
    let root = parse_rust(SOURCE);
    let region = stable_refresh_region(&root, SupportedLanguage::Rust, SOURCE.find("todo").unwrap());
    let (start, end, text) = region.clone().expect("region");
    assert_eq!(&SOURCE[start..end], "todo!(\"later\")");
    assert_eq!(text, &SOURCE[..SOURCE.len() - 1]);
    let keyed = inline_refresh_key("/w/a.rs", &region, 0, "p", None, None);
    assert!(keyed.contains(&compute_hash(&text)));
}

#[test]
fn clamps_and_validates_live_buffer_offsets() {
    assert_eq!(params_offset_saturating("abc", 2), 2);
    assert_eq!(params_offset_saturating("abc", 9), 3);
    assert_eq!(validate_live_buffer(1, "é"), Err(OffsetError::NotCharBoundary));
    assert_eq!(validate_live_buffer(4, "abc"), Err(OffsetError::OutsideContent));
    assert_eq!(validate_live_buffer(3, "abc"), Ok(()));
}

#[test]
fn routes_store_methods() {
    assert_eq!(route("mark.create"), Method::MarkCreate);
    assert_eq!(route("settings.update"), Method::SettingsUpdate);
    assert_eq!(route("scratch.create"), Method::ScratchCreate);
    assert_eq!(route("thread.example.create"), Method::ThreadExampleCreate);
    assert_eq!(failure_report(Method::ThreadDelete).prefix, "Thread delete failed: ");
}
