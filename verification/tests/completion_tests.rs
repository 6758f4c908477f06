use harnessd::cache::Proposal;
use harnessd::completion::{
    apply_prefix_filter, inline_cursor_context, insert_cursor_marker, kind_name,
    label_for_anchor, language_name, placeholder_statement, previous_char_boundary,
    proposals_to_suggestions, snippet_for_anchor, summarize_context,
};
use harnessd::parser::{AnchorKind, SupportedLanguage};

fn proposal(label: &str, snippet: &str) -> Proposal {
    Proposal {
        id: 1,
        file_path: "/w/a.rs".to_string(),
        byte_start: 0,
        byte_end: 1,
        content_hash: "h".to_string(),
        snippet: snippet.to_string(),
        label: label.to_string(),
        created_at: 0,
    }
}

#[test]
fn names_and_labels() {
    assert_eq!(label_for_anchor(AnchorKind::TodoMacro), "Replace todo!()");
    assert_eq!(kind_name(AnchorKind::EmptyFunctionBody), "empty_function_body");
    assert_eq!(language_name(SupportedLanguage::Tsx), "TSX");
}

#[test]
fn placeholders_per_language() {
    assert_eq!(summarize_context("a\"b\nc"), "abc");
    assert_eq!(summarize_context("\n\""), "implement");
    assert_eq!(summarize_context(&"y".repeat(90)).len(), 80);
    assert_eq!(placeholder_statement(SupportedLanguage::Go, "x"), "panic(\"x\")");
    assert_eq!(
        snippet_for_anchor(SupportedLanguage::Python, "#", AnchorKind::TodoComment, " # TODO: add\n"),
        "# # TODO: add\n# Placeholder generated by harnessd.\nraise NotImplementedError(\" # TODO: add\")"
    );
    assert_eq!(
        snippet_for_anchor(SupportedLanguage::Rust, "//", AnchorKind::EmptyFunctionBody, "fn a"),
        "todo!(\"implement function body\");"
    );
}

#[test]
fn filters_suggestions_by_prefix() {
    let mut s = proposals_to_suggestions(
        vec![proposal("Implement TODO", "todo!()"), proposal("Fix", "panic!()")],
        "cached",
    );
    assert_eq!(s[0].detail.as_deref(), Some("cached"));
    apply_prefix_filter(&mut s, Some(""));
    assert_eq!(s.len(), 2);
    apply_prefix_filter(&mut s, Some("panic"));
    assert_eq!(s.len(), 1);
    assert_eq!(s[0].label, "Fix");
}

#[test]
fn marks_the_cursor() {
    assert_eq!(insert_cursor_marker("abcd", 0, 2, 4), "ab<HARNESSD_CURSOR>cd");
    assert_eq!(previous_char_boundary("aé", 2), 1);
    assert_eq!(
        inline_cursor_context("fn a() { x }", 9, Some((0, 12)), 16384),
        "fn a() { <HARNESSD_CURSOR>x }"
    );
    let source = "0123456789";
    assert_eq!(inline_cursor_context(source, 5, None, 4), "34<HARNESSD_CURSOR>56");
    assert_eq!(inline_cursor_context(source, 9, Some((0, 10)), 4), "678<HARNESSD_CURSOR>9");
}
