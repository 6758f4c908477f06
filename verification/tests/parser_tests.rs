use harnessd::parser::{AnchorKind, SupportedLanguage};
use harnessd::parser::{hash_node_region, LanguageParsers, ParseError};
use harnessd::syntax::regions_for_anchors;

#[test]
fn test_parse_rust_source_file() {
    let mut parser = LanguageParsers::new().expect("failed to create parser");
    let source = r#"fn main() {
    println!("Hello, world!");
}
"#;

    let parsed = parser
        .parse_file("main.rs", source)
        .expect("failed to parse");
    let root = &parsed.root;
    assert_eq!(root.kind, "source_file");
}

#[test]
fn parser_tests_test_node_at_offset() {
    let mut parser = LanguageParsers::new().expect("failed to create parser");
    let source = r#"fn main() {
    println!("Hello");
}
"#;

    let parsed = parser
        .parse_file("main.rs", source)
        .expect("failed to parse");

    // Find offset of "println"
    let offset = source.find("println").expect("println not found");
    let node = parsed.node_at_offset(offset).expect("no node at offset");

    // The node should be an identifier or part of the macro invocation
    let node_text = parsed.node_text(node);
    assert!(node_text.contains("println") || node.kind.contains("identifier"));
}

#[test]
fn test_enclosing_function() {
    let mut parser = LanguageParsers::new().expect("failed to create parser");
    let source = r#"fn outer() {
    fn inner() {
        let x = 42;
    }
}
"#;

    let parsed = parser
        .parse_file("main.rs", source)
        .expect("failed to parse");

    // Find offset of "42"
    let offset = source.find("42").expect("42 not found");
    let function = parsed
        .enclosing_function(offset)
        .expect("no enclosing function");

    let func_text = parsed.node_text(function);
    assert!(func_text.contains("inner"));
    assert!(func_text.contains("42"));
}

#[test]
fn parser_tests_test_find_todo_comment() {
    let mut parser = LanguageParsers::new().expect("failed to create parser");
    let source = r#"// TODO: implement this function
fn main() {
    println!("hello");
}
"#;

    let parsed = parser
        .parse_file("main.rs", source)
        .expect("failed to parse");
    let anchors = parsed.find_anchors();

    // Should find the TODO comment but not the function (it has a body)
    let todo_anchors: Vec<_> = anchors
        .iter()
        .filter(|a| a.kind == AnchorKind::TodoComment)
        .collect();
    assert_eq!(todo_anchors.len(), 1);
    assert_eq!(todo_anchors[0].kind, AnchorKind::TodoComment);
    assert!(todo_anchors[0].context.contains("TODO"));
}

#[test]
fn test_find_fixme_comment() {
    let mut parser = LanguageParsers::new().expect("failed to create parser");
    let source = r#"// FIXME: this is broken
fn main() {
    println!("fix me");
}
"#;

    let parsed = parser
        .parse_file("main.rs", source)
        .expect("failed to parse");
    let anchors = parsed.find_anchors();

    // Should find the FIXME comment but not the function (it has a body)
    let fixme_anchors: Vec<_> = anchors
        .iter()
        .filter(|a| a.kind == AnchorKind::FixmeComment)
        .collect();
    assert_eq!(fixme_anchors.len(), 1);
    assert_eq!(fixme_anchors[0].kind, AnchorKind::FixmeComment);
    assert!(fixme_anchors[0].context.contains("FIXME"));
}

#[test]
fn parser_tests_test_find_todo_macro() {
    let mut parser = LanguageParsers::new().expect("failed to create parser");
    let source = r#"fn main() {
    todo!("implement later");
}
"#;

    let parsed = parser
        .parse_file("main.rs", source)
        .expect("failed to parse");
    let anchors = parsed.find_anchors();

    assert_eq!(anchors.len(), 1);
    assert_eq!(anchors[0].kind, AnchorKind::TodoMacro);
    assert!(anchors[0].context.contains("todo!"));
}

#[test]
fn test_find_unimplemented_macro() {
    let mut parser = LanguageParsers::new().expect("failed to create parser");
    let source = r#"fn main() {
    unimplemented!("not yet");
}
"#;

    let parsed = parser
        .parse_file("main.rs", source)
        .expect("failed to parse");
    let anchors = parsed.find_anchors();

    assert_eq!(anchors.len(), 1);
    assert_eq!(anchors[0].kind, AnchorKind::UnimplementedMacro);
    assert!(anchors[0].context.contains("unimplemented!"));
}

#[test]
fn test_find_empty_function_body() {
    let mut parser = LanguageParsers::new().expect("failed to create parser");
    let source = r#"fn empty_function() {}
"#;

    let parsed = parser
        .parse_file("main.rs", source)
        .expect("failed to parse");
    let anchors = parsed.find_anchors();

    assert_eq!(anchors.len(), 1);
    assert_eq!(anchors[0].kind, AnchorKind::EmptyFunctionBody);
    assert!(anchors[0].context.contains("empty_function"));
}

#[test]
fn test_find_multiple_anchors() {
    let mut parser = LanguageParsers::new().expect("failed to create parser");
    let source = r#"// TODO: first task
fn func1() {
    todo!("implement");
}

// FIXME: second task
fn func2() {}
"#;

    let parsed = parser
        .parse_file("main.rs", source)
        .expect("failed to parse");
    let anchors = parsed.find_anchors();

    assert_eq!(anchors.len(), 4);

    let todo_comments: Vec<_> = anchors
        .iter()
        .filter(|a| a.kind == AnchorKind::TodoComment)
        .collect();
    assert_eq!(todo_comments.len(), 1);

    let fixme_comments: Vec<_> = anchors
        .iter()
        .filter(|a| a.kind == AnchorKind::FixmeComment)
        .collect();
    assert_eq!(fixme_comments.len(), 1);

    let todo_macros: Vec<_> = anchors
        .iter()
        .filter(|a| a.kind == AnchorKind::TodoMacro)
        .collect();
    assert_eq!(todo_macros.len(), 1);

    let empty_functions: Vec<_> = anchors
        .iter()
        .filter(|a| a.kind == AnchorKind::EmptyFunctionBody)
        .collect();
    assert_eq!(empty_functions.len(), 1);
}

#[test]
fn test_case_insensitive_todo() {
    let mut parser = LanguageParsers::new().expect("failed to create parser");
    let source = r#"// todo: lowercase
fn main() {
    println!("hi");
}
"#;

    let parsed = parser
        .parse_file("main.rs", source)
        .expect("failed to parse");
    let anchors = parsed.find_anchors();

    // Should find the todo comment but not the function (it has a body)
    let todo_anchors: Vec<_> = anchors
        .iter()
        .filter(|a| a.kind == AnchorKind::TodoComment)
        .collect();
    assert_eq!(todo_anchors.len(), 1);
    assert_eq!(todo_anchors[0].kind, AnchorKind::TodoComment);
}

#[test]
fn test_no_anchors_in_normal_code() {
    let mut parser = LanguageParsers::new().expect("failed to create parser");
    let source = r#"fn main() {
    let x = 42;
    println!("{}", x);
}

fn helper() -> i32 {
    123
}
"#;

    let parsed = parser
        .parse_file("main.rs", source)
        .expect("failed to parse");
    let anchors = parsed.find_anchors();

    // Should not detect normal functions as empty (they have bodies)
    assert!(anchors.is_empty());
}

#[test]
fn test_block_comment_todo() {
    let mut parser = LanguageParsers::new().expect("failed to create parser");
    let source = r#"/* TODO: handle this case */
fn main() {
    println!("hi");
}
"#;

    let parsed = parser
        .parse_file("main.rs", source)
        .expect("failed to parse");
    let anchors = parsed.find_anchors();

    // Should find the TODO comment but not the function (it has a body)
    let todo_anchors: Vec<_> = anchors
        .iter()
        .filter(|a| a.kind == AnchorKind::TodoComment)
        .collect();
    assert_eq!(todo_anchors.len(), 1);
    assert_eq!(todo_anchors[0].kind, AnchorKind::TodoComment);
}

#[test]
fn test_node_text_extraction() {
    let mut parser = LanguageParsers::new().expect("failed to create parser");
    let source = r#"fn test_function() {
    let x = 42;
}
"#;

    let parsed = parser
        .parse_file("main.rs", source)
        .expect("failed to parse");
    let root = &parsed.root;

    // The root node text should be the entire source
    let root_text = parsed.node_text(root);
    assert_eq!(root_text, source);
}

#[test]
fn test_python_todo_comment() {
    let mut parser = LanguageParsers::new().expect("failed to create parser");
    let source = r#"def main():
    # TODO: implement
    value = 42
"#;

    let parsed = parser
        .parse_file("main.py", source)
        .expect("failed to parse");
    let anchors = parsed.find_anchors();

    assert_eq!(anchors.len(), 1);
    assert_eq!(anchors[0].kind, AnchorKind::TodoComment);
}

#[test]
fn test_parse_rust() {
    let mut parser = LanguageParsers::new().unwrap();
    let source = r#"
fn main() {
    println!("Hello, world!");
}
"#;
    let parsed = parser.parse_file("main.rs", source).unwrap();
    assert_eq!(parsed.root.kind, "source_file");
}

#[test]
fn parser_test_find_todo_comment() {
    let mut parser = LanguageParsers::new().unwrap();
    let source = r#"// TODO: implement this
fn main() {
    println!("hello");
}
"#;
    let parsed = parser.parse_file("main.rs", source).unwrap();
    let anchors = parsed.find_anchors();
    // Should find the TODO comment but not the function (it has a body)
    let todo_anchors: Vec<_> = anchors
        .iter()
        .filter(|a| a.kind == AnchorKind::TodoComment)
        .collect();
    assert_eq!(todo_anchors.len(), 1);
    assert_eq!(todo_anchors[0].kind, AnchorKind::TodoComment);
}

#[test]
fn parser_test_find_todo_macro() {
    let mut parser = LanguageParsers::new().unwrap();
    let source = r#"
fn main() {
    todo!("implement later");
}
"#;
    let parsed = parser.parse_file("main.rs", source).unwrap();
    let anchors = parsed.find_anchors();
    assert_eq!(anchors.len(), 1);
    assert_eq!(anchors[0].kind, AnchorKind::TodoMacro);
}

#[test]
fn parser_test_node_at_offset() {
    let mut parser = LanguageParsers::new().unwrap();
    let source = r#"
fn main() {
    println!("Hello");
}
"#;
    let parsed = parser.parse_file("main.rs", source).unwrap();

    // Find node at offset inside "println!"
    let offset = source.find("println").unwrap();
    let node = parsed.node_at_offset(offset).unwrap();
    assert!(node.kind.contains("identifier") || node.kind == "macro_invocation");
}

#[test]
fn test_find_todo_comment_in_python() {
    let mut parser = LanguageParsers::new().unwrap();
    let source = r#"def main():
    # TODO: implement this
    value = 42
"#;
    let parsed = parser.parse_file("main.py", source).unwrap();
    let anchors = parsed.find_anchors();
    assert_eq!(anchors.len(), 1);
    assert_eq!(anchors[0].kind, AnchorKind::TodoComment);
    assert_eq!(parsed.comment_prefix(), "#");
}

#[test]
fn languages_by_extension() {
    assert_eq!(SupportedLanguage::from_path("/w/a.RS"), Some(SupportedLanguage::Rust));
    assert_eq!(SupportedLanguage::from_path("a.mjs"), Some(SupportedLanguage::JavaScript));
    assert_eq!(SupportedLanguage::from_path("a.tsx"), Some(SupportedLanguage::Tsx));
    assert_eq!(SupportedLanguage::from_path("Makefile"), None);
    assert!(SupportedLanguage::supports_path("x.go"));
    assert_eq!(SupportedLanguage::all().len(), 6);
    assert!(!SupportedLanguage::Python.supports_braced_empty_body());
    assert!(SupportedLanguage::Go.is_function_kind("method_declaration"));
    assert!(!SupportedLanguage::Go.is_function_kind("function_item"));
}

#[test]
fn regions_key_anchors_by_their_function() {
    let source = "fn f() {\n    todo!(\"x\");\n}\n";
    let mut parsers = LanguageParsers::new().expect("parsers");
    let parsed = parsers.parse_file("main.rs", source).expect("parse");
    let regions = regions_for_anchors(&parsed.root, parsed.language, "/w/main.rs");
    assert_eq!(regions.len(), 1);
    let r = &regions[0];
    assert_eq!(r.context_start, 0);
    assert_eq!(r.text, source.trim_end());
    assert_eq!(
        r.key,
        format!("/w/main.rs\0{}\0{}\0{}", r.start, r.end, harnessd::cache::compute_hash(&r.text))
    );
}

#[test]
fn parse_errors_and_node_hashes() {
    let mut parsers = LanguageParsers::new().expect("parsers");
    let err = parsers.parse_file("notes.txt", "x").err().expect("unsupported");
    assert_eq!(err, ParseError::Unsupported("notes.txt".to_string()));
    assert_eq!(err.message(), "no tree-sitter parser configured for notes.txt");
    assert_eq!(ParseError::ParsingFailed.message(), "parsing failed");
    assert_eq!(
        ParseError::Grammar(SupportedLanguage::Tsx, "NotParseable".to_string()).message(),
        "failed to set Tsx language: NotParseable"
    );
    assert!(LanguageParsers::supports_path("a.py"));
    assert!(!LanguageParsers::supports_path("a.txt"));
    let source = "fn f() {}
// é todo
";
    let parsed = parsers.parse_file("a.rs", source).expect("parse");
    assert_eq!(parsed.language, SupportedLanguage::Rust);
    assert_eq!(parsed.root.text, source);
    let function = &parsed.root.children[0];
    assert_eq!(function.kind, "function_item");
    assert_eq!(function.name.as_deref(), Some("f"));
    assert_eq!(function.body.as_deref(), Some("{}"));
    assert_eq!(hash_node_region(source, function), harnessd::cache::compute_hash("fn f() {}"));
    let comment = &parsed.root.children[1];
    assert_eq!(comment.text, "// é todo");
    assert_eq!(parsed.comment_prefix(), "//");
    let ts = parsers.parse_file("a.tsx", "const x = <div/>;\n").expect("tsx");
    assert_eq!(ts.language, SupportedLanguage::Tsx);
    assert_eq!(ts.root.kind, "program");
    let go = parsers.parse_file("a.go", "package main\nfunc f() {}\n").expect("go");
    assert_eq!(go.find_anchors().len(), 1);
}
