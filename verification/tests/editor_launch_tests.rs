use harnessd::editor_launch::{language_server_command, repo_debug_binary};
use harnessd::parser::SupportedLanguage;

#[test]
fn launches_harnessd_lsp() {
    assert_eq!(repo_debug_binary("/src/harnessd"), "/src/harnessd/target/debug/harnessd");
    let from_path = language_server_command(Some("/usr/bin/harnessd".to_string()), "/r");
    assert_eq!(from_path.command, "/usr/bin/harnessd");
    assert_eq!(from_path.args, vec!["lsp".to_string()]);
    let from_repo = language_server_command(None, "/r");
    assert_eq!(from_repo.command, "/r/target/debug/harnessd");
}

#[test]
fn lists_function_kinds() {
    assert_eq!(SupportedLanguage::Go.function_kinds(), vec!["function_declaration", "method_declaration"]);
    assert_eq!(SupportedLanguage::Python.function_kinds(), vec!["function_definition"]);
    assert_eq!(SupportedLanguage::Tsx.function_kinds().len(), 4);
}
