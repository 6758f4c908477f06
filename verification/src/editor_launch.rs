//! How an editor extension starts the language server: the `harnessd` found
//! on the editor's PATH, else the debug build of the repository it has open.
//! Asking the editor for its PATH and worktree is the extension's part.

use vstd::prelude::*;

use crate::text::owned;

verus! {

/// The debug binary of a repository checked out at `root`.
pub open spec fn debug_binary_spec(root: Seq<char>) -> Seq<char> {
    root + "/target/debug/harnessd"@
}

/// The debug build of the repository at `root`.
pub fn repo_debug_binary(root: &str) -> (r: String)
    ensures
        r@ == debug_binary_spec(root@),
{
    let mut r = owned(root);
    r.push_str("/target/debug/harnessd");
    r
}

/// The command that starts the language server.
#[derive(Debug, Clone, PartialEq, Eq)]
pub struct LanguageServerCommand {
    /// The program.
    pub command: String,
    /// Its arguments.
    pub args: Vec<String>,
}

/// The language server command: `harnessd lsp`, with the `harnessd` found on
/// the editor's PATH when there is one, else the repository's debug build.
pub fn language_server_command(on_path: Option<String>, root: &str) -> (r: LanguageServerCommand)
    ensures
        r.command@ == (match on_path {
            Some(p) => p@,
            None => debug_binary_spec(root@),
        }),
        r.args@.len() == 1,
        r.args@[0]@ == "lsp"@,
{
    let command = match on_path {
        Some(p) => p,
        None => repo_debug_binary(root),
    };
    let mut args: Vec<String> = Vec::new();
    args.push(owned("lsp"));
    LanguageServerCommand { command, args }
}

} // verus!
