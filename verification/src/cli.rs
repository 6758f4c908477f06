//! The command line of the daemon binary, as plain values; argument parsing
//! itself is the binary's part.

use vstd::prelude::*;

use crate::settings::{ReadScope, ScratchStorageMode};

verus! {

/// Parsed command-line interface.
#[derive(Debug, Clone)]
pub struct Cli {
    /// Selected subcommand.
    pub command: Commands,
}

/// Top-level subcommands.
#[derive(Debug, Clone)]
pub enum Commands {
    /// Run the long-lived daemon (local socket + JSON-RPC).
    Daemon,
    /// Initialize the runtime stack in order and verify the daemon is ready.
    Setup {
        /// Optional file or directory to prefetch once the daemon is up.
        path: Option<String>,
        /// Skip launching the dashboard after setup completes.
        no_tui: bool,
    },
    /// Tear the runtime stack down gracefully and wait for shutdown.
    Teardown,
    /// Inspect runtime state and explain common startup/shutdown issues.
    Doctor,
    /// Stop the running daemon.
    Stop,
    /// Open a live terminal dashboard for daemon and cache status.
    Tui,
    /// Run the editor-facing Language Server Protocol adapter over stdio.
    Lsp,
    /// Debug the autocomplete path by asking the daemon for completions.
    Complete {
        /// Absolute or workspace-relative file path.
        file: String,
        /// Cursor position as a byte offset.
        offset: usize,
        /// Optional prefix to filter suggestions.
        prefix: Option<String>,
    },
    /// Ask for ephemeral insertion text at a live-buffer cursor location.
    Inline {
        /// Absolute or workspace-relative source file path.
        file: String,
        /// Cursor position as a byte offset in stdin content.
        offset: usize,
        /// User instruction for generated insertion text.
        prompt: String,
        /// Optional model override for this request.
        model: Option<String>,
        /// Optional reasoning effort override for this request.
        reasoning_effort: Option<String>,
    },
    /// Generate a saved scratch preview file from live-buffer context.
    Scratch {
        /// Workspace root.
        workspace: String,
        /// Absolute or workspace-relative source file path.
        file: String,
        /// Cursor position as a byte offset in stdin content.
        offset: usize,
        /// User instruction for the scratch preview.
        prompt: String,
        /// Optional selected start byte.
        selection_start: Option<usize>,
        /// Optional selected end byte.
        selection_end: Option<usize>,
        /// Optional model override for this request.
        model: Option<String>,
        /// Optional reasoning effort override for this request.
        reasoning_effort: Option<String>,
    },
    /// Warm the proposal cache for a file or workspace path.
    Prefetch {
        /// File or directory to scan for anchors.
        path: String,
    },
    /// List saved Codex sessions for a workspace.
    CodexSessions {
        /// Workspace root for project-first filtering.
        workspace: String,
        /// Include all saved Codex sessions.
        all: bool,
        /// Maximum number of sessions to return.
        limit: usize,
    },
    /// Manage line-anchored Codex threads.
    Thread {
        /// Thread management action.
        command: ThreadCommands,
    },
    /// Manage external source marks.
    Mark {
        /// Mark management action.
        command: MarkCommands,
    },
    /// Manage daemon-owned settings.
    Settings {
        /// Settings action.
        command: SettingsCommands,
    },
    /// Send a research request to the daemon.
    Research {
        /// Search query.
        query: String,
        /// Optional manual path.
        manual: Option<String>,
    },
    /// One-shot RPC bridge for editor integrations.
    Bridge {
        /// Method name.
        method: String,
        /// Optional file path.
        file: Option<String>,
        /// Optional line number.
        line: Option<u32>,
        /// Optional text payload.
        text: Option<String>,
        /// Optional cursor payload.
        cursor: Option<String>,
        /// Optional model override.
        model: Option<String>,
        /// Optional reasoning effort override.
        reasoning_effort: Option<String>,
        /// Disable background model refresh.
        no_background_refresh: bool,
    },
}

/// Subcommands for persistent Codex thread anchors.
#[derive(Debug, Clone)]
pub enum ThreadCommands {
    /// Create a new line-anchored thread; live buffer content is read from stdin.
    Create {
        /// Workspace root.
        workspace: String,
        /// Source file path.
        file: String,
        /// Cursor byte offset in stdin content.
        offset: usize,
        /// User prompt.
        prompt: String,
        /// Optional selected start byte.
        selection_start: Option<usize>,
        /// Optional selected end byte.
        selection_end: Option<usize>,
        /// Optional model override.
        model: Option<String>,
        /// Optional reasoning effort override.
        reasoning_effort: Option<String>,
    },
    /// List anchored threads; optional live buffer content is read from stdin.
    List {
        /// Workspace root.
        workspace: String,
        /// Optional source file path.
        file: Option<String>,
    },
    /// Link a thread to a Codex session.
    Link {
        /// Thread id.
        thread_id: String,
        /// Codex session UUID.
        session_id: String,
        /// Optional Codex JSONL path.
        session_path: Option<String>,
    },
    /// Resolve a newly launched thread to a Codex session.
    Resolve {
        /// Thread id.
        thread_id: String,
        /// Workspace root.
        workspace: String,
        /// Unix timestamp captured before launching Codex.
        started_after: u64,
    },
    /// Attach an existing Codex session to the current source line.
    Attach {
        /// Workspace root.
        workspace: String,
        /// Source file path.
        file: String,
        /// Cursor byte offset in stdin content.
        offset: usize,
        /// Codex session UUID.
        session_id: String,
    },
    /// Generate a scratch example and link it to a thread.
    Example {
        /// Parent thread id.
        thread_id: String,
        /// Workspace root.
        workspace: String,
        /// Source file path.
        file: String,
        /// Cursor byte offset in stdin content.
        offset: usize,
        /// User prompt for the example.
        prompt: String,
        /// Optional selected start byte.
        selection_start: Option<usize>,
        /// Optional selected end byte.
        selection_end: Option<usize>,
        /// Optional model override.
        model: Option<String>,
        /// Optional reasoning effort override.
        reasoning_effort: Option<String>,
    },
    /// Delete a thread and its scratch artifacts.
    Delete {
        /// Thread id.
        thread_id: String,
    },
}

/// Subcommands for external source marks.
#[derive(Debug, Clone)]
pub enum MarkCommands {
    /// Create a new external source mark; live buffer content is read from stdin.
    Create {
        /// Workspace root.
        workspace: String,
        /// Source file path.
        file: String,
        /// Cursor byte offset in stdin content.
        offset: usize,
        /// Optional attached thread id.
        thread_id: Option<String>,
    },
    /// List marks; optional live buffer content is read from stdin.
    List {
        /// Workspace root.
        workspace: String,
        /// Optional source file path.
        file: Option<String>,
    },
    /// Delete a mark.
    Delete {
        /// Mark id.
        mark_id: String,
        /// Also delete an attached thread and its scratch files.
        delete_attached_thread: bool,
    },
    /// Return the next mark in a file, wrapping around.
    Next {
        /// Workspace root.
        workspace: String,
        /// Source file path.
        file: String,
        /// Current 1-based cursor line.
        current_line: usize,
    },
    /// Return the previous mark in a file, wrapping around.
    Prev {
        /// Workspace root.
        workspace: String,
        /// Source file path.
        file: String,
        /// Current 1-based cursor line.
        current_line: usize,
    },
}

/// Subcommands for daemon-owned settings.
#[derive(Debug, Clone)]
pub enum SettingsCommands {
    /// Print current settings.
    Get,
    /// Update settings.
    Update {
        /// Scratch storage mode.
        scratch_storage_mode: Option<ScratchStorageModeArg>,
        /// Read scope.
        read_scope: Option<ReadScopeArg>,
    },
}

/// Command-line scratch storage mode values.
#[derive(Debug, Clone, Copy, PartialEq, Eq, Structural)]
pub enum ScratchStorageModeArg {
    /// Durable runtime-dir scratch storage.
    Runtime,
    /// Ephemeral OS temp-dir scratch storage.
    Temp,
}

/// Command-line read scope values.
#[derive(Debug, Clone, Copy, PartialEq, Eq, Structural)]
pub enum ReadScopeArg {
    /// Current file/selection plus explicit context.
    CurrentContext,
}

impl ScratchStorageModeArg {
    /// The storage mode this value selects.
    pub fn mode(self) -> (r: ScratchStorageMode)
        ensures
            r == (match self {
                ScratchStorageModeArg::Runtime => ScratchStorageMode::Runtime,
                ScratchStorageModeArg::Temp => ScratchStorageMode::Temp,
            }),
    {
        match self {
            ScratchStorageModeArg::Runtime => ScratchStorageMode::Runtime,
            ScratchStorageModeArg::Temp => ScratchStorageMode::Temp,
        }
    }
}

impl ReadScopeArg {
    /// The read scope this value selects.
    pub fn scope(self) -> (r: ReadScope)
        ensures
            r == ReadScope::CurrentContext,
    {
        match self {
            ReadScopeArg::CurrentContext => ReadScope::CurrentContext,
        }
    }
}

} // verus!
