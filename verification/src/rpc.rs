//! Request and result types of the daemon protocol.

use vstd::prelude::*;

use crate::runtime::RuntimeHealth;
use crate::text::opt_chars;

verus! {

/// Parameters for the `complete` method.
#[derive(Debug, Clone)]
pub struct CompleteParams {
    /// Absolute path to the file.
    pub file: String,
    /// Cursor position as byte offset.
    pub offset: usize,
    /// Optional prefix to filter suggestions.
    pub prefix: Option<String>,
}

/// Parameters for the `anchors` method.
#[derive(Debug, Clone)]
pub struct AnchorsParams {
    /// Absolute path to one saved source file.
    pub file: String,
}

/// Parameters for the `generate` method.
#[derive(Debug, Clone)]
pub struct GenerateParams {
    /// Absolute path to one saved source file.
    pub file: String,
    /// Cursor position as a byte offset within an anchor marker.
    pub offset: usize,
}

/// Parameters for an ephemeral freeform inline generation request.
#[derive(Debug, Clone)]
pub struct InlineParams {
    /// Absolute source file path used for language and workspace selection.
    pub file: String,
    /// Cursor position as a byte offset into `content`.
    pub offset: usize,
    /// Current editor buffer contents, including unsaved edits.
    pub content: String,
    /// User instruction for text to insert at the cursor.
    pub prompt: String,
}

/// An anchor reported for an editor buffer.
#[derive(Debug, Clone)]
pub struct AnchorInfo {
    /// First byte of the TODO or empty-function marker.
    pub anchor_start: usize,
    /// End byte of the TODO or empty-function marker.
    pub anchor_end: usize,
    /// First byte of the proposal cache region.
    pub region_start: usize,
    /// End byte of the proposal cache region.
    pub region_end: usize,
    /// Machine-readable anchor kind.
    pub kind: String,
    /// Label shown to an editor user.
    pub label: String,
    /// Current cache/generation state: `candidate`, `ready`, or `failed`.
    pub status: String,
}

/// A completion suggestion.
#[derive(Debug, Clone)]
pub struct CompletionSuggestion {
    /// Label shown in the UI.
    pub label: String,
    /// Text to insert.
    pub insert_text: String,
    /// Optional detail/description.
    pub detail: Option<String>,
    /// Optional documentation.
    pub documentation: Option<String>,
}

impl View for CompletionSuggestion {
    /// Label, inserted text, detail and documentation.
    type V = (Seq<char>, Seq<char>, Option<Seq<char>>, Option<Seq<char>>);

    open spec fn view(&self) -> Self::V {
        (self.label@, self.insert_text@, opt_chars(self.detail), opt_chars(self.documentation))
    }
}

/// Parameters for the `prefetch` method.
#[derive(Debug, Clone)]
pub struct PrefetchParams {
    /// File or directory to prefetch.
    pub path: String,
}

/// Result metadata for a `prefetch` request.
#[derive(Debug, Clone)]
pub struct PrefetchResult {
    /// Number of files scanned for anchors.
    pub scanned_files: usize,
    /// Number of anchors found across scanned files.
    pub anchors_found: usize,
    /// Number of proposals successfully stored.
    pub proposals_stored: usize,
}

/// Result returned by the `status` method.
#[derive(Debug, Clone)]
pub struct StatusResult {
    /// Daemon process id.
    pub pid: u32,
    /// Runtime directory path.
    pub runtime_dir: String,
    /// IPC endpoint path or address.
    pub ipc_endpoint: String,
    /// Cache database path.
    pub cache_db_path: String,
    /// Process start time as Unix seconds.
    pub started_at: u64,
    /// Process uptime in seconds.
    pub uptime_secs: u64,
    /// Request counters and timestamps.
    pub metrics: DaemonMetricsSnapshot,
    /// Cache statistics.
    pub cache: CacheStatus,
    /// Runtime lifecycle health.
    pub runtime: RuntimeHealth,
    /// Most recent cached proposals.
    pub recent_proposals: Vec<RecentProposal>,
}

/// Request counter snapshot for the daemon.
#[derive(Debug, Clone)]
pub struct DaemonMetricsSnapshot {
    /// Total number of requests processed.
    pub total_requests: u64,
    /// Number of `complete` requests processed.
    pub complete_requests: u64,
    /// Number of `prefetch` requests processed.
    pub prefetch_requests: u64,
    /// Number of `status` requests processed.
    pub status_requests: u64,
    /// Number of `shutdown` requests processed.
    pub shutdown_requests: u64,
    /// Last processed request time as Unix seconds.
    pub last_request_at: Option<u64>,
}

/// Cache statistics rendered in status responses.
#[derive(Debug, Clone)]
pub struct CacheStatus {
    /// Number of cached proposals.
    pub total_proposals: usize,
    /// Total proposal bytes currently stored.
    pub total_bytes: usize,
    /// Database file size in bytes, if present on disk.
    pub db_file_size_bytes: u64,
    /// Oldest cached entry timestamp as Unix seconds.
    pub oldest_timestamp: Option<i64>,
    /// Newest cached entry timestamp as Unix seconds.
    pub newest_timestamp: Option<i64>,
    /// Enforced maximum lines per proposal.
    pub max_lines: usize,
    /// Enforced maximum bytes per proposal.
    pub max_bytes: usize,
}

/// Summary of a recent proposal for dashboard rendering.
#[derive(Debug, Clone)]
pub struct RecentProposal {
    /// Cached proposal label.
    pub label: String,
    /// Absolute source file path.
    pub file_path: String,
    /// Region start byte.
    pub byte_start: usize,
    /// Region end byte.
    pub byte_end: usize,
    /// Proposal creation time as Unix seconds.
    pub created_at: i64,
    /// Truncated single-line snippet preview.
    pub snippet_preview: String,
    /// Snippet size in bytes.
    pub snippet_bytes: usize,
}

/// Parameters for generating one scratch preview file.
#[derive(Debug, Clone)]
pub struct ScratchCreateParams {
    /// Workspace root.
    pub workspace: String,
    /// Source file path.
    pub file: String,
    /// Cursor byte offset in `content`.
    pub offset: usize,
    /// Live buffer content.
    pub content: String,
    /// User prompt.
    pub prompt: String,
    /// Optional selected start byte.
    pub selection_start: Option<usize>,
    /// Optional selected end byte.
    pub selection_end: Option<usize>,
    /// Optional model override.
    pub model: Option<String>,
    /// Optional reasoning effort override.
    pub reasoning_effort: Option<String>,
}

/// Metadata of a written scratch preview file.
#[derive(Debug, Clone)]
pub struct ScratchCreateResult {
    /// Absolute artifact path.
    pub path: String,
    /// Artifact path relative to the scratch root.
    pub relative_path: String,
    /// Number of bytes written.
    pub bytes: usize,
    /// Number of lines written.
    pub lines: usize,
    /// Creation timestamp as Unix seconds.
    pub created_at: u64,
    /// Source file used as context.
    pub source_file: String,
    /// Bounded prompt preview.
    pub prompt_preview: String,
}

} // verus!
