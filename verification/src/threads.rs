//! Persistent source-line anchors for Codex-backed ask threads.
//!
//! The store keeps its threads in memory; reading and writing the JSON file,
//! canonicalizing paths, reading the clock and scanning Codex sessions are the
//! caller's part. Each operation that stamps a time takes it as `now`
//! (seconds) and, where ids are made, `now_millis`.

use vstd::prelude::*;
use vstd::string::StringSliceAdditionalSpecFns;
use vstd::utf8::{decode_utf8, encode_utf8, encode_utf8_decode_utf8, is_char_boundary};

use crate::anchoring::{
    OffsetError, dist, lemma_nearest_match, line_hash, line_hash_spec, line_hashes, line_text_of,
    line_text_or_empty, nearby, nearby_lines, nearest_line, nearest_match, offset_check,
    validate_offset,
};
use crate::codex_sessions::CodexSessionInfo;
use crate::models::{
    ModelError, effort_outcome, model_outcome, normalize_model, normalize_reasoning_effort,
    reasoning_effort_config_arg,
};
use crate::paths::{file_name, file_name_of, same_path, same_path_spec};
use crate::rpc::ScratchCreateResult;
use crate::runtime::string_seq;
use crate::scratch::{is_plain_name, is_plainly_below, plain_name, plainly_below, scratch_subdir};
use crate::paths::{join, join_path};
use crate::cache::compute_hash;
use crate::text::{
    byte_slice, chars_of, decimal, decimal_string, line_at, line_at_offset, lines, lines_of,
    opt_chars, owned, str_eq, string_from_range, trim, trim_range, trim_str, truncate,
    truncate_chars,
};

verus! {

/// Longest prompt preview kept on a thread or example, in characters.
pub const PROMPT_PREVIEW_MAX_CHARS: usize = 120;

/// Longest line preview kept on a thread, in characters.
pub const LINE_PREVIEW_MAX_CHARS: usize = 160;

/// Longest code context put into a launch prompt, in characters.
pub const CONTEXT_MAX_CHARS: usize = 16384;

/// Lines of nearby context on each side of the anchored line.
pub const NEARBY_RADIUS: usize = 80;

/// Parameters for creating an anchored thread.
#[derive(Debug, Clone)]
pub struct ThreadCreateParams {
    /// Workspace root.
    pub workspace: String,
    /// Source file path.
    pub file: String,
    /// Cursor byte offset in `content`.
    pub offset: usize,
    /// Live buffer content.
    pub content: String,
    /// User prompt.
    pub prompt: String,
    /// Optional selected start byte.
    pub selection_start: Option<usize>,
    /// Optional selected end byte.
    pub selection_end: Option<usize>,
    /// Optional model override for the launched Codex thread.
    pub model: Option<String>,
    /// Optional reasoning effort override for the launched Codex thread.
    pub reasoning_effort: Option<String>,
}

/// Parameters for listing anchored threads.
#[derive(Debug, Clone)]
pub struct ThreadListParams {
    /// Workspace root.
    pub workspace: String,
    /// Optional source file filter.
    pub file: Option<String>,
    /// Optional live buffer content used for reanchoring.
    pub content: Option<String>,
}

/// Parameters for linking a thread to a Codex session.
#[derive(Debug, Clone)]
pub struct ThreadLinkParams {
    /// Thread id.
    pub thread_id: String,
    /// Codex session UUID.
    pub codex_session_id: String,
    /// Optional JSONL path.
    pub codex_session_path: Option<String>,
}

/// Parameters for resolving a newly launched Codex session.
#[derive(Debug, Clone)]
pub struct ThreadResolveParams {
    /// Thread id.
    pub thread_id: String,
    /// Workspace root.
    pub workspace: String,
    /// Only consider Codex sessions modified after this Unix timestamp.
    pub started_after_unix: u64,
}

/// Parameters for attaching an existing Codex session to the current line.
#[derive(Debug, Clone)]
pub struct ThreadAttachParams {
    /// Workspace root.
    pub workspace: String,
    /// Source file path.
    pub file: String,
    /// Cursor byte offset in `content`.
    pub offset: usize,
    /// Live buffer content.
    pub content: String,
    /// Codex session UUID to attach.
    pub codex_session_id: String,
}

/// Parameters for deleting a thread and its scratch artifacts.
#[derive(Debug, Clone)]
pub struct ThreadDeleteParams {
    /// Thread id.
    pub thread_id: String,
}

/// A generated example artifact linked to a thread.
#[derive(Debug, Clone, PartialEq, Eq)]
pub struct ThreadExample {
    /// Stable example id.
    pub example_id: String,
    /// Parent thread id.
    pub thread_id: String,
    /// Display title for the example.
    pub title: String,
    /// Absolute artifact path.
    pub path: String,
    /// Artifact path relative to the scratch root.
    pub relative_path: String,
    /// Full user prompt used to create the example.
    pub prompt: String,
    /// Bounded prompt preview.
    pub prompt_preview: String,
    /// Absolute source file path used as context.
    pub source_file: String,
    /// Number of bytes written.
    pub bytes: usize,
    /// Number of lines written.
    pub lines: usize,
    /// Creation timestamp as Unix seconds.
    pub created_at: u64,
}

/// The mathematical content of an example.
pub struct ExampleView {
    /// Example id.
    pub example_id: Seq<char>,
    /// Parent thread id.
    pub thread_id: Seq<char>,
    /// Title.
    pub title: Seq<char>,
    /// Absolute artifact path.
    pub path: Seq<char>,
    /// Artifact path relative to the scratch root.
    pub relative_path: Seq<char>,
    /// Prompt.
    pub prompt: Seq<char>,
    /// Prompt preview.
    pub prompt_preview: Seq<char>,
    /// Source file.
    pub source_file: Seq<char>,
    /// Bytes written.
    pub bytes: usize,
    /// Lines written.
    pub lines: usize,
    /// Creation time.
    pub created_at: u64,
}

impl View for ThreadExample {
    type V = ExampleView;

    open spec fn view(&self) -> ExampleView {
        ExampleView {
            example_id: self.example_id@,
            thread_id: self.thread_id@,
            title: self.title@,
            path: self.path@,
            relative_path: self.relative_path@,
            prompt: self.prompt@,
            prompt_preview: self.prompt_preview@,
            source_file: self.source_file@,
            bytes: self.bytes,
            lines: self.lines,
            created_at: self.created_at,
        }
    }
}

impl ThreadExample {
    /// A field-by-field copy of this example.
    pub fn duplicate(&self) -> (r: ThreadExample)
        ensures
            r@ == self@,
    {
        ThreadExample {
            example_id: self.example_id.clone(),
            thread_id: self.thread_id.clone(),
            title: self.title.clone(),
            path: self.path.clone(),
            relative_path: self.relative_path.clone(),
            prompt: self.prompt.clone(),
            prompt_preview: self.prompt_preview.clone(),
            source_file: self.source_file.clone(),
            bytes: self.bytes,
            lines: self.lines,
            created_at: self.created_at,
        }
    }
}

/// The views of a sequence of examples.
pub open spec fn example_views(es: Seq<ThreadExample>) -> Seq<ExampleView> {
    Seq::new(es.len(), |i: int| es[i]@)
}

/// Persistent thread anchor.
#[derive(Debug, Clone, PartialEq, Eq)]
pub struct ThreadAnchor {
    /// Stable thread id.
    pub thread_id: String,
    /// Optional external mark id this thread is attached to.
    pub mark_id: Option<String>,
    /// Workspace root.
    pub workspace: String,
    /// Source file path.
    pub file: String,
    /// Original 1-based line.
    pub original_line: usize,
    /// Current 1-based line after reanchor.
    pub current_line: usize,
    /// Original byte offset.
    pub byte_offset: usize,
    /// Hash of normalized anchored line.
    pub line_hash: String,
    /// Bounded anchored line preview.
    pub line_preview: String,
    /// Bounded prompt preview.
    pub prompt_preview: String,
    /// Full user prompt used for thread creation.
    pub prompt: String,
    /// Optional model override used when the thread was created.
    pub model: Option<String>,
    /// Optional reasoning effort override used when the thread was created.
    pub reasoning_effort: Option<String>,
    /// Optional Codex session id.
    pub codex_session_id: Option<String>,
    /// Optional Codex session JSONL path.
    pub codex_session_path: Option<String>,
    /// Example artifacts generated for this thread.
    pub examples: Vec<ThreadExample>,
    /// `open`, `linked`, or `stale`.
    pub status: String,
    /// Creation timestamp as Unix seconds.
    pub created_at: u64,
    /// Update timestamp as Unix seconds.
    pub updated_at: u64,
}

/// The mathematical content of a thread.
pub struct ThreadView {
    /// Thread id.
    pub thread_id: Seq<char>,
    /// Attached mark id.
    pub mark_id: Option<Seq<char>>,
    /// Workspace root.
    pub workspace: Seq<char>,
    /// Source file path.
    pub file: Seq<char>,
    /// Original 1-based line.
    pub original_line: usize,
    /// Current 1-based line.
    pub current_line: usize,
    /// Original byte offset.
    pub byte_offset: usize,
    /// Line hash.
    pub line_hash: Seq<char>,
    /// Line preview.
    pub line_preview: Seq<char>,
    /// Prompt preview.
    pub prompt_preview: Seq<char>,
    /// Prompt.
    pub prompt: Seq<char>,
    /// Model override.
    pub model: Option<Seq<char>>,
    /// Reasoning effort override.
    pub reasoning_effort: Option<Seq<char>>,
    /// Codex session id.
    pub codex_session_id: Option<Seq<char>>,
    /// Codex session path.
    pub codex_session_path: Option<Seq<char>>,
    /// Examples.
    pub examples: Seq<ExampleView>,
    /// Status.
    pub status: Seq<char>,
    /// Creation time.
    pub created_at: u64,
    /// Update time.
    pub updated_at: u64,
}

impl View for ThreadAnchor {
    type V = ThreadView;

    open spec fn view(&self) -> ThreadView {
        ThreadView {
            thread_id: self.thread_id@,
            mark_id: opt_chars(self.mark_id),
            workspace: self.workspace@,
            file: self.file@,
            original_line: self.original_line,
            current_line: self.current_line,
            byte_offset: self.byte_offset,
            line_hash: self.line_hash@,
            line_preview: self.line_preview@,
            prompt_preview: self.prompt_preview@,
            prompt: self.prompt@,
            model: opt_chars(self.model),
            reasoning_effort: opt_chars(self.reasoning_effort),
            codex_session_id: opt_chars(self.codex_session_id),
            codex_session_path: opt_chars(self.codex_session_path),
            examples: example_views(self.examples@),
            status: self.status@,
            created_at: self.created_at,
            updated_at: self.updated_at,
        }
    }
}

/// A copy of an optional string.
fn copy_opt(o: &Option<String>) -> (r: Option<String>)
    ensures
        opt_chars(r) == opt_chars(*o),
{
    match o {
        Some(s) => Some(s.clone()),
        None => None,
    }
}

impl ThreadAnchor {
    /// A field-by-field copy of this thread.
    pub fn duplicate(&self) -> (r: ThreadAnchor)
        ensures
            r@ == self@,
    {
        let mut examples: Vec<ThreadExample> = Vec::new();
        let mut i: usize = 0;
        while i < self.examples.len()
            invariant
                i <= self.examples@.len(),
                examples@.len() == i,
                forall|j: int| 0 <= j < i ==> #[trigger] examples@[j]@ == self.examples@[j]@,
            decreases self.examples@.len() - i,
        {
            examples.push(self.examples[i].duplicate());
            i = i + 1;
        }
        assert(example_views(examples@) =~= example_views(self.examples@));
        ThreadAnchor {
            thread_id: self.thread_id.clone(),
            mark_id: copy_opt(&self.mark_id),
            workspace: self.workspace.clone(),
            file: self.file.clone(),
            original_line: self.original_line,
            current_line: self.current_line,
            byte_offset: self.byte_offset,
            line_hash: self.line_hash.clone(),
            line_preview: self.line_preview.clone(),
            prompt_preview: self.prompt_preview.clone(),
            prompt: self.prompt.clone(),
            model: copy_opt(&self.model),
            reasoning_effort: copy_opt(&self.reasoning_effort),
            codex_session_id: copy_opt(&self.codex_session_id),
            codex_session_path: copy_opt(&self.codex_session_path),
            examples,
            status: self.status.clone(),
            created_at: self.created_at,
            updated_at: self.updated_at,
        }
    }
}

/// The views of a sequence of threads.
pub open spec fn thread_views(ts: Seq<ThreadAnchor>) -> Seq<ThreadView> {
    Seq::new(ts.len(), |i: int| ts[i]@)
}

/// Command launch specification returned to thin clients.
#[derive(Debug, Clone, PartialEq, Eq)]
pub struct ThreadLaunch {
    /// Command argv.
    pub argv: Vec<String>,
    /// Working directory.
    pub cwd: String,
    /// Unix timestamp immediately before launch planning.
    pub started_after_unix: u64,
    /// Optional model override used for launch.
    pub model: Option<String>,
    /// Optional reasoning effort override used for launch.
    pub reasoning_effort: Option<String>,
}

/// The mathematical content of a launch.
pub struct LaunchView {
    /// Command argv.
    pub argv: Seq<Seq<char>>,
    /// Working directory.
    pub cwd: Seq<char>,
    /// Launch planning time.
    pub started_after_unix: u64,
    /// Model override.
    pub model: Option<Seq<char>>,
    /// Reasoning effort override.
    pub reasoning_effort: Option<Seq<char>>,
}

/// The characters of each string.
pub open spec fn string_views(v: Seq<String>) -> Seq<Seq<char>> {
    Seq::new(v.len(), |i: int| v[i]@)
}

impl View for ThreadLaunch {
    type V = LaunchView;

    open spec fn view(&self) -> LaunchView {
        LaunchView {
            argv: string_views(self.argv@),
            cwd: self.cwd@,
            started_after_unix: self.started_after_unix,
            model: opt_chars(self.model),
            reasoning_effort: opt_chars(self.reasoning_effort),
        }
    }
}

/// Result of creating a thread.
#[derive(Debug, Clone)]
pub struct ThreadCreateResult {
    /// Created thread.
    pub thread: ThreadAnchor,
    /// Launch command for Codex.
    pub launch: ThreadLaunch,
}

/// Result of listing threads.
#[derive(Debug, Clone)]
pub struct ThreadListResult {
    /// Thread anchors.
    pub threads: Vec<ThreadAnchor>,
}

/// Result of linking a thread.
#[derive(Debug, Clone)]
pub struct ThreadLinkResult {
    /// Updated thread.
    pub thread: ThreadAnchor,
}

/// Result of creating and linking a thread example.
#[derive(Debug, Clone)]
pub struct ThreadExampleCreateResult {
    /// Updated thread.
    pub thread: ThreadAnchor,
    /// Linked example artifact.
    pub example: ThreadExample,
}

/// Result of resolving a session link.
#[derive(Debug, Clone)]
pub struct ThreadResolveResult {
    /// Updated thread.
    pub thread: Option<ThreadAnchor>,
    /// Whether a matching Codex session was found.
    pub resolved: bool,
}

/// Result of deleting a thread.
#[derive(Debug, Clone)]
pub struct ThreadDeleteResult {
    /// Deleted thread, if it existed.
    pub thread: Option<ThreadAnchor>,
}

/// The directory of a thread's artifacts below a scratch root.
pub open spec fn thread_dir_spec(root: Seq<char>, t: ThreadView) -> Seq<char> {
    join_path(root, scratch_subdir(t.workspace, Some(t.thread_id)))
}

/// Whether a path lies plainly below one of the scratch roots.
pub open spec fn below_a_root(p: Seq<char>, roots: Seq<Seq<char>>) -> bool {
    exists|j: int| 0 <= j < roots.len() && plainly_below(p, #[trigger] roots[j])
}

/// The example files deleting a thread removes: the paths of its examples
/// that lie plainly below one of the scratch roots, in order.
pub open spec fn removable_files(exs: Seq<ExampleView>, roots: Seq<Seq<char>>) -> Seq<Seq<char>>
    decreases exs.len(),
{
    if exs.len() == 0 {
        seq![]
    } else {
        removable_files(exs.drop_last(), roots) + if below_a_root(exs.last().path, roots) {
            seq![exs.last().path]
        } else {
            seq![]
        }
    }
}

/// The directories deleting a thread removes: its directory below each
/// scratch root, in order, where the thread id names one directory and that
/// directory lies plainly below the root.
pub open spec fn removable_dirs(t: ThreadView, roots: Seq<Seq<char>>) -> Seq<Seq<char>>
    decreases roots.len(),
{
    if roots.len() == 0 {
        seq![]
    } else {
        let d = thread_dir_spec(roots.last(), t);
        removable_dirs(t, roots.drop_last()) + if plain_name(t.thread_id) && plainly_below(d, roots.last()) {
            seq![d]
        } else {
            seq![]
        }
    }
}

/// What deleting a thread removes of its scratch artifacts.
#[derive(Debug, Clone)]
pub struct ThreadCleanup {
    /// Example files to remove.
    pub files: Vec<String>,
    /// Scratch directories to remove with everything in them.
    pub dirs: Vec<String>,
}

fn below_some_root(p: &str, roots: &Vec<String>) -> (r: bool)
    ensures
        r == below_a_root(p@, string_seq(roots@)),
{
    let mut j: usize = 0;
    while j < roots.len()
        invariant
            j <= roots@.len(),
            forall|k: int| 0 <= k < j ==> !plainly_below(p@, #[trigger] string_seq(roots@)[k]),
        decreases roots@.len() - j,
    {
        if is_plainly_below(p, roots[j].as_str()) {
            assert(string_seq(roots@)[j as int] == roots@[j as int]@);
            return true;
        }
        assert(string_seq(roots@)[j as int] == roots@[j as int]@);
        j = j + 1;
    }
    false
}

/// The directory of a thread's artifacts below the scratch root `root`.
pub fn thread_dir(root: &str, thread: &ThreadAnchor) -> (r: String)
    ensures
        r@ == thread_dir_spec(root@, thread@),
{
    let mut rel = compute_hash(thread.workspace.as_str());
    rel.push('/');
    rel.push_str(thread.thread_id.as_str());
    join(root, rel.as_str())
}

/// The scratch artifacts a deleted thread leaves to remove, kept to the
/// configured scratch `roots`: its example files below a root, and its
/// scratch directory below each root.
pub fn thread_cleanup(thread: &ThreadAnchor, roots: &Vec<String>) -> (r: ThreadCleanup)
    ensures
        string_seq(r.files@) == removable_files(thread@.examples, string_seq(roots@)),
        string_seq(r.dirs@) == removable_dirs(thread@, string_seq(roots@)),
{
    let ghost rs = string_seq(roots@);
    let ghost exs = thread@.examples;
    let mut files: Vec<String> = Vec::new();
    let mut i: usize = 0;
    while i < thread.examples.len()
        invariant
            i <= thread.examples@.len(),
            exs == thread@.examples,
            rs == string_seq(roots@),
            string_seq(files@) == removable_files(exs.take(i as int), rs),
        decreases thread.examples@.len() - i,
    {
        let path = &thread.examples[i].path;
        assert(exs.take(i + 1).drop_last() =~= exs.take(i as int));
        assert(exs.take(i + 1).last() == thread.examples@[i as int]@);
        if below_some_root(path.as_str(), roots) {
            files.push(path.clone());
            assert(string_seq(files@) =~= string_seq(files@.drop_last()).push(path@));
            assert(files@.drop_last() == files@.drop_last());
        }
        proof {
            assert(string_seq(files@) =~= removable_files(exs.take(i + 1), rs));
        }
        i = i + 1;
    }
    assert(exs.take(exs.len() as int) =~= exs);
    let plain = is_plain_name(thread.thread_id.as_str());
    let mut dirs: Vec<String> = Vec::new();
    let mut j: usize = 0;
    while j < roots.len()
        invariant
            j <= roots@.len(),
            rs == string_seq(roots@),
            plain == plain_name(thread@.thread_id),
            string_seq(dirs@) == removable_dirs(thread@, rs.take(j as int)),
        decreases roots@.len() - j,
    {
        assert(rs.take(j + 1).drop_last() =~= rs.take(j as int));
        assert(rs.take(j + 1).last() == roots@[j as int]@);
        let d = thread_dir(roots[j].as_str(), thread);
        if plain && is_plainly_below(d.as_str(), roots[j].as_str()) {
            dirs.push(d);
        }
        proof {
            assert(string_seq(dirs@) =~= removable_dirs(thread@, rs.take(j + 1)));
        }
        j = j + 1;
    }
    assert(rs.take(rs.len() as int) =~= rs);
    ThreadCleanup { files, dirs }
}

proof fn lemma_files_below(exs: Seq<ExampleView>, roots: Seq<Seq<char>>)
    ensures
        forall|k: int|
            0 <= k < removable_files(exs, roots).len() ==> below_a_root(
                #[trigger] removable_files(exs, roots)[k],
                roots,
            ),
    decreases exs.len(),
{
    if exs.len() > 0 {
        lemma_files_below(exs.drop_last(), roots);
        let prev = removable_files(exs.drop_last(), roots);
        let all = removable_files(exs, roots);
        assert forall|k: int| 0 <= k < all.len() implies below_a_root(#[trigger] all[k], roots) by {
            if k < prev.len() {
                assert(all[k] == prev[k]);
            } else {
                assert(all[k] == exs.last().path);
            }
        }
    }
}

proof fn lemma_dirs_below(t: ThreadView, roots: Seq<Seq<char>>)
    ensures
        forall|k: int|
            0 <= k < removable_dirs(t, roots).len() ==> below_a_root(#[trigger] removable_dirs(t, roots)[k], roots),
    decreases roots.len(),
{
    if roots.len() > 0 {
        lemma_dirs_below(t, roots.drop_last());
        let prev = removable_dirs(t, roots.drop_last());
        let all = removable_dirs(t, roots);
        assert forall|k: int| 0 <= k < all.len() implies below_a_root(#[trigger] all[k], roots) by {
            if k < prev.len() {
                assert(all[k] == prev[k]);
                let j = choose|j: int| 0 <= j < roots.drop_last().len() && plainly_below(prev[k], #[trigger] roots.drop_last()[j]);
                assert(roots.drop_last()[j] == roots[j]);
            } else {
                assert(roots[roots.len() - 1] == roots.last());
            }
        }
    }
}

/// Deleting a thread removes nothing outside the configured scratch roots:
/// every file and directory its cleanup names lies plainly below one of
/// them, so no step of its path leaves the root.
pub proof fn law_cleanup_stays_in_roots(t: ThreadView, roots: Seq<Seq<char>>)
    ensures
        forall|k: int|
            0 <= k < removable_files(t.examples, roots).len() ==> below_a_root(
                #[trigger] removable_files(t.examples, roots)[k],
                roots,
            ),
        forall|k: int|
            0 <= k < removable_dirs(t, roots).len() ==> below_a_root(#[trigger] removable_dirs(t, roots)[k], roots),
{
    lemma_files_below(t.examples, roots);
    lemma_dirs_below(t, roots);
}

/// Why a thread operation was refused.
#[derive(Debug, Clone, PartialEq, Eq)]
pub enum ThreadError {
    /// The cursor offset does not name a place in the buffer.
    Offset(OffsetError),
    /// The prompt is empty or all white space.
    EmptyPrompt,
    /// The model or reasoning effort override is refused.
    Model(ModelError),
    /// No thread has the given id.
    NotFound(String),
}

impl ThreadError {
    /// The message shown to a user for this error.
    pub fn message(&self) -> (r: String)
        ensures
            r@ == (match self {
                ThreadError::Offset(e) => crate::anchoring::offset_error_text(*e),
                ThreadError::EmptyPrompt => "thread prompt must not be empty"@,
                ThreadError::Model(e) => crate::models::model_error_text(*e),
                ThreadError::NotFound(id) => "thread not found: "@ + id@,
            }),
    {
        match self {
            ThreadError::Offset(e) => e.message(),
            ThreadError::EmptyPrompt => owned("thread prompt must not be empty"),
            ThreadError::Model(e) => e.message(),
            ThreadError::NotFound(id) => {
                let mut m = owned("thread not found: ");
                m.push_str(id.as_str());
                m
            },
        }
    }
}

/// The id of a thread made at `millis` by process `pid` with counter `counter`.
pub open spec fn thread_id_for(millis: u64, pid: u32, counter: u64) -> Seq<char> {
    "thread-"@ + decimal(millis as nat) + "-"@ + decimal(pid as nat) + "-"@ + decimal(counter as nat)
}

/// The id of an example made at `millis` by process `pid` with counter `counter`.
pub open spec fn example_id_for(millis: u64, pid: u32, counter: u64) -> Seq<char> {
    "example-"@ + decimal(millis as nat) + "-"@ + decimal(pid as nat) + "-"@ + decimal(
        counter as nat,
    )
}

/// The counter after one more id, wrapping as an atomic counter does.
pub open spec fn bump(c: u64) -> u64 {
    if c == u64::MAX {
        0
    } else {
        (c + 1) as u64
    }
}

/// What the checks of thread creation give, in their order: the cursor
/// offset, a non-blank prompt, the model override, the effort override; on
/// success, the normalized overrides.
pub open spec fn create_check(
    content: Seq<char>,
    offset: int,
    prompt: Seq<char>,
    model: Option<Seq<char>>,
    effort: Option<Seq<char>>,
) -> Result<(Option<Seq<char>>, Option<Seq<char>>), ThreadError> {
    match offset_check(content, offset) {
        Err(o) => Err(ThreadError::Offset(o)),
        Ok(_) => if trim(prompt).len() == 0 {
            Err(ThreadError::EmptyPrompt)
        } else {
            match model_outcome(model) {
                Err(e) => Err(ThreadError::Model(e)),
                Ok(m) => match effort_outcome(effort) {
                    Err(e) => Err(ThreadError::Model(e)),
                    Ok(r) => Ok((m, r)),
                },
            }
        },
    }
}

/// The thread created at byte `offset` of `content` for `prompt`: its line,
/// that line's hash and trimmed preview, the trimmed prompt and its preview,
/// status `open`, no session and no examples, created and updated at `now`.
pub open spec fn new_thread(
    id: Seq<char>,
    mark_id: Option<Seq<char>>,
    workspace: Seq<char>,
    file: Seq<char>,
    offset: usize,
    content: Seq<char>,
    prompt: Seq<char>,
    model: Option<Seq<char>>,
    effort: Option<Seq<char>>,
    now: u64,
) -> ThreadView {
    let line = line_at(encode_utf8(content), offset as int);
    let text = line_text_or_empty(content, line as int);
    ThreadView {
        thread_id: id,
        mark_id,
        workspace,
        file,
        original_line: line as usize,
        current_line: line as usize,
        byte_offset: offset,
        line_hash: line_hash_spec(text),
        line_preview: truncate_chars(trim(text), LINE_PREVIEW_MAX_CHARS as nat),
        prompt_preview: truncate_chars(trim(prompt), PROMPT_PREVIEW_MAX_CHARS as nat),
        prompt: trim(prompt),
        model,
        reasoning_effort: effort,
        codex_session_id: None,
        codex_session_path: None,
        examples: seq![],
        status: "open"@,
        created_at: now,
        updated_at: now,
    }
}

/// Whether a selection names whole characters of `content` in order.
pub open spec fn selection_ok(content: Seq<char>, start: Option<usize>, end: Option<usize>) -> bool {
    match (start, end) {
        (Some(s), Some(e)) => s <= e && e <= encode_utf8(content).len() && is_char_boundary(
            encode_utf8(content),
            s as int,
        ) && is_char_boundary(encode_utf8(content), e as int),
        _ => false,
    }
}

/// At most the first `CONTEXT_MAX_CHARS` characters of `s`.
pub open spec fn cap_chars(s: Seq<char>) -> Seq<char> {
    if s.len() > CONTEXT_MAX_CHARS {
        s.take(CONTEXT_MAX_CHARS as int)
    } else {
        s
    }
}

/// Where a thread is and what it asks, as its launch prompt begins.
pub open spec fn thread_header(t: ThreadView) -> Seq<char> {
    "You are working in "@ + t.workspace + ".\nFile: "@ + t.file + "\nLine: "@ + decimal(
        t.current_line as nat,
    ) + "\nUser ask: "@ + t.prompt + "\n\n"@
}

/// The prompt handed to Codex for a thread: where it is and what is asked,
/// then the selected code when the selection is valid, otherwise the numbered
/// lines near the anchor, capped.
pub open spec fn composed(
    t: ThreadView,
    content: Seq<char>,
    start: Option<usize>,
    end: Option<usize>,
) -> Seq<char> {
    let head = thread_header(t);
    if selection_ok(content, start, end) {
        head + "Selected code:\n"@ + cap_chars(
            decode_utf8(encode_utf8(content).subrange(start->0 as int, end->0 as int)),
        )
    } else {
        head + "Nearby code context:\n"@ + cap_chars(
            nearby(content, t.current_line as int, NEARBY_RADIUS as int),
        )
    }
}

/// The Codex command line for a thread: resume its session when it has one,
/// otherwise start in its workspace with its overrides; the prompt comes last.
pub open spec fn launch_argv(t: ThreadView, prompt: Seq<char>) -> Seq<Seq<char>> {
    seq!["codex"@, "--no-alt-screen"@] + match t.codex_session_id {
        Some(sid) => seq!["resume"@, sid],
        None => (match t.model {
            Some(m) => seq!["--model"@, m],
            None => seq![],
        }) + (match t.reasoning_effort {
            Some(e) => seq!["-c"@, "model_reasoning_effort=\""@ + e + "\""@],
            None => seq![],
        }) + seq!["-C"@, t.workspace],
    } + seq![prompt]
}

/// The launch planned at `now` for a thread.
pub open spec fn launch_view(
    t: ThreadView,
    content: Seq<char>,
    start: Option<usize>,
    end: Option<usize>,
    now: u64,
) -> LaunchView {
    LaunchView {
        argv: launch_argv(t, composed(t, content, start, end)),
        cwd: t.workspace,
        started_after_unix: now,
        model: t.model,
        reasoning_effort: t.reasoning_effort,
    }
}

/// A thread reanchored against `content`: it moves to the nearest line with
/// its hash; a stale thread found again becomes `linked` or `open` by whether
/// it has a session; a thread whose line is gone becomes `stale`. It is
/// stamped with `now` only when its line or status changed.
pub open spec fn thread_reanchored(t: ThreadView, content: Seq<char>, now: u64) -> ThreadView {
    match nearest_match(line_hashes(content), t.line_hash, t.current_line as int) {
        Some(l) => {
            let status = if t.status == "stale"@ {
                if t.codex_session_id is Some {
                    "linked"@
                } else {
                    "open"@
                }
            } else {
                t.status
            };
            ThreadView {
                current_line: l as usize,
                status,
                updated_at: if l != t.current_line || status != t.status {
                    now
                } else {
                    t.updated_at
                },
                ..t
            }
        },
        None => ThreadView {
            status: "stale"@,
            updated_at: if t.status != "stale"@ {
                now
            } else {
                t.updated_at
            },
            ..t
        },
    }
}

/// Whether a thread lies in `workspace` and, if one is given, in `file`.
pub open spec fn thread_in_scope(t: ThreadView, workspace: Seq<char>, file: Option<Seq<char>>) -> bool {
    same_path_spec(t.workspace, workspace) && match file {
        Some(f) => same_path_spec(t.file, f),
        None => true,
    }
}

/// The threads of `ts` that lie in scope, in order.
pub open spec fn select_threads(ts: Seq<ThreadView>, workspace: Seq<char>, file: Option<Seq<char>>) -> Seq<ThreadView>
    decreases ts.len(),
{
    if ts.len() == 0 {
        seq![]
    } else {
        select_threads(ts.drop_last(), workspace, file) + if thread_in_scope(
            ts.last(),
            workspace,
            file,
        ) {
            seq![ts.last()]
        } else {
            seq![]
        }
    }
}

/// The threads after listing: when both a file and content are given, every
/// thread of that workspace and file is reanchored against the content.
pub open spec fn listed_threads(
    ts: Seq<ThreadView>,
    workspace: Seq<char>,
    file: Option<Seq<char>>,
    content: Option<Seq<char>>,
    now: u64,
) -> Seq<ThreadView> {
    match (file, content) {
        (Some(f), Some(c)) => ts.map_values(
            |t: ThreadView|
                if thread_in_scope(t, workspace, Some(f)) {
                    thread_reanchored(t, c, now)
                } else {
                    t
                },
        ),
        _ => ts,
    }
}

/// Whether `i` is the first index of a thread with id `id`.
pub open spec fn first_thread(ts: Seq<ThreadView>, id: Seq<char>, i: int) -> bool {
    &&& 0 <= i < ts.len()
    &&& ts[i].thread_id == id
    &&& forall|j: int| 0 <= j < i ==> ts[j].thread_id != id
}

/// Whether some thread has id `id`.
pub open spec fn has_thread_id(ts: Seq<ThreadView>, id: Seq<char>) -> bool {
    exists|i: int| 0 <= i < ts.len() && ts[i].thread_id == id
}

/// A thread linked to a Codex session at `now`.
pub open spec fn linked_thread(
    t: ThreadView,
    session_id: Seq<char>,
    session_path: Option<Seq<char>>,
    now: u64,
) -> ThreadView {
    ThreadView {
        codex_session_id: Some(session_id),
        codex_session_path: session_path,
        status: "linked"@,
        updated_at: now,
        ..t
    }
}

/// The title of an example: its trimmed prompt, shortened, or else the file
/// name of its path, or else `example`.
pub open spec fn title_for(prompt: Seq<char>, relative_path: Seq<char>) -> Seq<char> {
    if trim(prompt).len() > 0 {
        truncate_chars(trim(prompt), PROMPT_PREVIEW_MAX_CHARS as nat)
    } else {
        match file_name(relative_path) {
            Some(n) => n,
            None => "example"@,
        }
    }
}

/// The example recorded for a scratch artifact made for `prompt`.
pub open spec fn new_example(
    id: Seq<char>,
    thread_id: Seq<char>,
    scratch: ScratchCreateResult,
    prompt: Seq<char>,
) -> ExampleView {
    ExampleView {
        example_id: id,
        thread_id,
        title: title_for(trim(prompt), scratch.relative_path@),
        path: scratch.path@,
        relative_path: scratch.relative_path@,
        prompt: trim(prompt),
        prompt_preview: truncate_chars(trim(prompt), PROMPT_PREVIEW_MAX_CHARS as nat),
        source_file: scratch.source_file@,
        bytes: scratch.bytes,
        lines: scratch.lines,
        created_at: scratch.created_at,
    }
}

/// The index of the first session modified at or after `after`.
pub open spec fn first_recent(sessions: Seq<CodexSessionInfo>, after: u64) -> Option<int>
    decreases sessions.len(),
{
    if sessions.len() == 0 {
        None
    } else {
        match first_recent(sessions.drop_last(), after) {
            Some(i) => Some(i),
            None => if sessions.last().modified_at >= after {
                Some(sessions.len() - 1)
            } else {
                None
            },
        }
    }
}

/// The prompt of a thread that attaches an existing Codex session.
pub open spec fn attach_prompt(session_id: Seq<char>) -> Seq<char> {
    "Attached Codex session "@ + session_id
}

/// `cap_chars` of the characters of `s`.
fn cap_context(s: &str) -> (r: String)
    ensures
        r@ == cap_chars(s@),
{
    let cs = chars_of(s);
    let end = if cs.len() > CONTEXT_MAX_CHARS {
        CONTEXT_MAX_CHARS
    } else {
        cs.len()
    };
    let r = string_from_range(cs.as_slice(), 0, end);
    assert(cs@.subrange(0, cs@.len() as int) =~= cs@);
    r
}

/// The prompt handed to Codex for a thread.
fn composed_prompt(
    thread: &ThreadAnchor,
    content: &str,
    selection_start: Option<usize>,
    selection_end: Option<usize>,
) -> (r: String)
    ensures
        r@ == composed(thread@, content@, selection_start, selection_end),
{
    let mut prompt = owned("You are working in ");
    prompt.push_str(thread.workspace.as_str());
    prompt.push_str(".\nFile: ");
    prompt.push_str(thread.file.as_str());
    prompt.push_str("\nLine: ");
    prompt.push_str(decimal_string(thread.current_line as u64).as_str());
    prompt.push_str("\nUser ask: ");
    prompt.push_str(thread.prompt.as_str());
    prompt.push_str("\n\n");
    assert(prompt@ =~= thread_header(thread@));
    match (selection_start, selection_end) {
        (Some(start), Some(end)) => {
            if start <= end && end <= content.as_bytes().len() && content.is_char_boundary(start)
                && content.is_char_boundary(end) {
                let slice = byte_slice(content, start, end);
                proof {
                    encode_utf8_decode_utf8(slice@);
                }
                prompt.push_str("Selected code:\n");
                prompt.push_str(cap_context(slice).as_str());
                return prompt;
            }
        },
        _ => {},
    }
    assert(!selection_ok(content@, selection_start, selection_end));
    let ghost head = prompt@;
    let near = cap_context(nearby_lines(content, thread.current_line, NEARBY_RADIUS).as_str());
    prompt.push_str("Nearby code context:\n");
    prompt.push_str(near.as_str());
    assert(prompt@ =~= head + "Nearby code context:\n"@ + near@);
    prompt
}

/// The Codex launch planned at `now` for a thread.
fn launch_for(
    thread: &ThreadAnchor,
    content: &str,
    selection_start: Option<usize>,
    selection_end: Option<usize>,
    now: u64,
) -> (r: ThreadLaunch)
    ensures
        r@ == launch_view(thread@, content@, selection_start, selection_end, now),
{
    let mut argv: Vec<String> = Vec::new();
    argv.push(owned("codex"));
    argv.push(owned("--no-alt-screen"));
    let ghost t = thread@;
    match &thread.codex_session_id {
        Some(session_id) => {
            argv.push(owned("resume"));
            argv.push(session_id.clone());
        },
        None => {
            match &thread.model {
                Some(model) => {
                    argv.push(owned("--model"));
                    argv.push(model.clone());
                },
                None => {},
            }
            match &thread.reasoning_effort {
                Some(effort) => {
                    argv.push(owned("-c"));
                    argv.push(reasoning_effort_config_arg(effort.as_str()));
                },
                None => {},
            }
            argv.push(owned("-C"));
            argv.push(thread.workspace.clone());
        },
    }
    let prompt = composed_prompt(thread, content, selection_start, selection_end);
    argv.push(prompt);
    let r = ThreadLaunch {
        argv,
        cwd: thread.workspace.clone(),
        started_after_unix: now,
        model: copy_opt(&thread.model),
        reasoning_effort: copy_opt(&thread.reasoning_effort),
    };
    assert(r@.argv =~= launch_argv(t, composed(t, content@, selection_start, selection_end)));
    r
}

/// Reanchor one thread against `content`.
fn reanchor(thread: &mut ThreadAnchor, content: &str, now: u64) -> (changed: bool)
    ensures
        final(thread)@ == thread_reanchored(old(thread)@, content@, now),
        changed == (final(thread)@.current_line != old(thread)@.current_line || final(thread)@.status
            != old(thread)@.status),
{
    let best = nearest_line(content, thread.line_hash.as_str(), thread.current_line);
    let old_line = thread.current_line;
    let old_status = thread.status.clone();
    let was_stale = str_eq(thread.status.as_str(), "stale");
    match best {
        Some(line) => {
            thread.current_line = line;
            if was_stale {
                thread.status = if thread.codex_session_id.is_some() {
                    owned("linked")
                } else {
                    owned("open")
                };
            }
        },
        None => {
            thread.status = owned("stale");
        },
    }
    let changed = old_line != thread.current_line || !str_eq(
        old_status.as_str(),
        thread.status.as_str(),
    );
    if changed {
        thread.updated_at = now;
    }
    changed
}

/// Whether a thread lies in `workspace` and, if one is given, in `file`.
fn thread_matches(t: &ThreadAnchor, workspace: &str, file: &Option<String>) -> (b: bool)
    ensures
        b == thread_in_scope(t@, workspace@, opt_chars(*file)),
{
    if !same_path(t.workspace.as_str(), workspace) {
        return false;
    }
    match file {
        Some(f) => same_path(t.file.as_str(), f.as_str()),
        None => true,
    }
}

/// `title_for` of a prompt and path.
fn title_for_example(prompt: &str, relative_path: &str) -> (r: String)
    ensures
        r@ == title_for(prompt@, relative_path@),
{
    let p = trim_str(prompt);
    if !p.as_str().is_empty() {
        let pc = chars_of(p.as_str());
        return truncate(pc.as_slice(), PROMPT_PREVIEW_MAX_CHARS);
    }
    match file_name_of(relative_path) {
        Some(n) => n,
        None => owned("example"),
    }
}

/// JSON-backed thread store, held in memory.
#[derive(Debug, Clone)]
pub struct ThreadStore {
    path: String,
    threads: Vec<ThreadAnchor>,
    process_id: u32,
    counter: u64,
}

impl ThreadStore {
    /// The threads the store holds, in order.
    pub closed spec fn spec_threads(&self) -> Seq<ThreadView> {
        thread_views(self.threads@)
    }

    /// The path of the file that persists the store.
    pub closed spec fn spec_path(&self) -> Seq<char> {
        self.path@
    }

    /// The process id written into new ids.
    pub closed spec fn spec_process_id(&self) -> u32 {
        self.process_id
    }

    /// How many ids this store has made, wrapping.
    pub closed spec fn spec_counter(&self) -> u64 {
        self.counter
    }

    /// Create a store at the supplied runtime path.
    pub fn new(path: String) -> (s: Self)
        ensures
            s.spec_threads() == Seq::<ThreadView>::empty(),
            s.spec_path() == path@,
            s.spec_process_id() == 0,
            s.spec_counter() == 0,
    {
        let s = ThreadStore { path, threads: Vec::new(), process_id: 0, counter: 0 };
        assert(s.spec_threads() =~= Seq::<ThreadView>::empty());
        s
    }

    /// A store holding `threads`, read from `path`, for process `process_id`.
    pub fn with_threads(path: String, threads: Vec<ThreadAnchor>, process_id: u32) -> (s: Self)
        ensures
            s.spec_threads() == thread_views(threads@),
            s.spec_path() == path@,
            s.spec_process_id() == process_id,
            s.spec_counter() == 0,
    {
        ThreadStore { path, threads, process_id, counter: 0 }
    }

    /// The path of the file that persists the store.
    pub fn path(&self) -> (r: &str)
        ensures
            r@ == self.spec_path(),
    {
        self.path.as_str()
    }

    /// The threads the store holds, in order.
    pub fn threads(&self) -> (r: &Vec<ThreadAnchor>)
        ensures
            thread_views(r@) == self.spec_threads(),
    {
        &self.threads
    }

    /// The next id's decimal parts, and the counter moved on.
    fn next_id(&mut self, prefix: &str, now_millis: u64) -> (r: String)
        ensures
            r@ == prefix@ + decimal(now_millis as nat) + "-"@ + decimal(
                old(self).spec_process_id() as nat,
            ) + "-"@ + decimal(old(self).spec_counter() as nat),
            final(self).spec_counter() == bump(old(self).spec_counter()),
            final(self).spec_threads() == old(self).spec_threads(),
            final(self).spec_path() == old(self).spec_path(),
            final(self).spec_process_id() == old(self).spec_process_id(),
    {
        let mut id = owned(prefix);
        id.push_str(decimal_string(now_millis).as_str());
        id.push_str("-");
        id.push_str(decimal_string(self.process_id as u64).as_str());
        id.push_str("-");
        id.push_str(decimal_string(self.counter).as_str());
        self.counter = if self.counter == u64::MAX {
            0
        } else {
            self.counter + 1
        };
        id
    }

    /// Create an anchored thread.
    pub fn create(&mut self, params: &ThreadCreateParams, now: u64, now_millis: u64) -> (r: Result<
        ThreadCreateResult,
        ThreadError,
    >)
        requires
            encode_utf8(params.content@).len() < usize::MAX,
        ensures
            thread_created(*old(self), *final(self), params, None, now, now_millis, r),
    {
        self.create_with_mark(params, None, now, now_millis)
    }

    /// Create an anchored thread attached to an optional external mark.
    pub fn create_with_mark(
        &mut self,
        params: &ThreadCreateParams,
        mark_id: Option<String>,
        now: u64,
        now_millis: u64,
    ) -> (r: Result<ThreadCreateResult, ThreadError>)
        requires
            encode_utf8(params.content@).len() < usize::MAX,
        ensures
            thread_created(*old(self), *final(self), params, opt_chars(mark_id), now, now_millis, r),
    {
        match validate_offset(params.content.as_str(), params.offset) {
            Ok(()) => {},
            Err(e) => {
                return Err(ThreadError::Offset(e));
            },
        }
        let prompt = trim_str(params.prompt.as_str());
        if prompt.as_str().is_empty() {
            return Err(ThreadError::EmptyPrompt);
        }
        let model = match normalize_model(copy_opt(&params.model)) {
            Ok(m) => m,
            Err(e) => {
                return Err(ThreadError::Model(e));
            },
        };
        let reasoning_effort = match normalize_reasoning_effort(
            copy_opt(&params.reasoning_effort),
        ) {
            Ok(m) => m,
            Err(e) => {
                return Err(ThreadError::Model(e));
            },
        };
        let content = params.content.as_str();
        let line = line_at_offset(content, params.offset);
        let cs = chars_of(content);
        let ls = lines_of(cs.as_slice());
        let text = line_text_of(&ls, line);
        let (a, b) = trim_range(text.as_slice());
        let trimmed = string_from_range(text.as_slice(), a, b);
        let tc = chars_of(trimmed.as_str());
        let pc = chars_of(prompt.as_str());
        let thread_id = self.next_id("thread-", now_millis);
        let thread = ThreadAnchor {
            thread_id,
            mark_id,
            workspace: params.workspace.clone(),
            file: params.file.clone(),
            original_line: line,
            current_line: line,
            byte_offset: params.offset,
            line_hash: line_hash(text.as_slice()),
            line_preview: truncate(tc.as_slice(), LINE_PREVIEW_MAX_CHARS),
            prompt_preview: truncate(pc.as_slice(), PROMPT_PREVIEW_MAX_CHARS),
            prompt,
            model,
            reasoning_effort,
            codex_session_id: None,
            codex_session_path: None,
            examples: Vec::new(),
            status: owned("open"),
            created_at: now,
            updated_at: now,
        };
        assert(example_views(thread.examples@) =~= Seq::<ExampleView>::empty());
        let copy = thread.duplicate();
        let ghost before = self.threads@;
        self.threads.push(thread);
        assert(thread_views(self.threads@) =~= thread_views(before).push(copy@));
        let launch = launch_for(
            &copy,
            content,
            params.selection_start,
            params.selection_end,
            now,
        );
        Ok(ThreadCreateResult { thread: copy, launch })
    }

    /// The index of the first thread with id `id`.
    fn position(&self, id: &str) -> (r: Option<usize>)
        ensures
            (match r {
                Some(i) => first_thread(self.spec_threads(), id@, i as int),
                None => !has_thread_id(self.spec_threads(), id@),
            }),
    {
        let ghost all = thread_views(self.threads@);
        let mut i: usize = 0;
        while i < self.threads.len()
            invariant
                i <= self.threads@.len(),
                all == thread_views(self.threads@),
                forall|j: int| 0 <= j < i ==> all[j].thread_id != id@,
            decreases self.threads@.len() - i,
        {
            if str_eq(self.threads[i].thread_id.as_str(), id) {
                return Some(i);
            }
            i = i + 1;
        }
        None
    }

    /// Link a generated scratch artifact to an existing thread.
    pub fn add_example(
        &mut self,
        thread_id: &str,
        scratch: &ScratchCreateResult,
        prompt: &str,
        now: u64,
        now_millis: u64,
    ) -> (r: Result<ThreadExampleCreateResult, ThreadError>)
        ensures
            final(self).spec_path() == old(self).spec_path(),
            final(self).spec_process_id() == old(self).spec_process_id(),
            (match r {
                Ok(res) => exists|i: int|
                    #![trigger first_thread(old(self).spec_threads(), thread_id@, i)]
                    {
                        let t = old(self).spec_threads()[i];
                        let ex = new_example(
                            example_id_for(
                                now_millis,
                                old(self).spec_process_id(),
                                old(self).spec_counter(),
                            ),
                            thread_id@,
                            *scratch,
                            prompt@,
                        );
                        let t2 = ThreadView { examples: t.examples.push(ex), updated_at: now, ..t };
                        &&& first_thread(old(self).spec_threads(), thread_id@, i)
                        &&& res.example@ == ex
                        &&& res.thread@ == t2
                        &&& final(self).spec_threads() == old(self).spec_threads().update(i, t2)
                        &&& final(self).spec_counter() == bump(old(self).spec_counter())
                    },
                Err(e) => {
                    &&& !has_thread_id(old(self).spec_threads(), thread_id@)
                    &&& e matches ThreadError::NotFound(id) && id@ == thread_id@
                    &&& final(self).spec_threads() == old(self).spec_threads()
                    &&& final(self).spec_counter() == old(self).spec_counter()
                },
            }),
    {
        let index = match self.position(thread_id) {
            Some(i) => i,
            None => {
                return Err(ThreadError::NotFound(owned(thread_id)));
            },
        };
        let p = trim_str(prompt);
        let pc = chars_of(p.as_str());
        let example_id = self.next_id("example-", now_millis);
        let example = ThreadExample {
            example_id,
            thread_id: owned(thread_id),
            title: title_for_example(p.as_str(), scratch.relative_path.as_str()),
            path: scratch.path.clone(),
            relative_path: scratch.relative_path.clone(),
            prompt: p,
            prompt_preview: truncate(pc.as_slice(), PROMPT_PREVIEW_MAX_CHARS),
            source_file: scratch.source_file.clone(),
            bytes: scratch.bytes,
            lines: scratch.lines,
            created_at: scratch.created_at,
        };
        let mut thread = self.threads[index].duplicate();
        let ghost old_examples = thread@.examples;
        thread.examples.push(example.duplicate());
        assert(example_views(thread.examples@) =~= old_examples.push(example@));
        thread.updated_at = now;
        let copy = thread.duplicate();
        let ghost before = thread_views(self.threads@);
        self.threads.set(index, thread);
        assert(thread_views(self.threads@) =~= before.update(index as int, copy@));
        Ok(ThreadExampleCreateResult { thread: copy, example })
    }

    /// The threads after listing, reanchored where both a file and content
    /// are given.
    fn reanchor_in_scope(&mut self, workspace: &str, file: &Option<String>, content: &Option<String>, now: u64)
        ensures
            final(self).spec_threads() == listed_threads(
                old(self).spec_threads(),
                workspace@,
                opt_chars(*file),
                opt_chars(*content),
                now,
            ),
            final(self).spec_path() == old(self).spec_path(),
            final(self).spec_process_id() == old(self).spec_process_id(),
            final(self).spec_counter() == old(self).spec_counter(),
    {
        let ghost before = thread_views(self.threads@);
        match (file, content) {
            (Some(f), Some(c)) => {
                let mut out: Vec<ThreadAnchor> = Vec::new();
                let mut i: usize = 0;
                let fo: Option<String> = Some(f.clone());
                while i < self.threads.len()
                    invariant
                        i <= self.threads@.len(),
                        before == thread_views(self.threads@),
                        opt_chars(fo) == Some(f@),
                        out@.len() == i,
                        forall|j: int|
                            0 <= j < i ==> #[trigger] out@[j]@ == (if thread_in_scope(
                                before[j],
                                workspace@,
                                Some(f@),
                            ) {
                                thread_reanchored(before[j], c@, now)
                            } else {
                                before[j]
                            }),
                    decreases self.threads@.len() - i,
                {
                    let mut t = self.threads[i].duplicate();
                    if thread_matches(&t, workspace, &fo) {
                        reanchor(&mut t, c.as_str(), now);
                    }
                    out.push(t);
                    i = i + 1;
                }
                self.threads = out;
                assert(thread_views(self.threads@) =~= listed_threads(
                    before,
                    workspace@,
                    opt_chars(*file),
                    opt_chars(*content),
                    now,
                ));
            },
            _ => {},
        }
    }

    /// List threads, optionally filtered and reanchored against live content.
    pub fn list(&mut self, params: &ThreadListParams, now: u64) -> (r: ThreadListResult)
        ensures
            final(self).spec_threads() == listed_threads(
                old(self).spec_threads(),
                params.workspace@,
                opt_chars(params.file),
                opt_chars(params.content),
                now,
            ),
            thread_views(r.threads@) == select_threads(
                final(self).spec_threads(),
                params.workspace@,
                opt_chars(params.file),
            ),
            final(self).spec_path() == old(self).spec_path(),
            final(self).spec_process_id() == old(self).spec_process_id(),
            final(self).spec_counter() == old(self).spec_counter(),
    {
        self.reanchor_in_scope(params.workspace.as_str(), &params.file, &params.content, now);
        let ghost all = thread_views(self.threads@);
        let mut out: Vec<ThreadAnchor> = Vec::new();
        let mut i: usize = 0;
        while i < self.threads.len()
            invariant
                i <= self.threads@.len(),
                all == thread_views(self.threads@),
                thread_views(out@) == select_threads(
                    all.take(i as int),
                    params.workspace@,
                    opt_chars(params.file),
                ),
            decreases self.threads@.len() - i,
        {
            assert(all.take(i + 1).drop_last() =~= all.take(i as int));
            assert(all.take(i + 1).last() == all[i as int]);
            let ghost prev = out@;
            if thread_matches(&self.threads[i], params.workspace.as_str(), &params.file) {
                out.push(self.threads[i].duplicate());
                assert(thread_views(out@) =~= thread_views(prev).push(all[i as int]));
            }
            i = i + 1;
        }
        assert(all.take(self.threads@.len() as int) =~= all);
        ThreadListResult { threads: out }
    }

    /// Link a thread to a Codex session.
    pub fn link(&mut self, params: &ThreadLinkParams, now: u64) -> (r: Result<ThreadLinkResult, ThreadError>)
        ensures
            final(self).spec_path() == old(self).spec_path(),
            final(self).spec_process_id() == old(self).spec_process_id(),
            final(self).spec_counter() == old(self).spec_counter(),
            (match r {
                Ok(res) => exists|i: int|
                    {
                        &&& first_thread(old(self).spec_threads(), params.thread_id@, i)
                        &&& res.thread@ == linked_thread(
                            old(self).spec_threads()[i],
                            params.codex_session_id@,
                            opt_chars(params.codex_session_path),
                            now,
                        )
                        &&& final(self).spec_threads() == old(self).spec_threads().update(
                            i,
                            res.thread@,
                        )
                    },
                Err(e) => {
                    &&& !has_thread_id(old(self).spec_threads(), params.thread_id@)
                    &&& e matches ThreadError::NotFound(id) && id@ == params.thread_id@
                    &&& final(self).spec_threads() == old(self).spec_threads()
                },
            }),
    {
        let index = match self.position(params.thread_id.as_str()) {
            Some(i) => i,
            None => {
                return Err(ThreadError::NotFound(params.thread_id.clone()));
            },
        };
        let mut thread = self.threads[index].duplicate();
        thread.codex_session_id = Some(params.codex_session_id.clone());
        thread.codex_session_path = copy_opt(&params.codex_session_path);
        thread.status = owned("linked");
        thread.updated_at = now;
        let copy = thread.duplicate();
        let ghost before = thread_views(self.threads@);
        self.threads.set(index, thread);
        assert(thread_views(self.threads@) =~= before.update(index as int, copy@));
        Ok(ThreadLinkResult { thread: copy })
    }

    /// Attach an existing Codex session to a new current-line anchor.
    pub fn attach(&mut self, params: &ThreadAttachParams, now: u64, now_millis: u64) -> (r: Result<
        ThreadLinkResult,
        ThreadError,
    >)
        requires
            encode_utf8(params.content@).len() < usize::MAX,
        ensures
            final(self).spec_path() == old(self).spec_path(),
            final(self).spec_process_id() == old(self).spec_process_id(),
            (match r {
                Ok(res) => exists|i: int|
                    #![trigger first_thread(attached(*old(self), params, now, now_millis), attached_id(*old(self), now_millis), i)]
                    {
                        let ts = attached(*old(self), params, now, now_millis);
                        &&& offset_check(params.content@, params.offset as int) is Ok
                        &&& first_thread(ts, attached_id(*old(self), now_millis), i)
                        &&& res.thread@ == linked_thread(ts[i], params.codex_session_id@, None, now)
                        &&& final(self).spec_threads() == ts.update(i, res.thread@)
                        &&& final(self).spec_counter() == bump(old(self).spec_counter())
                    },
                Err(e) => {
                    &&& offset_check(params.content@, params.offset as int) matches Err(o)
                    &&& e == ThreadError::Offset(o)
                    &&& final(self).spec_threads() == old(self).spec_threads()
                    &&& final(self).spec_counter() == old(self).spec_counter()
                },
            }),
    {
        let mut prompt = owned("Attached Codex session ");
        prompt.push_str(params.codex_session_id.as_str());
        proof {
            reveal_strlit("Attached Codex session ");
            assert(prompt@[0] == 'A');
            crate::text::lemma_trim_nonempty(prompt@, 0);
        }
        let created = self.create(
            &ThreadCreateParams {
                workspace: params.workspace.clone(),
                file: params.file.clone(),
                offset: params.offset,
                content: params.content.clone(),
                prompt,
                selection_start: None,
                selection_end: None,
                model: None,
                reasoning_effort: None,
            },
            now,
            now_millis,
        )?;
        let ghost mid = self.spec_threads();
        let ghost id = created.thread@.thread_id;
        assert(mid == attached(*old(self), params, now, now_millis));
        assert(mid[mid.len() - 1].thread_id == id);
        let linked = self.link(
            &ThreadLinkParams {
                thread_id: created.thread.thread_id.clone(),
                codex_session_id: params.codex_session_id.clone(),
                codex_session_path: None,
            },
            now,
        );
        match linked {
            Ok(res) => {
                proof {
                    let i = choose|i: int|
                        {
                            &&& first_thread(mid, id, i)
                            &&& res.thread@ == linked_thread(
                                mid[i],
                                params.codex_session_id@,
                                None,
                                now,
                            )
                            &&& self.spec_threads() == mid.update(i, res.thread@)
                        };
                    assert(first_thread(
                        attached(*old(self), params, now, now_millis),
                        attached_id(*old(self), now_millis),
                        i,
                    ));
                }
                Ok(res)
            },
            Err(e) => {
                assert(has_thread_id(mid, id));
                Err(e)
            },
        }
    }
}

impl ThreadStore {
    /// Resolve a newly launched Codex session: link the thread to the first of
    /// `sessions` (the workspace's project sessions, newest first, as the
    /// session listing returns them) modified at or after the launch.
    pub fn resolve(
        &mut self,
        params: &ThreadResolveParams,
        sessions: &Vec<CodexSessionInfo>,
        now: u64,
    ) -> (r: Result<ThreadResolveResult, ThreadError>)
        ensures
            final(self).spec_path() == old(self).spec_path(),
            final(self).spec_process_id() == old(self).spec_process_id(),
            final(self).spec_counter() == old(self).spec_counter(),
            (match first_recent(sessions@, params.started_after_unix) {
                None => {
                    &&& r matches Ok(res) && res.thread is None && !res.resolved
                    &&& final(self).spec_threads() == old(self).spec_threads()
                },
                Some(k) => match r {
                    Ok(res) => {
                        &&& res.resolved
                        &&& res.thread matches Some(t) && exists|i: int|
                            {
                                &&& first_thread(old(self).spec_threads(), params.thread_id@, i)
                                &&& t@ == linked_thread(
                                    old(self).spec_threads()[i],
                                    sessions@[k].id@,
                                    Some(sessions@[k].path@),
                                    now,
                                )
                                &&& final(self).spec_threads() == old(self).spec_threads().update(
                                    i,
                                    t@,
                                )
                            }
                    },
                    Err(e) => {
                        &&& !has_thread_id(old(self).spec_threads(), params.thread_id@)
                        &&& e matches ThreadError::NotFound(id) && id@ == params.thread_id@
                        &&& final(self).spec_threads() == old(self).spec_threads()
                    },
                },
            }),
    {
        let mut found: Option<usize> = None;
        let mut k: usize = 0;
        while k < sessions.len()
            invariant
                k <= sessions@.len(),
                (match found {
                    Some(j) => first_recent(sessions@.take(k as int), params.started_after_unix)
                        == Some(j as int) && j < k,
                    None => first_recent(sessions@.take(k as int), params.started_after_unix)
                        is None,
                }),
            decreases sessions@.len() - k,
        {
            assert(sessions@.take(k + 1).drop_last() =~= sessions@.take(k as int));
            if found.is_none() && sessions[k].modified_at >= params.started_after_unix {
                found = Some(k);
            }
            k = k + 1;
        }
        assert(sessions@.take(sessions@.len() as int) =~= sessions@);
        let k = match found {
            None => {
                return Ok(ThreadResolveResult { thread: None, resolved: false });
            },
            Some(k) => k,
        };
        let session = &sessions[k];
        let linked = self.link(
            &ThreadLinkParams {
                thread_id: params.thread_id.clone(),
                codex_session_id: session.id.clone(),
                codex_session_path: Some(session.path.clone()),
            },
            now,
        );
        match linked {
            Ok(res) => Ok(ThreadResolveResult { thread: Some(res.thread), resolved: true }),
            Err(e) => Err(e),
        }
    }

    /// Delete a thread by id.
    pub fn delete(&mut self, params: &ThreadDeleteParams) -> (r: ThreadDeleteResult)
        ensures
            final(self).spec_path() == old(self).spec_path(),
            final(self).spec_process_id() == old(self).spec_process_id(),
            final(self).spec_counter() == old(self).spec_counter(),
            (match r.thread {
                None => {
                    &&& !has_thread_id(old(self).spec_threads(), params.thread_id@)
                    &&& final(self).spec_threads() == old(self).spec_threads()
                },
                Some(t) => exists|i: int|
                    {
                        &&& first_thread(old(self).spec_threads(), params.thread_id@, i)
                        &&& t@ == old(self).spec_threads()[i]
                        &&& final(self).spec_threads() == old(self).spec_threads().remove(i)
                    },
            }),
    {
        let index = match self.position(params.thread_id.as_str()) {
            Some(i) => i,
            None => {
                return ThreadDeleteResult { thread: None };
            },
        };
        let ghost before = thread_views(self.threads@);
        let thread = self.threads.remove(index);
        assert(thread_views(self.threads@) =~= before.remove(index as int));
        ThreadDeleteResult { thread: Some(thread) }
    }
}

/// Store path for threads under the runtime directory.
pub fn store_path(runtime_dir: &str) -> (r: String)
    ensures
        r@ == crate::paths::join_path(runtime_dir@, "threads.json"@),
{
    crate::paths::join(runtime_dir, "threads.json")
}

/// What creating a thread from `params` with `mark_id` does to the store
/// and returns.
pub open spec fn thread_created(
    before: ThreadStore,
    after: ThreadStore,
    params: &ThreadCreateParams,
    mark_id: Option<Seq<char>>,
    now: u64,
    now_millis: u64,
    r: Result<ThreadCreateResult, ThreadError>,
) -> bool {
    let check = create_check(
        params.content@,
        params.offset as int,
        params.prompt@,
        opt_chars(params.model),
        opt_chars(params.reasoning_effort),
    );
    &&& after.spec_path() == before.spec_path()
    &&& after.spec_process_id() == before.spec_process_id()
    &&& match r {
        Ok(res) => {
            &&& check matches Ok((m, e))
            &&& res.thread@ == new_thread(
                thread_id_for(now_millis, before.spec_process_id(), before.spec_counter()),
                mark_id,
                params.workspace@,
                params.file@,
                params.offset,
                params.content@,
                params.prompt@,
                m,
                e,
                now,
            )
            &&& res.launch@ == launch_view(
                res.thread@,
                params.content@,
                params.selection_start,
                params.selection_end,
                now,
            )
            &&& after.spec_threads() == before.spec_threads().push(res.thread@)
            &&& after.spec_counter() == bump(before.spec_counter())
        },
        Err(err) => {
            &&& check == Err::<(Option<Seq<char>>, Option<Seq<char>>), ThreadError>(err)
            &&& after.spec_threads() == before.spec_threads()
            &&& after.spec_counter() == before.spec_counter()
        },
    }
}

/// The id a store gives the next thread made at `now_millis`.
pub open spec fn attached_id(before: ThreadStore, now_millis: u64) -> Seq<char> {
    thread_id_for(now_millis, before.spec_process_id(), before.spec_counter())
}

/// The threads after attaching a session creates its thread: the new thread,
/// anchored where `params` point and asking to attach the session, comes last.
pub open spec fn attached(
    before: ThreadStore,
    params: &ThreadAttachParams,
    now: u64,
    now_millis: u64,
) -> Seq<ThreadView> {
    before.spec_threads().push(
        new_thread(
            attached_id(before, now_millis),
            None,
            params.workspace@,
            params.file@,
            params.offset,
            params.content@,
            attach_prompt(params.codex_session_id@),
            None,
            None,
            now,
        ),
    )
}
/// Listing a file with its current content moves each of its threads to
/// the line that has the thread's hash and lies nearest the thread's
/// previous line (no line with that hash is nearer); a thread whose hash no
/// line has keeps its line and goes stale. A thread is stamped with `now`
/// exactly when its line or status changed, nothing else of it changes, and
/// threads outside the file are left as they were.
pub proof fn law_list_moves_threads_to_nearest_match(
    ts: Seq<ThreadView>,
    workspace: Seq<char>,
    file: Seq<char>,
    content: Seq<char>,
    now: u64,
    k: int,
)
    requires
        0 <= k < ts.len(),
        lines(content).len() <= usize::MAX,
    ensures
        ({
            let t = ts[k];
            let r = listed_threads(ts, workspace, Some(file), Some(content), now)[k];
            let hs = lines(content).map_values(|l: Seq<char>| line_hash_spec(l));
            &&& listed_threads(ts, workspace, Some(file), Some(content), now).len() == ts.len()
            &&& !thread_in_scope(t, workspace, Some(file)) ==> r == t
            &&& thread_in_scope(t, workspace, Some(file)) ==> {
                &&& (exists|i: int| 1 <= i <= hs.len() && #[trigger] hs[i - 1] == t.line_hash) ==> {
                    &&& 1 <= r.current_line <= hs.len()
                    &&& hs[r.current_line - 1] == t.line_hash
                    &&& forall|i: int|
                        1 <= i <= hs.len() && #[trigger] hs[i - 1] == t.line_hash ==> dist(
                            r.current_line as int,
                            t.current_line as int,
                        ) <= dist(i, t.current_line as int)
                    &&& r.status == (if t.status == "stale"@ {
                        if t.codex_session_id is Some {
                            "linked"@
                        } else {
                            "open"@
                        }
                    } else {
                        t.status
                    })
                }
                &&& (forall|i: int| 1 <= i <= hs.len() ==> #[trigger] hs[i - 1] != t.line_hash) ==> {
                    &&& r.current_line == t.current_line
                    &&& r.status == "stale"@
                }
                &&& r.updated_at == (if r.current_line != t.current_line || r.status != t.status {
                    now
                } else {
                    t.updated_at
                })
                &&& r == (ThreadView { current_line: r.current_line, status: r.status, updated_at: r.updated_at, ..t })
            }
        }),
{
    let t = ts[k];
    let hs = line_hashes(content);
    assert(hs == lines(content).map_values(|l: Seq<char>| line_hash_spec(l)));
    lemma_nearest_match(hs, t.line_hash, t.current_line as int);
}

/// Reanchoring a thread twice against the same content changes nothing the
/// second time.
pub proof fn law_thread_reanchor_settles(t: ThreadView, content: Seq<char>, now: u64, later: u64)
    requires
        lines(content).len() <= usize::MAX,
    ensures
        thread_reanchored(thread_reanchored(t, content, now), content, later) == thread_reanchored(
            t,
            content,
            now,
        ),
{
    let hs = line_hashes(content);
    lemma_nearest_match(hs, t.line_hash, t.current_line as int);
    let r = thread_reanchored(t, content, now);
    match nearest_match(hs, t.line_hash, t.current_line as int) {
        Some(j) => {
            lemma_nearest_match(hs, t.line_hash, j);
            assert(r.current_line == j);
            assert(dist(j, j) == 0);
        },
        None => {
            lemma_nearest_match(hs, t.line_hash, r.current_line as int);
        },
    }
}

/// Reanchoring moves a thread and may change its status and update time,
/// and nothing else: its id, prompt, session and examples stay. A thread
/// whose line is gone is stale; a stale thread whose line is found again is
/// `linked` when it has a session and `open` otherwise.
pub proof fn law_thread_reanchor_keeps(t: ThreadView, content: Seq<char>, now: u64)
    ensures
        ({
            let r = thread_reanchored(t, content, now);
            &&& r.thread_id == t.thread_id
            &&& r.prompt == t.prompt
            &&& r.codex_session_id == t.codex_session_id
            &&& r.codex_session_path == t.codex_session_path
            &&& r.examples == t.examples
            &&& r.line_hash == t.line_hash
            &&& r.original_line == t.original_line
            &&& (forall|i: int|
                1 <= i <= lines(content).len() ==> #[trigger] line_hashes(content)[i - 1]
                    != t.line_hash) ==> r.status == "stale"@
            &&& (exists|i: int|
                1 <= i <= lines(content).len() && #[trigger] line_hashes(content)[i - 1]
                    == t.line_hash) && t.status == "stale"@ ==> r.status == (if t.codex_session_id is Some {
                "linked"@
            } else {
                "open"@
            })
        }),
{
    lemma_nearest_match(line_hashes(content), t.line_hash, t.current_line as int);
}

/// A thread created in a workspace and file comes last in a listing of that
/// workspace and file (or of the whole workspace) when no content is given.
pub proof fn law_created_thread_is_listed(
    ts: Seq<ThreadView>,
    t: ThreadView,
    workspace: Seq<char>,
    file: Seq<char>,
    filter: Option<Seq<char>>,
    later: u64,
)
    requires
        t.workspace == workspace,
        t.file == file,
        filter is None || filter == Some(file),
    ensures
        listed_threads(ts.push(t), workspace, filter, None, later) == ts.push(t),
        select_threads(ts.push(t), workspace, filter) == select_threads(ts, workspace, filter).push(t),
{
    assert(ts.push(t).drop_last() =~= ts);
}

/// A thread with a Codex session launches `codex --no-alt-screen resume`
/// with that session; one without starts Codex in its workspace. Either way
/// the composed prompt comes last and the command runs in the workspace.
pub proof fn law_launch_resumes_session(
    t: ThreadView,
    content: Seq<char>,
    start: Option<usize>,
    end: Option<usize>,
    now: u64,
)
    ensures
        ({
            let l = launch_view(t, content, start, end, now);
            &&& l.argv[0] == "codex"@
            &&& l.argv[1] == "--no-alt-screen"@
            &&& l.argv.last() == composed(t, content, start, end)
            &&& l.cwd == t.workspace
            &&& t.codex_session_id matches Some(sid) ==> l.argv.len() == 5 && l.argv[2] == "resume"@
                && l.argv[3] == sid
            &&& t.codex_session_id is None ==> l.argv[l.argv.len() - 3] == "-C"@ && l.argv[l.argv.len()
                - 2] == t.workspace
        }),
{
    let l = launch_view(t, content, start, end, now);
    let p = composed(t, content, start, end);
    match t.codex_session_id {
        Some(sid) => {
            assert(l.argv =~= seq!["codex"@, "--no-alt-screen"@, "resume"@, sid, p]);
        },
        None => {
            let mid = (match t.model {
                Some(m) => seq!["--model"@, m],
                None => seq![],
            }) + (match t.reasoning_effort {
                Some(e) => seq!["-c"@, "model_reasoning_effort=\""@ + e + "\""@],
                None => seq![],
            });
            assert(l.argv =~= seq!["codex"@, "--no-alt-screen"@] + mid + seq!["-C"@, t.workspace, p]);
        },
    }
}

} // verus!
