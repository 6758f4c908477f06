//! Scratch preview files: request checks, the prompt handed to Codex, the
//! artifact text and its caps, where artifacts go (a scratch root outside
//! the workspace, chosen by the storage mode), file names and timestamps.
//! Running Codex and writing the file are the caller's part.

use vstd::prelude::*;
use vstd::string::StringSliceAdditionalSpecFns;
use vstd::utf8::{decode_utf8, encode_utf8, encode_utf8_decode_utf8, is_char_boundary};

use crate::cache::{compute_hash, content_hash, lemma_content_hash_shape};
use crate::settings::ScratchStorageMode;
use crate::anchoring::{OffsetError, nearby, nearby_lines, offset_check, validate_offset};
use crate::paths::{extension, extension_of, join, join_path};
use crate::text::{opt_chars, split_chars, split_on, views};
use crate::models::{ModelError, effort_outcome, model_outcome, normalize_model, normalize_reasoning_effort, reasoning_effort_config_arg};
use crate::rpc::{ScratchCreateParams, ScratchCreateResult};
use crate::text::{
    byte_slice, chars_of, decimal, decimal_string, join as join_parts, line_at, line_at_offset,
    lines, lines_of, owned, string_from_chars, string_from_range, trim, trim_str,
    truncate, truncate_chars,
};

verus! {

/// Longest code context put into a scratch prompt, in bytes.
pub const CONTEXT_MAX_BYTES: usize = 16384;

/// Longest prompt preview, in characters.
pub const PROMPT_PREVIEW_MAX_CHARS: usize = 120;

/// Longest title kept in an artifact header, in characters.
pub const TITLE_MAX_CHARS: usize = 80;

/// Longest file-name slug, in characters.
pub const SLUG_MAX_CHARS: usize = 48;

/// Most lines an artifact may have.
pub const MAX_LINES: usize = 400;

/// Most bytes an artifact may have.
pub const MAX_BYTES: usize = 65536;

/// Lines of nearby context on each side of the cursor.
pub const NEARBY_RADIUS: usize = 80;

/// How long a Codex turn may run by default, in milliseconds.
pub const DEFAULT_TIMEOUT_MILLIS: u64 = 180000;

/// Process-based scratch generator settings.
#[derive(Debug, Clone)]
pub struct ScratchClient {
    program: String,
    timeout_millis: u64,
    runtime_dir: String,
}

impl ScratchClient {
    /// The executable that is launched.
    pub closed spec fn spec_program(&self) -> Seq<char> {
        self.program@
    }

    /// The turn timeout, in milliseconds.
    pub closed spec fn spec_timeout_millis(&self) -> u64 {
        self.timeout_millis
    }

    /// The runtime directory for schema and output files.
    pub closed spec fn spec_runtime_dir(&self) -> Seq<char> {
        self.runtime_dir@
    }

    /// Create a scratch client that launches the supplied executable.
    pub fn new(program: String, runtime_dir: String) -> (c: Self)
        ensures
            c.spec_program() == program@,
            c.spec_timeout_millis() == DEFAULT_TIMEOUT_MILLIS,
            c.spec_runtime_dir() == runtime_dir@,
    {
        ScratchClient { program, timeout_millis: DEFAULT_TIMEOUT_MILLIS, runtime_dir }
    }

    /// Create a scratch client with a turn timeout.
    pub fn with_timeout(program: String, runtime_dir: String, timeout_millis: u64) -> (c: Self)
        ensures
            c.spec_program() == program@,
            c.spec_timeout_millis() == timeout_millis,
            c.spec_runtime_dir() == runtime_dir@,
    {
        ScratchClient { program, timeout_millis, runtime_dir }
    }

    /// The executable that is launched.
    pub fn program(&self) -> (r: &str)
        ensures
            r@ == self.spec_program(),
    {
        self.program.as_str()
    }

    /// The turn timeout, in milliseconds.
    pub fn timeout_millis(&self) -> (r: u64)
        ensures
            r == self.spec_timeout_millis(),
    {
        self.timeout_millis
    }

    /// The runtime directory for schema and output files.
    pub fn runtime_dir(&self) -> (r: &str)
        ensures
            r@ == self.spec_runtime_dir(),
    {
        self.runtime_dir.as_str()
    }
}

/// Why a scratch request or its output was refused.
#[derive(Debug, Clone, PartialEq, Eq)]
pub enum ScratchError {
    /// The prompt is empty or all white space.
    EmptyPrompt,
    /// No buffer content was supplied.
    EmptyContent,
    /// The cursor offset does not name a place in the buffer.
    Offset(OffsetError),
    /// The selection runs backwards or past the buffer.
    SelectionOutside,
    /// A selection end falls inside a character.
    SelectionNotBoundary,
    /// Only one end of a selection was supplied.
    SelectionUnpaired,
    /// The artifact has more than `MAX_LINES` lines; the count it has.
    TooManyLines(usize),
    /// The artifact has more than `MAX_BYTES` bytes; the count it has.
    TooManyBytes(usize),
    /// Codex's reply has a blank body.
    EmptyBody,
    /// A thread id cannot name a scratch directory.
    BadThreadId,
}

impl ScratchError {
    /// The message shown to a user for this error.
    pub fn message(&self) -> (r: String)
        ensures
            r@ == (match self {
                ScratchError::EmptyPrompt => "scratch prompt must not be empty"@,
                ScratchError::EmptyContent => "scratch requires live buffer contents on stdin"@,
                ScratchError::Offset(e) => crate::anchoring::offset_error_text(*e),
                ScratchError::SelectionOutside => "selection range is outside buffer content"@,
                ScratchError::SelectionNotBoundary => "selection range is not on UTF-8 character boundaries"@,
                ScratchError::SelectionUnpaired => "selection_start and selection_end must be provided together"@,
                ScratchError::TooManyLines(n) => "scratch output exceeds max lines ("@ + decimal(*n as nat)
                    + " > 400)"@,
                ScratchError::TooManyBytes(n) => "scratch output exceeds max bytes ("@ + decimal(*n as nat)
                    + " > 65536)"@,
                ScratchError::EmptyBody => "Codex returned an empty scratch body"@,
                ScratchError::BadThreadId => "thread id cannot name a scratch directory"@,
            }),
    {
        match self {
            ScratchError::EmptyPrompt => owned("scratch prompt must not be empty"),
            ScratchError::EmptyContent => owned("scratch requires live buffer contents on stdin"),
            ScratchError::Offset(e) => e.message(),
            ScratchError::SelectionOutside => owned("selection range is outside buffer content"),
            ScratchError::SelectionNotBoundary => owned(
                "selection range is not on UTF-8 character boundaries",
            ),
            ScratchError::SelectionUnpaired => owned(
                "selection_start and selection_end must be provided together",
            ),
            ScratchError::TooManyLines(n) => {
                let mut m = owned("scratch output exceeds max lines (");
                m.push_str(decimal_string(*n as u64).as_str());
                m.push_str(" > 400)");
                m
            },
            ScratchError::TooManyBytes(n) => {
                let mut m = owned("scratch output exceeds max bytes (");
                m.push_str(decimal_string(*n as u64).as_str());
                m.push_str(" > 65536)");
                m
            },
            ScratchError::EmptyBody => owned("Codex returned an empty scratch body"),
            ScratchError::BadThreadId => owned("thread id cannot name a scratch directory"),
        }
    }
}

/// What checking a selection of `content` gives.
pub open spec fn selection_check(content: Seq<char>, start: Option<usize>, end: Option<usize>) -> Result<(), ScratchError> {
    match (start, end) {
        (Some(s), Some(e)) => if s > e || e > encode_utf8(content).len() {
            Err(ScratchError::SelectionOutside)
        } else if !is_char_boundary(encode_utf8(content), s as int) || !is_char_boundary(
            encode_utf8(content),
            e as int,
        ) {
            Err(ScratchError::SelectionNotBoundary)
        } else {
            Ok(())
        },
        (None, None) => Ok(()),
        _ => Err(ScratchError::SelectionUnpaired),
    }
}

/// What checking a scratch request gives, in the order of the checks: a
/// non-blank prompt, some content, the cursor offset, the selection.
pub open spec fn params_check(p: ScratchCreateParams) -> Result<(), ScratchError> {
    if trim(p.prompt@).len() == 0 {
        Err(ScratchError::EmptyPrompt)
    } else if p.content@.len() == 0 {
        Err(ScratchError::EmptyContent)
    } else {
        match offset_check(p.content@, p.offset as int) {
            Err(o) => Err(ScratchError::Offset(o)),
            Ok(_) => selection_check(p.content@, p.selection_start, p.selection_end),
        }
    }
}

/// Check a selection of `content`.
pub fn validate_selection(content: &str, start: Option<usize>, end: Option<usize>) -> (r: Result<
    (),
    ScratchError,
>)
    ensures
        r == selection_check(content@, start, end),
{
    match (start, end) {
        (Some(s), Some(e)) => {
            if s > e || e > content.as_bytes().len() {
                return Err(ScratchError::SelectionOutside);
            }
            if !content.is_char_boundary(s) || !content.is_char_boundary(e) {
                return Err(ScratchError::SelectionNotBoundary);
            }
            Ok(())
        },
        (None, None) => Ok(()),
        _ => Err(ScratchError::SelectionUnpaired),
    }
}

/// Check a scratch request before anything runs.
pub fn validate_params(params: &ScratchCreateParams) -> (r: Result<(), ScratchError>)
    ensures
        r == params_check(*params),
{
    let prompt = trim_str(params.prompt.as_str());
    if prompt.as_str().is_empty() {
        return Err(ScratchError::EmptyPrompt);
    }
    if params.content.as_str().is_empty() {
        return Err(ScratchError::EmptyContent);
    }
    match validate_offset(params.content.as_str(), params.offset) {
        Ok(()) => {},
        Err(e) => {
            return Err(ScratchError::Offset(e));
        },
    }
    validate_selection(params.content.as_str(), params.selection_start, params.selection_end)
}

/// The greatest character boundary of `b` at or below `i`.
pub open spec fn boundary_at_or_below(b: Seq<u8>, i: int) -> int
    decreases i,
{
    if i <= 0 || is_char_boundary(b, i) {
        if i <= 0 {
            0
        } else {
            i
        }
    } else {
        boundary_at_or_below(b, i - 1)
    }
}

/// At most the first `CONTEXT_MAX_BYTES` bytes of `s`, cut back to a
/// character boundary.
pub open spec fn cap_bytes(s: Seq<char>) -> Seq<char> {
    if encode_utf8(s).len() <= CONTEXT_MAX_BYTES {
        s
    } else {
        decode_utf8(
            encode_utf8(s).take(boundary_at_or_below(encode_utf8(s), CONTEXT_MAX_BYTES as int)),
        )
    }
}

/// `cap_bytes` of `s`.
fn cap_context(s: &str) -> (r: String)
    ensures
        r@ == cap_bytes(s@),
{
    if s.as_bytes().len() <= CONTEXT_MAX_BYTES {
        return owned(s);
    }
    let mut end: usize = CONTEXT_MAX_BYTES;
    while end > 0 && !s.is_char_boundary(end)
        invariant
            end <= CONTEXT_MAX_BYTES < s.spec_bytes().len(),
            boundary_at_or_below(s.spec_bytes(), end as int) == boundary_at_or_below(
                s.spec_bytes(),
                CONTEXT_MAX_BYTES as int,
            ),
        decreases end,
    {
        end = end - 1;
    }
    proof {
        vstd::utf8::encode_utf8_valid_utf8(s@);
    }
    let cut = byte_slice(s, 0, end);
    proof {
        encode_utf8_decode_utf8(cut@);
        assert(s.spec_bytes().subrange(0, end as int) =~= s.spec_bytes().take(end as int));
    }
    owned(cut)
}

/// The fixed instructions of a scratch prompt.
pub open spec fn scratch_instructions() -> Seq<char> {
    "You may inspect the repository for context, but you must not edit files, run write commands, or rely on network access. Return only JSON matching the provided schema. The `body` field must be the complete contents of one useful preview/MVP/example file, with no markdown fences."@
}

/// The code context of a scratch prompt: the selection when one is given,
/// otherwise the numbered lines near the cursor line; capped.
pub open spec fn scratch_context(p: ScratchCreateParams, line: int) -> Seq<char> {
    match (p.selection_start, p.selection_end) {
        (Some(s), Some(e)) => "Selected code:\n"@ + cap_bytes(
            decode_utf8(encode_utf8(p.content@).subrange(s as int, e as int)),
        ),
        _ => "Nearby live buffer context:\n"@ + cap_bytes(
            nearby(p.content@, line, NEARBY_RADIUS as int),
        ),
    }
}

/// The prompt handed to Codex for a scratch request.
pub open spec fn scratch_prompt_spec(p: ScratchCreateParams) -> Seq<char> {
    let line = line_at(encode_utf8(p.content@), p.offset as int) as int;
    "You are creating one scratch preview file for a developer.\nWorkspace: "@ + p.workspace@
        + "\nSource file: "@ + p.file@ + "\nCursor line: "@ + decimal(line as nat)
        + "\nUser request: "@ + trim(p.prompt@) + "\n\n"@ + scratch_instructions() + "\n\n"@
        + scratch_context(p, line) + "\n"@
}

/// The prompt handed to Codex for a checked scratch request.
pub fn scratch_prompt(params: &ScratchCreateParams) -> (r: String)
    requires
        params_check(*params) is Ok,
        encode_utf8(params.content@).len() < usize::MAX,
    ensures
        r@ == scratch_prompt_spec(*params),
{
    let content = params.content.as_str();
    let line = line_at_offset(content, params.offset);
    let context = match (params.selection_start, params.selection_end) {
        (Some(start), Some(end)) => {
            let slice = byte_slice(content, start, end);
            proof {
                encode_utf8_decode_utf8(slice@);
            }
            let mut c = owned("Selected code:\n");
            c.push_str(cap_context(slice).as_str());
            c
        },
        _ => {
            let mut c = owned("Nearby live buffer context:\n");
            c.push_str(cap_context(nearby_lines(content, line, NEARBY_RADIUS).as_str()).as_str());
            c
        },
    };
    assert(context@ == scratch_context(*params, line as int));
    let mut r = owned("You are creating one scratch preview file for a developer.\nWorkspace: ");
    r.push_str(params.workspace.as_str());
    r.push_str("\nSource file: ");
    r.push_str(params.file.as_str());
    r.push_str("\nCursor line: ");
    r.push_str(decimal_string(line as u64).as_str());
    r.push_str("\nUser request: ");
    r.push_str(trim_str(params.prompt.as_str()).as_str());
    r.push_str("\n\n");
    r.push_str(
        "You may inspect the repository for context, but you must not edit files, run write commands, or rely on network access. Return only JSON matching the provided schema. The `body` field must be the complete contents of one useful preview/MVP/example file, with no markdown fences.",
    );
    r.push_str("\n\n");
    r.push_str(context.as_str());
    r.push_str("\n");
    assert(r@ =~= scratch_prompt_spec(*params));
    r
}

/// The index of the first newline in `s`.
pub open spec fn first_newline(s: Seq<char>) -> Option<int>
    decreases s.len(),
{
    if s.len() == 0 {
        None
    } else {
        match first_newline(s.drop_last()) {
            Some(i) => Some(i),
            None => if s.last() == '\n' {
                Some(s.len() - 1)
            } else {
                None
            },
        }
    }
}

/// A generated body, trimmed, and unwrapped from a Markdown code fence when
/// it starts and ends with three backticks and has a newline: what follows
/// the first newline and precedes the closing backticks, trimmed again.
pub open spec fn fence_stripped(body: Seq<char>) -> Seq<char> {
    let b = trim(body);
    if b.len() >= 3 && b.take(3) == "```"@ && b.subrange(b.len() - 3, b.len() as int) == "```"@ {
        match first_newline(b) {
            Some(p) => trim(b.subrange(p + 1, b.len() - 3)),
            None => b,
        }
    } else {
        b
    }
}

/// `fence_stripped` of a body.
pub fn strip_fence(body: &str) -> (r: String)
    ensures
        r@ == fence_stripped(body@),
{
    let b = trim_str(body);
    let cs = chars_of(b.as_str());
    let n = cs.len();
    proof {
        reveal_strlit("```");
    }
    if n >= 3 && cs[0] == '`' && cs[1] == '`' && cs[2] == '`' && cs[n - 3] == '`' && cs[n - 2]
        == '`' && cs[n - 1] == '`' {
        assert(cs@.take(3) =~= "```"@);
        assert(cs@.subrange(n - 3, n as int) =~= "```"@);
        let mut i: usize = 0;
        while i < n
            invariant
                i <= n == cs@.len(),
                n >= 3,
                cs@[0] == '`' && cs@[1] == '`' && cs@[2] == '`',
                cs@[n - 3] == '`' && cs@[n - 2] == '`' && cs@[n - 1] == '`',
                cs@.take(3) == "```"@,
                cs@.subrange(n - 3, n as int) == "```"@,
                cs@ == trim(body@),
                first_newline(cs@.take(i as int)) is None,
            decreases n - i,
        {
            assert(cs@.take(i + 1).drop_last() =~= cs@.take(i as int));
            if cs[i] == '\n' {
                assert(first_newline(cs@.take(i + 1)) == Some(i as int));
                proof {
                    lemma_first_newline_prefix(cs@, i as int + 1);
                }
                assert(3 <= i && i + 4 <= n);
                let inner = string_from_range(cs.as_slice(), i + 1, n - 3);
                return trim_str(inner.as_str());
            }
            i = i + 1;
        }
        assert(cs@.take(n as int) =~= cs@);
        return b;
    }
    proof {
        if n >= 3 && cs@.take(3) == "```"@ && cs@.subrange(n - 3, n as int) == "```"@ {
            assert(cs@.take(3)[0] == '`');
            assert(cs@.take(3)[1] == '`');
            assert(cs@.take(3)[2] == '`');
            assert(cs@.subrange(n - 3, n as int)[0] == '`');
            assert(cs@.subrange(n - 3, n as int)[1] == '`');
            assert(cs@.subrange(n - 3, n as int)[2] == '`');
        }
    }
    b
}

/// A first newline found in a prefix is the first newline of the whole.
proof fn lemma_first_newline_prefix(s: Seq<char>, k: int)
    requires
        0 <= k <= s.len(),
        first_newline(s.take(k)) is Some,
    ensures
        first_newline(s) == first_newline(s.take(k)),
    decreases s.len() - k,
{
    if k < s.len() {
        assert(s.take(k + 1).drop_last() =~= s.take(k));
        lemma_first_newline_prefix(s, k + 1);
    } else {
        assert(s.take(k) =~= s);
    }
}

/// The comment marker of a file: `#` for Python, shell, Ruby, TOML, YAML
/// and Markdown files, `//` for every other file.
pub open spec fn comment_prefix_spec(file: Seq<char>) -> Seq<char> {
    match extension(file) {
        Some(e) => if e == "py"@ || e == "sh"@ || e == "rb"@ || e == "toml"@ || e == "yaml"@ || e
            == "yml"@ || e == "md"@ {
            "#"@
        } else {
            "//"@
        },
        None => "//"@,
    }
}

/// Whether a string spells one of the extensions commented with `#`.
fn is_hash_extension(e: &str) -> (b: bool)
    ensures
        b == (e@ == "py"@ || e@ == "sh"@ || e@ == "rb"@ || e@ == "toml"@ || e@ == "yaml"@ || e@
            == "yml"@ || e@ == "md"@),
{
    crate::text::str_eq(e, "py") || crate::text::str_eq(e, "sh") || crate::text::str_eq(e, "rb")
        || crate::text::str_eq(e, "toml") || crate::text::str_eq(e, "yaml") || crate::text::str_eq(
        e,
        "yml",
    ) || crate::text::str_eq(e, "md")
}

/// The comment marker of a file.
pub fn comment_prefix(file: &str) -> (r: String)
    ensures
        r@ == comment_prefix_spec(file@),
{
    match extension_of(file) {
        Some(e) => if is_hash_extension(e.as_str()) {
            owned("#")
        } else {
            owned("//")
        },
        None => owned("//"),
    }
}

/// The header of an artifact: comment lines naming the preview, its source
/// file, its prompt and, when there is one, its title; then a blank line.
pub open spec fn header_spec(file: Seq<char>, prompt: Seq<char>, title: Seq<char>) -> Seq<char> {
    let pre = comment_prefix_spec(file);
    let base = seq![
        pre + " harnessd scratch preview"@,
        pre + " source: "@ + file,
        pre + " prompt: "@ + truncate_chars(trim(prompt), PROMPT_PREVIEW_MAX_CHARS as nat),
    ];
    let ls = if trim(title).len() > 0 {
        base.push(pre + " title: "@ + truncate_chars(trim(title), TITLE_MAX_CHARS as nat))
    } else {
        base
    };
    join_parts(ls, "\n"@) + "\n\n"@
}

/// The header of an artifact.
pub fn header_for(file: &str, prompt: &str, title: &str) -> (r: String)
    ensures
        r@ == header_spec(file@, prompt@, title@),
{
    let pre = comment_prefix(file);
    let p = trim_str(prompt);
    let pc = chars_of(p.as_str());
    let t = trim_str(title);
    let tc = chars_of(t.as_str());
    let ptrunc = truncate(pc.as_slice(), PROMPT_PREVIEW_MAX_CHARS);
    let ghost l1 = pre@ + " harnessd scratch preview"@;
    let ghost l2 = pre@ + " source: "@ + file@;
    let ghost l3 = pre@ + " prompt: "@ + ptrunc@;
    let mut r = owned(pre.as_str());
    r.push_str(" harnessd scratch preview");
    r.push_str("\n");
    r.push_str(pre.as_str());
    r.push_str(" source: ");
    r.push_str(file);
    r.push_str("\n");
    r.push_str(pre.as_str());
    r.push_str(" prompt: ");
    r.push_str(ptrunc.as_str());
    let ghost base = seq![l1, l2, l3];
    proof {
        reveal_with_fuel(crate::text::join, 4);
        assert(base.drop_last().drop_last() =~= seq![l1]);
        assert(base.drop_last() =~= seq![l1, l2]);
        assert(r@ =~= l1 + "\n"@ + l2 + "\n"@ + l3);
        assert(join_parts(base, "\n"@) =~= r@);
    }
    if !t.as_str().is_empty() {
        let ttrunc = truncate(tc.as_slice(), TITLE_MAX_CHARS);
        let ghost l4 = pre@ + " title: "@ + ttrunc@;
        let ghost before = r@;
        r.push_str("\n");
        r.push_str(pre.as_str());
        r.push_str(" title: ");
        r.push_str(ttrunc.as_str());
        proof {
            assert(base.push(l4).drop_last() =~= base);
            assert(r@ =~= before + "\n"@ + l4);
            assert(join_parts(base.push(l4), "\n"@) =~= r@);
        }
    }
    r.push_str("\n\n");
    r
}

/// What the caps on an artifact give: too many lines, then too many bytes.
pub open spec fn caps_check(text: Seq<char>) -> Result<(), ScratchError> {
    if lines(text).len() > MAX_LINES {
        Err(ScratchError::TooManyLines(lines(text).len() as usize))
    } else if encode_utf8(text).len() > MAX_BYTES {
        Err(ScratchError::TooManyBytes(encode_utf8(text).len() as usize))
    } else {
        Ok(())
    }
}

/// Check an artifact against the line and byte caps.
pub fn enforce_caps(text: &str) -> (r: Result<(), ScratchError>)
    ensures
        r == caps_check(text@),
{
    let cs = chars_of(text);
    let ls = lines_of(cs.as_slice());
    assert(crate::text::views(ls@).len() == ls@.len());
    if ls.len() > MAX_LINES {
        return Err(ScratchError::TooManyLines(ls.len()));
    }
    if text.as_bytes().len() > MAX_BYTES {
        return Err(ScratchError::TooManyBytes(text.as_bytes().len()));
    }
    Ok(())
}

/// The text of an artifact: its header, then the unwrapped body and a newline.
pub open spec fn artifact_text_spec(file: Seq<char>, prompt: Seq<char>, title: Seq<char>, body: Seq<char>) -> Seq<char> {
    header_spec(file, prompt, title) + fence_stripped(body) + "\n"@
}

/// The text of the artifact for a generated title and body, within the caps.
pub fn artifact_text(params: &ScratchCreateParams, title: &str, body: &str) -> (r: Result<
    String,
    ScratchError,
>)
    ensures
        (match r {
            Ok(t) => t@ == artifact_text_spec(params.file@, params.prompt@, title@, body@) && caps_check(t@) is Ok,
            Err(e) => caps_check(artifact_text_spec(params.file@, params.prompt@, title@, body@))
                == Err::<(), ScratchError>(e),
        }),
{
    let mut text = header_for(params.file.as_str(), params.prompt.as_str(), title);
    text.push_str(strip_fence(body).as_str());
    text.push_str("\n");
    enforce_caps(text.as_str())?;
    Ok(text)
}

/// The extension an artifact takes: the source file's, when it has a
/// non-empty one, else `md`.
pub open spec fn artifact_extension_spec(file: Seq<char>) -> Seq<char> {
    match extension(file) {
        Some(e) => if e.len() > 0 {
            e
        } else {
            "md"@
        },
        None => "md"@,
    }
}

/// The extension an artifact takes.
pub fn artifact_extension(file: &str) -> (r: String)
    ensures
        r@ == artifact_extension_spec(file@),
{
    match extension_of(file) {
        Some(e) => if !e.as_str().is_empty() {
            e
        } else {
            owned("md")
        },
        None => owned("md"),
    }
}

/// Whether `c` is an ASCII letter or digit.
pub open spec fn is_ascii_alnum(c: char) -> bool {
    ('a' <= c && c <= 'z') || ('A' <= c && c <= 'Z') || ('0' <= c && c <= '9')
}

/// `c` in ASCII lower case.
pub open spec fn ascii_lower(c: char) -> char {
    if 'A' <= c && c <= 'Z' {
        ((c as u32) + 32) as char
    } else {
        c
    }
}

/// The slug built from the characters of `s` so far, and whether it ends in
/// a dash that was just added: letters and digits in lower case, each run of
/// other characters after the first letter or digit as one dash, and nothing
/// more once `SLUG_MAX_CHARS` characters are there.
pub open spec fn slug_scan(s: Seq<char>) -> (Seq<char>, bool)
    decreases s.len(),
{
    if s.len() == 0 {
        (seq![], false)
    } else {
        let (o, d) = slug_scan(s.drop_last());
        let c = s.last();
        if o.len() >= SLUG_MAX_CHARS {
            (o, d)
        } else if is_ascii_alnum(c) {
            (o.push(ascii_lower(c)), false)
        } else if !d && o.len() > 0 {
            (o.push('-'), true)
        } else {
            (o, d)
        }
    }
}

/// `s` without its trailing dashes.
pub open spec fn drop_dashes(s: Seq<char>) -> Seq<char>
    decreases s.len(),
{
    if s.len() > 0 && s.last() == '-' {
        drop_dashes(s.drop_last())
    } else {
        s
    }
}

/// The file-name slug of a prompt, `scratch` when nothing is left of it.
pub open spec fn slug_spec(prompt: Seq<char>) -> Seq<char> {
    let t = drop_dashes(slug_scan(prompt).0);
    if t.len() == 0 {
        "scratch"@
    } else {
        t
    }
}

/// The file-name slug of a prompt.
pub fn slug(prompt: &str) -> (r: String)
    ensures
        r@ == slug_spec(prompt@),
{
    let cs = chars_of(prompt);
    let mut out: Vec<char> = Vec::new();
    let mut last_dash = false;
    let mut i: usize = 0;
    while i < cs.len()
        invariant
            i <= cs@.len(),
            (out@, last_dash) == slug_scan(cs@.take(i as int)),
        decreases cs@.len() - i,
    {
        assert(cs@.take(i + 1).drop_last() =~= cs@.take(i as int));
        let c = cs[i];
        if out.len() < SLUG_MAX_CHARS {
            if ('a' <= c && c <= 'z') || ('A' <= c && c <= 'Z') || ('0' <= c && c <= '9') {
                let lower = if 'A' <= c && c <= 'Z' {
                    ((c as u32) + 32) as u8 as char
                } else {
                    c
                };
                assert(lower == ascii_lower(c)) by {
                    if 'A' <= c && c <= 'Z' {
                        assert(((c as u32) + 32) < 256);
                    }
                };
                out.push(lower);
                last_dash = false;
            } else if !last_dash && out.len() > 0 {
                out.push('-');
                last_dash = true;
            }
        }
        i = i + 1;
    }
    assert(cs@.take(cs@.len() as int) =~= cs@);
    let ghost scanned = out@;
    while out.len() > 0 && out[out.len() - 1] == '-'
        invariant
            drop_dashes(out@) == drop_dashes(scanned),
        decreases out@.len(),
    {
        out.pop();
    }
    if out.len() == 0 {
        owned("scratch")
    } else {
        string_from_chars(out.as_slice())
    }
}

/// Facts of the calendar conversion for a day of a 400-year era.
proof fn lemma_era_day(doe: u32)
    requires
        doe < 146097,
    ensures
        doe / 1460 <= doe,
        doe / 146096 <= doe - doe / 1460 + doe / 36524,
        (doe - doe / 1460 + doe / 36524 - doe / 146096) / 365 <= 399,
        ({
            let yoe = (doe - doe / 1460 + doe / 36524 - doe / 146096) / 365;
            365 * yoe + yoe / 4 - yoe / 100 <= doe <= 365 * yoe + yoe / 4 - yoe / 100 + 365
        }),
{
    assert(doe < 146097 ==> doe / 1460 <= doe && doe / 146096 <= doe - doe / 1460 + doe / 36524)
        by (bit_vector);
    assert(doe < 146097 ==> ({
        let yoe: u32 = ((doe - doe / 1460 + doe / 36524 - doe / 146096) / 365) as u32;
        &&& yoe <= 399
        &&& (365 * yoe + yoe / 4 - yoe / 100) as u32 <= doe
        &&& doe <= (365 * yoe + yoe / 4 - yoe / 100 + 365) as u32
    })) by (bit_vector);
}

/// Facts of the month and day of a day of a March-based year.
proof fn lemma_year_day(doy: u32)
    requires
        doy <= 365,
    ensures
        (5 * doy + 2) / 153 <= 11,
        (153 * ((5 * doy + 2) / 153) + 2) / 5 <= doy,
        doy - (153 * ((5 * doy + 2) / 153) + 2) / 5 + 1 <= 31,
{
    assert(doy <= 365 ==> ({
        let mp: u32 = ((5 * doy + 2) / 153) as u32;
        &&& mp <= 11
        &&& ((153 * mp + 2) / 5) as u32 <= doy
        &&& doy - ((153 * mp + 2) / 5) as u32 + 1 <= 31
    })) by (bit_vector);
}

/// The proleptic Gregorian date of a day on or after the Unix epoch, as
/// year, month and day, by the era-based civil calendar conversion.
pub open spec fn civil(days: nat) -> (int, int, int) {
    let z = days + 719468;
    let era = z / 146097;
    let doe = z % 146097;
    let yoe = (doe - doe / 1460 + doe / 36524 - doe / 146096) / 365;
    let y = yoe + era * 400;
    let doy = doe - (365 * yoe + yoe / 4 - yoe / 100);
    let mp = (5 * doy + 2) / 153;
    let d = doy - (153 * mp + 2) / 5 + 1;
    let m = mp + if mp < 10 {
        3int
    } else {
        -9int
    };
    let year = y + if m <= 2 {
        1int
    } else {
        0int
    };
    (year, m, d)
}

/// `n` in decimal, padded with leading zeros to at least `w` digits.
pub open spec fn padded(n: nat, w: nat) -> Seq<char> {
    if decimal(n).len() < w {
        Seq::new((w - decimal(n).len()) as nat, |i: int| '0') + decimal(n)
    } else {
        decimal(n)
    }
}

/// A Unix time as `YYYYMMDD-HHMMSS` in UTC.
pub open spec fn filename_stamp(ts: u64) -> Seq<char> {
    let (y, m, d) = civil((ts / 86400) as nat);
    let secs = ts % 86400;
    padded(y as nat, 4) + padded(m as nat, 2) + padded(d as nat, 2) + "-"@ + padded(
        (secs / 3600) as nat,
        2,
    ) + padded(((secs % 3600) / 60) as nat, 2) + padded((secs % 60) as nat, 2)
}

/// `n` in decimal, padded with leading zeros to at least `w` digits.
pub fn pad_number(n: u64, w: usize) -> (r: String)
    ensures
        r@ == padded(n as nat, w as nat),
{
    let digits = decimal_string(n);
    let dc = chars_of(digits.as_str());
    if dc.len() >= w {
        return digits;
    }
    let mut out = String::new();
    let mut k: usize = 0;
    while k < w - dc.len()
        invariant
            dc@ == decimal(n as nat),
            dc@.len() < w,
            k <= w - dc@.len(),
            out@ == Seq::new(k as nat, |i: int| '0'),
        decreases w - dc@.len() - k,
    {
        out.push('0');
        k = k + 1;
        assert(out@ =~= Seq::new(k as nat, |i: int| '0'));
    }
    out.push_str(digits.as_str());
    out
}

/// A Unix time as `YYYYMMDD-HHMMSS` in UTC, for artifact file names.
pub fn timestamp_for_filename(timestamp: u64) -> (r: String)
    ensures
        r@ == filename_stamp(timestamp),
{
    let days = timestamp / 86400;
    let seconds = timestamp % 86400;
    let z = days + 719468;
    let era = z / 146097;
    let doe = z % 146097;
    proof {
        lemma_era_day(doe as u32);
    }
    let yoe = (doe - doe / 1460 + doe / 36524 - doe / 146096) / 365;
    let y = yoe + era * 400;
    let doy = doe - (365 * yoe + yoe / 4 - yoe / 100);
    proof {
        lemma_year_day(doy as u32);
    }
    let mp = (5 * doy + 2) / 153;
    let d = doy - (153 * mp + 2) / 5 + 1;
    let m = if mp < 10 {
        mp + 3
    } else {
        mp - 9
    };
    let year = if m <= 2 {
        y + 1
    } else {
        y
    };
    let hour = seconds / 3600;
    let minute = (seconds % 3600) / 60;
    let second = seconds % 60;
    let ghost c = civil(days as nat);
    assert(c.0 == year && c.1 == m && c.2 == d);
    let mut r = pad_number(year, 4);
    r.push_str(pad_number(m, 2).as_str());
    r.push_str(pad_number(d, 2).as_str());
    r.push_str("-");
    r.push_str(pad_number(hour, 2).as_str());
    r.push_str(pad_number(minute, 2).as_str());
    r.push_str(pad_number(second, 2).as_str());
    r
}

/// The directory scratch artifacts go under, outside any workspace:
/// `<runtime_dir>/scratch` in the runtime storage mode, and
/// `<temp_dir>/harnessd/scratch` in the temp mode.
pub open spec fn scratch_root_spec(mode: ScratchStorageMode, runtime_dir: Seq<char>, temp_dir: Seq<char>) -> Seq<char> {
    match mode {
        ScratchStorageMode::Runtime => join_path(runtime_dir, "scratch"@),
        ScratchStorageMode::Temp => join_path(join_path(temp_dir, "harnessd"@), "scratch"@),
    }
}

/// The scratch root of a storage mode.
pub fn scratch_root(mode: ScratchStorageMode, runtime_dir: &str, temp_dir: &str) -> (r: String)
    ensures
        r@ == scratch_root_spec(mode, runtime_dir@, temp_dir@),
{
    match mode {
        ScratchStorageMode::Runtime => join(runtime_dir, "scratch"),
        ScratchStorageMode::Temp => join(join(temp_dir, "harnessd").as_str(), "scratch"),
    }
}

/// Whether `s` can name one directory: it is not empty, holds no `/`, and
/// is neither `.` nor `..`.
pub open spec fn plain_name(s: Seq<char>) -> bool {
    &&& s.len() > 0
    &&& forall|i: int| 0 <= i < s.len() ==> s[i] != '/'
    &&& s != seq!['.']
    &&& s != seq!['.', '.']
}

/// Whether `s` can name one directory.
pub fn is_plain_name(s: &str) -> (r: bool)
    ensures
        r == plain_name(s@),
{
    let cs = chars_of(s);
    if cs.len() == 0 {
        return false;
    }
    let mut i: usize = 0;
    while i < cs.len()
        invariant
            i <= cs@.len(),
            cs@ == s@,
            forall|j: int| 0 <= j < i ==> cs@[j] != '/',
        decreases cs@.len() - i,
    {
        if cs[i] == '/' {
            return false;
        }
        i = i + 1;
    }
    if cs.len() == 1 && cs[0] == '.' {
        assert(s@ =~= seq!['.']);
        return false;
    }
    if cs.len() == 2 && cs[0] == '.' && cs[1] == '.' {
        assert(s@ =~= seq!['.', '.']);
        return false;
    }
    assert(s@ != seq!['.']) by {
        if s@ == seq!['.'] {
            assert(cs@.len() == 1 && cs@[0] == '.');
        }
    };
    assert(s@ != seq!['.', '.']) by {
        if s@ == seq!['.', '.'] {
            assert(cs@.len() == 2 && cs@[0] == '.' && cs@[1] == '.');
        }
    };
    true
}

/// Whether the characters `cs` can name one directory.
pub fn plain_chars(cs: &[char]) -> (r: bool)
    ensures
        r == plain_name(cs@),
{
    if cs.len() == 0 {
        return false;
    }
    let mut i: usize = 0;
    while i < cs.len()
        invariant
            i <= cs@.len(),
            forall|j: int| 0 <= j < i ==> cs@[j] != '/',
        decreases cs@.len() - i,
    {
        if cs[i] == '/' {
            return false;
        }
        i = i + 1;
    }
    if cs.len() == 1 && cs[0] == '.' {
        assert(cs@ =~= seq!['.']);
        return false;
    }
    if cs.len() == 2 && cs[0] == '.' && cs[1] == '.' {
        assert(cs@ =~= seq!['.', '.']);
        return false;
    }
    assert(cs@ != seq!['.']) by {
        if cs@ == seq!['.'] {
            assert(cs@.len() == 1 && cs@[0] == '.');
        }
    };
    assert(cs@ != seq!['.', '.']) by {
        if cs@ == seq!['.', '.'] {
            assert(cs@.len() == 2 && cs@[0] == '.' && cs@[1] == '.');
        }
    };
    true
}

/// Whether `p` lies strictly below the directory `d` through plain names
/// only: `d`, a `/`, then pieces between slashes that each name one
/// directory or file, so no step leaves `d`.
pub open spec fn plainly_below(p: Seq<char>, d: Seq<char>) -> bool {
    &&& p.len() > d.len()
    &&& p.take(d.len() as int) == d
    &&& p[d.len() as int] == '/'
    &&& forall|i: int|
        0 <= i < split_on(p.skip(d.len() as int + 1), '/').len() ==> #[trigger] plain_name(
            split_on(p.skip(d.len() as int + 1), '/')[i],
        )
}

/// Whether `p` lies strictly below the directory `d` through plain names
/// only.
pub fn is_plainly_below(p: &str, d: &str) -> (r: bool)
    ensures
        r == plainly_below(p@, d@),
{
    let pc = chars_of(p);
    let dc = chars_of(d);
    let n = dc.len();
    if pc.len() <= n {
        return false;
    }
    if !crate::text::chars_eq(&pc.as_slice()[0..n], dc.as_slice()) {
        assert(!(pc@.take(n as int) == dc@)) by {
            assert(pc@.subrange(0, n as int) =~= pc@.take(n as int));
        };
        return false;
    }
    assert(pc@.subrange(0, n as int) =~= pc@.take(n as int));
    if pc[n] != '/' {
        return false;
    }
    let rest = &pc.as_slice()[n + 1..pc.len()];
    assert(rest@ =~= pc@.skip(n + 1));
    let (done, cur) = split_chars(rest, '/');
    let ghost pieces = split_on(rest@, '/');
    assert(pieces == split_on(p@.skip(d@.len() as int + 1), '/'));
    let mut i: usize = 0;
    while i < done.len()
        invariant
            i <= done@.len(),
            pieces == views(done@).push(cur@),
            pieces == split_on(p@.skip(d@.len() as int + 1), '/'),
            forall|j: int| 0 <= j < i ==> plain_name(#[trigger] pieces[j]),
        decreases done@.len() - i,
    {
        assert(pieces[i as int] == done@[i as int]@);
        if !plain_chars(done[i].as_slice()) {
            assert(!plain_name(pieces[i as int]));
            return false;
        }
        i = i + 1;
    }
    assert(pieces[done@.len() as int] == cur@);
    if !plain_chars(cur.as_slice()) {
        assert(!plain_name(pieces[done@.len() as int]));
        return false;
    }
    assert forall|j: int| 0 <= j < pieces.len() implies #[trigger] plain_name(pieces[j]) by {
        if j == done@.len() {
        }
    };
    true
}

/// The directory, below a scratch root, of the artifacts made for a
/// workspace and, when given, a thread: the content hash of the workspace
/// path, then the thread id.
pub open spec fn scratch_subdir(workspace: Seq<char>, thread: Option<Seq<char>>) -> Seq<char> {
    match thread {
        Some(t) => content_hash(workspace) + seq!['/'] + t,
        None => content_hash(workspace),
    }
}

/// The `index`-th path tried for an artifact, relative to the scratch root.
pub open spec fn scratch_relative(
    workspace: Seq<char>,
    thread: Option<Seq<char>>,
    basename: Seq<char>,
    ext: Seq<char>,
    index: usize,
) -> Seq<char> {
    scratch_subdir(workspace, thread) + seq!['/'] + candidate_name(basename, ext, index)
}

/// The base name of an artifact made at `now` for `prompt`: its timestamp
/// and slug.
pub open spec fn basename_spec(now: u64, prompt: Seq<char>) -> Seq<char> {
    filename_stamp(now) + "-"@ + slug_spec(prompt)
}

/// The `index`-th file name tried for an artifact: the base name and
/// extension first, then from index 2 on the index before the extension.
pub open spec fn candidate_name(basename: Seq<char>, ext: Seq<char>, index: usize) -> Seq<char> {
    if index < 2 {
        basename + "."@ + ext
    } else {
        basename + "-"@ + decimal(index as nat) + "."@ + ext
    }
}

/// The base name of an artifact made at `now` for `prompt`.
pub fn artifact_basename(now: u64, prompt: &str) -> (r: String)
    ensures
        r@ == basename_spec(now, prompt@),
{
    let mut r = timestamp_for_filename(now);
    r.push_str("-");
    r.push_str(slug(prompt).as_str());
    r
}

/// The `index`-th path tried for an artifact under the scratch root
/// `root`, and that path relative to the root; the caller takes the first
/// index whose path does not exist yet. A thread id that cannot name one
/// directory is refused.
pub fn candidate_path(
    root: &str,
    workspace: &str,
    thread_id: Option<&str>,
    basename: &str,
    ext: &str,
    index: usize,
) -> (r: Result<(String, String), ScratchError>)
    ensures
        (match thread_id {
            Some(t) if !plain_name(t@) => r == Err::<(String, String), ScratchError>(ScratchError::BadThreadId),
            _ => r matches Ok((path, relative)) && {
                let rel = scratch_relative(workspace@, opt_str_chars(thread_id), basename@, ext@, index);
                &&& relative@ == rel
                &&& path@ == join_path(root@, rel)
            },
        }),
{
    let mut rel = compute_hash(workspace);
    match thread_id {
        Some(t) => {
            if !is_plain_name(t) {
                return Err(ScratchError::BadThreadId);
            }
            rel.push('/');
            rel.push_str(t);
        },
        None => {},
    }
    rel.push('/');
    rel.push_str(basename);
    if index >= 2 {
        rel.push_str("-");
        rel.push_str(decimal_string(index as u64).as_str());
    }
    rel.push_str(".");
    rel.push_str(ext);
    proof {
        reveal_strlit("-");
        reveal_strlit(".");
        assert(rel@ =~= scratch_relative(workspace@, opt_str_chars(thread_id), basename@, ext@, index));
    }
    let path = join(root, rel.as_str());
    Ok((path, rel))
}

/// The characters of an optional string slice.
pub open spec fn opt_str_chars(o: Option<&str>) -> Option<Seq<char>> {
    match o {
        Some(s) => Some(s@),
        None => None,
    }
}

/// Whether the path `p` is `d` or lies below it, comparing whole names.
pub open spec fn within(p: Seq<char>, d: Seq<char>) -> bool {
    p == d || (p.len() > d.len() && p.take(d.len() as int) == d && p[d.len() as int] == '/')
}

/// Where scratch artifacts go: every candidate path lies within its scratch
/// root, and so outside any workspace that neither holds the root nor lies
/// within it.
pub proof fn law_scratch_outside_workspace(
    mode: ScratchStorageMode,
    runtime_dir: Seq<char>,
    temp_dir: Seq<char>,
    workspace: Seq<char>,
    thread: Option<Seq<char>>,
    basename: Seq<char>,
    ext: Seq<char>,
    index: usize,
)
    requires
        !within(scratch_root_spec(mode, runtime_dir, temp_dir), workspace),
        !within(workspace, scratch_root_spec(mode, runtime_dir, temp_dir)),
    ensures
        ({
            let root = scratch_root_spec(mode, runtime_dir, temp_dir);
            let path = join_path(root, scratch_relative(workspace, thread, basename, ext, index));
            &&& within(path, root)
            &&& !within(path, workspace)
        }),
{
    let root = scratch_root_spec(mode, runtime_dir, temp_dir);
    let rel = scratch_relative(workspace, thread, basename, ext, index);
    reveal_strlit("scratch");
    lemma_content_hash_shape(workspace);
    assert(rel[0] == content_hash(workspace)[0]);
    assert(root.len() > 0 && root.last() == 'h');
    let path = join_path(root, rel);
    assert(path == root + seq!['/'] + rel);
    let n = root.len() as int;
    assert(path.take(n) =~= root);
    assert(path[n] == '/');
    let w = workspace;
    let m = w.len() as int;
    if within(path, w) {
        if path == w {
            assert(w.take(n) =~= root);
            assert(within(w, root));
        } else if m == n {
            assert(w =~= path.take(n));
        } else if m < n {
            assert(root.take(m) =~= path.take(m));
            assert(root[m] == path[m]);
            assert(within(root, w));
        } else {
            assert(m > n);
            assert(w == path.take(m));
            assert(path.take(m).take(n) =~= root);
            assert(w.take(n) =~= root);
            assert(w[n] == path[n]);
            assert(w.len() > root.len());
            assert(within(w, root));
        }
    }
}

/// The metadata of an artifact written at `path` with `text` at `now`.
pub fn scratch_result(
    params: &ScratchCreateParams,
    path: String,
    relative_path: String,
    text: &str,
    now: u64,
) -> (r: ScratchCreateResult)
    ensures
        r.path@ == path@,
        r.relative_path@ == relative_path@,
        r.bytes == encode_utf8(text@).len(),
        r.lines == lines(text@).len(),
        r.created_at == now,
        r.source_file@ == params.file@,
        r.prompt_preview@ == truncate_chars(trim(params.prompt@), PROMPT_PREVIEW_MAX_CHARS as nat),
{
    let cs = chars_of(text);
    let ls = lines_of(cs.as_slice());
    assert(crate::text::views(ls@).len() == ls@.len());
    let p = trim_str(params.prompt.as_str());
    let pc = chars_of(p.as_str());
    ScratchCreateResult {
        path,
        relative_path,
        bytes: text.as_bytes().len(),
        lines: ls.len(),
        created_at: now,
        source_file: params.file.clone(),
        prompt_preview: truncate(pc.as_slice(), PROMPT_PREVIEW_MAX_CHARS),
    }
}

/// Whether `c` may stand in a slug.
pub open spec fn slug_char(c: char) -> bool {
    ('a' <= c && c <= 'z') || ('0' <= c && c <= '9') || c == '-'
}

proof fn lemma_slug_scan(s: Seq<char>)
    ensures
        ({
            let (o, d) = slug_scan(s);
            &&& o.len() <= SLUG_MAX_CHARS
            &&& forall|i: int| 0 <= i < o.len() ==> slug_char(#[trigger] o[i])
            &&& o.len() > 0 ==> o[0] != '-'
            &&& forall|i: int| 0 <= i < o.len() - 1 && o[i] == '-' ==> #[trigger] o[i + 1] != '-'
            &&& d == (o.len() > 0 && o.last() == '-')
        }),
    decreases s.len(),
{
    if s.len() > 0 {
        lemma_slug_scan(s.drop_last());
        let (o, d) = slug_scan(s.drop_last());
        let (o2, d2) = slug_scan(s);
        assert forall|i: int| 0 <= i < o2.len() implies slug_char(#[trigger] o2[i]) by {
            if i < o.len() {
                assert(o2[i] == o[i]);
            }
        }
        assert forall|i: int| 0 <= i < o2.len() - 1 && o2[i] == '-' implies #[trigger] o2[i + 1]
            != '-' by {
            if i + 1 < o.len() {
                assert(o2[i] == o[i] && o2[i + 1] == o[i + 1]);
            }
        }
    }
}

proof fn lemma_drop_dashes(s: Seq<char>)
    requires
        forall|i: int| 0 <= i < s.len() ==> slug_char(#[trigger] s[i]),
        s.len() > 0 ==> s[0] != '-',
        forall|i: int| 0 <= i < s.len() - 1 && s[i] == '-' ==> #[trigger] s[i + 1] != '-',
    ensures
        drop_dashes(s).len() <= s.len(),
        forall|i: int| 0 <= i < drop_dashes(s).len() ==> #[trigger] drop_dashes(s)[i] == s[i],
        drop_dashes(s).len() > 0 ==> drop_dashes(s).last() != '-',
    decreases s.len(),
{
    if s.len() > 0 && s.last() == '-' {
        lemma_drop_dashes(s.drop_last());
    }
}

/// A slug is never empty; it is `scratch` or at most `SLUG_MAX_CHARS`
/// lower-case letters, digits and dashes that neither start nor end with a
/// dash and never hold two dashes in a row.
pub proof fn law_slug_shape(prompt: Seq<char>)
    ensures
        ({
            let g = slug_spec(prompt);
            &&& g.len() > 0
            &&& g.len() <= SLUG_MAX_CHARS
            &&& forall|i: int| 0 <= i < g.len() ==> slug_char(#[trigger] g[i])
            &&& g[0] != '-'
            &&& g.last() != '-'
            &&& forall|i: int| 0 <= i < g.len() - 1 && g[i] == '-' ==> #[trigger] g[i + 1] != '-'
        }),
{
    lemma_slug_scan(prompt);
    let o = slug_scan(prompt).0;
    lemma_drop_dashes(o);
    let t = drop_dashes(o);
    if t.len() == 0 {
        reveal_strlit("scratch");
    } else {
        assert forall|i: int| 0 <= i < t.len() - 1 && t[i] == '-' implies #[trigger] t[i + 1] != '-' by {
            assert(t[i] == o[i] && t[i + 1] == o[i + 1]);
        }
        assert forall|i: int| 0 <= i < t.len() implies slug_char(#[trigger] t[i]) by {
            assert(t[i] == o[i]);
        }
        assert(t[0] == o[0]);
    }
}

/// The JSON schema Codex's final reply must match: an object with exactly a
/// non-empty `title` of at most 120 characters and a non-empty `body`,
/// written as serde_json pretty-prints it.
pub open spec fn schema_text() -> Seq<char> {
    "{\n  \"additionalProperties\": false,\n  \"properties\": {\n    \"body\": {\n      \"minLength\": 1,\n      \"type\": \"string\"\n    },\n    \"title\": {\n      \"maxLength\": 120,\n      \"minLength\": 1,\n      \"type\": \"string\"\n    }\n  },\n  \"required\": [\n    \"title\",\n    \"body\"\n  ],\n  \"type\": \"object\"\n}"@
}

/// The output schema handed to Codex.
pub fn scratch_schema() -> (r: String)
    ensures
        r@ == schema_text(),
{
    owned(
        "{\n  \"additionalProperties\": false,\n  \"properties\": {\n    \"body\": {\n      \"minLength\": 1,\n      \"type\": \"string\"\n    },\n    \"title\": {\n      \"maxLength\": 120,\n      \"minLength\": 1,\n      \"type\": \"string\"\n    }\n  },\n  \"required\": [\n    \"title\",\n    \"body\"\n  ],\n  \"type\": \"object\"\n}",
    )
}

/// The arguments given to the Codex program for a scratch turn: the model
/// and reasoning effort overrides when there are any, then a read-only,
/// never-asking `exec` in the workspace with the output schema and the
/// file for the last message, reading the prompt from stdin.
pub open spec fn codex_args_spec(
    model: Option<Seq<char>>,
    effort: Option<Seq<char>>,
    workspace: Seq<char>,
    schema_path: Seq<char>,
    output_path: Seq<char>,
) -> Seq<Seq<char>> {
    (match model {
        Some(m) => seq!["--model"@, m],
        None => Seq::empty(),
    }) + (match effort {
        Some(e) => seq!["-c"@, "model_reasoning_effort=\""@ + e + "\""@],
        None => Seq::empty(),
    }) + seq![
        "--ask-for-approval"@,
        "never"@,
        "--sandbox"@,
        "read-only"@,
        "exec"@,
        "--cd"@,
        workspace,
        "--output-schema"@,
        schema_path,
        "--output-last-message"@,
        output_path,
        "-"@,
    ]
}

/// The text of each string.
pub open spec fn arg_views(v: Seq<String>) -> Seq<Seq<char>> {
    v.map_values(|s: String| s@)
}

/// The Codex arguments of a scratch turn, after normalizing the model and
/// reasoning effort overrides (a bad model is refused first).
pub fn codex_args(
    model: Option<String>,
    effort: Option<String>,
    workspace: &str,
    schema_path: &str,
    output_path: &str,
) -> (r: Result<Vec<String>, ModelError>)
    ensures
        (match (model_outcome(opt_chars(model)), effort_outcome(opt_chars(effort))) {
            (Err(e), _) => r == Err::<Vec<String>, ModelError>(e),
            (Ok(_), Err(e)) => r == Err::<Vec<String>, ModelError>(e),
            (Ok(m), Ok(f)) => r matches Ok(v) && arg_views(v@) == codex_args_spec(
                m,
                f,
                workspace@,
                schema_path@,
                output_path@,
            ),
        }),
{
    let m = match normalize_model(model) {
        Ok(m) => m,
        Err(e) => {
            return Err(e);
        },
    };
    let f = match normalize_reasoning_effort(effort) {
        Ok(f) => f,
        Err(e) => {
            return Err(e);
        },
    };
    let ghost mv = opt_chars(m);
    let ghost fv = opt_chars(f);
    let mut args: Vec<String> = Vec::new();
    match m {
        Some(m) => {
            args.push(owned("--model"));
            args.push(m);
        },
        None => {},
    }
    match f {
        Some(e) => {
            args.push(owned("-c"));
            args.push(reasoning_effort_config_arg(e.as_str()));
        },
        None => {},
    }
    args.push(owned("--ask-for-approval"));
    args.push(owned("never"));
    args.push(owned("--sandbox"));
    args.push(owned("read-only"));
    args.push(owned("exec"));
    args.push(owned("--cd"));
    args.push(owned(workspace));
    args.push(owned("--output-schema"));
    args.push(owned(schema_path));
    args.push(owned("--output-last-message"));
    args.push(owned(output_path));
    args.push(owned("-"));
    assert(arg_views(args@) =~= codex_args_spec(mv, fv, workspace@, schema_path@, output_path@));
    Ok(args)
}

/// What Codex generated for a scratch file.
#[derive(Debug, Clone)]
pub struct GeneratedScratch {
    /// Title of the file.
    pub title: String,
    /// Contents of the file.
    pub body: String,
}

/// Check what Codex generated for a scratch file: a blank body is refused.
pub fn check_generated(title: String, body: String) -> (r: Result<GeneratedScratch, ScratchError>)
    ensures
        (trim(body@).len() == 0) == (r is Err),
        r matches Ok(g) ==> g.title@ == title@ && g.body@ == body@,
        r matches Err(e) ==> e == ScratchError::EmptyBody,
{
    if trim_str(body.as_str()).as_str().is_empty() {
        Err(ScratchError::EmptyBody)
    } else {
        Ok(GeneratedScratch { title, body })
    }
}

/// Whatever the overrides, a scratch turn runs Codex non-interactively in a
/// read-only sandbox: it never asks for approval and cannot write.
pub proof fn law_scratch_codex_read_only(
    model: Option<Seq<char>>,
    effort: Option<Seq<char>>,
    workspace: Seq<char>,
    schema_path: Seq<char>,
    output_path: Seq<char>,
)
    ensures
        ({
            let a = codex_args_spec(model, effort, workspace, schema_path, output_path);
            let k = a.len() - 12;
            &&& a[k] == "--ask-for-approval"@
            &&& a[k + 1] == "never"@
            &&& a[k + 2] == "--sandbox"@
            &&& a[k + 3] == "read-only"@
            &&& a[k + 4] == "exec"@
            &&& a[k + 6] == workspace
        }),
{
}

proof fn lemma_boundary_below(b: Seq<u8>, i: int)
    requires
        0 <= i,
    ensures
        0 <= boundary_at_or_below(b, i) <= i,
        boundary_at_or_below(b, i) == 0 || is_char_boundary(b, boundary_at_or_below(b, i)),
    decreases i,
{
    if i > 0 && !is_char_boundary(b, i) {
        lemma_boundary_below(b, i - 1);
    }
}

/// The code context handed to Codex is bounded: whatever the selection or
/// the buffer, at most `CONTEXT_MAX_BYTES` bytes of it go into the prompt.
pub proof fn law_context_bounded(s: Seq<char>)
    ensures
        encode_utf8(cap_bytes(s)).len() <= CONTEXT_MAX_BYTES,
{
    let b = encode_utf8(s);
    if b.len() > CONTEXT_MAX_BYTES {
        let k = boundary_at_or_below(b, CONTEXT_MAX_BYTES as int);
        lemma_boundary_below(b, CONTEXT_MAX_BYTES as int);
        vstd::utf8::encode_utf8_valid_utf8(s);
        vstd::utf8::is_char_boundary_start_end_of_seq(b);
        assert(is_char_boundary(b, k));
        vstd::utf8::valid_utf8_split(b, k);
        assert(b.take(k) =~= b.subrange(0, k));
        vstd::utf8::decode_utf8_encode_utf8(b.take(k));
    }
}

} // verus!
