//! Saved Codex CLI session summaries: which ones a listing returns and in
//! what order. Scanning the session files on disk is the caller's part.

use vstd::prelude::*;

use crate::json::{json_len_at, json_parses, json_str_at, json_value_at, len_at, parses, str_at, value_at};
use crate::paths::{join, join_path, same_path, same_path_spec};
use crate::text::{decimal, decimal_string, str_eq, chars_of, collapse_whitespace, collapse_ws, owned, string_from_range, opt_chars};

verus! {

/// Parameters for listing Codex sessions.
#[derive(Debug, Clone)]
pub struct CodexSessionsParams {
    /// Workspace used for project-first ordering.
    pub workspace: String,
    /// Include sessions from all workspaces before project filtering.
    pub all: bool,
    /// Maximum number of sessions to return.
    pub limit: Option<usize>,
}

/// One saved Codex session summary.
#[derive(Debug, Clone, PartialEq, Eq)]
pub struct CodexSessionInfo {
    /// Codex session UUID.
    pub id: String,
    /// Absolute JSONL path.
    pub path: String,
    /// Session working directory from `session_meta`.
    pub cwd: String,
    /// Session timestamp from `session_meta`.
    pub timestamp: String,
    /// Originating client, if present.
    pub originator: Option<String>,
    /// Source integration, if present.
    pub source: Option<String>,
    /// Codex CLI version, if present.
    pub cli_version: Option<String>,
    /// Model provider, if present.
    pub model_provider: Option<String>,
    /// Bounded first user-message preview.
    pub preview: Option<String>,
    /// File modification timestamp as Unix seconds.
    pub modified_at: u64,
    /// Whether this session cwd matches the requested workspace.
    pub project_match: bool,
}

/// Result for a Codex session listing.
#[derive(Debug, Clone)]
pub struct CodexSessionsResult {
    /// Returned session summaries.
    pub sessions: Vec<CodexSessionInfo>,
}

/// Longest session preview, in characters.
pub const PREVIEW_MAX_CHARS: usize = 160;

/// Sessions returned when no limit is given.
pub const DEFAULT_LIMIT: usize = 50;

/// Whether `a` comes before `b` in code-point order.
pub open spec fn seq_lt(a: Seq<char>, b: Seq<char>) -> bool
    decreases a.len(),
{
    if b.len() == 0 {
        false
    } else if a.len() == 0 {
        true
    } else if a[0] != b[0] {
        (a[0] as u32) < (b[0] as u32)
    } else {
        seq_lt(a.drop_first(), b.drop_first())
    }
}

/// Whether session `a` is listed before session `b`: project sessions
/// first, then the more recently modified, then the later timestamp.
pub open spec fn listed_before(a: CodexSessionInfo, b: CodexSessionInfo) -> bool {
    if a.project_match != b.project_match {
        a.project_match
    } else if a.modified_at != b.modified_at {
        a.modified_at > b.modified_at
    } else {
        seq_lt(b.timestamp@, a.timestamp@)
    }
}

/// `x` placed into `sorted` after every session it is not listed before.
pub open spec fn insert_session(sorted: Seq<CodexSessionInfo>, x: CodexSessionInfo) -> Seq<CodexSessionInfo>
    decreases sorted.len(),
{
    if sorted.len() == 0 || !listed_before(x, sorted.last()) {
        sorted.push(x)
    } else {
        insert_session(sorted.drop_last(), x).push(sorted.last())
    }
}

/// The sessions in listing order; sessions that tie keep their order.
pub open spec fn sort_sessions(s: Seq<CodexSessionInfo>) -> Seq<CodexSessionInfo>
    decreases s.len(),
{
    if s.len() == 0 {
        seq![]
    } else {
        insert_session(sort_sessions(s.drop_last()), s.last())
    }
}

/// The sessions a listing keeps: all of them, or only project sessions.
pub open spec fn keep_sessions(s: Seq<CodexSessionInfo>, all: bool) -> Seq<CodexSessionInfo>
    decreases s.len(),
{
    if s.len() == 0 {
        seq![]
    } else {
        keep_sessions(s.drop_last(), all) + if all || s.last().project_match {
            seq![s.last()]
        } else {
            seq![]
        }
    }
}

/// What a listing returns of the scanned sessions: those it keeps, in
/// listing order, at most `limit` (by default `DEFAULT_LIMIT`) of them.
pub open spec fn listing(s: Seq<CodexSessionInfo>, all: bool, limit: Option<usize>) -> Seq<CodexSessionInfo> {
    let sorted = sort_sessions(keep_sessions(s, all));
    let n = match limit {
        Some(l) => l as int,
        None => DEFAULT_LIMIT as int,
    };
    if sorted.len() > n {
        sorted.take(n)
    } else {
        sorted
    }
}

/// Whether `a` comes before `b` in code-point order.
fn str_lt(a: &str, b: &str) -> (r: bool)
    ensures
        r == seq_lt(a@, b@),
{
    let ac = chars_of(a);
    let bc = chars_of(b);
    let mut i: usize = 0;
    assert(ac@.skip(0) =~= ac@);
    assert(bc@.skip(0) =~= bc@);
    while i < ac.len() && i < bc.len() && ac[i] == bc[i]
        invariant
            i <= ac@.len(),
            i <= bc@.len(),
            seq_lt(ac@, bc@) == seq_lt(ac@.skip(i as int), bc@.skip(i as int)),
        decreases ac@.len() - i,
    {
        assert(ac@.skip(i as int).drop_first() =~= ac@.skip(i + 1));
        assert(bc@.skip(i as int).drop_first() =~= bc@.skip(i + 1));
        i = i + 1;
    }
    if i == bc.len() {
        false
    } else if i == ac.len() {
        true
    } else {
        assert(ac@.skip(i as int)[0] == ac@[i as int]);
        assert(bc@.skip(i as int)[0] == bc@[i as int]);
        (ac[i] as u32) < (bc[i] as u32)
    }
}

/// Whether session `a` is listed before session `b`.
fn is_listed_before(a: &CodexSessionInfo, b: &CodexSessionInfo) -> (r: bool)
    ensures
        r == listed_before(*a, *b),
{
    if a.project_match != b.project_match {
        a.project_match
    } else if a.modified_at != b.modified_at {
        a.modified_at > b.modified_at
    } else {
        str_lt(b.timestamp.as_str(), a.timestamp.as_str())
    }
}

/// List the scanned sessions: keep all or only project sessions, order them
/// project first and newest first, and cut the list at the limit.
pub fn list_sessions_from_home(sessions: Vec<CodexSessionInfo>, params: &CodexSessionsParams) -> (r: CodexSessionsResult)
    ensures
        r.sessions@ == listing(sessions@, params.all, params.limit),
{
    let ghost input = sessions@;
    let mut sorted: Vec<CodexSessionInfo> = Vec::new();
    let mut rest = sessions;
    let mut i: usize = 0;
    let n = rest.len();
    assert(rest@ =~= input.skip(0));
    while i < n
        invariant
            n == input.len(),
            i <= n,
            rest@ == input.skip(i as int),
            sorted@ == sort_sessions(keep_sessions(input.take(i as int), params.all)),
        decreases n - i,
    {
        assert(input.take(i + 1).drop_last() =~= input.take(i as int));
        assert(input.skip(i as int)[0] == input[i as int]);
        let x = rest.remove(0);
        assert(rest@ =~= input.skip(i + 1));
        if params.all || x.project_match {
            let mut k: usize = sorted.len();
            let ghost base = sorted@;
            assert(base.take(k as int) =~= base);
            assert(base + base.skip(k as int) =~= base);
            assert(insert_session(base, x) =~= insert_session(base.take(k as int), x) + base.skip(k as int));
            while k > 0 && is_listed_before(&x, &sorted[k - 1])
                invariant
                    k <= base.len() == sorted@.len(),
                    sorted@ == base,
                    insert_session(base, x) == insert_session(base.take(k as int), x) + base.skip(
                        k as int,
                    ),
                decreases k,
            {
                assert(base.take(k as int).drop_last() =~= base.take(k - 1));
                assert(base.take(k as int).last() == base[k - 1]);
                assert(base.skip(k - 1) =~= seq![base[k - 1]] + base.skip(k as int));
                assert(insert_session(base.take(k - 1), x).push(base[k - 1]) + base.skip(k as int)
                    =~= insert_session(base.take(k - 1), x) + base.skip(k - 1));
                k = k - 1;
            }
            assert(insert_session(base.take(k as int), x) == base.take(k as int).push(x));
            sorted.insert(k, x);
            assert(sorted@ =~= base.take(k as int).push(x) + base.skip(k as int));
            assert(keep_sessions(input.take(i + 1), params.all) == keep_sessions(
                input.take(i as int),
                params.all,
            ).push(input[i as int]));
            let ghost kept = keep_sessions(input.take(i as int), params.all);
            assert(kept.push(x).drop_last() =~= kept);
            assert(sort_sessions(kept.push(x)) == insert_session(sort_sessions(kept), x));
        } else {
            assert(keep_sessions(input.take(i + 1), params.all) =~= keep_sessions(
                input.take(i as int),
                params.all,
            ));
        }
        i = i + 1;
    }
    assert(input.take(n as int) =~= input);
    let limit = match params.limit {
        Some(l) => l,
        None => DEFAULT_LIMIT,
    };
    if sorted.len() > limit {
        sorted.truncate(limit);
    }
    CodexSessionsResult { sessions: sorted }
}

/// The Codex home: the `CODEX_HOME` variable when it is set, otherwise the
/// home directory (or `.` when there is none) joined with `.codex`.
pub fn codex_home(codex_home_var: Option<String>) -> (r: String)
    ensures
        (match codex_home_var {
            Some(v) => r@ == v@,
            None => exists|h: Seq<char>| (h == "."@ || h.len() > 0) && r@ == join_path(h, ".codex"@),
        }),
{
    match codex_home_var {
        Some(v) => v,
        None => match crate::paths::home_directory() {
            Some(h) => join(h.as_str(), ".codex"),
            None => {
                let d = owned(".");
                let r = join(d.as_str(), ".codex");
                assert(d@ == "."@);
                r
            },
        },
    }
}

/// List the scanned sessions of the Codex home.
pub fn list_sessions(sessions: Vec<CodexSessionInfo>, params: &CodexSessionsParams) -> (r: CodexSessionsResult)
    ensures
        r.sessions@ == listing(sessions@, params.all, params.limit),
{
    list_sessions_from_home(sessions, params)
}

/// A session preview: the text's words joined by single spaces, at most
/// `PREVIEW_MAX_CHARS` characters of them, and `...` when the text itself is
/// longer than that.
pub open spec fn preview_spec(text: Seq<char>) -> Seq<char> {
    let c = collapse_ws(text);
    (if c.len() > PREVIEW_MAX_CHARS {
        c.take(PREVIEW_MAX_CHARS as int)
    } else {
        c
    }) + if text.len() > PREVIEW_MAX_CHARS {
        "..."@
    } else {
        seq![]
    }
}

/// A session preview of a first user message.
pub fn truncate_preview(value: &str) -> (r: String)
    ensures
        r@ == preview_spec(value@),
{
    let cs = chars_of(value);
    let c = collapse_whitespace(cs.as_slice());
    let end = if c.len() > PREVIEW_MAX_CHARS {
        PREVIEW_MAX_CHARS
    } else {
        c.len()
    };
    let mut r = string_from_range(c.as_slice(), 0, end);
    assert(c@.subrange(0, c@.len() as int) =~= c@);
    if cs.len() > PREVIEW_MAX_CHARS {
        r.push_str("...");
    }
    r
}

/// The session summary read from a session file's metadata, or nothing when
/// the metadata lacks an id or working directory. `cwd` is the canonical
/// working directory; it matches the project when it is the same path as
/// `workspace`.
pub fn session_from_meta(
    id: String,
    path: String,
    cwd: String,
    timestamp: String,
    originator: Option<String>,
    source: Option<String>,
    cli_version: Option<String>,
    model_provider: Option<String>,
    preview: Option<String>,
    modified_at: u64,
    workspace: &str,
) -> (r: Option<CodexSessionInfo>)
    ensures
        (id@.len() == 0 || cwd@.len() == 0) ==> r is None,
        (id@.len() > 0 && cwd@.len() > 0) ==> (r matches Some(s) && {
            &&& s.id == id
            &&& s.path == path
            &&& s.cwd == cwd
            &&& s.timestamp == timestamp
            &&& s.originator == originator
            &&& s.source == source
            &&& s.cli_version == cli_version
            &&& s.model_provider == model_provider
            &&& s.preview == preview
            &&& s.modified_at == modified_at
            &&& s.project_match == same_path_spec(cwd@, workspace@)
        }),
{
    if id.as_str().is_empty() || cwd.as_str().is_empty() {
        return None;
    }
    let project_match = same_path(cwd.as_str(), workspace);
    Some(
        CodexSessionInfo {
            id,
            path,
            cwd,
            timestamp,
            originator,
            source,
            cli_version,
            model_provider,
            preview,
            modified_at,
            project_match,
        },
    )
}

/// How many lines of a session file are read for its summary.
pub const SESSION_SCAN_LINES: usize = 256;

/// The JSON pointer to field `field` of item `k` of a response item's content.
pub open spec fn item_pointer(k: nat, field: Seq<char>) -> Seq<char> {
    "/payload/content/"@ + decimal(k) + "/"@ + field
}

/// The text of content item `k` of a response item: its `text` when it has
/// one, else its `input_text`, when that is a string.
pub open spec fn item_text(line: Seq<char>, k: nat) -> Option<Seq<char>> {
    if json_value_at(line, item_pointer(k, "text"@)) is Some {
        json_str_at(line, item_pointer(k, "text"@))
    } else {
        json_str_at(line, item_pointer(k, "input_text"@))
    }
}

/// The first text among content items `k` up to `n` of a response item.
pub open spec fn first_item_text(line: Seq<char>, k: nat, n: nat) -> Option<Seq<char>>
    decreases n - k,
{
    if k >= n {
        None
    } else {
        match item_text(line, k) {
            Some(t) => Some(t),
            None => first_item_text(line, k + 1, n),
        }
    }
}

/// The user's words in a session line: a user message's `message` (or,
/// without one, its `text`); a user message item's first content text.
pub open spec fn user_text(line: Seq<char>) -> Option<Seq<char>> {
    let ty = json_str_at(line, "/type"@);
    if ty == Some("user_message"@) {
        if json_value_at(line, "/payload/message"@) is Some {
            json_str_at(line, "/payload/message"@)
        } else {
            json_str_at(line, "/payload/text"@)
        }
    } else if ty == Some("response_item"@) {
        if json_str_at(line, "/payload/type"@) != Some("message"@) || json_str_at(line, "/payload/role"@)
            != Some("user"@) {
            None
        } else {
            match json_len_at(line, "/payload/content"@) {
                Some(n) => first_item_text(line, 0, n as nat),
                None => None,
            }
        }
    } else {
        None
    }
}

/// The preview a session line gives.
pub open spec fn line_preview(line: Seq<char>) -> Option<Seq<char>> {
    match user_text(line) {
        Some(t) => Some(preview_spec(t)),
        None => None,
    }
}

/// The JSON pointer to field `field` of content item `k`.
fn item_ptr(k: usize, field: &str) -> (r: String)
    ensures
        r@ == item_pointer(k as nat, field@),
{
    let mut r = owned("/payload/content/");
    r.push_str(decimal_string(k as u64).as_str());
    r.push_str("/");
    r.push_str(field);
    r
}

/// The text of content item `k`, as `item_text` says.
fn content_item_text(line: &str, k: usize) -> (r: Option<String>)
    ensures
        opt_chars(r) == item_text(line@, k as nat),
{
    let text_ptr = item_ptr(k, "text");
    let input_ptr = item_ptr(k, "input_text");
    if value_at(line, text_ptr.as_str()).is_some() {
        str_at(line, text_ptr.as_str())
    } else {
        str_at(line, input_ptr.as_str())
    }
}

/// Whether an optional string spells `lit`.
fn opt_is(o: &Option<String>, lit: &str) -> (b: bool)
    ensures
        b == (opt_chars(*o) == Some(lit@)),
{
    match o {
        Some(s) => str_eq(s.as_str(), lit),
        None => false,
    }
}

/// The first user preview a session line gives, if any.
pub fn first_user_preview(line: &str) -> (r: Option<String>)
    ensures
        opt_chars(r) == line_preview(line@),
{
    let ty = str_at(line, "/type");
    let text = match ty {
        Some(_) => {
            if opt_is(&ty, "user_message") {
                if value_at(line, "/payload/message").is_some() {
                    str_at(line, "/payload/message")
                } else {
                    str_at(line, "/payload/text")
                }
            } else if opt_is(&ty, "response_item") {
                let is_message = opt_is(&str_at(line, "/payload/type"), "message");
                let is_user = opt_is(&str_at(line, "/payload/role"), "user");
                if !is_message || !is_user {
                    None
                } else {
                    match len_at(line, "/payload/content") {
                        Some(n) => {
                            let mut found: Option<String> = None;
                            let mut k: usize = 0;
                            while k < n
                                invariant
                                    k <= n,
                                    first_item_text(line@, 0, n as nat) == (match found {
                                        Some(t) => Some(t@),
                                        None => first_item_text(line@, k as nat, n as nat),
                                    }),
                                    found is Some ==> k == n,
                                decreases n - k,
                            {
                                match content_item_text(line, k) {
                                    Some(t) => {
                                        found = Some(t);
                                        k = n;
                                    },
                                    None => {
                                        k = k + 1;
                                    },
                                }
                            }
                            found
                        },
                        None => None,
                    }
                }
            } else {
                None
            }
        },
        None => None,
    };
    match text {
        Some(t) => Some(truncate_preview(t.as_str())),
        None => None,
    }
}

/// What the scan of a session file's lines holds so far: the latest
/// `session_meta` line with a payload, and the first user preview.
pub open spec fn scan_step(
    line: Seq<char>,
    meta: Option<Seq<char>>,
    preview: Option<Seq<char>>,
) -> (Option<Seq<char>>, Option<Seq<char>>) {
    if !json_parses(line) {
        (meta, preview)
    } else {
        let ty = json_str_at(line, "/type"@);
        if ty == Some("session_meta"@) {
            (
                if json_value_at(line, "/payload"@) is Some {
                    Some(line)
                } else {
                    None
                },
                preview,
            )
        } else if (ty == Some("user_message"@) || ty == Some("response_item"@)) && preview is None {
            (meta, line_preview(line))
        } else {
            (meta, preview)
        }
    }
}

/// The scan of lines `i..` of a session file, stopping after
/// `SESSION_SCAN_LINES` lines or once both a metadata line and a preview
/// are found.
pub open spec fn scan_from(
    lines: Seq<Seq<char>>,
    i: int,
    meta: Option<Seq<char>>,
    preview: Option<Seq<char>>,
) -> (Option<Seq<char>>, Option<Seq<char>>)
    decreases lines.len() - i,
{
    if i < 0 || i >= lines.len() || i >= SESSION_SCAN_LINES {
        (meta, preview)
    } else {
        let next = scan_step(lines[i], meta, preview);
        if next.0 is Some && next.1 is Some {
            next
        } else {
            scan_from(lines, i + 1, next.0, next.1)
        }
    }
}

/// The text of each line.
pub open spec fn line_views(lines: Seq<String>) -> Seq<Seq<char>> {
    lines.map_values(|l: String| l@)
}

/// What a session file's metadata says, as read from its first lines.
#[derive(Debug, Clone)]
pub struct SessionMeta {
    /// Session id (empty when the metadata has none).
    pub id: String,
    /// Working directory as recorded (empty when the metadata has none).
    pub cwd: String,
    /// Session timestamp (empty when the metadata has none).
    pub timestamp: String,
    /// Originating client.
    pub originator: Option<String>,
    /// Source integration.
    pub source: Option<String>,
    /// Codex CLI version.
    pub cli_version: Option<String>,
    /// Model provider.
    pub model_provider: Option<String>,
    /// The first user message's preview.
    pub preview: Option<String>,
}

/// A string field of a metadata line's payload, empty when it is missing.
pub open spec fn field_or_empty(meta: Seq<char>, field: Seq<char>) -> Seq<char> {
    match json_str_at(meta, "/payload/"@ + field) {
        Some(v) => v,
        None => Seq::empty(),
    }
}

/// Whether `m` is what the metadata line `meta` and `preview` say.
pub open spec fn meta_from(meta: Seq<char>, preview: Option<Seq<char>>, m: SessionMeta) -> bool {
    &&& m.id@ == field_or_empty(meta, "id"@)
    &&& m.cwd@ == field_or_empty(meta, "cwd"@)
    &&& m.timestamp@ == field_or_empty(meta, "timestamp"@)
    &&& opt_chars(m.originator) == json_str_at(meta, "/payload/originator"@)
    &&& opt_chars(m.source) == json_str_at(meta, "/payload/source"@)
    &&& opt_chars(m.cli_version) == json_str_at(meta, "/payload/cli_version"@)
    &&& opt_chars(m.model_provider) == json_str_at(meta, "/payload/model_provider"@)
    &&& opt_chars(m.preview) == preview
}

/// A payload string field, empty when missing.
fn payload_field(meta: &str, pointer: &str) -> (r: String)
    ensures
        r@ == (match json_str_at(meta@, pointer@) {
            Some(v) => v,
            None => Seq::empty(),
        }),
{
    match str_at(meta, pointer) {
        Some(v) => v,
        None => String::new(),
    }
}

/// Read a session file's metadata from its lines (the first
/// `SESSION_SCAN_LINES` of them; lines that are not JSON are skipped):
/// nothing when no `session_meta` line with a payload comes last among them.
pub fn scan_session(lines: &Vec<String>) -> (r: Option<SessionMeta>)
    ensures
        (match scan_from(line_views(lines@), 0, None, None) {
            (None, _) => r is None,
            (Some(meta), preview) => r matches Some(m) && meta_from(meta, preview, m),
        }),
{
    let ghost ls = line_views(lines@);
    let mut meta: Option<String> = None;
    let mut preview: Option<String> = None;
    let mut i: usize = 0;
    while i < lines.len() && i < SESSION_SCAN_LINES
        invariant
            ls == line_views(lines@),
            i <= lines@.len(),
            scan_from(ls, 0, None, None) == scan_from(ls, i as int, opt_chars(meta), opt_chars(preview)),
            !(meta is Some && preview is Some) || i >= lines@.len(),
        decreases lines@.len() - i,
    {
        let line = lines[i].as_str();
        assert(ls[i as int] == line@);
        if parses(line) {
            let ty = str_at(line, "/type");
            let is_meta = opt_is(&ty, "session_meta");
            let is_user = opt_is(&ty, "user_message") || opt_is(&ty, "response_item");
            if is_meta {
                meta = if value_at(line, "/payload").is_some() {
                    Some(lines[i].clone())
                } else {
                    None
                };
            } else if is_user && preview.is_none() {
                preview = first_user_preview(line);
            }
        }
        if meta.is_some() && preview.is_some() {
            i = lines.len();
        } else {
            i = i + 1;
        }
    }
    let meta = match meta {
        Some(m) => m,
        None => {
            return None;
        },
    };
    let m = meta.as_str();
    proof {
        reveal_strlit("/payload/");
        reveal_strlit("/payload/id");
        reveal_strlit("/payload/cwd");
        reveal_strlit("/payload/timestamp");
        reveal_strlit("id");
        reveal_strlit("cwd");
        reveal_strlit("timestamp");
        assert("/payload/"@ + "id"@ =~= "/payload/id"@);
        assert("/payload/"@ + "cwd"@ =~= "/payload/cwd"@);
        assert("/payload/"@ + "timestamp"@ =~= "/payload/timestamp"@);
    }
    Some(
        SessionMeta {
            id: payload_field(m, "/payload/id"),
            cwd: payload_field(m, "/payload/cwd"),
            timestamp: payload_field(m, "/payload/timestamp"),
            originator: str_at(m, "/payload/originator"),
            source: str_at(m, "/payload/source"),
            cli_version: str_at(m, "/payload/cli_version"),
            model_provider: str_at(m, "/payload/model_provider"),
            preview,
        },
    )
}

/// Whether no session outside the project comes before a project session.
pub open spec fn project_first(s: Seq<CodexSessionInfo>) -> bool {
    forall|i: int, j: int| 0 <= i < j < s.len() && (#[trigger] s[j]).project_match ==> (#[trigger] s[i]).project_match
}

proof fn lemma_insert_all_project(s: Seq<CodexSessionInfo>, x: CodexSessionInfo)
    requires
        forall|i: int| 0 <= i < s.len() ==> (#[trigger] s[i]).project_match,
        x.project_match,
    ensures
        insert_session(s, x).len() == s.len() + 1,
        forall|i: int| 0 <= i < insert_session(s, x).len() ==> (#[trigger] insert_session(s, x)[i]).project_match,
    decreases s.len(),
{
    if s.len() > 0 && listed_before(x, s.last()) {
        lemma_insert_all_project(s.drop_last(), x);
    }
}

proof fn lemma_insert_project_first(s: Seq<CodexSessionInfo>, x: CodexSessionInfo)
    requires
        project_first(s),
    ensures
        project_first(insert_session(s, x)),
        insert_session(s, x).len() == s.len() + 1,
    decreases s.len(),
{
    if s.len() == 0 || !listed_before(x, s.last()) {
        if x.project_match && s.len() > 0 {
            assert(s.last().project_match);
            assert forall|i: int| 0 <= i < s.len() implies (#[trigger] s[i]).project_match by {
                if i < s.len() - 1 {
                    assert(s[s.len() - 1].project_match);
                }
            }
        }
        let r = s.push(x);
        assert forall|i: int, j: int| 0 <= i < j < r.len() && (#[trigger] r[j]).project_match implies (#[trigger] r[i]).project_match by {
            if j < s.len() {
                assert(s[j].project_match);
            }
        }
    } else {
        let t = s.drop_last();
        assert(project_first(t));
        lemma_insert_project_first(t, x);
        let m = insert_session(t, x);
        let r = m.push(s.last());
        if s.last().project_match {
            assert forall|i: int| 0 <= i < t.len() implies (#[trigger] t[i]).project_match by {
                assert(s[s.len() - 1].project_match);
                assert(s[i] == t[i]);
            }
            lemma_insert_all_project(t, x);
        }
        assert forall|i: int, j: int| 0 <= i < j < r.len() && (#[trigger] r[j]).project_match implies (#[trigger] r[i]).project_match by {
            if j < m.len() {
                assert(m[j].project_match);
            } else {
                assert(m[i] == r[i]);
            }
        }
    }
}

proof fn lemma_sort_project_first(s: Seq<CodexSessionInfo>)
    ensures
        project_first(sort_sessions(s)),
        sort_sessions(s).len() == s.len(),
    decreases s.len(),
{
    if s.len() > 0 {
        lemma_sort_project_first(s.drop_last());
        lemma_insert_project_first(sort_sessions(s.drop_last()), s.last());
    }
}

/// A listing puts the sessions of the requested workspace first: no session
/// of another workspace comes before a project session.
pub proof fn law_project_sessions_first(s: Seq<CodexSessionInfo>, all: bool, limit: Option<usize>)
    ensures
        project_first(listing(s, all, limit)),
{
    lemma_sort_project_first(keep_sessions(s, all));
    let sorted = sort_sessions(keep_sessions(s, all));
    let l = listing(s, all, limit);
    assert forall|i: int, j: int| 0 <= i < j < l.len() && (#[trigger] l[j]).project_match implies (#[trigger] l[i]).project_match by {
        assert(l[j] == sorted[j]);
        assert(l[i] == sorted[i]);
    }
}

proof fn lemma_keep_project(s: Seq<CodexSessionInfo>)
    ensures
        forall|i: int| 0 <= i < keep_sessions(s, false).len() ==> (#[trigger] keep_sessions(s, false)[i]).project_match,
    decreases s.len(),
{
    if s.len() > 0 {
        lemma_keep_project(s.drop_last());
    }
}

proof fn lemma_sort_all_project(s: Seq<CodexSessionInfo>)
    requires
        forall|i: int| 0 <= i < s.len() ==> (#[trigger] s[i]).project_match,
    ensures
        sort_sessions(s).len() == s.len(),
        forall|i: int| 0 <= i < sort_sessions(s).len() ==> (#[trigger] sort_sessions(s)[i]).project_match,
    decreases s.len(),
{
    if s.len() > 0 {
        let t = s.drop_last();
        assert forall|i: int| 0 <= i < t.len() implies (#[trigger] t[i]).project_match by {
            assert(s[i].project_match);
        }
        lemma_sort_all_project(t);
        assert(s[s.len() - 1].project_match);
        lemma_insert_all_project(sort_sessions(t), s.last());
    }
}

/// A listing that is not asked for all sessions holds project sessions only.
pub proof fn law_project_only(s: Seq<CodexSessionInfo>, limit: Option<usize>)
    ensures
        forall|i: int| 0 <= i < listing(s, false, limit).len() ==> (#[trigger] listing(s, false, limit)[i]).project_match,
{
    lemma_keep_project(s);
    lemma_sort_all_project(keep_sessions(s, false));
    let sorted = sort_sessions(keep_sessions(s, false));
    let l = listing(s, false, limit);
    assert forall|i: int| 0 <= i < l.len() implies (#[trigger] l[i]).project_match by {
        assert(l[i] == sorted[i]);
    }
}

proof fn lemma_seq_lt_asym(a: Seq<char>, b: Seq<char>)
    ensures
        seq_lt(a, b) ==> !seq_lt(b, a),
    decreases a.len(),
{
    if a.len() > 0 && b.len() > 0 && a[0] == b[0] {
        lemma_seq_lt_asym(a.drop_first(), b.drop_first());
    }
}

proof fn lemma_seq_lt_trans(a: Seq<char>, b: Seq<char>, c: Seq<char>)
    ensures
        seq_lt(a, b) && seq_lt(b, c) ==> seq_lt(a, c),
    decreases a.len(),
{
    if a.len() > 0 && b.len() > 0 && c.len() > 0 && a[0] == b[0] && b[0] == c[0] {
        lemma_seq_lt_trans(a.drop_first(), b.drop_first(), c.drop_first());
    }
}

proof fn lemma_seq_lt_total(a: Seq<char>, b: Seq<char>)
    ensures
        a == b || seq_lt(a, b) || seq_lt(b, a),
    decreases a.len(),
{
    if a.len() > 0 && b.len() > 0 && a[0] == b[0] {
        lemma_seq_lt_total(a.drop_first(), b.drop_first());
        if a.drop_first() == b.drop_first() {
            assert(a =~= seq![a[0]] + a.drop_first());
            assert(b =~= seq![b[0]] + b.drop_first());
        }
    } else if a.len() == 0 && b.len() == 0 {
        assert(a =~= b);
    } else if a.len() > 0 && b.len() > 0 {
        let x = a[0];
        let y = b[0];
        vstd::utf8::char_u32_cast(x, x as u32);
        vstd::utf8::char_u32_cast(y, y as u32);
        assert((x as u32) != (y as u32));
    }
}

/// Whether two sessions tie in listing order.
pub open spec fn same_rank(a: CodexSessionInfo, b: CodexSessionInfo) -> bool {
    a.project_match == b.project_match && a.modified_at == b.modified_at && a.timestamp@ == b.timestamp@
}

proof fn lemma_listed_before_order(a: CodexSessionInfo, b: CodexSessionInfo, c: CodexSessionInfo)
    ensures
        listed_before(a, b) ==> !listed_before(b, a),
        listed_before(a, b) && listed_before(b, c) ==> listed_before(a, c),
        listed_before(a, b) || listed_before(b, a) || same_rank(a, b),
        same_rank(a, b) ==> (listed_before(a, c) == listed_before(b, c) && listed_before(c, a) == listed_before(c, b)),
{
    lemma_seq_lt_asym(b.timestamp@, a.timestamp@);
    lemma_seq_lt_trans(c.timestamp@, b.timestamp@, a.timestamp@);
    lemma_seq_lt_total(a.timestamp@, b.timestamp@);
}

proof fn lemma_not_before_trans(x: CodexSessionInfo, y: CodexSessionInfo, z: CodexSessionInfo)
    requires
        !listed_before(x, y),
        !listed_before(y, z),
    ensures
        !listed_before(x, z),
{
    lemma_listed_before_order(x, y, z);
    lemma_listed_before_order(y, x, z);
}

/// Whether no session of `l` is listed before one that comes earlier.
pub open spec fn in_listing_order(l: Seq<CodexSessionInfo>) -> bool {
    forall|i: int, j: int| 0 <= i < j < l.len() ==> !listed_before(#[trigger] l[j], #[trigger] l[i])
}

proof fn lemma_insert_elems(l: Seq<CodexSessionInfo>, x: CodexSessionInfo)
    ensures
        insert_session(l, x).len() == l.len() + 1,
        forall|i: int|
            0 <= i < insert_session(l, x).len() ==> #[trigger] insert_session(l, x)[i] == x || exists|j: int|
                0 <= j < l.len() && insert_session(l, x)[i] == #[trigger] l[j],
    decreases l.len(),
{
    if l.len() > 0 && listed_before(x, l.last()) {
        let t = l.drop_last();
        lemma_insert_elems(t, x);
        let r = insert_session(l, x);
        let r0 = insert_session(t, x);
        assert forall|i: int| 0 <= i < r.len() implies #[trigger] r[i] == x || exists|j: int|
            0 <= j < l.len() && r[i] == #[trigger] l[j] by {
            if i == r.len() - 1 {
                assert(r[i] == l[l.len() - 1]);
            } else {
                assert(r[i] == r0[i]);
                if r0[i] != x {
                    let j = choose|j: int| 0 <= j < t.len() && r0[i] == #[trigger] t[j];
                    assert(t[j] == l[j]);
                }
            }
        }
    }
}

proof fn lemma_insert_in_order(l: Seq<CodexSessionInfo>, x: CodexSessionInfo)
    requires
        in_listing_order(l),
    ensures
        in_listing_order(insert_session(l, x)),
    decreases l.len(),
{
    let r = insert_session(l, x);
    if l.len() == 0 || !listed_before(x, l.last()) {
        assert forall|i: int, j: int| 0 <= i < j < r.len() implies !listed_before(#[trigger] r[j], #[trigger] r[i]) by {
            if j == r.len() - 1 {
                assert(r[j] == x);
                assert(r[i] == l[i]);
                if i < l.len() - 1 {
                    assert(!listed_before(l[l.len() - 1], l[i]));
                    lemma_not_before_trans(x, l[l.len() - 1], l[i]);
                }
            } else {
                assert(r[i] == l[i] && r[j] == l[j]);
            }
        }
    } else {
        let t = l.drop_last();
        let last = l.last();
        assert(in_listing_order(t)) by {
            assert forall|i: int, j: int| 0 <= i < j < t.len() implies !listed_before(#[trigger] t[j], #[trigger] t[i]) by {
                assert(t[i] == l[i] && t[j] == l[j]);
            }
        }
        lemma_insert_in_order(t, x);
        lemma_insert_elems(t, x);
        let r0 = insert_session(t, x);
        lemma_listed_before_order(x, last, x);
        assert forall|i: int, j: int| 0 <= i < j < r.len() implies !listed_before(#[trigger] r[j], #[trigger] r[i]) by {
            if j == r.len() - 1 {
                assert(r[j] == last);
                assert(r[i] == r0[i]);
                if r0[i] != x {
                    let k = choose|k: int| 0 <= k < t.len() && r0[i] == #[trigger] t[k];
                    assert(t[k] == l[k]);
                    assert(!listed_before(l[l.len() - 1], l[k]));
                }
            } else {
                assert(r[i] == r0[i] && r[j] == r0[j]);
            }
        }
    }
}

proof fn lemma_sort_in_order(s: Seq<CodexSessionInfo>)
    ensures
        in_listing_order(sort_sessions(s)),
    decreases s.len(),
{
    if s.len() > 0 {
        lemma_sort_in_order(s.drop_last());
        lemma_insert_in_order(sort_sessions(s.drop_last()), s.last());
    }
}

/// A listing comes in listing order: of two listed sessions, the earlier is
/// a project session whenever the later one is; of two that agree on that,
/// the earlier was modified no earlier; and of two that agree on both, the
/// earlier has the later (or the same) timestamp. This holds of every
/// session, of the project or not.
pub proof fn law_listing_newest_first(s: Seq<CodexSessionInfo>, all: bool, limit: Option<usize>)
    ensures
        ({
            let l = listing(s, all, limit);
            forall|i: int, j: int|
                0 <= i < j < l.len() ==> {
                    &&& (#[trigger] l[j]).project_match ==> (#[trigger] l[i]).project_match
                    &&& l[i].project_match == l[j].project_match ==> l[i].modified_at >= l[j].modified_at
                    &&& l[i].project_match == l[j].project_match && l[i].modified_at == l[j].modified_at
                        ==> !seq_lt(l[i].timestamp@, l[j].timestamp@)
                }
        }),
{
    let sorted = sort_sessions(keep_sessions(s, all));
    lemma_sort_in_order(keep_sessions(s, all));
    let l = listing(s, all, limit);
    assert forall|i: int, j: int| 0 <= i < j < l.len() implies {
        &&& (#[trigger] l[j]).project_match ==> (#[trigger] l[i]).project_match
        &&& l[i].project_match == l[j].project_match ==> l[i].modified_at >= l[j].modified_at
        &&& l[i].project_match == l[j].project_match && l[i].modified_at == l[j].modified_at
            ==> !seq_lt(l[i].timestamp@, l[j].timestamp@)
    } by {
        assert(l[i] == sorted[i] && l[j] == sorted[j]);
        assert(!listed_before(sorted[j], sorted[i]));
    }
}

} // verus!
