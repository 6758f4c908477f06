//! What the daemon does with a request once it is decoded: which method it
//! names, how a failure is reported, which cached proposals a completion
//! looks up and how they combine, what the anchors and generation methods
//! answer, and the command lines of the agent processes. Reading files,
//! querying the cache and running processes are the caller's part.

use vstd::prelude::*;
use vstd::string::StringSliceAdditionalSpecFns;

use crate::acp::GenerationContext;
use crate::anchoring::{OffsetError, offset_check, offset_error_text, validate_offset};
use crate::cache::{Proposal, compute_hash, content_hash};
use crate::completion::{apply_prefix_filter, kind_name, language_name, language_name_spec, kind_name_spec, label_for_anchor, label_spec, mentions, proposals_to_suggestions, snippet_for_anchor, snippet_spec};
use crate::parser::{AnchorKind, SupportedLanguage};
use crate::rpc::{AnchorInfo, CompletionSuggestion, InlineParams};
use crate::syntax::{AnchorRegion, AnchorView, SyntaxNode, anchors_in, enclosing_function, enclosing_function_spec, node_at, node_at_offset, region_of, regions_for_anchors};
use vstd::seq_lib::lemma_filter_view_commute;
use crate::text::{decimal, decimal_string, contains_seq, owned, str_eq, trim, trim_str};

verus! {

/// The methods the daemon serves.
#[derive(Debug, Clone, Copy, PartialEq, Eq, Structural)]
pub enum Method {
    /// Cached completions at a cursor.
    Complete,
    /// Anchors of a saved file.
    Anchors,
    /// Generate a proposal for an anchor region.
    Generate,
    /// Ephemeral inline generation.
    Inline,
    /// Saved Codex sessions.
    CodexSessions,
    /// Create a thread.
    ThreadCreate,
    /// List threads.
    ThreadList,
    /// Link a thread to a session.
    ThreadLink,
    /// Resolve a thread's new session.
    ThreadResolve,
    /// Attach a session to a new thread.
    ThreadAttach,
    /// Delete a thread and its examples.
    ThreadDelete,
    /// Generate a scratch example for a thread.
    ThreadExampleCreate,
    /// Create an external mark.
    MarkCreate,
    /// List marks.
    MarkList,
    /// Delete a mark.
    MarkDelete,
    /// Step to the next mark.
    MarkNext,
    /// Step to the previous mark.
    MarkPrev,
    /// Read the settings.
    SettingsGet,
    /// Change the settings.
    SettingsUpdate,
    /// Generate a scratch file.
    ScratchCreate,
    /// Warm the proposal cache.
    Prefetch,
    /// Daemon status.
    Status,
    /// Stop the daemon.
    Shutdown,
    /// Any other name.
    NotFound,
}

/// The method a request's name selects.
pub open spec fn route_spec(m: Seq<char>) -> Method {
    if m == "complete"@ {
        Method::Complete
    } else if m == "anchors"@ {
        Method::Anchors
    } else if m == "generate"@ {
        Method::Generate
    } else if m == "inline"@ {
        Method::Inline
    } else if m == "codex.sessions"@ {
        Method::CodexSessions
    } else if m == "thread.create"@ {
        Method::ThreadCreate
    } else if m == "thread.list"@ {
        Method::ThreadList
    } else if m == "thread.link"@ {
        Method::ThreadLink
    } else if m == "thread.resolve"@ {
        Method::ThreadResolve
    } else if m == "thread.attach"@ {
        Method::ThreadAttach
    } else if m == "thread.delete"@ {
        Method::ThreadDelete
    } else if m == "thread.example.create"@ {
        Method::ThreadExampleCreate
    } else if m == "mark.create"@ {
        Method::MarkCreate
    } else if m == "mark.list"@ {
        Method::MarkList
    } else if m == "mark.delete"@ {
        Method::MarkDelete
    } else if m == "mark.next"@ {
        Method::MarkNext
    } else if m == "mark.prev"@ {
        Method::MarkPrev
    } else if m == "settings.get"@ {
        Method::SettingsGet
    } else if m == "settings.update"@ {
        Method::SettingsUpdate
    } else if m == "scratch.create"@ {
        Method::ScratchCreate
    } else if m == "prefetch"@ {
        Method::Prefetch
    } else if m == "status"@ {
        Method::Status
    } else if m == "shutdown"@ {
        Method::Shutdown
    } else {
        Method::NotFound
    }
}

/// The method a request's name selects.
pub fn route(method: &str) -> (r: Method)
    ensures
        r == route_spec(method@),
{
    if str_eq(method, "complete") {
        Method::Complete
    } else if str_eq(method, "anchors") {
        Method::Anchors
    } else if str_eq(method, "generate") {
        Method::Generate
    } else if str_eq(method, "inline") {
        Method::Inline
    } else if str_eq(method, "codex.sessions") {
        Method::CodexSessions
    } else if str_eq(method, "thread.create") {
        Method::ThreadCreate
    } else if str_eq(method, "thread.list") {
        Method::ThreadList
    } else if str_eq(method, "thread.link") {
        Method::ThreadLink
    } else if str_eq(method, "thread.resolve") {
        Method::ThreadResolve
    } else if str_eq(method, "thread.attach") {
        Method::ThreadAttach
    } else if str_eq(method, "thread.delete") {
        Method::ThreadDelete
    } else if str_eq(method, "thread.example.create") {
        Method::ThreadExampleCreate
    } else if str_eq(method, "mark.create") {
        Method::MarkCreate
    } else if str_eq(method, "mark.list") {
        Method::MarkList
    } else if str_eq(method, "mark.delete") {
        Method::MarkDelete
    } else if str_eq(method, "mark.next") {
        Method::MarkNext
    } else if str_eq(method, "mark.prev") {
        Method::MarkPrev
    } else if str_eq(method, "settings.get") {
        Method::SettingsGet
    } else if str_eq(method, "settings.update") {
        Method::SettingsUpdate
    } else if str_eq(method, "scratch.create") {
        Method::ScratchCreate
    } else if str_eq(method, "prefetch") {
        Method::Prefetch
    } else if str_eq(method, "status") {
        Method::Status
    } else if str_eq(method, "shutdown") {
        Method::Shutdown
    } else {
        Method::NotFound
    }
}

/// How a failed method is reported: its error code, the words before the
/// failure's message, and whether the client may retry.
#[derive(Debug, Clone, PartialEq, Eq)]
pub struct FailureReport {
    /// JSON-RPC error code.
    pub code: i32,
    /// The words that lead the error message.
    pub prefix: String,
    /// Whether the error data marks the failure retryable.
    pub retryable: bool,
}

/// The error code of a failed method: an unknown method is -32601,
/// generation failures -32001, other failures -32000.
pub open spec fn failure_code(m: Method) -> i32 {
    if m == Method::NotFound {
        -32601i32
    } else if m == Method::Generate || m == Method::Inline {
        -32001i32
    } else {
        -32000i32
    }
}

/// The words that lead a failed method's error message.
pub open spec fn failure_prefix(m: Method) -> Seq<char> {
    match m {
        Method::Complete => "Complete failed: "@,
        Method::Anchors => "Anchors failed: "@,
        Method::Generate => "Generation failed: "@,
        Method::Inline => "Inline generation failed: "@,
        Method::CodexSessions => "Codex session listing failed: "@,
        Method::ThreadCreate => "Thread create failed: "@,
        Method::ThreadList => "Thread list failed: "@,
        Method::ThreadLink => "Thread link failed: "@,
        Method::ThreadResolve => "Thread resolve failed: "@,
        Method::ThreadAttach => "Thread attach failed: "@,
        Method::ThreadDelete => "Thread delete failed: "@,
        Method::ThreadExampleCreate => "Thread example failed: "@,
        Method::MarkCreate => "Mark create failed: "@,
        Method::MarkList => "Mark list failed: "@,
        Method::MarkDelete => "Mark delete failed: "@,
        Method::MarkNext => "Mark next failed: "@,
        Method::MarkPrev => "Mark prev failed: "@,
        Method::SettingsGet => "Settings get failed: "@,
        Method::SettingsUpdate => "Settings update failed: "@,
        Method::ScratchCreate => "Scratch create failed: "@,
        Method::Prefetch => "Prefetch failed: "@,
        Method::Status => "Status failed: "@,
        Method::Shutdown => "Shutdown failed: "@,
        Method::NotFound => "Method not found: "@,
    }
}

/// How a failure of method `m` is reported.
pub fn failure_report(m: Method) -> (r: FailureReport)
    ensures
        r.code == failure_code(m),
        r.prefix@ == failure_prefix(m),
        r.retryable == (m == Method::Generate || m == Method::Inline),
{
    let (code, prefix, retryable) = match m {
        Method::Complete => (-32000i32, "Complete failed: ", false),
        Method::Anchors => (-32000, "Anchors failed: ", false),
        Method::Generate => (-32001, "Generation failed: ", true),
        Method::Inline => (-32001, "Inline generation failed: ", true),
        Method::CodexSessions => (-32000, "Codex session listing failed: ", false),
        Method::ThreadCreate => (-32000, "Thread create failed: ", false),
        Method::ThreadList => (-32000, "Thread list failed: ", false),
        Method::ThreadLink => (-32000, "Thread link failed: ", false),
        Method::ThreadResolve => (-32000, "Thread resolve failed: ", false),
        Method::ThreadAttach => (-32000, "Thread attach failed: ", false),
        Method::ThreadDelete => (-32000, "Thread delete failed: ", false),
        Method::ThreadExampleCreate => (-32000, "Thread example failed: ", false),
        Method::MarkCreate => (-32000, "Mark create failed: ", false),
        Method::MarkList => (-32000, "Mark list failed: ", false),
        Method::MarkDelete => (-32000, "Mark delete failed: ", false),
        Method::MarkNext => (-32000, "Mark next failed: ", false),
        Method::MarkPrev => (-32000, "Mark prev failed: ", false),
        Method::SettingsGet => (-32000, "Settings get failed: ", false),
        Method::SettingsUpdate => (-32000, "Settings update failed: ", false),
        Method::ScratchCreate => (-32000, "Scratch create failed: ", false),
        Method::Prefetch => (-32000, "Prefetch failed: ", false),
        Method::Status => (-32000, "Status failed: ", false),
        Method::Shutdown => (-32000, "Shutdown failed: ", false),
        Method::NotFound => (-32601, "Method not found: ", false),
    };
    FailureReport { code, prefix: owned(prefix), retryable }
}


/// A byte range and content hash under which proposals are cached.
#[derive(Debug, Clone)]
pub struct LookupKey {
    /// First byte of the region.
    pub start: usize,
    /// End byte of the region.
    pub end: usize,
    /// Content hash of the region's text.
    pub hash: String,
}

/// What a lookup key names: its range and its hash.
pub open spec fn key_view(k: LookupKey) -> (usize, usize, Seq<char>) {
    (k.start, k.end, k.hash@)
}

/// The cache lookups a completion makes, in the order they are tried.
#[derive(Debug, Clone)]
pub struct CompletePlan {
    /// The smallest node at the cursor; a completion without one finds nothing.
    pub node: Option<LookupKey>,
    /// Each anchor region whose context holds the cursor, in anchor order.
    pub regions: Vec<LookupKey>,
    /// The function around the cursor, for entries cached by function.
    pub function: Option<LookupKey>,
}

/// The text of an anchor's region: the function around the anchor's start,
/// else the anchor's own context.
pub open spec fn region_text(root: SyntaxNode, lang: SupportedLanguage, a: AnchorView) -> Seq<char> {
    match enclosing_function_spec(root, a.start as int, lang) {
        Some(f) => f.text@,
        None => a.context,
    }
}

/// The context range of an anchor's region.
pub open spec fn region_context(root: SyntaxNode, lang: SupportedLanguage, a: AnchorView) -> (int, int) {
    match enclosing_function_spec(root, a.start as int, lang) {
        Some(f) => (f.start as int, f.end as int),
        None => (a.start as int, a.end as int),
    }
}

/// The lookups of those `anchors` whose region's context holds `offset`
/// (its end included), in order: each anchor's range with its region's hash.
pub open spec fn region_lookups(
    root: SyntaxNode,
    lang: SupportedLanguage,
    anchors: Seq<AnchorView>,
    offset: int,
) -> Seq<(usize, usize, Seq<char>)>
    decreases anchors.len(),
{
    if anchors.len() == 0 {
        Seq::empty()
    } else {
        let a = anchors.last();
        let rest = region_lookups(root, lang, anchors.drop_last(), offset);
        let c = region_context(root, lang, a);
        if c.0 <= offset <= c.1 {
            rest.push((a.start, a.end, content_hash(region_text(root, lang, a))))
        } else {
            rest
        }
    }
}

/// The keys of those regions whose context holds `offset`, in order.
pub open spec fn holding_keys(rs: Seq<AnchorRegion>, offset: int) -> Seq<(usize, usize, Seq<char>)>
    decreases rs.len(),
{
    if rs.len() == 0 {
        Seq::empty()
    } else {
        let r = rs.last();
        let rest = holding_keys(rs.drop_last(), offset);
        if r.context_start <= offset <= r.context_end {
            rest.push((r.start, r.end, r.content_hash@))
        } else {
            rest
        }
    }
}

/// The keys of the regions of a file's anchors are the lookups of those
/// anchors.
proof fn lemma_holding_keys(
    root: SyntaxNode,
    lang: SupportedLanguage,
    file: Seq<char>,
    av: Seq<AnchorView>,
    rs: Seq<AnchorRegion>,
    offset: int,
)
    requires
        rs.len() == av.len(),
        forall|j: int| 0 <= j < rs.len() ==> region_of(root, lang, file, av[j], #[trigger] rs[j]),
    ensures
        holding_keys(rs, offset) == region_lookups(root, lang, av, offset),
    decreases rs.len(),
{
    if rs.len() > 0 {
        let k = rs.len() - 1;
        assert(region_of(root, lang, file, av[k], rs[k]));
        lemma_holding_keys(root, lang, file, av.drop_last(), rs.drop_last(), offset);
    }
}

/// The keys of the regions whose context holds `offset` (its end included).
fn keys_holding(regions: &Vec<AnchorRegion>, offset: usize) -> (r: Vec<LookupKey>)
    ensures
        r@.map_values(|k: LookupKey| key_view(k)) == holding_keys(regions@, offset as int),
{
    let mut keys: Vec<LookupKey> = Vec::new();
    let mut i: usize = 0;
    while i < regions.len()
        invariant
            i <= regions@.len(),
            keys@.map_values(|k: LookupKey| key_view(k)) == holding_keys(regions@.take(i as int), offset as int),
        decreases regions@.len() - i,
    {
        let region = &regions[i];
        assert(regions@.take(i + 1).drop_last() =~= regions@.take(i as int));
        let ghost before = keys@;
        if region.context_start <= offset && offset <= region.context_end {
            keys.push(LookupKey { start: region.start, end: region.end, hash: region.content_hash.clone() });
            assert(keys@.map_values(|k: LookupKey| key_view(k)) =~= before.map_values(|k: LookupKey| key_view(k)).push(
                key_view(keys@.last()),
            ));
        }
        i = i + 1;
    }
    assert(regions@.take(regions@.len() as int) =~= regions@);
    keys
}

/// Plan the cache lookups of a completion at `offset` in a parsed file.
pub fn plan_complete(root: &SyntaxNode, lang: SupportedLanguage, file: &str, offset: usize) -> (r: CompletePlan)
    ensures
        (match node_at(*root, offset as int) {
            Some(n) => r.node matches Some(k) && key_view(k) == (n.start, n.end, content_hash(n.text@)),
            None => r.node is None,
        }),
        r.regions@.map_values(|k: LookupKey| key_view(k)) == region_lookups(
            *root,
            lang,
            anchors_in(*root, lang),
            offset as int,
        ),
        (match enclosing_function_spec(*root, offset as int, lang) {
            Some(f) => r.function matches Some(k) && key_view(k) == (f.start, f.end, content_hash(f.text@)),
            None => r.function is None,
        }),
{
    let node = match node_at_offset(root, offset) {
        Some(n) => Some(LookupKey { start: n.start, end: n.end, hash: compute_hash(n.text.as_str()) }),
        None => None,
    };
    let regions = regions_for_anchors(root, lang, file);
    let keys = keys_holding(&regions, offset);
    proof {
        lemma_holding_keys(*root, lang, file@, anchors_in(*root, lang), regions@, offset as int);
    }
    let function = match enclosing_function(root, offset, lang) {
        Some(f) => Some(LookupKey { start: f.start, end: f.end, hash: compute_hash(f.text.as_str()) }),
        None => None,
    };
    CompletePlan { node, regions: keys, function }
}

/// What a suggestion of a proposal shows.
pub type Shown = (Seq<char>, Seq<char>, Option<Seq<char>>, Option<Seq<char>>);

/// Proposals offered as suggestions with `detail`, in order.
pub open spec fn offered(ps: Seq<Proposal>, detail: Seq<char>) -> Seq<Shown> {
    Seq::new(ps.len(), |i: int| (ps[i].label@, ps[i].snippet@, Some(detail), None))
}

/// The suggestions of a completion before its prefix filter: those cached
/// for the node at the cursor; failing any, those cached for the anchor
/// regions around it, in order; failing any, those cached for the function
/// around it.
pub open spec fn merged(node: Seq<Proposal>, regions: Seq<Seq<Proposal>>, function: Seq<Proposal>) -> Seq<Shown> {
    if node.len() > 0 {
        offered(node, "cached"@)
    } else if regions.flatten().len() > 0 {
        offered(regions.flatten(), "cached (anchor)"@)
    } else {
        offered(function, "cached (function)"@)
    }
}

/// Whether a shown suggestion mentions `p` in its label or its text.
pub open spec fn shows(v: Shown, p: Seq<char>) -> bool {
    contains_seq(v.0, p) || contains_seq(v.1, p)
}

/// The suggestions that mention a non-empty prefix; all of them without one.
pub open spec fn filtered(v: Seq<Shown>, prefix: Option<Seq<char>>) -> Seq<Shown> {
    match prefix {
        Some(p) if p.len() > 0 => v.filter(|x: Shown| shows(x, p)),
        _ => v,
    }
}

/// The text of an optional string slice.
pub open spec fn opt_str(o: Option<&str>) -> Option<Seq<char>> {
    match o {
        Some(s) => Some(s@),
        None => None,
    }
}

/// The contents of each vector.
pub open spec fn seqs_of(v: Seq<Vec<Proposal>>) -> Seq<Seq<Proposal>> {
    v.map_values(|x: Vec<Proposal>| x@)
}

/// The proposals of a lookup that was made, none for one that was not.
pub open spec fn found(o: Option<Vec<Proposal>>) -> Seq<Proposal> {
    match o {
        Some(v) => v@,
        None => Seq::empty(),
    }
}

/// All proposals of `groups`, group after group.
fn concat(groups: Vec<Vec<Proposal>>) -> (r: Vec<Proposal>)
    ensures
        r@ == seqs_of(groups@).flatten(),
{
    let ghost g = seqs_of(groups@);
    let mut rest = groups;
    let mut out: Vec<Proposal> = Vec::new();
    let n = rest.len();
    let mut i: usize = 0;
    assert(seqs_of(rest@) =~= g.skip(0));
    assert(g.take(0) =~= Seq::<Seq<Proposal>>::empty());
    while i < n
        invariant
            n == g.len(),
            i <= n,
            seqs_of(rest@) == g.skip(i as int),
            rest@.len() == n - i,
            out@ == g.take(i as int).flatten(),
        decreases n - i,
    {
        assert(g.skip(i as int)[0] == g[i as int]);
        let ghost old_rest = rest@;
        let mut v = rest.remove(0);
        assert(seqs_of(rest@) =~= g.skip(i + 1)) by {
            assert(rest@ =~= old_rest.drop_first());
            assert forall|j: int| 0 <= j < rest@.len() implies seqs_of(rest@)[j] == g.skip(i + 1)[j] by {
                assert(seqs_of(old_rest)[j + 1] == g.skip(i as int)[j + 1]);
            }
        }
        let ghost before = out@;
        out.append(&mut v);
        proof {
            g.take(i as int).lemma_flatten_push(g[i as int]);
            assert(g.take(i + 1) =~= g.take(i as int).push(g[i as int]));
        }
        i = i + 1;
    }
    assert(g.take(n as int) =~= g);
    out
}

/// Combine what the planned lookups found into the suggestions of a
/// completion: nothing when there was no node at the cursor, else the
/// first non-empty of node, anchor-region and function proposals, each
/// with its detail, filtered by a non-empty prefix.
pub fn merge_complete(
    node: Option<Vec<Proposal>>,
    regions: Vec<Vec<Proposal>>,
    function: Option<Vec<Proposal>>,
    prefix: Option<&str>,
) -> (r: Vec<CompletionSuggestion>)
    ensures
        (match node {
            None => r@.len() == 0,
            Some(ns) => r@.map_values(|s: CompletionSuggestion| s@) == filtered(
                merged(
                    ns@,
                    seqs_of(regions@),
                    found(function),
                ),
                opt_str(prefix),
            ),
        }),
{
    let ns = match node {
        Some(ns) => ns,
        None => {
            return Vec::new();
        },
    };
    let ghost nsv = ns@;
    let ghost gv = seqs_of(regions@);
    let ghost fv = found(function);
    let mut out = if ns.len() > 0 {
        proposals_to_suggestions(ns, "cached")
    } else {
        let all = concat(regions);
        if all.len() > 0 {
            proposals_to_suggestions(all, "cached (anchor)")
        } else {
            let fs = match function {
                Some(f) => f,
                None => Vec::new(),
            };
            proposals_to_suggestions(fs, "cached (function)")
        }
    };
    proof {
        reveal_strlit("cached");
        reveal_strlit("cached (anchor)");
        reveal_strlit("cached (function)");
        assert(out@.map_values(|s: CompletionSuggestion| s@) =~= merged(nsv, gv, fv));
    }
    let ghost before = out@;
    apply_prefix_filter(&mut out, prefix);
    proof {
        match prefix {
            Some(p) => {
                if p@.len() > 0 {
                    lemma_filter_view_commute(
                        before,
                        |s: CompletionSuggestion| mentions(s, p@),
                        |x: Shown| shows(x, p@),
                    );
                }
            },
            None => {},
        }
    }
    out
}

/// The state an anchor is reported in: `ready` with cached proposals,
/// else `failed` after a failed generation, else `candidate`.
pub open spec fn status_spec(cached: bool, failed: bool) -> Seq<char> {
    if cached {
        "ready"@
    } else if failed {
        "failed"@
    } else {
        "candidate"@
    }
}

/// How an anchor region is reported, given whether proposals are cached
/// for it and whether its last generation failed.
pub fn anchor_info(region: &AnchorRegion, cached: bool, failed: bool) -> (r: AnchorInfo)
    ensures
        r.anchor_start == region.anchor.byte_start,
        r.anchor_end == region.anchor.byte_end,
        r.region_start == region.start,
        r.region_end == region.end,
        r.kind@ == kind_name_spec(region.anchor.kind),
        r.label@ == label_spec(region.anchor.kind),
        r.status@ == status_spec(cached, failed),
{
    let status = if cached {
        "ready"
    } else if failed {
        "failed"
    } else {
        "candidate"
    };
    proof {
        reveal_strlit("ready");
        reveal_strlit("failed");
        reveal_strlit("candidate");
    }
    AnchorInfo {
        anchor_start: region.anchor.byte_start,
        anchor_end: region.anchor.byte_end,
        region_start: region.start,
        region_end: region.end,
        kind: owned(kind_name(region.anchor.kind)),
        label: owned(label_for_anchor(region.anchor.kind)),
        status: owned(status),
    }
}

/// Whether an anchor region's own range holds `offset` (its end included).
pub open spec fn covers(r: AnchorRegion, offset: int) -> bool {
    r.start <= offset <= r.end
}

/// The first region whose anchor range holds `offset`: the one a
/// generation at that cursor is for.
pub fn region_at(regions: &Vec<AnchorRegion>, offset: usize) -> (r: Option<usize>)
    ensures
        (match r {
            Some(i) => i < regions@.len() && covers(regions@[i as int], offset as int) && forall|j: int|
                0 <= j < i ==> !covers(#[trigger] regions@[j], offset as int),
            None => forall|j: int| 0 <= j < regions@.len() ==> !covers(#[trigger] regions@[j], offset as int),
        }),
{
    let mut i: usize = 0;
    while i < regions.len()
        invariant
            i <= regions@.len(),
            forall|j: int| 0 <= j < i ==> !covers(#[trigger] regions@[j], offset as int),
        decreases regions@.len() - i,
    {
        if regions[i].start <= offset && offset <= regions[i].end {
            return Some(i);
        }
        i = i + 1;
    }
    None
}

/// The context of a generation turn for an anchor region of a file.
pub fn generation_context<'a>(
    file: &'a str,
    lang: SupportedLanguage,
    region: &'a AnchorRegion,
) -> (r: GenerationContext<'a>)
    ensures
        r.file@ == file@,
        r.language@ == language_name_spec(lang),
        r.anchor_kind@ == kind_name_spec(region.anchor.kind),
        r.anchor_text@ == region.anchor.context@,
        r.region_text@ == region.text@,
{
    GenerationContext {
        file,
        language: language_name(lang),
        anchor_kind: kind_name(region.anchor.kind),
        anchor_text: region.anchor.context.as_str(),
        region_text: region.text.as_str(),
    }
}

/// The suggestion of a freshly generated snippet for an anchor.
pub fn generated_suggestion(kind: AnchorKind, snippet: String) -> (r: CompletionSuggestion)
    ensures
        r.label@ == label_spec(kind),
        r.insert_text == snippet,
        r.detail matches Some(d) && d@ == "generated through ACP"@,
        r.documentation is None,
{
    CompletionSuggestion {
        label: owned(label_for_anchor(kind)),
        insert_text: snippet,
        detail: Some(owned("generated through ACP")),
        documentation: None,
    }
}

/// The suggestion of an inline generation.
pub fn inline_suggestion(snippet: String) -> (r: CompletionSuggestion)
    ensures
        r.label@ == "Inline ask"@,
        r.insert_text == snippet,
        r.detail matches Some(d) && d@ == "generated through ACP inline ask"@,
        r.documentation is None,
{
    CompletionSuggestion {
        label: owned("Inline ask"),
        insert_text: snippet,
        detail: Some(owned("generated through ACP inline ask")),
        documentation: None,
    }
}

/// Why an inline request is refused before anything is generated.
#[derive(Debug, Clone, Copy, PartialEq, Eq, Structural)]
pub enum InlineError {
    /// The prompt is empty or only whitespace.
    EmptyPrompt,
    /// The cursor offset does not fit the buffer.
    Offset(OffsetError),
}

impl InlineError {
    /// The message shown to a user for this error.
    pub fn message(&self) -> (r: String)
        ensures
            r@ == inline_error_text(*self),
    {
        match self {
            InlineError::EmptyPrompt => owned("inline prompt must not be empty"),
            InlineError::Offset(e) => e.message(),
        }
    }
}

/// The message of an inline error.
pub open spec fn inline_error_text(e: InlineError) -> Seq<char> {
    match e {
        InlineError::EmptyPrompt => "inline prompt must not be empty"@,
        InlineError::Offset(o) => offset_error_text(o),
    }
}

/// What checking an inline request gives: its prompt must hold more than
/// whitespace, then its offset must be a character boundary of its buffer.
pub open spec fn inline_check(prompt: Seq<char>, content: Seq<char>, offset: int) -> Result<(), InlineError> {
    if trim(prompt).len() == 0 {
        Err(InlineError::EmptyPrompt)
    } else {
        match offset_check(content, offset) {
            Ok(()) => Ok(()),
            Err(e) => Err(InlineError::Offset(e)),
        }
    }
}

/// Check an inline request before anything is parsed or generated.
pub fn check_inline(params: &InlineParams) -> (r: Result<(), InlineError>)
    ensures
        r == inline_check(params.prompt@, params.content@, params.offset as int),
{
    let prompt = trim_str(params.prompt.as_str());
    if prompt.as_str().is_empty() {
        return Err(InlineError::EmptyPrompt);
    }
    match validate_offset(params.content.as_str(), params.offset) {
        Ok(()) => Ok(()),
        Err(e) => Err(InlineError::Offset(e)),
    }
}

/// A placeholder proposal to store for one anchor of a scanned file.
#[derive(Debug, Clone)]
pub struct PrefetchEntry {
    /// First byte of the anchor.
    pub start: usize,
    /// End byte of the anchor.
    pub end: usize,
    /// Content hash of the anchor's region.
    pub hash: String,
    /// The placeholder snippet.
    pub snippet: String,
    /// The label of the anchor's kind.
    pub label: String,
}

/// What a prefetch stores for anchor `a` of a parsed file.
pub open spec fn prefetch_ok(root: SyntaxNode, lang: SupportedLanguage, a: AnchorView, e: PrefetchEntry) -> bool {
    &&& e.start == a.start
    &&& e.end == a.end
    &&& e.hash@ == content_hash(region_text(root, lang, a))
    &&& e.snippet@ == snippet_spec(lang, comment_prefix_spec(lang), a.kind, a.context)
    &&& e.label@ == label_spec(a.kind)
}

/// The line comment marker of a language.
pub open spec fn comment_prefix_spec(lang: SupportedLanguage) -> Seq<char> {
    if lang == SupportedLanguage::Python {
        "#"@
    } else {
        "//"@
    }
}

/// The placeholder proposals a prefetch stores for a parsed file, one per
/// anchor, in anchor order.
pub fn prefetch_entries(root: &SyntaxNode, lang: SupportedLanguage, file: &str) -> (r: Vec<PrefetchEntry>)
    ensures
        r@.len() == anchors_in(*root, lang).len(),
        forall|i: int| 0 <= i < r@.len() ==> prefetch_ok(*root, lang, anchors_in(*root, lang)[i], #[trigger] r@[i]),
{
    let regions = regions_for_anchors(root, lang, file);
    let ghost av = anchors_in(*root, lang);
    let prefix = lang.line_comment_prefix();
    let mut out: Vec<PrefetchEntry> = Vec::new();
    let mut i: usize = 0;
    while i < regions.len()
        invariant
            regions@.len() == av.len(),
            av == anchors_in(*root, lang),
            forall|j: int| 0 <= j < regions@.len() ==> region_of(*root, lang, file@, av[j], #[trigger] regions@[j]),
            prefix@ == comment_prefix_spec(lang),
            i <= regions@.len(),
            out@.len() == i,
            forall|j: int| 0 <= j < i ==> prefetch_ok(*root, lang, av[j], #[trigger] out@[j]),
        decreases regions@.len() - i,
    {
        let region = &regions[i];
        assert(region_of(*root, lang, file@, av[i as int], regions@[i as int]));
        let snippet = snippet_for_anchor(lang, prefix, region.anchor.kind, region.anchor.context.as_str());
        out.push(PrefetchEntry {
            start: region.start,
            end: region.end,
            hash: region.content_hash.clone(),
            snippet,
            label: owned(label_for_anchor(region.anchor.kind)),
        });
        i = i + 1;
    }
    out
}

/// The prompt of a background inline refresh when the request has none.
pub const DEFAULT_REFRESH_PROMPT: &'static str = "Complete the code at the cursor with the smallest useful insertion.";

/// The request's prompt, or the default one.
pub open spec fn prompt_or_default(prompt: Option<&str>) -> Seq<char> {
    match prompt {
        Some(p) => p@,
        None => DEFAULT_REFRESH_PROMPT@,
    }
}

/// The prompt a background refresh runs with: the request's prompt (or the
/// default one), trimmed; none when that is blank.
pub fn refresh_prompt(prompt: Option<&str>) -> (r: Option<String>)
    ensures
        (match r {
            Some(t) => t@ == trim(prompt_or_default(prompt)) && t@.len() > 0,
            None => trim(prompt_or_default(prompt)).len() == 0,
        }),
{
    let p = match prompt {
        Some(p) => p,
        None => DEFAULT_REFRESH_PROMPT,
    };
    let t = trim_str(p);
    assert(t@ == trim(p@));
    if t.as_str().is_empty() {
        assert(t@.len() == 0);
        None
    } else {
        Some(t)
    }
}

/// The first of `anchors` whose region's context holds `offset`.
pub open spec fn first_region_at(
    root: SyntaxNode,
    lang: SupportedLanguage,
    anchors: Seq<AnchorView>,
    offset: int,
) -> Option<AnchorView>
    decreases anchors.len(),
{
    if anchors.len() == 0 {
        None
    } else {
        let a = anchors[0];
        let c = region_context(root, lang, a);
        if c.0 <= offset <= c.1 {
            Some(a)
        } else {
            first_region_at(root, lang, anchors.drop_first(), offset)
        }
    }
}

/// The region a background refresh caches its result under: the first
/// anchor region whose context holds the cursor, else the function around
/// it, else none.
pub open spec fn refresh_region_spec(root: SyntaxNode, lang: SupportedLanguage, offset: int) -> Option<
    (usize, usize, Seq<char>),
> {
    match first_region_at(root, lang, anchors_in(root, lang), offset) {
        Some(a) => Some((a.start, a.end, region_text(root, lang, a))),
        None => match enclosing_function_spec(root, offset, lang) {
            Some(f) => Some((f.start, f.end, f.text@)),
            None => None,
        },
    }
}

/// The region a background refresh caches its result under.
pub fn stable_refresh_region(root: &SyntaxNode, lang: SupportedLanguage, offset: usize) -> (r: Option<
    (usize, usize, String),
>)
    ensures
        (match (r, refresh_region_spec(*root, lang, offset as int)) {
            (Some((s, e, t)), Some((s2, e2, t2))) => s == s2 && e == e2 && t@ == t2,
            (None, None) => true,
            _ => false,
        }),
{
    let regions = regions_for_anchors(root, lang, "");
    let ghost av = anchors_in(*root, lang);
    let mut i: usize = 0;
    assert(av.skip(0) =~= av);
    while i < regions.len()
        invariant
            regions@.len() == av.len(),
            av == anchors_in(*root, lang),
            forall|j: int| 0 <= j < regions@.len() ==> region_of(*root, lang, ""@, av[j], #[trigger] regions@[j]),
            i <= regions@.len(),
            first_region_at(*root, lang, av, offset as int) == first_region_at(*root, lang, av.skip(i as int), offset as int),
        decreases regions@.len() - i,
    {
        let region = &regions[i];
        assert(region_of(*root, lang, ""@, av[i as int], regions@[i as int]));
        assert(av.skip(i as int)[0] == av[i as int]);
        assert(av.skip(i as int).drop_first() =~= av.skip(i + 1));
        if region.context_start <= offset && offset <= region.context_end {
            return Some((region.start, region.end, region.text.clone()));
        }
        i = i + 1;
    }
    match enclosing_function(root, offset, lang) {
        Some(f) => Some((f.start, f.end, f.text.clone())),
        None => None,
    }
}

/// The key that deduplicates background refreshes: the file, the region's
/// range and hash, the model, the effort and the prompt, separated by NUL.
pub open spec fn refresh_key_spec(
    file: Seq<char>,
    start: usize,
    end: usize,
    text: Seq<char>,
    model: Option<Seq<char>>,
    effort: Option<Seq<char>>,
    prompt: Seq<char>,
) -> Seq<char> {
    file + seq!['\0'] + decimal(start as nat) + seq!['\0'] + decimal(end as nat) + seq!['\0'] + content_hash(text)
        + seq!['\0'] + (match model {
        Some(m) => m,
        None => Seq::empty(),
    }) + seq!['\0'] + (match effort {
        Some(e) => e,
        None => Seq::empty(),
    }) + seq!['\0'] + prompt
}

/// The deduplication key of a background refresh at `offset`; without a
/// stable region it is keyed by the empty text at the cursor.
pub fn inline_refresh_key(
    file: &str,
    region: &Option<(usize, usize, String)>,
    offset: usize,
    prompt: &str,
    model: Option<&str>,
    effort: Option<&str>,
) -> (r: String)
    ensures
        r@ == (match region {
            Some((s, e, t)) => refresh_key_spec(file@, *s, *e, t@, opt_str(model), opt_str(effort), prompt@),
            None => refresh_key_spec(file@, offset, offset, Seq::empty(), opt_str(model), opt_str(effort), prompt@),
        }),
{
    let (start, end, hash) = match region {
        Some((s, e, t)) => (*s, *e, compute_hash(t.as_str())),
        None => (offset, offset, compute_hash("")),
    };
    proof {
        reveal_strlit("");
    }
    let mut r = owned(file);
    r.push('\0');
    r.push_str(decimal_string(start as u64).as_str());
    r.push('\0');
    r.push_str(decimal_string(end as u64).as_str());
    r.push('\0');
    r.push_str(hash.as_str());
    r.push('\0');
    match model {
        Some(m) => r.push_str(m),
        None => {},
    }
    r.push('\0');
    match effort {
        Some(e) => r.push_str(e),
        None => {},
    }
    r.push('\0');
    r.push_str(prompt);
    proof {
        assert(r@ =~= (match region {
            Some((s, e, t)) => refresh_key_spec(file@, *s, *e, t@, opt_str(model), opt_str(effort), prompt@),
            None => refresh_key_spec(file@, offset, offset, Seq::empty(), opt_str(model), opt_str(effort), prompt@),
        }));
    }
    r
}

/// With a non-empty prefix, every suggestion a completion returns mentions
/// the prefix in its label or its text.
pub proof fn law_prefix_filter_sound(v: Seq<Shown>, p: Seq<char>)
    requires
        p.len() > 0,
    ensures
        forall|i: int| 0 <= i < filtered(v, Some(p)).len() ==> shows(#[trigger] filtered(v, Some(p))[i], p),
{
    assert forall|i: int| 0 <= i < filtered(v, Some(p)).len() implies shows(#[trigger] filtered(v, Some(p))[i], p) by {
        v.lemma_filter_pred(|x: Shown| shows(x, p), i);
    }
}

/// Proposals cached for the node at the cursor win: when there are any, the
/// completion offers exactly them, marked `cached`.
pub proof fn law_node_proposals_first(node: Seq<Proposal>, regions: Seq<Seq<Proposal>>, function: Seq<Proposal>)
    requires
        node.len() > 0,
    ensures
        merged(node, regions, function) == offered(node, "cached"@),
{
}

/// A cursor offset clamped to the end of the buffer.
pub fn params_offset_saturating(content: &str, offset: usize) -> (r: usize)
    ensures
        r == (if offset <= content.spec_bytes().len() {
            offset as int
        } else {
            content.spec_bytes().len() as int
        }),
{
    let n = content.as_bytes().len();
    if offset <= n {
        offset
    } else {
        n
    }
}

/// Check a live-buffer cursor: it must lie within the buffer, on a
/// character boundary.
pub fn validate_live_buffer(offset: usize, content: &str) -> (r: Result<(), OffsetError>)
    ensures
        r == offset_check(content@, offset as int),
{
    validate_offset(content, offset)
}

} // verus!
