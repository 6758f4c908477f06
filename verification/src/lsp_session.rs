//! The editor-protocol session: the documents an editor has open, what each
//! message from the editor calls for, the messages written back, and the
//! framing of messages on the wire. Reading the wire, asking the daemon for
//! completions and reading files are the caller's part.

use vstd::prelude::*;

use crate::json::{json_len_at, json_quote, json_str_at, json_u64_at, json_value_at, len_at, quote, str_at, u64_at, value_at};
use crate::daemon_lock::is_digit;
use crate::requests::{parse_usize, signless, usize_spec};
use crate::rpc::CompletionSuggestion;
use crate::text::{decimal, decimal_string, opt_chars, owned, str_eq};

verus! {

/// The documents of `entries`, the later entry of a URI winning.
pub open spec fn doc_map(entries: Seq<(Seq<char>, Seq<char>)>) -> Map<Seq<char>, Seq<char>>
    decreases entries.len(),
{
    if entries.len() == 0 {
        Map::empty()
    } else {
        doc_map(entries.drop_last()).insert(entries.last().0, entries.last().1)
    }
}

/// The text of each entry.
pub open spec fn entry_views(entries: Seq<(String, String)>) -> Seq<(Seq<char>, Seq<char>)> {
    entries.map_values(|e: (String, String)| (e.0@, e.1@))
}

/// Whether no URI occurs twice.
pub open spec fn distinct_keys(s: Seq<(Seq<char>, Seq<char>)>) -> bool {
    forall|i: int, j: int| 0 <= i < j < s.len() ==> (#[trigger] s[i]).0 != (#[trigger] s[j]).0
}

/// The open documents of an editor session, by URI.
#[derive(Debug, Clone)]
pub struct LspDocuments {
    entries: Vec<(String, String)>,
}

impl View for LspDocuments {
    type V = Map<Seq<char>, Seq<char>>;

    closed spec fn view(&self) -> Map<Seq<char>, Seq<char>> {
        doc_map(entry_views(self.entries@))
    }
}

proof fn lemma_doc_map_has(s: Seq<(Seq<char>, Seq<char>)>, k: Seq<char>)
    requires
        distinct_keys(s),
    ensures
        (exists|i: int| 0 <= i < s.len() && s[i].0 == k) <==> doc_map(s).dom().contains(k),
        forall|i: int| 0 <= i < s.len() && s[i].0 == k ==> doc_map(s)[k] == s[i].1,
    decreases s.len(),
{
    if s.len() > 0 {
        let t = s.drop_last();
        assert(distinct_keys(t));
        lemma_doc_map_has(t, k);
        if s.last().0 != k {
            assert forall|i: int| 0 <= i < t.len() && t[i].0 == k implies 0 <= i < s.len() && s[i].0 == k by {}
            if exists|i: int| 0 <= i < s.len() && s[i].0 == k {
                let i = choose|i: int| 0 <= i < s.len() && s[i].0 == k;
                assert(i < t.len());
                assert(t[i].0 == k);
            }
        } else {
            assert(s[s.len() - 1].0 == k);
            assert forall|i: int| 0 <= i < s.len() && s[i].0 == k implies doc_map(s)[k] == s[i].1 by {
                if i < s.len() - 1 {
                    assert(s[i].0 == s[s.len() - 1].0);
                }
            }
        }
    }
}

proof fn lemma_doc_map_update(s: Seq<(Seq<char>, Seq<char>)>, i: int, v: Seq<char>)
    requires
        distinct_keys(s),
        0 <= i < s.len(),
    ensures
        doc_map(s.update(i, (s[i].0, v))) == doc_map(s).insert(s[i].0, v),
    decreases s.len(),
{
    let u = s.update(i, (s[i].0, v));
    if i == s.len() - 1 {
        assert(u.drop_last() =~= s.drop_last());
        assert(doc_map(u) =~= doc_map(s).insert(s[i].0, v));
    } else {
        let t = s.drop_last();
        assert(distinct_keys(t));
        assert(u.drop_last() =~= t.update(i, (t[i].0, v)));
        lemma_doc_map_update(t, i, v);
        assert(s.last().0 != s[i].0);
        assert(doc_map(u) =~= doc_map(s).insert(s[i].0, v));
    }
}

impl LspDocuments {
    /// Whether no URI occurs twice.
    pub closed spec fn wf(&self) -> bool {
        distinct_keys(entry_views(self.entries@))
    }

    /// No open documents.
    pub fn new() -> (r: Self)
        ensures
            r.wf(),
            r@ == Map::<Seq<char>, Seq<char>>::empty(),
    {
        let r = LspDocuments { entries: Vec::new() };
        assert(entry_views(r.entries@) =~= Seq::<(Seq<char>, Seq<char>)>::empty());
        r
    }

    /// Record `text` as the document at `uri`, replacing what was there.
    pub fn insert(&mut self, uri: String, text: String)
        requires
            old(self).wf(),
        ensures
            final(self).wf(),
            final(self)@ == old(self)@.insert(uri@, text@),
    {
        let ghost s = entry_views(self.entries@);
        let mut i: usize = 0;
        while i < self.entries.len()
            invariant
                s == entry_views(self.entries@),
                s == entry_views(old(self).entries@),
                distinct_keys(s),
                i <= self.entries@.len(),
                forall|j: int| 0 <= j < i ==> (#[trigger] s[j]).0 != uri@,
            decreases self.entries@.len() - i,
        {
            if str_eq(self.entries[i].0.as_str(), uri.as_str()) {
                assert(s[i as int] == (self.entries@[i as int].0@, self.entries@[i as int].1@));
                let key = self.entries[i].0.clone();
                let ghost tv = text@;
                assert(s[i as int].0 == uri@);
                self.entries.set(i, (key, text));
                proof {
                    lemma_doc_map_update(s, i as int, tv);
                    assert(entry_views(self.entries@) =~= s.update(i as int, (s[i as int].0, tv)));
                    assert forall|a: int, b: int|
                        0 <= a < b < entry_views(self.entries@).len() implies (#[trigger] entry_views(
                        self.entries@,
                    )[a]).0 != (#[trigger] entry_views(self.entries@)[b]).0 by {
                        assert(s[a].0 != s[b].0);
                    }
                }
                return;
            }
            i = i + 1;
        }
        let ghost before = self.entries@;
        self.entries.push((uri, text));
        proof {
            assert(entry_views(self.entries@) =~= s.push((uri@, text@)));
            assert(entry_views(self.entries@).drop_last() =~= s);
            assert forall|a: int, b: int|
                0 <= a < b < entry_views(self.entries@).len() implies (#[trigger] entry_views(
                self.entries@,
            )[a]).0 != (#[trigger] entry_views(self.entries@)[b]).0 by {
                if b < s.len() {
                    assert(s[a].0 != s[b].0);
                }
            }
        }
    }

    /// The document at `uri`, if one is open.
    pub fn get(&self, uri: &str) -> (r: Option<String>)
        requires
            self.wf(),
        ensures
            (match r {
                Some(t) => self@.dom().contains(uri@) && self@[uri@] == t@,
                None => !self@.dom().contains(uri@),
            }),
    {
        let ghost s = entry_views(self.entries@);
        let mut i: usize = 0;
        while i < self.entries.len()
            invariant
                s == entry_views(self.entries@),
                distinct_keys(s),
                i <= self.entries@.len(),
                forall|j: int| 0 <= j < i ==> (#[trigger] s[j]).0 != uri@,
            decreases self.entries@.len() - i,
        {
            assert(s[i as int] == (self.entries@[i as int].0@, self.entries@[i as int].1@));
            if str_eq(self.entries[i].0.as_str(), uri) {
                proof {
                    lemma_doc_map_has(s, uri@);
                    assert(s[i as int].0 == uri@);
                }
                return Some(self.entries[i].1.clone());
            }
            i = i + 1;
        }
        proof {
            lemma_doc_map_has(s, uri@);
        }
        None
    }
}

/// A JSON-RPC success response to request `id` (JSON text) with `result`.
pub open spec fn success_text(id: Seq<char>, result: Seq<char>) -> Seq<char> {
    "{\"jsonrpc\":\"2.0\",\"id\":"@ + id + ",\"result\":"@ + result + "}"@
}

/// A signed integer in decimal.
pub open spec fn signed_decimal(n: int) -> Seq<char> {
    if n < 0 {
        "-"@ + decimal((-n) as nat)
    } else {
        decimal(n as nat)
    }
}

/// A JSON-RPC error response to request `id` with `code` and `message`.
pub open spec fn error_text(id: Seq<char>, code: i32, message: Seq<char>) -> Seq<char> {
    "{\"jsonrpc\":\"2.0\",\"id\":"@ + id + ",\"error\":{\"code\":"@ + signed_decimal(code as int)
        + ",\"message\":"@ + json_quote(message) + "}}"@
}

/// A success response to request `id`.
pub fn success_response(id: &str, result: &str) -> (r: String)
    ensures
        r@ == success_text(id@, result@),
{
    let mut r = owned("{\"jsonrpc\":\"2.0\",\"id\":");
    r.push_str(id);
    r.push_str(",\"result\":");
    r.push_str(result);
    r.push_str("}");
    r
}

/// An error response to request `id`.
pub fn error_response(id: &str, code: i32, message: &str) -> (r: String)
    ensures
        r@ == error_text(id@, code, message@),
{
    let mut r = owned("{\"jsonrpc\":\"2.0\",\"id\":");
    r.push_str(id);
    r.push_str(",\"error\":{\"code\":");
    if code < 0 {
        r.push_str("-");
        let magnitude: u64 = if code == i32::MIN {
            2147483648u64
        } else {
            (-code) as u64
        };
        r.push_str(decimal_string(magnitude).as_str());
    } else {
        r.push_str(decimal_string(code as u64).as_str());
    }
    r.push_str(",\"message\":");
    r.push_str(quote(message).as_str());
    r.push_str("}}");
    r
}

/// The `initialize` result: full-text document sync, completion triggered
/// by `.`, `:` and `_`, and this server's name and `version`.
pub open spec fn initialize_text(version: Seq<char>) -> Seq<char> {
    "{\"capabilities\":{\"textDocumentSync\":1,\"completionProvider\":{\"triggerCharacters\":[\".\",\":\",\"_\"]}},\"serverInfo\":{\"name\":\"harnessd\",\"version\":"@
        + json_quote(version) + "}}"@
}

/// The `initialize` result announcing this server at `version`.
pub fn initialize_result(version: &str) -> (r: String)
    ensures
        r@ == initialize_text(version@),
{
    let mut r = owned(
        "{\"capabilities\":{\"textDocumentSync\":1,\"completionProvider\":{\"triggerCharacters\":[\".\",\":\",\"_\"]}},\"serverInfo\":{\"name\":\"harnessd\",\"version\":",
    );
    r.push_str(quote(version).as_str());
    r.push_str("}}");
    r
}

/// An optional member `,"key":value` of a completion item.
pub open spec fn opt_member(key: Seq<char>, v: Option<Seq<char>>) -> Seq<char> {
    match v {
        Some(t) => ","@ + json_quote(key) + ":"@ + json_quote(t),
        None => Seq::empty(),
    }
}

/// The completion item of a suggestion: its label, kind 15 (snippet), its
/// text to insert, and its detail and documentation when it has them.
pub open spec fn item_text(s: CompletionSuggestion) -> Seq<char> {
    "{\"label\":"@ + json_quote(s.label@) + ",\"kind\":15,\"insertText\":"@ + json_quote(s.insert_text@)
        + opt_member("detail"@, opt_chars(s.detail)) + opt_member(
        "documentation"@,
        opt_chars(s.documentation),
    ) + "}"@
}

/// The completion item of one suggestion.
fn completion_item(s: &CompletionSuggestion) -> (r: String)
    ensures
        r@ == item_text(*s),
{
    let mut r = owned("{\"label\":");
    r.push_str(quote(s.label.as_str()).as_str());
    r.push_str(",\"kind\":15,\"insertText\":");
    r.push_str(quote(s.insert_text.as_str()).as_str());
    match &s.detail {
        Some(d) => {
            r.push_str(",");
            r.push_str(quote("detail").as_str());
            r.push_str(":");
            r.push_str(quote(d.as_str()).as_str());
        },
        None => {},
    }
    match &s.documentation {
        Some(d) => {
            r.push_str(",");
            r.push_str(quote("documentation").as_str());
            r.push_str(":");
            r.push_str(quote(d.as_str()).as_str());
        },
        None => {},
    }
    r.push_str("}");
    r
}

/// Convert daemon completion suggestions into LSP completion items, one
/// JSON object each, in order.
pub fn completion_items_from_suggestions(suggestions: &[CompletionSuggestion]) -> (r: Vec<String>)
    ensures
        r@.len() == suggestions@.len(),
        forall|i: int| 0 <= i < r@.len() ==> (#[trigger] r@[i])@ == item_text(suggestions@[i]),
{
    let mut out: Vec<String> = Vec::new();
    let mut i: usize = 0;
    while i < suggestions.len()
        invariant
            i <= suggestions@.len(),
            out@.len() == i,
            forall|j: int| 0 <= j < i ==> (#[trigger] out@[j])@ == item_text(suggestions@[j]),
        decreases suggestions@.len() - i,
    {
        out.push(completion_item(&suggestions[i]));
        i = i + 1;
    }
    out
}

/// The JSON array of the texts `items`.
pub open spec fn array_text(items: Seq<Seq<char>>) -> Seq<char>
    decreases items.len(),
{
    if items.len() == 0 {
        "[]"@
    } else if items.len() == 1 {
        "["@ + items[0] + "]"@
    } else {
        array_text(items.drop_last()).drop_last() + ","@ + items.last() + "]"@
    }
}

/// The text of each string.
pub open spec fn texts(v: Seq<String>) -> Seq<Seq<char>> {
    v.map_values(|s: String| s@)
}

/// The JSON array of JSON texts `items`.
pub fn json_array(items: &Vec<String>) -> (r: String)
    ensures
        r@ == array_text(texts(items@)),
{
    let ghost t = texts(items@);
    let mut r = owned("[");
    let mut i: usize = 0;
    proof {
        reveal_strlit("[");
    }
    while i < items.len()
        invariant
            t == texts(items@),
            i <= items@.len(),
            i == 0 ==> r@ == "["@,
            i > 0 ==> r@ + "]"@ == array_text(t.take(i as int)),
        decreases items@.len() - i,
    {
        assert(t.take(i + 1).drop_last() =~= t.take(i as int));
        assert(t[i as int] == items@[i as int]@);
        if i > 0 {
            proof {
                reveal_strlit("]");
                assert((r@ + "]"@).drop_last() =~= r@);
            }
            r.push_str(",");
        }
        r.push_str(items[i].as_str());
        i = i + 1;
        proof {
            reveal_strlit("]");
            reveal_strlit(",");
            reveal_strlit("[");
        }
    }
    let ghost before = r@;
    r.push_str("]");
    proof {
        reveal_strlit("]");
        reveal_strlit("[");
        reveal_strlit("[]");
        assert(t.take(items@.len() as int) =~= t);
        if items@.len() == 0 {
            assert(r@ =~= "[]"@);
        } else {
            assert(r@ =~= before + "]"@);
        }
    }
    r
}

/// What a message from the editor calls for.
#[derive(Debug, Clone, PartialEq, Eq)]
pub enum LspAction {
    /// Write this message to the editor.
    Reply(String),
    /// Warm the proposal cache for the document at this URI.
    Prefetch(String),
    /// Answer completion request `id` (JSON text) for the document at `uri`,
    /// at zero-based `line` and UTF-16 `character`.
    Complete { id: String, uri: String, line: u64, character: u64 },
    /// Nothing to do.
    Nothing,
}

/// An action, as text.
pub enum LspActionView {
    /// Reply.
    Reply(Seq<char>),
    /// Prefetch.
    Prefetch(Seq<char>),
    /// Complete.
    Complete { id: Seq<char>, uri: Seq<char>, line: u64, character: u64 },
    /// Nothing.
    Nothing,
}

impl View for LspAction {
    type V = LspActionView;

    open spec fn view(&self) -> LspActionView {
        match self {
            LspAction::Reply(m) => LspActionView::Reply(m@),
            LspAction::Prefetch(u) => LspActionView::Prefetch(u@),
            LspAction::Complete { id, uri, line, character } => LspActionView::Complete {
                id: id@,
                uri: uri@,
                line: *line,
                character: *character,
            },
            LspAction::Nothing => LspActionView::Nothing,
        }
    }
}

/// What a completion request calls for: an error reply naming the first
/// missing parameter, else the completion to compute.
pub open spec fn completion_step(m: Seq<char>, id: Seq<char>) -> LspActionView {
    if json_value_at(m, "/params"@) is None {
        LspActionView::Reply(error_text(id, -32000i32, "completion params are required"@))
    } else if json_str_at(m, "/params/textDocument/uri"@) is None {
        LspActionView::Reply(error_text(id, -32000i32, "completion textDocument.uri is required"@))
    } else if json_u64_at(m, "/params/position/line"@) is None {
        LspActionView::Reply(error_text(id, -32000i32, "completion position.line is required"@))
    } else if json_u64_at(m, "/params/position/character"@) is None {
        LspActionView::Reply(error_text(id, -32000i32, "completion position.character is required"@))
    } else {
        LspActionView::Complete {
            id,
            uri: json_str_at(m, "/params/textDocument/uri"@)->0,
            line: json_u64_at(m, "/params/position/line"@)->0,
            character: json_u64_at(m, "/params/position/character"@)->0,
        }
    }
}

/// The text of the last content change of a `didChange` message.
pub open spec fn last_change(m: Seq<char>) -> Option<Seq<char>> {
    match json_len_at(m, "/params/contentChanges"@) {
        Some(n) => if n > 0 {
            json_str_at(m, "/params/contentChanges/"@ + decimal((n - 1) as nat) + "/text"@)
        } else {
            None
        },
        None => None,
    }
}

/// The documents after a message, and what it calls for.
pub open spec fn lsp_next(
    docs: Map<Seq<char>, Seq<char>>,
    version: Seq<char>,
    m: Seq<char>,
) -> (Map<Seq<char>, Seq<char>>, LspActionView) {
    let id = json_value_at(m, "/id"@);
    let uri = json_str_at(m, "/params/textDocument/uri"@);
    match json_str_at(m, "/method"@) {
        None => (docs, LspActionView::Nothing),
        Some(method) => if method == "initialize"@ {
            (
                docs,
                match id {
                    Some(i) => LspActionView::Reply(success_text(i, initialize_text(version))),
                    None => LspActionView::Nothing,
                },
            )
        } else if method == "shutdown"@ {
            (
                docs,
                match id {
                    Some(i) => LspActionView::Reply(success_text(i, "null"@)),
                    None => LspActionView::Nothing,
                },
            )
        } else if method == "textDocument/didOpen"@ {
            match (uri, json_str_at(m, "/params/textDocument/text"@)) {
                (Some(u), Some(t)) => (docs.insert(u, t), LspActionView::Prefetch(u)),
                _ => (docs, LspActionView::Nothing),
            }
        } else if method == "textDocument/didChange"@ {
            match (uri, last_change(m)) {
                (Some(u), Some(t)) => (docs.insert(u, t), LspActionView::Nothing),
                _ => (docs, LspActionView::Nothing),
            }
        } else if method == "textDocument/didSave"@ {
            (
                docs,
                match uri {
                    Some(u) => LspActionView::Prefetch(u),
                    None => LspActionView::Nothing,
                },
            )
        } else if method == "textDocument/completion"@ {
            (
                docs,
                match id {
                    Some(i) => completion_step(m, i),
                    None => LspActionView::Nothing,
                },
            )
        } else {
            (
                docs,
                match id {
                    Some(i) => LspActionView::Reply(error_text(i, -32601i32, "Method not found: "@ + method)),
                    None => LspActionView::Nothing,
                },
            )
        },
    }
}

/// The state of an editor session: its open documents and the version this
/// server announces.
#[derive(Debug, Clone)]
pub struct LspSession {
    /// Open documents by URI.
    pub documents: LspDocuments,
    /// The version announced in the `initialize` result.
    pub version: String,
}

/// Whether an optional string spells `lit`.
fn opt_is(o: &Option<String>, lit: &str) -> (b: bool)
    ensures
        b == (opt_chars(*o) == Some(lit@)),
{
    match o {
        Some(s) => str_eq(s.as_str(), lit),
        None => false,
    }
}

impl LspSession {
    /// A session with no open documents, announcing `version`.
    pub fn new(version: &str) -> (r: Self)
        ensures
            r.documents.wf(),
            r.documents@ == Map::<Seq<char>, Seq<char>>::empty(),
            r.version@ == version@,
    {
        LspSession { documents: LspDocuments::new(), version: owned(version) }
    }

    /// The completion step of a request with JSON id `id`.
    fn completion(message: &str, id: &str) -> (r: LspAction)
        ensures
            r@ == completion_step(message@, id@),
    {
        if value_at(message, "/params").is_none() {
            return LspAction::Reply(error_response(id, -32000, "completion params are required"));
        }
        let uri = match str_at(message, "/params/textDocument/uri") {
            Some(u) => u,
            None => {
                return LspAction::Reply(error_response(id, -32000, "completion textDocument.uri is required"));
            },
        };
        let line = match u64_at(message, "/params/position/line") {
            Some(l) => l,
            None => {
                return LspAction::Reply(error_response(id, -32000, "completion position.line is required"));
            },
        };
        let character = match u64_at(message, "/params/position/character") {
            Some(c) => c,
            None => {
                return LspAction::Reply(
                    error_response(id, -32000, "completion position.character is required"),
                );
            },
        };
        LspAction::Complete { id: owned(id), uri, line, character }
    }

    /// The text of the last content change of a `didChange` message.
    fn last_change_of(message: &str) -> (r: Option<String>)
        ensures
            opt_chars(r) == last_change(message@),
    {
        match len_at(message, "/params/contentChanges") {
            Some(n) => {
                if n > 0 {
                    let mut p = owned("/params/contentChanges/");
                    p.push_str(decimal_string((n - 1) as u64).as_str());
                    p.push_str("/text");
                    str_at(message, p.as_str())
                } else {
                    None
                }
            },
            None => None,
        }
    }

    /// Handle one message (JSON text) from the editor.
    pub fn handle_json_message(&mut self, message: &str) -> (r: LspAction)
        requires
            old(self).documents.wf(),
        ensures
            final(self).documents.wf(),
            final(self).version == old(self).version,
            (final(self).documents@, r@) == lsp_next(old(self).documents@, old(self).version@, message@),
    {
        let method = str_at(message, "/method");
        let id = value_at(message, "/id");
        let uri = str_at(message, "/params/textDocument/uri");
        if method.is_none() {
            return LspAction::Nothing;
        }
        if opt_is(&method, "initialize") {
            return match id {
                Some(i) => LspAction::Reply(
                    success_response(i.as_str(), initialize_result(self.version.as_str()).as_str()),
                ),
                None => LspAction::Nothing,
            };
        }
        if opt_is(&method, "shutdown") {
            return match id {
                Some(i) => LspAction::Reply(success_response(i.as_str(), "null")),
                None => LspAction::Nothing,
            };
        }
        if opt_is(&method, "textDocument/didOpen") {
            let text = str_at(message, "/params/textDocument/text");
            return match (uri, text) {
                (Some(u), Some(t)) => {
                    let reply = u.clone();
                    self.documents.insert(u, t);
                    LspAction::Prefetch(reply)
                },
                _ => LspAction::Nothing,
            };
        }
        if opt_is(&method, "textDocument/didChange") {
            let text = Self::last_change_of(message);
            return match (uri, text) {
                (Some(u), Some(t)) => {
                    self.documents.insert(u, t);
                    LspAction::Nothing
                },
                _ => LspAction::Nothing,
            };
        }
        if opt_is(&method, "textDocument/didSave") {
            return match uri {
                Some(u) => LspAction::Prefetch(u),
                None => LspAction::Nothing,
            };
        }
        if opt_is(&method, "textDocument/completion") {
            return match id {
                Some(i) => Self::completion(message, i.as_str()),
                None => LspAction::Nothing,
            };
        }
        match (id, method) {
            (Some(i), Some(m)) => {
                let mut text = owned("Method not found: ");
                text.push_str(m.as_str());
                LspAction::Reply(error_response(i.as_str(), -32601, text.as_str()))
            },
            _ => LspAction::Nothing,
        }
    }
}

/// How reading a byte count fails, as `str::parse::<usize>` reports it.
#[derive(Debug, Clone, Copy, PartialEq, Eq, Structural)]
pub enum CountError {
    /// The text is empty.
    Empty,
    /// A character is not a digit (a lone `+` counts as one).
    InvalidDigit,
    /// The number does not fit in a `usize`.
    Overflow,
}

/// The value of a decimal digit.
pub open spec fn digit_of(c: char) -> nat {
    ((c as u32) - 48) as nat
}

/// Reading the characters `d` left to right onto the value `acc`: the first
/// character that is not a digit, or the first digit that takes the value
/// past `usize::MAX`, is the failure; none when all are digits and fit.
pub open spec fn scan_failure(d: Seq<char>, acc: nat) -> Option<CountError>
    decreases d.len(),
{
    if d.len() == 0 {
        None
    } else if !is_digit(d[0]) {
        Some(CountError::InvalidDigit)
    } else if acc * 10 + digit_of(d[0]) > usize::MAX {
        Some(CountError::Overflow)
    } else {
        scan_failure(d.drop_first(), acc * 10 + digit_of(d[0]))
    }
}

/// Why `v` is not a byte count: it is empty, or the digits after an
/// optional `+` overflow before any non-digit comes; else a digit is bad.
pub open spec fn count_failure(v: Seq<char>) -> CountError {
    if v.len() == 0 {
        CountError::Empty
    } else {
        match scan_failure(signless(v), 0) {
            Some(CountError::Overflow) => CountError::Overflow,
            _ => CountError::InvalidDigit,
        }
    }
}

/// Why `v` is not a byte count.
pub fn count_failure_of(v: &str) -> (r: CountError)
    ensures
        r == count_failure(v@),
{
    let cs = crate::text::chars_of(v);
    let len = cs.len();
    if len == 0 {
        return CountError::Empty;
    }
    let start: usize = if cs[0] == '+' {
        1
    } else {
        0
    };
    let ghost d = cs@.subrange(start as int, len as int);
    assert(d =~= signless(v@));
    let mut acc: usize = 0;
    let mut i: usize = start;
    assert(cs@.subrange(i as int, len as int) =~= d);
    while i < len
        invariant
            start <= i <= len,
            len == cs@.len(),
            cs@ == v@,
            d == signless(v@),
            scan_failure(d, 0) == scan_failure(cs@.subrange(i as int, len as int), acc as nat),
        decreases len - i,
    {
        let c = cs[i];
        let ghost rest = cs@.subrange(i as int, len as int);
        assert(rest[0] == c);
        assert(rest.drop_first() =~= cs@.subrange(i + 1, len as int));
        if !('0' <= c && c <= '9') {
            return CountError::InvalidDigit;
        }
        let digit = ((c as u32) - 48) as usize;
        assert(digit == digit_of(c));
        if acc > (usize::MAX - digit) / 10 {
            assert(acc * 10 + digit > usize::MAX) by (nonlinear_arith)
                requires
                    acc > (usize::MAX - digit) / 10,
                    digit <= 9,
            ;
            return CountError::Overflow;
        }
        assert(acc * 10 + digit <= usize::MAX) by (nonlinear_arith)
            requires
                acc <= (usize::MAX - digit) / 10,
                digit <= 9,
        ;
        acc = acc * 10 + digit;
        i = i + 1;
    }
    CountError::InvalidDigit
}

/// What `str::parse::<usize>` reports for each way a byte count fails.
pub open spec fn count_failure_text(e: CountError) -> Seq<char> {
    match e {
        CountError::Empty => "cannot parse integer from empty string"@,
        CountError::InvalidDigit => "invalid digit found in string"@,
        CountError::Overflow => "number too large to fit in target type"@,
    }
}

/// Why an LSP frame cannot be read.
#[derive(Debug, Clone, PartialEq, Eq)]
pub enum FrameError {
    /// A `Content-Length` header's value is not a byte count; the value.
    BadContentLength(String),
    /// The headers ended without a `Content-Length`.
    MissingContentLength,
}

impl FrameError {
    /// The message shown for this error: for a bad byte count, what
    /// `str::parse::<usize>` reports for its value.
    pub fn message(&self) -> (r: String)
        ensures
            r@ == (match self {
                FrameError::BadContentLength(v) => count_failure_text(count_failure(v@)),
                FrameError::MissingContentLength => "missing Content-Length header"@,
            }),
    {
        match self {
            FrameError::BadContentLength(v) => match count_failure_of(v.as_str()) {
                CountError::Empty => owned("cannot parse integer from empty string"),
                CountError::InvalidDigit => owned("invalid digit found in string"),
                CountError::Overflow => owned("number too large to fit in target type"),
            },
            FrameError::MissingContentLength => owned("missing Content-Length header"),
        }
    }
}

/// What a header line does.
#[derive(Debug, Clone, Copy, PartialEq, Eq, Structural)]
pub enum HeaderStep {
    /// The blank line: the body follows.
    End,
    /// Another header; the content length known so far.
    Continue(Option<usize>),
}

/// A header line without its trailing `\r` and `\n` characters.
pub open spec fn strip_eol(s: Seq<char>) -> Seq<char>
    decreases s.len(),
{
    if s.len() > 0 && (s.last() == '\r' || s.last() == '\n') {
        strip_eol(s.drop_last())
    } else {
        s
    }
}

/// The Content-Length header's name, with its colon.
pub open spec fn length_name() -> Seq<char> {
    "Content-Length:"@
}

/// What a header line gives, with `known` the length known before it: a
/// blank line ends the headers; a `Content-Length:` line sets the length
/// to its trimmed value, which must be a byte count (else that value is
/// refused); others change nothing.
pub open spec fn header_outcome(line: Seq<char>, known: Option<usize>) -> Result<HeaderStep, Seq<char>> {
    let h = strip_eol(line);
    if h.len() == 0 {
        Ok(HeaderStep::End)
    } else if h.len() >= 15 && h.take(15) == length_name() {
        match usize_spec(crate::text::trim(h.skip(15))) {
            Some(n) => Ok(HeaderStep::Continue(Some(n))),
            None => Err(crate::text::trim(h.skip(15))),
        }
    } else {
        Ok(HeaderStep::Continue(known))
    }
}

/// Read one header line of an LSP frame.
pub fn header_line(line: &str, known: Option<usize>) -> (r: Result<HeaderStep, FrameError>)
    ensures
        (match (r, header_outcome(line@, known)) {
            (Ok(a), Ok(b)) => a == b,
            (Err(FrameError::BadContentLength(v)), Err(w)) => v@ == w,
            _ => false,
        }),
{
    let cs = crate::text::chars_of(line);
    let mut n = cs.len();
    assert(cs@.take(n as int) =~= cs@);
    while n > 0 && (cs[n - 1] == '\r' || cs[n - 1] == '\n')
        invariant
            n <= cs@.len(),
            strip_eol(line@) == strip_eol(cs@.take(n as int)),
            cs@ == line@,
        decreases n,
    {
        assert(cs@.take(n as int).drop_last() =~= cs@.take(n - 1));
        n = n - 1;
    }
    let ghost h = cs@.take(n as int);
    assert(strip_eol(h) == h);
    if n == 0 {
        return Ok(HeaderStep::End);
    }
    let name = crate::text::chars_of("Content-Length:");
    proof {
        reveal_strlit("Content-Length:");
    }
    if n >= 15 && crate::text::chars_eq(&cs.as_slice()[0..15], name.as_slice()) {
        assert(cs@.subrange(0, 15) =~= h.take(15));
        let rest = crate::text::string_from_range(cs.as_slice(), 15, n);
        assert(cs@.subrange(15, n as int) =~= h.skip(15));
        let value = crate::text::trim_str(rest.as_str());
        return match parse_usize(value.as_str()) {
            Some(v) => Ok(HeaderStep::Continue(Some(v))),
            None => Err(FrameError::BadContentLength(value)),
        };
    }
    assert(!(h.len() >= 15 && h.take(15) == length_name())) by {
        if h.len() >= 15 && h.take(15) == length_name() {
            assert(cs@.subrange(0, 15) =~= h.take(15));
        }
    }
    Ok(HeaderStep::Continue(known))
}

/// The body length of a frame whose headers gave `known`.
pub fn frame_length(known: Option<usize>) -> (r: Result<usize, FrameError>)
    ensures
        (match known {
            Some(n) => r == Ok::<usize, FrameError>(n),
            None => r == Err::<usize, FrameError>(FrameError::MissingContentLength),
        }),
{
    match known {
        Some(n) => Ok(n),
        None => Err(FrameError::MissingContentLength),
    }
}

/// The header written before a frame body of `body_len` bytes.
pub fn frame_header(body_len: usize) -> (r: String)
    ensures
        r@ == "Content-Length: "@ + decimal(body_len as nat) + "\r\n\r\n"@,
{
    let mut r = owned("Content-Length: ");
    r.push_str(decimal_string(body_len as u64).as_str());
    r.push_str("\r\n\r\n");
    r
}

/// After an editor opens a document, the session reads back the text it
/// sent for that URI.
pub proof fn law_opened_document_reads_back(
    docs: Map<Seq<char>, Seq<char>>,
    version: Seq<char>,
    m: Seq<char>,
    uri: Seq<char>,
    text: Seq<char>,
)
    requires
        json_str_at(m, "/method"@) == Some("textDocument/didOpen"@),
        json_str_at(m, "/params/textDocument/uri"@) == Some(uri),
        json_str_at(m, "/params/textDocument/text"@) == Some(text),
    ensures
        lsp_next(docs, version, m).0.dom().contains(uri),
        lsp_next(docs, version, m).0[uri] == text,
        lsp_next(docs, version, m).1 == LspActionView::Prefetch(uri),
{
    reveal_strlit("initialize");
    reveal_strlit("shutdown");
    reveal_strlit("textDocument/didOpen");
    assert("textDocument/didOpen"@.len() != "initialize"@.len());
    assert("textDocument/didOpen"@.len() != "shutdown"@.len());
}

/// After an editor changes a document, the session reads back the last
/// change's text for that URI and keeps every other document as it was.
pub proof fn law_changed_document_reads_back(
    docs: Map<Seq<char>, Seq<char>>,
    version: Seq<char>,
    m: Seq<char>,
    uri: Seq<char>,
    text: Seq<char>,
    other: Seq<char>,
)
    requires
        json_str_at(m, "/method"@) == Some("textDocument/didChange"@),
        json_str_at(m, "/params/textDocument/uri"@) == Some(uri),
        last_change(m) == Some(text),
        other != uri,
    ensures
        lsp_next(docs, version, m).0[uri] == text,
        lsp_next(docs, version, m).0.dom().contains(other) == docs.dom().contains(other),
        docs.dom().contains(other) ==> lsp_next(docs, version, m).0[other] == docs[other],
{
    reveal_strlit("initialize");
    reveal_strlit("shutdown");
    reveal_strlit("textDocument/didOpen");
    reveal_strlit("textDocument/didChange");
    assert("textDocument/didChange"@.len() != "initialize"@.len());
    assert("textDocument/didChange"@.len() != "shutdown"@.len());
    assert("textDocument/didChange"@ != "textDocument/didOpen"@) by {
        assert("textDocument/didChange"@[16] != "textDocument/didOpen"@[16]);
    }
}

} // verus!
