//! The languages the parsers cover, the anchors found in source files, and
//! parsing with tree-sitter: one parser per supported language, and the copy
//! of a parsed tree into the plain syntax nodes that the anchor rules read.

use vstd::prelude::*;

use crate::cache::{compute_hash, content_hash};
use crate::paths::{extension, extension_of};
use crate::syntax::{SyntaxNode, anchor_views, anchors_in, enclosing_function_spec, node_at};
use crate::text::{byte_slice, chars_of, opt_chars, owned, str_eq, string_from_chars};
use vstd::string::StringSliceAdditionalSpecFns;
use vstd::utf8::{decode_utf8, encode_utf8, encode_utf8_decode_utf8, is_char_boundary};

verus! {

/// Types of anchors that can be detected.
#[derive(Debug, Clone, Copy, PartialEq, Eq, Structural)]
pub enum AnchorKind {
    /// A comment that mentions TODO.
    TodoComment,
    /// A comment that mentions FIXME.
    FixmeComment,
    /// A `todo!()` invocation.
    TodoMacro,
    /// An `unimplemented!()` invocation.
    UnimplementedMacro,
    /// A function whose body is empty braces.
    EmptyFunctionBody,
}

/// A code region identified as an anchor point.
#[derive(Debug, Clone)]
pub struct Anchor {
    /// First byte of the anchor in the source file.
    pub byte_start: usize,
    /// End byte of the anchor in the source file.
    pub byte_end: usize,
    /// Type of anchor.
    pub kind: AnchorKind,
    /// Contextual information (the comment or macro text, or the function name).
    pub context: String,
}

/// Languages backed by parsers in this daemon.
#[derive(Debug, Clone, Copy, PartialEq, Eq, Hash, Structural)]
pub enum SupportedLanguage {
    /// Rust.
    Rust,
    /// JavaScript.
    JavaScript,
    /// TypeScript.
    TypeScript,
    /// TypeScript with JSX.
    Tsx,
    /// Python.
    Python,
    /// Go.
    Go,
}

/// `s` with ASCII upper-case letters made lower case.
pub open spec fn ascii_lowercase(s: Seq<char>) -> Seq<char> {
    s.map_values(|c: char| if 'A' <= c && c <= 'Z' { ((c as u32) + 32) as char } else { c })
}

/// The language of a lower-case file extension.
pub open spec fn language_of_extension(e: Seq<char>) -> Option<SupportedLanguage> {
    if e == "rs"@ {
        Some(SupportedLanguage::Rust)
    } else if e == "js"@ || e == "mjs"@ || e == "cjs"@ || e == "jsx"@ {
        Some(SupportedLanguage::JavaScript)
    } else if e == "ts"@ {
        Some(SupportedLanguage::TypeScript)
    } else if e == "tsx"@ {
        Some(SupportedLanguage::Tsx)
    } else if e == "py"@ {
        Some(SupportedLanguage::Python)
    } else if e == "go"@ {
        Some(SupportedLanguage::Go)
    } else {
        None
    }
}

/// The language of a path: by its extension, in ASCII lower case.
pub open spec fn language_of_path(path: Seq<char>) -> Option<SupportedLanguage> {
    match extension(path) {
        Some(e) => language_of_extension(ascii_lowercase(e)),
        None => None,
    }
}

/// Whether `k` is a function node kind in a language's syntax trees.
pub open spec fn is_function_kind_spec(l: SupportedLanguage, k: Seq<char>) -> bool {
    match l {
        SupportedLanguage::Rust => k == "function_item"@ || k == "impl_item"@ || k
            == "method_definition"@,
        SupportedLanguage::JavaScript | SupportedLanguage::TypeScript | SupportedLanguage::Tsx => k
            == "function_declaration"@ || k == "function"@ || k == "method_definition"@ || k
            == "arrow_function"@,
        SupportedLanguage::Python => k == "function_definition"@,
        SupportedLanguage::Go => k == "function_declaration"@ || k == "method_declaration"@,
    }
}

/// The grammar's kinds of function nodes in a language, in order.
pub open spec fn function_kinds_spec(l: SupportedLanguage) -> Seq<Seq<char>> {
    match l {
        SupportedLanguage::Rust => seq!["function_item"@, "impl_item"@, "method_definition"@],
        SupportedLanguage::JavaScript | SupportedLanguage::TypeScript | SupportedLanguage::Tsx => seq![
            "function_declaration"@,
            "function"@,
            "method_definition"@,
            "arrow_function"@,
        ],
        SupportedLanguage::Python => seq!["function_definition"@],
        SupportedLanguage::Go => seq!["function_declaration"@, "method_declaration"@],
    }
}

impl SupportedLanguage {
    /// The node kinds that count as functions in this language.
    pub fn function_kinds(self) -> (r: Vec<&'static str>)
        ensures
            r@.map_values(|k: &'static str| k@) == function_kinds_spec(self),
            forall|k: Seq<char>| is_function_kind_spec(self, k) <==> function_kinds_spec(self).contains(k),
    {
        let r: Vec<&'static str> = match self {
            SupportedLanguage::Rust => vec!["function_item", "impl_item", "method_definition"],
            SupportedLanguage::JavaScript | SupportedLanguage::TypeScript | SupportedLanguage::Tsx => vec![
                "function_declaration",
                "function",
                "method_definition",
                "arrow_function",
            ],
            SupportedLanguage::Python => vec!["function_definition"],
            SupportedLanguage::Go => vec!["function_declaration", "method_declaration"],
        };
        proof {
            let f = function_kinds_spec(self);
            assert(r@.map_values(|k: &'static str| k@) =~= f);
            assert forall|k: Seq<char>| is_function_kind_spec(self, k) <==> f.contains(k) by {
                if is_function_kind_spec(self, k) {
                    if k == f[0] {
                        assert(f.contains(f[0]));
                    } else if k == f[1] {
                        assert(f.contains(f[1]));
                    } else if k == f[2] {
                        assert(f.contains(f[2]));
                    } else {
                        assert(f.contains(f[3]));
                    }
                }
            }
        }
        r
    }

    /// All languages supported by the parser registry.
    pub fn all() -> (r: Vec<SupportedLanguage>)
        ensures
            r@ == seq![
                SupportedLanguage::Rust,
                SupportedLanguage::JavaScript,
                SupportedLanguage::TypeScript,
                SupportedLanguage::Tsx,
                SupportedLanguage::Python,
                SupportedLanguage::Go,
            ],
    {
        let r = vec![
            SupportedLanguage::Rust,
            SupportedLanguage::JavaScript,
            SupportedLanguage::TypeScript,
            SupportedLanguage::Tsx,
            SupportedLanguage::Python,
            SupportedLanguage::Go,
        ];
        assert(r@ =~= seq![
            SupportedLanguage::Rust,
            SupportedLanguage::JavaScript,
            SupportedLanguage::TypeScript,
            SupportedLanguage::Tsx,
            SupportedLanguage::Python,
            SupportedLanguage::Go,
        ]);
        r
    }

    /// Infer the language from a file extension.
    pub fn from_path(path: &str) -> (r: Option<SupportedLanguage>)
        ensures
            r == language_of_path(path@),
    {
        let e = match extension_of(path) {
            Some(e) => e,
            None => {
                return None;
            },
        };
        let cs = chars_of(e.as_str());
        let mut low: Vec<char> = Vec::new();
        let mut i: usize = 0;
        while i < cs.len()
            invariant
                i <= cs@.len(),
                low@ == ascii_lowercase(cs@.take(i as int)),
            decreases cs@.len() - i,
        {
            let c = cs[i];
            let l = if 'A' <= c && c <= 'Z' {
                ((c as u32) + 32) as u8 as char
            } else {
                c
            };
            assert(l == (if 'A' <= c && c <= 'Z' { ((c as u32) + 32) as char } else { c })) by {
                if 'A' <= c && c <= 'Z' {
                    assert(((c as u32) + 32) < 256);
                }
            };
            low.push(l);
            i = i + 1;
            assert(low@ =~= ascii_lowercase(cs@.take(i as int)));
        }
        assert(cs@.take(cs@.len() as int) =~= cs@);
        let s = string_from_chars(low.as_slice());
        let e = s.as_str();
        if str_eq(e, "rs") {
            Some(SupportedLanguage::Rust)
        } else if str_eq(e, "js") || str_eq(e, "mjs") || str_eq(e, "cjs") || str_eq(e, "jsx") {
            Some(SupportedLanguage::JavaScript)
        } else if str_eq(e, "ts") {
            Some(SupportedLanguage::TypeScript)
        } else if str_eq(e, "tsx") {
            Some(SupportedLanguage::Tsx)
        } else if str_eq(e, "py") {
            Some(SupportedLanguage::Python)
        } else if str_eq(e, "go") {
            Some(SupportedLanguage::Go)
        } else {
            None
        }
    }

    /// Whether a path names a file of a supported language.
    pub fn supports_path(path: &str) -> (r: bool)
        ensures
            r == language_of_path(path@) is Some,
    {
        SupportedLanguage::from_path(path).is_some()
    }

    /// Whether `kind` is a function node kind of this language.
    pub fn is_function_kind(self, kind: &str) -> (r: bool)
        ensures
            r == is_function_kind_spec(self, kind@),
    {
        match self {
            SupportedLanguage::Rust => str_eq(kind, "function_item") || str_eq(kind, "impl_item")
                || str_eq(kind, "method_definition"),
            SupportedLanguage::JavaScript | SupportedLanguage::TypeScript | SupportedLanguage::Tsx => {
                str_eq(kind, "function_declaration") || str_eq(kind, "function") || str_eq(
                    kind,
                    "method_definition",
                ) || str_eq(kind, "arrow_function")
            },
            SupportedLanguage::Python => str_eq(kind, "function_definition"),
            SupportedLanguage::Go => str_eq(kind, "function_declaration") || str_eq(
                kind,
                "method_declaration",
            ),
        }
    }

    /// Whether empty braced function bodies count as anchors.
    pub fn supports_braced_empty_body(self) -> (r: bool)
        ensures
            r == (self != SupportedLanguage::Python),
    {
        match self {
            SupportedLanguage::Python => false,
            _ => true,
        }
    }

    /// The line comment marker of this language.
    pub fn line_comment_prefix(self) -> (r: &'static str)
        ensures
            r@ == (if self == SupportedLanguage::Python {
                "#"@
            } else {
                "//"@
            }),
    {
        match self {
            SupportedLanguage::Python => "#",
            _ => "//",
        }
    }
}

/// Whether a node kind is a comment.
pub fn is_comment_node(kind: &str) -> (r: bool)
    ensures
        r == crate::text::contains_seq(kind@, "comment"@),
{
    let k = chars_of(kind);
    let c = chars_of("comment");
    crate::text::contains_chars(k.as_slice(), c.as_slice())
}

/// A body's characters other than white space.
pub open spec fn body_without_ws(s: Seq<char>) -> Seq<char> {
    s.filter(|c: char| !crate::text::is_ws(c))
}

/// A function body's text without white space, to tell `{}` bodies apart.
pub fn normalized_body(body_text: &str) -> (r: String)
    ensures
        r@ == body_without_ws(body_text@),
{
    let cs = chars_of(body_text);
    let mut out: Vec<char> = Vec::new();
    let mut i: usize = 0;
    while i < cs.len()
        invariant
            i <= cs@.len(),
            out@ == body_without_ws(cs@.take(i as int)),
        decreases cs@.len() - i,
    {
        let c = cs[i];
        assert(cs@.take(i + 1).drop_last() =~= cs@.take(i as int));
        if !crate::text::char_is_ws(c) {
            out.push(c);
        }
        i = i + 1;
        proof {
            cs@.take(i - 1).lemma_filter_push(c, |c: char| !crate::text::is_ws(c));
            assert(cs@.take(i as int) =~= cs@.take(i - 1).push(c));
        }
    }
    assert(cs@.take(cs@.len() as int) =~= cs@);
    string_from_chars(out.as_slice())
}

#[verifier::external_type_specification]
#[verifier::external_body]
pub struct ExParser(tree_sitter::Parser);

#[verifier::external_type_specification]
#[verifier::external_body]
pub struct ExTree(tree_sitter::Tree);

#[verifier::external_type_specification]
#[verifier::external_body]
pub struct ExNode<'tree>(tree_sitter::Node<'tree>);

#[verifier::external_type_specification]
#[verifier::external_body]
pub struct ExLanguageError(tree_sitter::LanguageError);

/// A step from a syntax node to one below it: its child at an index, or its
/// child in a named field.
pub enum Step {
    /// The child at an index.
    Child(u32),
    /// The child in the field of this name.
    Field(Seq<char>),
}

/// Where a node of a tree-sitter tree stands: the language and the text
/// that were parsed, and the steps from the root down to the node.
pub struct NodeAt {
    /// The grammar the text was parsed with.
    pub language: SupportedLanguage,
    /// The parsed text.
    pub text: Seq<char>,
    /// The steps from the root.
    pub path: Seq<Step>,
}

impl NodeAt {
    /// The node one step below this one.
    pub open spec fn below(self, step: Step) -> NodeAt {
        NodeAt { language: self.language, text: self.text, path: self.path.push(step) }
    }
}

/// The grammar kind tree-sitter gives the node at `at`.
pub uninterp spec fn ts_kind(at: NodeAt) -> Seq<char>;

/// The first byte tree-sitter gives the node at `at`.
pub uninterp spec fn ts_start(at: NodeAt) -> usize;

/// The end byte tree-sitter gives the node at `at`.
pub uninterp spec fn ts_end(at: NodeAt) -> usize;

/// The number of children tree-sitter gives the node at `at`.
pub uninterp spec fn ts_child_count(at: NodeAt) -> u32;

/// Whether tree-sitter gives the node at `at` a child at index `i`.
pub uninterp spec fn ts_has_child(at: NodeAt, i: u32) -> bool;

/// Whether tree-sitter gives the node at `at` a child in the field `field`.
pub uninterp spec fn ts_has_field(at: NodeAt, field: Seq<char>) -> bool;

/// A tree-sitter parser and the language it was given, if any.
struct LangParser {
    parser: tree_sitter::Parser,
    language: Ghost<Option<SupportedLanguage>>,
}

/// A tree tree-sitter gave for a text in a language.
struct ParsedTree {
    tree: tree_sitter::Tree,
    language: Ghost<SupportedLanguage>,
    text: Ghost<Seq<char>>,
}

/// A node of a parsed tree and where it stands.
struct TsNode<'a> {
    node: tree_sitter::Node<'a>,
    at: Ghost<NodeAt>,
}

impl<'a> View for TsNode<'a> {
    type V = NodeAt;

    closed spec fn view(&self) -> NodeAt {
        self.at@
    }
}

/// `tree_sitter::Parser::new`: a parser with no language yet.
#[verifier::external_body]
fn new_parser() -> (r: LangParser)
    ensures
        r.language@ is None,
{
    LangParser { parser: tree_sitter::Parser::new(), language: Ghost(None) }
}

/// `tree_sitter::Parser::set_language` with `tree_sitter_rust::LANGUAGE`.
/// It succeeds: the grammar's ABI version (15) lies in the range tree-sitter
/// accepts (13 to 15), and a generated grammar has a lexer, so it can parse.
#[verifier::external_body]
fn set_rust_language(p: &mut LangParser) -> (r: Result<(), tree_sitter::LanguageError>)
    ensures
        r is Ok,
        final(p).language@ == Some(SupportedLanguage::Rust),
{
    p.language = Ghost(Some(SupportedLanguage::Rust));
    p.parser.set_language(&tree_sitter_rust::LANGUAGE.into())
}

/// `tree_sitter::Parser::set_language` with `tree_sitter_javascript::LANGUAGE`
/// (ABI version 15, with a lexer), which succeeds.
#[verifier::external_body]
fn set_javascript_language(p: &mut LangParser) -> (r: Result<(), tree_sitter::LanguageError>)
    ensures
        r is Ok,
        final(p).language@ == Some(SupportedLanguage::JavaScript),
{
    p.language = Ghost(Some(SupportedLanguage::JavaScript));
    p.parser.set_language(&tree_sitter_javascript::LANGUAGE.into())
}

/// `tree_sitter::Parser::set_language` with
/// `tree_sitter_typescript::LANGUAGE_TYPESCRIPT` (ABI version 14, with a
/// lexer), which succeeds.
#[verifier::external_body]
fn set_typescript_language(p: &mut LangParser) -> (r: Result<(), tree_sitter::LanguageError>)
    ensures
        r is Ok,
        final(p).language@ == Some(SupportedLanguage::TypeScript),
{
    p.language = Ghost(Some(SupportedLanguage::TypeScript));
    p.parser.set_language(&tree_sitter_typescript::LANGUAGE_TYPESCRIPT.into())
}

/// `tree_sitter::Parser::set_language` with
/// `tree_sitter_typescript::LANGUAGE_TSX` (ABI version 14, with a lexer),
/// which succeeds.
#[verifier::external_body]
fn set_tsx_language(p: &mut LangParser) -> (r: Result<(), tree_sitter::LanguageError>)
    ensures
        r is Ok,
        final(p).language@ == Some(SupportedLanguage::Tsx),
{
    p.language = Ghost(Some(SupportedLanguage::Tsx));
    p.parser.set_language(&tree_sitter_typescript::LANGUAGE_TSX.into())
}

/// `tree_sitter::Parser::set_language` with `tree_sitter_python::LANGUAGE`
/// (ABI version 15, with a lexer), which succeeds.
#[verifier::external_body]
fn set_python_language(p: &mut LangParser) -> (r: Result<(), tree_sitter::LanguageError>)
    ensures
        r is Ok,
        final(p).language@ == Some(SupportedLanguage::Python),
{
    p.language = Ghost(Some(SupportedLanguage::Python));
    p.parser.set_language(&tree_sitter_python::LANGUAGE.into())
}

/// `tree_sitter::Parser::set_language` with `tree_sitter_go::LANGUAGE` (ABI
/// version 15, with a lexer), which succeeds.
#[verifier::external_body]
fn set_go_language(p: &mut LangParser) -> (r: Result<(), tree_sitter::LanguageError>)
    ensures
        r is Ok,
        final(p).language@ == Some(SupportedLanguage::Go),
{
    p.language = Ghost(Some(SupportedLanguage::Go));
    p.parser.set_language(&tree_sitter_go::LANGUAGE.into())
}

/// The `Debug` text of a `tree_sitter::LanguageError`. Nothing is claimed
/// of the text.
#[verifier::external_body]
fn language_error_text(e: &tree_sitter::LanguageError) -> (r: String) {
    format!("{e:?}")
}

/// `tree_sitter::Parser::parse` of a whole text with no earlier tree. Its
/// documentation gives `None` only for a parser without a language; this
/// parser has no timeout, cancellation flag or progress callback. So a
/// parser with a language gives the tree of `text` in that language.
#[verifier::external_body]
fn parse_text(p: &mut LangParser, text: &str) -> (r: Option<ParsedTree>)
    ensures
        final(p).language == old(p).language,
        old(p).language@ is Some ==> r is Some,
        r matches Some(t) ==> old(p).language@ == Some(t.language@) && t.text@ == text@,
{
    match p.parser.parse(text, None) {
        Some(tree) => Some(ParsedTree { tree, language: Ghost(p.language@->0), text: Ghost(text@) }),
        None => None,
    }
}

/// `tree_sitter::Tree::root_node`: the node at the empty path.
#[verifier::external_body]
fn root_node<'a>(t: &'a ParsedTree) -> (r: TsNode<'a>)
    ensures
        r@ == (NodeAt { language: t.language@, text: t.text@, path: Seq::empty() }),
{
    TsNode {
        node: t.tree.root_node(),
        at: Ghost(NodeAt { language: t.language@, text: t.text@, path: Seq::empty() }),
    }
}

/// `tree_sitter::Node::kind`, the node's grammar kind, as a `String`.
#[verifier::external_body]
fn node_kind(n: &TsNode<'_>) -> (r: String)
    ensures
        r@ == ts_kind(n@),
{
    n.node.kind().to_string()
}

/// `tree_sitter::Node::start_byte`.
#[verifier::external_body]
fn start_byte(n: &TsNode<'_>) -> (r: usize)
    ensures
        r == ts_start(n@),
{
    n.node.start_byte()
}

/// `tree_sitter::Node::end_byte`.
#[verifier::external_body]
fn end_byte(n: &TsNode<'_>) -> (r: usize)
    ensures
        r == ts_end(n@),
{
    n.node.end_byte()
}

/// `tree_sitter::Node::child_count`.
#[verifier::external_body]
fn child_count(n: &TsNode<'_>) -> (r: u32)
    ensures
        r == ts_child_count(n@),
{
    n.node.child_count()
}

/// `tree_sitter::Node::child`: the child at an index, one step below.
#[verifier::external_body]
fn child<'a>(n: &TsNode<'a>, i: u32) -> (r: Option<TsNode<'a>>)
    ensures
        r is Some == ts_has_child(n@, i),
        r matches Some(c) ==> c@ == n@.below(Step::Child(i)),
{
    match n.node.child(i) {
        Some(node) => Some(TsNode { node, at: Ghost(n@.below(Step::Child(i))) }),
        None => None,
    }
}

/// `tree_sitter::Node::child_by_field_name`: the first child in a field,
/// one step below.
#[verifier::external_body]
fn child_by_field_name<'a>(n: &TsNode<'a>, field: &str) -> (r: Option<TsNode<'a>>)
    ensures
        r is Some == ts_has_field(n@, field@),
        r matches Some(c) ==> c@ == n@.below(Step::Field(field@)),
{
    match n.node.child_by_field_name(field) {
        Some(node) => Some(TsNode { node, at: Ghost(n@.below(Step::Field(field@))) }),
        None => None,
    }
}

/// The text of bytes `start..end` of the source bytes `b`, when that range
/// lies in `b` and falls on character boundaries.
pub open spec fn span_text(b: Seq<u8>, start: int, end: int) -> Option<Seq<char>> {
    if 0 <= start <= end <= b.len() && is_char_boundary(b, start) && is_char_boundary(b, end) {
        Some(decode_utf8(b.subrange(start, end)))
    } else {
        None
    }
}

/// The text of bytes `start..end` of `b`, or nothing when there is none.
pub open spec fn text_or_empty(b: Seq<u8>, start: int, end: int) -> Seq<char> {
    match span_text(b, start, end) {
        Some(t) => t,
        None => Seq::empty(),
    }
}

/// The text of bytes `start..end` of `source`, as a node's `utf8_text`
/// reads it: none when the range does not fall on character boundaries (a
/// tree parsed from `source` has no node whose range leaves it).
pub fn span(source: &str, start: usize, end: usize) -> (r: Option<String>)
    ensures
        opt_chars(r) == span_text(source.spec_bytes(), start as int, end as int),
{
    let len = source.as_bytes().len();
    if start <= end && end <= len && source.is_char_boundary(start) && source.is_char_boundary(end) {
        let piece = byte_slice(source, start, end);
        proof {
            encode_utf8_decode_utf8(piece@);
        }
        Some(owned(piece))
    } else {
        None
    }
}

/// What the library reads of a syntax node: kind, byte range, text, the
/// texts of its `name` and `body` fields, and its children.
pub struct SyntaxView {
    /// The grammar kind.
    pub kind: Seq<char>,
    /// First byte.
    pub start: usize,
    /// End byte.
    pub end: usize,
    /// The source text.
    pub text: Seq<char>,
    /// The text of the `name` field.
    pub name: Option<Seq<char>>,
    /// The text of the `body` field.
    pub body: Option<Seq<char>>,
    /// The children, in order.
    pub children: Seq<SyntaxView>,
}

/// What a syntax node holds.
pub open spec fn syntax_view(n: SyntaxNode) -> SyntaxView
    decreases n, 1int,
{
    SyntaxView {
        kind: n.kind@,
        start: n.start,
        end: n.end,
        text: n.text@,
        name: opt_chars(n.name),
        body: opt_chars(n.body),
        children: syntax_views(n.children@),
    }
}

/// What each of the nodes `cs` holds.
pub open spec fn syntax_views(cs: Seq<SyntaxNode>) -> Seq<SyntaxView>
    decreases cs, 0int,
{
    if cs.len() == 0 {
        seq![]
    } else {
        syntax_views(cs.drop_last()).push(syntax_view(cs.last()))
    }
}

/// The copy of the tree-sitter node at `at`, down to `depth` levels below
/// it: its kind and byte range, its source text (empty where the range does
/// not fall on character boundaries), the source text of its `name` field
/// (none where there is none) and of its `body` field (empty where there is
/// none), and the copies of the children tree-sitter gives it, in order.
pub open spec fn node_spec(at: NodeAt, depth: nat) -> SyntaxView
    decreases depth, ts_child_count(at) as int + 1,
{
    let b = encode_utf8(at.text);
    let name_at = at.below(Step::Field("name"@));
    let body_at = at.below(Step::Field("body"@));
    SyntaxView {
        kind: ts_kind(at),
        start: ts_start(at),
        end: ts_end(at),
        text: text_or_empty(b, ts_start(at) as int, ts_end(at) as int),
        name: if ts_has_field(at, "name"@) {
            span_text(b, ts_start(name_at) as int, ts_end(name_at) as int)
        } else {
            None
        },
        body: if ts_has_field(at, "body"@) {
            Some(text_or_empty(b, ts_start(body_at) as int, ts_end(body_at) as int))
        } else {
            None
        },
        children: if depth == 0 {
            seq![]
        } else {
            kids_spec(at, depth, ts_child_count(at) as nat)
        },
    }
}

/// The copies, `depth - 1` levels deep, of the children at indices below
/// `n` that tree-sitter gives the node at `at`.
pub open spec fn kids_spec(at: NodeAt, depth: nat, n: nat) -> Seq<SyntaxView>
    decreases depth, n,
{
    if n == 0 || depth == 0 {
        seq![]
    } else {
        let k = (n - 1) as u32;
        kids_spec(at, depth, (n - 1) as nat) + if ts_has_child(at, k) {
            seq![node_spec(at.below(Step::Child(k)), (depth - 1) as nat)]
        } else {
            seq![]
        }
    }
}

/// Copy a tree-sitter node of a tree parsed from `source` and, down to
/// `depth` levels, its children: kind, byte range, text, and the text of its
/// `name` and `body` fields.
fn copy_node(node: &TsNode<'_>, source: &str, depth: usize) -> (r: SyntaxNode)
    requires
        node@.text == source@,
    ensures
        syntax_view(r) == node_spec(node@, depth as nat),
    decreases depth,
{
    let ghost at = node@;
    let kind = node_kind(node);
    let start = start_byte(node);
    let end = end_byte(node);
    let text = match span(source, start, end) {
        Some(t) => t,
        None => String::new(),
    };
    let name = match child_by_field_name(node, "name") {
        Some(n) => span(source, start_byte(&n), end_byte(&n)),
        None => None,
    };
    let body = match child_by_field_name(node, "body") {
        Some(n) => Some(
            match span(source, start_byte(&n), end_byte(&n)) {
                Some(t) => t,
                None => String::new(),
            },
        ),
        None => None,
    };
    let mut children: Vec<SyntaxNode> = Vec::new();
    if depth > 0 {
        let count = child_count(node);
        let mut i: u32 = 0;
        while i < count
            invariant
                depth > 0,
                node@ == at,
                at.text == source@,
                count == ts_child_count(at),
                i <= count,
                syntax_views(children@) == kids_spec(at, depth as nat, i as nat),
            decreases count - i,
        {
            let ghost before = children@;
            match child(node, i) {
                Some(c) => {
                    let copy = copy_node(&c, source, depth - 1);
                    children.push(copy);
                    assert(children@.drop_last() =~= before);
                },
                None => {
                    assert(kids_spec(at, depth as nat, (i + 1) as nat) =~= kids_spec(at, depth as nat, i as nat));
                },
            }
            i = i + 1;
        }
    }
    SyntaxNode { kind, start, end, text, name, body, children }
}

/// The name `Debug` gives a language.
pub open spec fn language_debug_spec(language: SupportedLanguage) -> Seq<char> {
    match language {
        SupportedLanguage::Rust => "Rust"@,
        SupportedLanguage::JavaScript => "JavaScript"@,
        SupportedLanguage::TypeScript => "TypeScript"@,
        SupportedLanguage::Tsx => "Tsx"@,
        SupportedLanguage::Python => "Python"@,
        SupportedLanguage::Go => "Go"@,
    }
}

/// The name `Debug` gives a language.
pub fn language_debug_name(language: SupportedLanguage) -> (r: &'static str)
    ensures
        r@ == language_debug_spec(language),
{
    match language {
        SupportedLanguage::Rust => "Rust",
        SupportedLanguage::JavaScript => "JavaScript",
        SupportedLanguage::TypeScript => "TypeScript",
        SupportedLanguage::Tsx => "Tsx",
        SupportedLanguage::Python => "Python",
        SupportedLanguage::Go => "Go",
    }
}

/// Why a file cannot be parsed.
#[derive(Debug, Clone, PartialEq, Eq)]
pub enum ParseError {
    /// A grammar could not be given to its parser; the language and the
    /// `Debug` text of tree-sitter's error.
    Grammar(SupportedLanguage, String),
    /// No parser is configured for the file's extension; the path.
    Unsupported(String),
    /// The parser gave no tree.
    ParsingFailed,
}

impl ParseError {
    /// The message shown for this error.
    pub fn message(&self) -> (r: String)
        ensures
            r@ == (match self {
                ParseError::Grammar(l, why) => "failed to set "@ + language_debug_spec(*l) + " language: "@
                    + why@,
                ParseError::Unsupported(path) => "no tree-sitter parser configured for "@ + path@,
                ParseError::ParsingFailed => "parsing failed"@,
            }),
    {
        match self {
            ParseError::Grammar(l, why) => {
                let mut m = owned("failed to set ");
                m.push_str(language_debug_name(*l));
                m.push_str(" language: ");
                m.push_str(why.as_str());
                m
            },
            ParseError::Unsupported(path) => {
                let mut m = owned("no tree-sitter parser configured for ");
                m.push_str(path.as_str());
                m
            },
            ParseError::ParsingFailed => owned("parsing failed"),
        }
    }
}

/// A parser given the grammar of `language`.
fn ready_parser(language: SupportedLanguage) -> (r: Result<LangParser, ParseError>)
    ensures
        r matches Ok(p) && p.language@ == Some(language),
{
    let mut parser = new_parser();
    let set = match language {
        SupportedLanguage::Rust => set_rust_language(&mut parser),
        SupportedLanguage::JavaScript => set_javascript_language(&mut parser),
        SupportedLanguage::TypeScript => set_typescript_language(&mut parser),
        SupportedLanguage::Tsx => set_tsx_language(&mut parser),
        SupportedLanguage::Python => set_python_language(&mut parser),
        SupportedLanguage::Go => set_go_language(&mut parser),
    };
    match set {
        Ok(()) => Ok(parser),
        Err(e) => Err(ParseError::Grammar(language, language_error_text(&e))),
    }
}

/// A parsed file: its language, its text and its syntax tree.
pub struct ParsedFile {
    /// The parsed text.
    pub source: String,
    /// The file's language.
    pub language: SupportedLanguage,
    /// The root of the tree.
    pub root: SyntaxNode,
}

/// One tree-sitter parser for each supported language.
pub struct LanguageParsers {
    rust: LangParser,
    javascript: LangParser,
    typescript: LangParser,
    tsx: LangParser,
    python: LangParser,
    go: LangParser,
}

impl LanguageParsers {
    /// Each parser holds the grammar of its language.
    pub closed spec fn wf(self) -> bool {
        &&& self.rust.language@ == Some(SupportedLanguage::Rust)
        &&& self.javascript.language@ == Some(SupportedLanguage::JavaScript)
        &&& self.typescript.language@ == Some(SupportedLanguage::TypeScript)
        &&& self.tsx.language@ == Some(SupportedLanguage::Tsx)
        &&& self.python.language@ == Some(SupportedLanguage::Python)
        &&& self.go.language@ == Some(SupportedLanguage::Go)
    }

    /// Create a parser for every supported language, in the order of
    /// `SupportedLanguage::all`; every bundled grammar is accepted.
    pub fn new() -> (r: Result<LanguageParsers, ParseError>)
        ensures
            r matches Ok(p) && p.wf(),
    {
        let rust = match ready_parser(SupportedLanguage::Rust) {
            Ok(p) => p,
            Err(e) => {
                return Err(e);
            },
        };
        let javascript = match ready_parser(SupportedLanguage::JavaScript) {
            Ok(p) => p,
            Err(e) => {
                return Err(e);
            },
        };
        let typescript = match ready_parser(SupportedLanguage::TypeScript) {
            Ok(p) => p,
            Err(e) => {
                return Err(e);
            },
        };
        let tsx = match ready_parser(SupportedLanguage::Tsx) {
            Ok(p) => p,
            Err(e) => {
                return Err(e);
            },
        };
        let python = match ready_parser(SupportedLanguage::Python) {
            Ok(p) => p,
            Err(e) => {
                return Err(e);
            },
        };
        let go = match ready_parser(SupportedLanguage::Go) {
            Ok(p) => p,
            Err(e) => {
                return Err(e);
            },
        };
        Ok(LanguageParsers { rust, javascript, typescript, tsx, python, go })
    }

    /// Parse `source` as the file at `path`, with the parser of the language
    /// its extension names.
    pub fn parse_file(&mut self, path: &str, source: &str) -> (r: Result<ParsedFile, ParseError>)
        requires
            old(self).wf(),
        ensures
            final(self).wf(),
            (match language_of_path(path@) {
                None => r matches Err(ParseError::Unsupported(p)) && p@ == path@,
                Some(l) => r matches Ok(f) && {
                    &&& f.language == l
                    &&& f.source@ == source@
                    &&& syntax_view(f.root) == node_spec(
                        NodeAt { language: l, text: source@, path: Seq::empty() },
                        usize::MAX as nat,
                    )
                },
            }),
    {
        let language = match SupportedLanguage::from_path(path) {
            Some(l) => l,
            None => {
                return Err(ParseError::Unsupported(owned(path)));
            },
        };
        let parsed = match language {
            SupportedLanguage::Rust => parse_text(&mut self.rust, source),
            SupportedLanguage::JavaScript => parse_text(&mut self.javascript, source),
            SupportedLanguage::TypeScript => parse_text(&mut self.typescript, source),
            SupportedLanguage::Tsx => parse_text(&mut self.tsx, source),
            SupportedLanguage::Python => parse_text(&mut self.python, source),
            SupportedLanguage::Go => parse_text(&mut self.go, source),
        };
        let tree = match parsed {
            Some(t) => t,
            None => {
                return Err(ParseError::ParsingFailed);
            },
        };
        let root = copy_node(&root_node(&tree), source, usize::MAX);
        Ok(ParsedFile { source: owned(source), language, root })
    }

    /// Whether a parser is configured for the file at `path`.
    pub fn supports_path(path: &str) -> (r: bool)
        ensures
            r == language_of_path(path@) is Some,
    {
        SupportedLanguage::from_path(path).is_some()
    }
}

impl ParsedFile {
    /// The smallest node that holds a byte offset.
    pub fn node_at_offset(&self, offset: usize) -> (r: Option<&SyntaxNode>)
        ensures
            (match r {
                Some(x) => node_at(self.root, offset as int) == Some(*x),
                None => node_at(self.root, offset as int) is None,
            }),
    {
        crate::syntax::node_at_offset(&self.root, offset)
    }

    /// The innermost function or method around a byte offset.
    pub fn enclosing_function(&self, offset: usize) -> (r: Option<&SyntaxNode>)
        ensures
            (match r {
                Some(x) => enclosing_function_spec(self.root, offset as int, self.language) == Some(*x),
                None => enclosing_function_spec(self.root, offset as int, self.language) is None,
            }),
    {
        crate::syntax::enclosing_function(&self.root, offset, self.language)
    }

    /// The TODO, FIXME and placeholder anchors of the file.
    pub fn find_anchors(&self) -> (r: Vec<Anchor>)
        ensures
            anchor_views(r@) == anchors_in(self.root, self.language),
    {
        crate::syntax::find_anchors(&self.root, self.language)
    }

    /// The line comment prefix of the file's language.
    pub fn comment_prefix(&self) -> (r: &'static str)
        ensures
            r@ == (match self.language {
                SupportedLanguage::Python => "#"@,
                _ => "//"@,
            }),
    {
        self.language.line_comment_prefix()
    }

    /// The source text of a node's byte range, empty where there is none.
    pub fn node_text(&self, node: &SyntaxNode) -> (r: String)
        ensures
            r@ == text_or_empty(encode_utf8(self.source@), node.start as int, node.end as int),
    {
        match span(self.source.as_str(), node.start, node.end) {
            Some(t) => t,
            None => String::new(),
        }
    }
}

/// The content hash of a node's source text in `source`.
pub fn hash_node_region(source: &str, node: &SyntaxNode) -> (r: String)
    ensures
        r@ == content_hash(text_or_empty(source.spec_bytes(), node.start as int, node.end as int)),
{
    let text = match span(source, node.start, node.end) {
        Some(t) => t,
        None => String::new(),
    };
    compute_hash(text.as_str())
}

} // verus!
