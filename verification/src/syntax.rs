//! Syntax trees as plain values and what the daemon reads from them: the
//! anchors of a file, the node at a cursor, and the function around it.
//! The trees come from tree-sitter through `crate::parser`.

use vstd::prelude::*;

use crate::parser::{Anchor, AnchorKind, SupportedLanguage, body_without_ws, is_function_kind_spec, normalized_body};
use crate::cache::{compute_hash, content_hash};
use crate::text::{chars_of, contains_chars, contains_seq, decimal, decimal_string, owned};

verus! {

/// A node of a syntax tree with what the anchor rules read of it.
#[derive(Debug)]
pub struct SyntaxNode {
    /// The grammar's kind of the node.
    pub kind: String,
    /// First byte of the node in the source.
    pub start: usize,
    /// End byte of the node in the source.
    pub end: usize,
    /// The node's source text.
    pub text: String,
    /// The source text of the node's `name` field, when it has one.
    pub name: Option<String>,
    /// The source text of the node's `body` field, when it has one.
    pub body: Option<String>,
    /// The node's children, in order.
    pub children: Vec<SyntaxNode>,
}

/// What an anchor holds.
pub struct AnchorView {
    /// First byte.
    pub start: usize,
    /// End byte.
    pub end: usize,
    /// Kind.
    pub kind: AnchorKind,
    /// Context text.
    pub context: Seq<char>,
}

/// The result `str::to_lowercase` gives for a text.
pub uninterp spec fn lowercase_of(s: Seq<char>) -> Seq<char>;

/// `str::to_lowercase`: the text in lower case, by Unicode's case mapping.
#[verifier::external_body]
fn to_lowercase(s: &str) -> (r: String)
    ensures
        r@ == lowercase_of(s@),
{
    s.to_lowercase()
}

/// Whether `s` starts with `p`.
pub open spec fn starts_with(s: Seq<char>, p: Seq<char>) -> bool {
    s.len() >= p.len() && s.take(p.len() as int) == p
}

/// The anchor a node is by itself, if any: a comment that mentions TODO or
/// FIXME in any case; in Rust, a `todo!` or `unimplemented!` invocation; a
/// function whose body is empty braces, in languages with braced bodies.
pub open spec fn own_anchor(n: SyntaxNode, lang: SupportedLanguage) -> Option<AnchorView> {
    if contains_seq(n.kind@, "comment"@) {
        if contains_seq(lowercase_of(n.text@), "todo"@) {
            Some(AnchorView { start: n.start, end: n.end, kind: AnchorKind::TodoComment, context: n.text@ })
        } else if contains_seq(lowercase_of(n.text@), "fixme"@) {
            Some(AnchorView { start: n.start, end: n.end, kind: AnchorKind::FixmeComment, context: n.text@ })
        } else {
            None
        }
    } else if lang == SupportedLanguage::Rust && n.kind@ == "macro_invocation"@ {
        if starts_with(n.text@, "todo!"@) {
            Some(AnchorView { start: n.start, end: n.end, kind: AnchorKind::TodoMacro, context: n.text@ })
        } else if starts_with(n.text@, "unimplemented!"@) {
            Some(
                AnchorView {
                    start: n.start,
                    end: n.end,
                    kind: AnchorKind::UnimplementedMacro,
                    context: n.text@,
                },
            )
        } else {
            None
        }
    } else if is_function_kind_spec(lang, n.kind@) && lang != SupportedLanguage::Python {
        match n.body {
            Some(b) => if body_without_ws(b@) == "{}"@ {
                Some(
                    AnchorView {
                        start: n.start,
                        end: n.end,
                        kind: AnchorKind::EmptyFunctionBody,
                        context: "fn "@ + match n.name {
                            Some(nm) => nm@,
                            None => "unknown"@,
                        },
                    },
                )
            } else {
                None
            },
            None => None,
        }
    } else {
        None
    }
}

/// The anchors of a tree, in source order of a pre-order walk: a node's own
/// anchor before those of its children.
pub open spec fn anchors_in(n: SyntaxNode, lang: SupportedLanguage) -> Seq<AnchorView>
    decreases n, 1int,
{
    (match own_anchor(n, lang) {
        Some(a) => seq![a],
        None => seq![],
    }) + anchors_in_list(n.children@, lang)
}

/// The anchors of a sequence of trees, one tree after another.
pub open spec fn anchors_in_list(cs: Seq<SyntaxNode>, lang: SupportedLanguage) -> Seq<AnchorView>
    decreases cs, 0int,
{
    if cs.len() == 0 {
        seq![]
    } else {
        anchors_in_list(cs.drop_last(), lang) + anchors_in(cs.last(), lang)
    }
}

/// What an anchor holds.
pub open spec fn anchor_view(a: Anchor) -> AnchorView {
    AnchorView { start: a.byte_start, end: a.byte_end, kind: a.kind, context: a.context@ }
}

/// What each anchor holds.
pub open spec fn anchor_views(s: Seq<Anchor>) -> Seq<AnchorView> {
    Seq::new(s.len(), |i: int| anchor_view(s[i]))
}

/// Whether `s` starts with `p`.
fn starts_with_str(s: &str, p: &str) -> (r: bool)
    ensures
        r == starts_with(s@, p@),
{
    let sc = chars_of(s);
    let pc = chars_of(p);
    if sc.len() < pc.len() {
        return false;
    }
    let r = crate::text::matches_at(sc.as_slice(), pc.as_slice(), 0);
    assert(sc@.subrange(0, pc@.len() as int) =~= sc@.take(pc@.len() as int));
    r
}

/// Whether `text` holds `needle`.
fn mentions(text: &str, needle: &str) -> (r: bool)
    ensures
        r == contains_seq(text@, needle@),
{
    let t = chars_of(text);
    let n = chars_of(needle);
    contains_chars(t.as_slice(), n.as_slice())
}

/// The anchor a node is by itself, if any.
fn own_anchor_of(n: &SyntaxNode, lang: SupportedLanguage) -> (r: Option<Anchor>)
    ensures
        (match r {
            Some(a) => own_anchor(*n, lang) == Some(anchor_view(a)),
            None => own_anchor(*n, lang) is None,
        }),
{
    if mentions(n.kind.as_str(), "comment") {
        let lower = to_lowercase(n.text.as_str());
        if mentions(lower.as_str(), "todo") {
            return Some(Anchor { byte_start: n.start, byte_end: n.end, kind: AnchorKind::TodoComment, context: n.text.clone() });
        } else if mentions(lower.as_str(), "fixme") {
            return Some(Anchor { byte_start: n.start, byte_end: n.end, kind: AnchorKind::FixmeComment, context: n.text.clone() });
        }
        return None;
    }
    if lang == SupportedLanguage::Rust && crate::text::str_eq(n.kind.as_str(), "macro_invocation") {
        if starts_with_str(n.text.as_str(), "todo!") {
            return Some(Anchor { byte_start: n.start, byte_end: n.end, kind: AnchorKind::TodoMacro, context: n.text.clone() });
        } else if starts_with_str(n.text.as_str(), "unimplemented!") {
            return Some(Anchor { byte_start: n.start, byte_end: n.end, kind: AnchorKind::UnimplementedMacro, context: n.text.clone() });
        }
        return None;
    }
    if lang.is_function_kind(n.kind.as_str()) && lang.supports_braced_empty_body() {
        match &n.body {
            Some(b) => {
                let nb = normalized_body(b.as_str());
                if crate::text::str_eq(nb.as_str(), "{}") {
                    let mut context = owned("fn ");
                    match &n.name {
                        Some(nm) => context.push_str(nm.as_str()),
                        None => context.push_str("unknown"),
                    }
                    return Some(Anchor { byte_start: n.start, byte_end: n.end, kind: AnchorKind::EmptyFunctionBody, context });
                }
                return None;
            },
            None => {
                return None;
            },
        }
    }
    None
}

/// Append the anchors of a tree to `out`.
fn collect_anchors(n: &SyntaxNode, lang: SupportedLanguage, out: &mut Vec<Anchor>)
    ensures
        anchor_views(final(out)@) == anchor_views(old(out)@) + anchors_in(*n, lang),
    decreases n,
{
    let ghost before = anchor_views(out@);
    let ghost own = match own_anchor(*n, lang) {
        Some(a) => seq![a],
        None => Seq::<AnchorView>::empty(),
    };
    match own_anchor_of(n, lang) {
        Some(a) => {
            out.push(a);
        },
        None => {},
    }
    assert(anchor_views(out@) =~= before + own);
    let mut i: usize = 0;
    while i < n.children.len()
        invariant
            i <= n.children@.len(),
            anchor_views(out@) == before + own + anchors_in_list(n.children@.take(i as int), lang),
        decreases n.children@.len() - i,
    {
        let ghost mid = anchor_views(out@);
        assert(n.children@.take(i + 1).drop_last() =~= n.children@.take(i as int));
        assert(n.children@.take(i + 1).last() == n.children@[i as int]);
        collect_anchors(&n.children[i], lang, out);
        i = i + 1;
    }
    assert(n.children@.take(n.children@.len() as int) =~= n.children@);
}

/// Find all anchors in a file's syntax tree.
pub fn find_anchors(root: &SyntaxNode, lang: SupportedLanguage) -> (r: Vec<Anchor>)
    ensures
        anchor_views(r@) == anchors_in(*root, lang),
{
    let mut out: Vec<Anchor> = Vec::new();
    collect_anchors(root, lang, &mut out);
    assert(anchor_views(Seq::<Anchor>::empty()) =~= Seq::<AnchorView>::empty());
    assert(Seq::<AnchorView>::empty() + anchors_in(*root, lang) =~= anchors_in(*root, lang));
    out
}

/// Whether a node's byte range holds `offset`.
pub open spec fn holds(n: SyntaxNode, offset: int) -> bool {
    n.start <= offset < n.end
}

/// The index of the first of `cs` whose range holds `offset`.
pub open spec fn first_holding(cs: Seq<SyntaxNode>, offset: int) -> Option<int>
    decreases cs.len(),
{
    if cs.len() == 0 {
        None
    } else {
        match first_holding(cs.drop_last(), offset) {
            Some(i) => Some(i),
            None => if holds(cs.last(), offset) {
                Some(cs.len() - 1)
            } else {
                None
            },
        }
    }
}

/// The smallest node holding `offset`: going down through the first child
/// that holds it, as long as one does; nothing when the root does not.
pub open spec fn node_at(n: SyntaxNode, offset: int) -> Option<SyntaxNode>
    decreases n,
{
    if !holds(n, offset) {
        None
    } else {
        match first_holding(n.children@, offset) {
            Some(i) => if 0 <= i < n.children@.len() {
                node_at(n.children@[i], offset)
            } else {
                None
            },
            None => Some(n),
        }
    }
}

/// The innermost function around the node at `offset`, below `n` (which
/// holds `offset`): the deepest node of a function kind on the way down, the
/// node at the offset itself not counted.
pub open spec fn enclosing_below(n: SyntaxNode, offset: int, lang: SupportedLanguage) -> Option<SyntaxNode>
    decreases n,
{
    match first_holding(n.children@, offset) {
        Some(i) => if 0 <= i < n.children@.len() {
            match enclosing_below(n.children@[i], offset, lang) {
                Some(f) => Some(f),
                None => if is_function_kind_spec(lang, n.kind@) {
                    Some(n)
                } else {
                    None
                },
            }
        } else {
            None
        },
        None => None,
    }
}

/// The innermost enclosing function of `offset` in a tree.
pub open spec fn enclosing_function_spec(root: SyntaxNode, offset: int, lang: SupportedLanguage) -> Option<SyntaxNode> {
    if holds(root, offset) {
        enclosing_below(root, offset, lang)
    } else {
        None
    }
}

/// The index of the first child holding `offset`.
fn first_child_holding(n: &SyntaxNode, offset: usize) -> (r: Option<usize>)
    ensures
        (match r {
            Some(i) => first_holding(n.children@, offset as int) == Some(i as int) && i < n.children@.len(),
            None => first_holding(n.children@, offset as int) is None,
        }),
{
    let mut i: usize = 0;
    while i < n.children.len()
        invariant
            i <= n.children@.len(),
            first_holding(n.children@.take(i as int), offset as int) is None,
        decreases n.children@.len() - i,
    {
        assert(n.children@.take(i + 1).drop_last() =~= n.children@.take(i as int));
        assert(n.children@.take(i + 1).last() == n.children@[i as int]);
        let c = &n.children[i];
        if c.start <= offset && offset < c.end {
            proof {
                lemma_first_holding_prefix(n.children@, i + 1, offset as int);
            }
            return Some(i);
        }
        i = i + 1;
    }
    assert(n.children@.take(n.children@.len() as int) =~= n.children@);
    None
}

proof fn lemma_first_holding_prefix(cs: Seq<SyntaxNode>, k: int, offset: int)
    requires
        0 <= k <= cs.len(),
        first_holding(cs.take(k), offset) is Some,
    ensures
        first_holding(cs, offset) == first_holding(cs.take(k), offset),
    decreases cs.len() - k,
{
    if k < cs.len() {
        assert(cs.take(k + 1).drop_last() =~= cs.take(k));
        lemma_first_holding_prefix(cs, k + 1, offset);
    } else {
        assert(cs.take(k) =~= cs);
    }
}

/// Find the smallest node that holds the given byte offset.
pub fn node_at_offset(n: &SyntaxNode, offset: usize) -> (r: Option<&SyntaxNode>)
    ensures
        (match r {
            Some(x) => node_at(*n, offset as int) == Some(*x),
            None => node_at(*n, offset as int) is None,
        }),
    decreases n,
{
    if !(n.start <= offset && offset < n.end) {
        return None;
    }
    match first_child_holding(n, offset) {
        Some(i) => node_at_offset(&n.children[i], offset),
        None => Some(n),
    }
}

/// The innermost function around the node at `offset` below a node that holds it.
fn enclosing_below_of<'a>(n: &'a SyntaxNode, offset: usize, lang: SupportedLanguage) -> (r: Option<&'a SyntaxNode>)
    ensures
        (match r {
            Some(x) => enclosing_below(*n, offset as int, lang) == Some(*x),
            None => enclosing_below(*n, offset as int, lang) is None,
        }),
    decreases n,
{
    match first_child_holding(n, offset) {
        Some(i) => match enclosing_below_of(&n.children[i], offset, lang) {
            Some(f) => Some(f),
            None => if lang.is_function_kind(n.kind.as_str()) {
                Some(n)
            } else {
                None
            },
        },
        None => None,
    }
}

/// Find the enclosing function or method of a byte offset.
pub fn enclosing_function<'a>(root: &'a SyntaxNode, offset: usize, lang: SupportedLanguage) -> (r: Option<&'a SyntaxNode>)
    ensures
        (match r {
            Some(x) => enclosing_function_spec(*root, offset as int, lang) == Some(*x),
            None => enclosing_function_spec(*root, offset as int, lang) is None,
        }),
{
    if !(root.start <= offset && offset < root.end) {
        return None;
    }
    enclosing_below_of(root, offset, lang)
}

proof fn lemma_first_holding(cs: Seq<SyntaxNode>, offset: int)
    ensures
        first_holding(cs, offset) matches Some(i) ==> 0 <= i < cs.len() && holds(cs[i], offset),
        first_holding(cs, offset) is None ==> forall|j: int| 0 <= j < cs.len() ==> !holds(#[trigger] cs[j], offset),
    decreases cs.len(),
{
    if cs.len() > 0 {
        lemma_first_holding(cs.drop_last(), offset);
        assert forall|j: int| 0 <= j < cs.len() - 1 implies #[trigger] cs.drop_last()[j] == cs[j] by {}
        if first_holding(cs, offset) is None {
            assert forall|j: int| 0 <= j < cs.len() implies !holds(#[trigger] cs[j], offset) by {
                if j < cs.len() - 1 {
                    assert(cs.drop_last()[j] == cs[j]);
                } else {
                    assert(cs[j] == cs.last());
                }
            }
        }
    }
}

/// The node at an offset holds it, and none of its children does.
pub proof fn law_node_at_is_smallest(n: SyntaxNode, offset: int)
    ensures
        node_at(n, offset) matches Some(x) ==> holds(x, offset) && forall|j: int|
            0 <= j < x.children@.len() ==> !holds(#[trigger] x.children@[j], offset),
        node_at(n, offset) is Some <==> holds(n, offset),
    decreases n,
{
    lemma_first_holding(n.children@, offset);
    if holds(n, offset) {
        match first_holding(n.children@, offset) {
            Some(i) => {
                law_node_at_is_smallest(n.children@[i], offset);
            },
            None => {},
        }
    }
}

/// The enclosing function of an offset is a node of a function kind that
/// holds the offset.
pub proof fn law_enclosing_function(root: SyntaxNode, offset: int, lang: SupportedLanguage)
    ensures
        enclosing_function_spec(root, offset, lang) matches Some(f) ==> is_function_kind_spec(
            lang,
            f.kind@,
        ) && holds(f, offset),
{
    if holds(root, offset) {
        lemma_enclosing_below(root, offset, lang);
    }
}

proof fn lemma_enclosing_below(n: SyntaxNode, offset: int, lang: SupportedLanguage)
    requires
        holds(n, offset),
    ensures
        enclosing_below(n, offset, lang) matches Some(f) ==> is_function_kind_spec(lang, f.kind@)
            && holds(f, offset),
    decreases n,
{
    lemma_first_holding(n.children@, offset);
    match first_holding(n.children@, offset) {
        Some(i) => {
            lemma_enclosing_below(n.children@[i], offset, lang);
        },
        None => {},
    }
}

/// An anchor with the region that keys its cached proposal.
#[derive(Debug, Clone)]
pub struct AnchorRegion {
    /// The anchor.
    pub anchor: Anchor,
    /// First byte of the anchor.
    pub start: usize,
    /// End byte of the anchor.
    pub end: usize,
    /// First byte of the context: the enclosing function, or the anchor.
    pub context_start: usize,
    /// End byte of the context.
    pub context_end: usize,
    /// Content hash of the context text.
    pub content_hash: String,
    /// The context text.
    pub text: String,
    /// Cache key: file, anchor range and context hash, separated by NUL.
    pub key: String,
}

/// The cache key of an anchor region.
pub open spec fn region_key(file: Seq<char>, start: usize, end: usize, hash: Seq<char>) -> Seq<char> {
    file + seq!['\0'] + decimal(start as nat) + seq!['\0'] + decimal(end as nat) + seq!['\0'] + hash
}

/// Whether `r` is the region of anchor `a` of a parsed file: the function
/// around the anchor's start when there is one, else the anchor itself,
/// hashed and keyed.
pub open spec fn region_of(root: SyntaxNode, lang: SupportedLanguage, file: Seq<char>, a: AnchorView, r: AnchorRegion) -> bool {
    &&& anchor_view(r.anchor) == a
    &&& r.start == a.start
    &&& r.end == a.end
    &&& (match enclosing_function_spec(root, a.start as int, lang) {
        Some(f) => r.context_start == f.start && r.context_end == f.end && r.text@ == f.text@,
        None => r.context_start == a.start && r.context_end == a.end && r.text@ == a.context,
    })
    &&& r.content_hash@ == content_hash(r.text@)
    &&& r.key@ == region_key(file, a.start, a.end, r.content_hash@)
}

/// The region of an anchor: the function around its start when there is
/// one, else the anchor itself.
pub fn region_for_anchor(root: &SyntaxNode, lang: SupportedLanguage, anchor: Anchor, file: &str) -> (r: AnchorRegion)
    ensures
        region_of(*root, lang, file@, anchor_view(anchor), r),
{
    let (context_start, context_end, text) = match enclosing_function(root, anchor.byte_start, lang) {
        Some(f) => (f.start, f.end, f.text.clone()),
        None => (anchor.byte_start, anchor.byte_end, anchor.context.clone()),
    };
    let hash = compute_hash(text.as_str());
    let start = anchor.byte_start;
    let end = anchor.byte_end;
    let mut key = owned(file);
    key.push('\0');
    key.push_str(decimal_string(start as u64).as_str());
    key.push('\0');
    key.push_str(decimal_string(end as u64).as_str());
    key.push('\0');
    key.push_str(hash.as_str());
    let ghost a = anchor_view(anchor);
    let r = AnchorRegion { anchor, start, end, context_start, context_end, content_hash: hash, text, key };
    assert(anchor_view(r.anchor) == a);
    assert(r.key@ == region_key(file@, a.start, a.end, r.content_hash@));
    r
}

/// The regions of all anchors of a file, in anchor order.
pub fn regions_for_anchors(root: &SyntaxNode, lang: SupportedLanguage, file: &str) -> (r: Vec<AnchorRegion>)
    ensures
        r@.len() == anchors_in(*root, lang).len(),
        forall|i: int|
            0 <= i < r@.len() ==> region_of(*root, lang, file@, anchors_in(*root, lang)[i], #[trigger] r@[i]),
{
    let anchors = find_anchors(root, lang);
    let ghost av = anchor_views(anchors@);
    let mut rest = anchors;
    let n = rest.len();
    let mut out: Vec<AnchorRegion> = Vec::new();
    let mut i: usize = 0;
    assert(anchor_views(rest@) =~= av.skip(0));
    while i < n
        invariant
            n == av.len(),
            av == anchors_in(*root, lang),
            i <= n,
            anchor_views(rest@) == av.skip(i as int),
            out@.len() == i,
            forall|j: int| 0 <= j < i ==> region_of(*root, lang, file@, av[j], #[trigger] out@[j]),
        decreases n - i,
    {
        assert(av.skip(i as int)[0] == av[i as int]);
        assert(rest@.len() == anchor_views(rest@).len());
        assert(anchor_views(rest@)[0] == anchor_view(rest@[0]));
        let ghost old_rest = rest@;
        let a = rest.remove(0);
        assert(rest@ =~= old_rest.drop_first());
        assert forall|j: int| 0 <= j < rest@.len() implies anchor_views(rest@)[j] == av.skip(i + 1)[j] by {
            assert(anchor_views(old_rest)[j + 1] == av.skip(i as int)[j + 1]);
        }
        assert(anchor_views(rest@) =~= av.skip(i + 1));
        out.push(region_for_anchor(root, lang, a, file));
        i = i + 1;
    }
    out
}

} // verus!
