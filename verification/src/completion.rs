//! Completion helpers of the daemon methods: labels and names of anchors,
//! placeholder snippets, suggestion filtering, and the cursor context sent
//! for inline generation.

use vstd::prelude::*;
use vstd::string::StringSliceAdditionalSpecFns;
use vstd::utf8::{decode_utf8, encode_utf8, encode_utf8_decode_utf8, is_char_boundary};

use crate::cache::Proposal;
use crate::parser::{AnchorKind, SupportedLanguage};
use crate::rpc::CompletionSuggestion;
use crate::scratch::boundary_at_or_below;
use crate::text::{byte_slice, chars_of, contains_chars, contains_seq, owned, trim, trim_str};

verus! {

/// The marker put at the cursor in inline context.
pub const CURSOR_MARKER: &'static str = "<HARNESSD_CURSOR>";

/// Most bytes of inline context the daemon methods send.
pub const INLINE_CONTEXT_MAX_BYTES: usize = 16384;

/// Most bytes of inline context the autocomplete refresh sends.
pub const REFRESH_CONTEXT_MAX_BYTES: usize = 4096;

/// Longest context summary in a placeholder, in characters.
pub const SUMMARY_MAX_CHARS: usize = 80;

/// The label shown for an anchor kind.
pub open spec fn label_spec(kind: AnchorKind) -> Seq<char> {
    match kind {
        AnchorKind::TodoComment => "Implement TODO"@,
        AnchorKind::FixmeComment => "Fix FIXME"@,
        AnchorKind::TodoMacro => "Replace todo!()"@,
        AnchorKind::UnimplementedMacro => "Replace unimplemented!()"@,
        AnchorKind::EmptyFunctionBody => "Fill empty function"@,
    }
}

/// The label shown for an anchor kind.
pub fn label_for_anchor(kind: AnchorKind) -> (r: &'static str)
    ensures
        r@ == label_spec(kind),
{
    match kind {
        AnchorKind::TodoComment => "Implement TODO",
        AnchorKind::FixmeComment => "Fix FIXME",
        AnchorKind::TodoMacro => "Replace todo!()",
        AnchorKind::UnimplementedMacro => "Replace unimplemented!()",
        AnchorKind::EmptyFunctionBody => "Fill empty function",
    }
}

/// The machine-readable name of an anchor kind.
pub open spec fn kind_name_spec(kind: AnchorKind) -> Seq<char> {
    match kind {
        AnchorKind::TodoComment => "todo_comment"@,
        AnchorKind::FixmeComment => "fixme_comment"@,
        AnchorKind::TodoMacro => "todo_macro"@,
        AnchorKind::UnimplementedMacro => "unimplemented_macro"@,
        AnchorKind::EmptyFunctionBody => "empty_function_body"@,
    }
}

/// The machine-readable name of an anchor kind.
pub fn kind_name(kind: AnchorKind) -> (r: &'static str)
    ensures
        r@ == kind_name_spec(kind),
{
    match kind {
        AnchorKind::TodoComment => "todo_comment",
        AnchorKind::FixmeComment => "fixme_comment",
        AnchorKind::TodoMacro => "todo_macro",
        AnchorKind::UnimplementedMacro => "unimplemented_macro",
        AnchorKind::EmptyFunctionBody => "empty_function_body",
    }
}

/// The display name of a language.
pub open spec fn language_name_spec(language: SupportedLanguage) -> Seq<char> {
    match language {
        SupportedLanguage::Rust => "Rust"@,
        SupportedLanguage::JavaScript => "JavaScript"@,
        SupportedLanguage::TypeScript => "TypeScript"@,
        SupportedLanguage::Tsx => "TSX"@,
        SupportedLanguage::Python => "Python"@,
        SupportedLanguage::Go => "Go"@,
    }
}

/// The display name of a language.
pub fn language_name(language: SupportedLanguage) -> (r: &'static str)
    ensures
        r@ == language_name_spec(language),
{
    match language {
        SupportedLanguage::Rust => "Rust",
        SupportedLanguage::JavaScript => "JavaScript",
        SupportedLanguage::TypeScript => "TypeScript",
        SupportedLanguage::Tsx => "TSX",
        SupportedLanguage::Python => "Python",
        SupportedLanguage::Go => "Go",
    }
}

/// Whether a character is dropped from a context summary.
pub open spec fn summary_drops(c: char) -> bool {
    c == '\r' || c == '\n' || c == '"'
}

/// A context without line breaks and double quotes, at most
/// `SUMMARY_MAX_CHARS` characters of it, or `implement` when nothing is left.
pub open spec fn summary_spec(context: Seq<char>) -> Seq<char> {
    let kept = context.filter(|c: char| !summary_drops(c));
    let s = if kept.len() > SUMMARY_MAX_CHARS {
        kept.take(SUMMARY_MAX_CHARS as int)
    } else {
        kept
    };
    if s.len() == 0 {
        "implement"@
    } else {
        s
    }
}

/// The summary of an anchor's context used in a placeholder.
pub fn summarize_context(context: &str) -> (r: String)
    ensures
        r@ == summary_spec(context@),
{
    let cs = chars_of(context);
    let mut kept: Vec<char> = Vec::new();
    let mut i: usize = 0;
    while i < cs.len()
        invariant
            i <= cs@.len(),
            kept@ == cs@.take(i as int).filter(|c: char| !summary_drops(c)),
        decreases cs@.len() - i,
    {
        let c = cs[i];
        if !(c == '\r' || c == '\n' || c == '"') {
            kept.push(c);
        }
        proof {
            cs@.take(i as int).lemma_filter_push(c, |c: char| !summary_drops(c));
            assert(cs@.take(i + 1) =~= cs@.take(i as int).push(c));
        }
        i = i + 1;
    }
    assert(cs@.take(cs@.len() as int) =~= cs@);
    let n = if kept.len() > SUMMARY_MAX_CHARS {
        SUMMARY_MAX_CHARS
    } else {
        kept.len()
    };
    if n == 0 {
        return owned("implement");
    }
    assert(kept@.subrange(0, kept@.len() as int) =~= kept@);
    crate::text::string_from_range(kept.as_slice(), 0, n)
}

/// The statement that stands in for an implementation in a language.
pub open spec fn placeholder_spec(language: SupportedLanguage, summary: Seq<char>) -> Seq<char> {
    match language {
        SupportedLanguage::Rust => "todo!(\""@ + summary + "\");"@,
        SupportedLanguage::Python => "raise NotImplementedError(\""@ + summary + "\")"@,
        SupportedLanguage::JavaScript | SupportedLanguage::TypeScript | SupportedLanguage::Tsx =>
            "throw new Error(\""@ + summary + "\");"@,
        SupportedLanguage::Go => "panic(\""@ + summary + "\")"@,
    }
}

/// The statement that stands in for an implementation in a language.
pub fn placeholder_statement(language: SupportedLanguage, summary: &str) -> (r: String)
    ensures
        r@ == placeholder_spec(language, summary@),
{
    let (open, close) = match language {
        SupportedLanguage::Rust => ("todo!(\"", "\");"),
        SupportedLanguage::Python => ("raise NotImplementedError(\"", "\")"),
        SupportedLanguage::JavaScript | SupportedLanguage::TypeScript | SupportedLanguage::Tsx => (
            "throw new Error(\"",
            "\");",
        ),
        SupportedLanguage::Go => ("panic(\"", "\")"),
    };
    let mut r = owned(open);
    r.push_str(summary);
    r.push_str(close);
    r
}

/// The placeholder snippet cached for an anchor.
pub open spec fn snippet_spec(
    language: SupportedLanguage,
    comment_prefix: Seq<char>,
    kind: AnchorKind,
    context: Seq<char>,
) -> Seq<char> {
    match kind {
        AnchorKind::TodoComment | AnchorKind::FixmeComment => comment_prefix + " "@ + trim(context)
            + "\n"@ + comment_prefix + " Placeholder generated by harnessd.\n"@ + placeholder_spec(
            language,
            summary_spec(context),
        ),
        AnchorKind::TodoMacro | AnchorKind::UnimplementedMacro => placeholder_spec(
            language,
            summary_spec(context),
        ),
        AnchorKind::EmptyFunctionBody => placeholder_spec(language, "implement function body"@),
    }
}

/// The placeholder snippet cached for an anchor.
pub fn snippet_for_anchor(
    language: SupportedLanguage,
    comment_prefix: &str,
    kind: AnchorKind,
    context: &str,
) -> (r: String)
    ensures
        r@ == snippet_spec(language, comment_prefix@, kind, context@),
{
    match kind {
        AnchorKind::TodoComment | AnchorKind::FixmeComment => {
            let mut r = owned(comment_prefix);
            r.push_str(" ");
            r.push_str(trim_str(context).as_str());
            r.push_str("\n");
            r.push_str(comment_prefix);
            r.push_str(" Placeholder generated by harnessd.\n");
            r.push_str(placeholder_statement(language, summarize_context(context).as_str()).as_str());
            r
        },
        AnchorKind::TodoMacro | AnchorKind::UnimplementedMacro => placeholder_statement(
            language,
            summarize_context(context).as_str(),
        ),
        AnchorKind::EmptyFunctionBody => placeholder_statement(language, "implement function body"),
    }
}

/// A cached proposal offered as a suggestion with `detail`.
pub fn proposal_to_suggestion(proposal: Proposal, detail: &str) -> (r: CompletionSuggestion)
    ensures
        r.label == proposal.label,
        r.insert_text == proposal.snippet,
        r.detail matches Some(d) && d@ == detail@,
        r.documentation is None,
{
    CompletionSuggestion {
        label: proposal.label,
        insert_text: proposal.snippet,
        detail: Some(owned(detail)),
        documentation: None,
    }
}

/// Cached proposals offered as suggestions with `detail`, in order.
pub fn proposals_to_suggestions(proposals: Vec<Proposal>, detail: &str) -> (r: Vec<CompletionSuggestion>)
    ensures
        r@.len() == proposals@.len(),
        forall|i: int|
            0 <= i < r@.len() ==> {
                &&& (#[trigger] r@[i]).label == proposals@[i].label
                &&& r@[i].insert_text == proposals@[i].snippet
                &&& r@[i].detail matches Some(d) && d@ == detail@
                &&& r@[i].documentation is None
            },
{
    let ghost input = proposals@;
    let mut rest = proposals;
    let mut out: Vec<CompletionSuggestion> = Vec::new();
    let mut i: usize = 0;
    let n = rest.len();
    assert(rest@ =~= input.skip(0));
    while i < n
        invariant
            n == input.len(),
            i <= n,
            rest@ == input.skip(i as int),
            out@.len() == i,
            forall|j: int|
                0 <= j < i ==> {
                    &&& (#[trigger] out@[j]).label == input[j].label
                    &&& out@[j].insert_text == input[j].snippet
                    &&& out@[j].detail matches Some(d) && d@ == detail@
                    &&& out@[j].documentation is None
                },
        decreases n - i,
    {
        assert(input.skip(i as int)[0] == input[i as int]);
        let p = rest.remove(0);
        assert(rest@ =~= input.skip(i + 1));
        out.push(proposal_to_suggestion(p, detail));
        i = i + 1;
    }
    out
}

/// Whether a suggestion mentions `prefix` in its label or its text.
pub open spec fn mentions(s: CompletionSuggestion, prefix: Seq<char>) -> bool {
    contains_seq(s.label@, prefix) || contains_seq(s.insert_text@, prefix)
}

/// Keep the suggestions that mention a non-empty `prefix`; with no prefix or
/// an empty one, keep them all.
pub fn apply_prefix_filter(suggestions: &mut Vec<CompletionSuggestion>, prefix: Option<&str>)
    ensures
        (match prefix {
            Some(p) if p@.len() > 0 => final(suggestions)@ == old(suggestions)@.filter(
                |s: CompletionSuggestion| mentions(s, p@),
            ),
            _ => final(suggestions)@ == old(suggestions)@,
        }),
{
    let p = match prefix {
        Some(p) => p,
        None => {
            return;
        },
    };
    if p.is_empty() {
        return;
    }
    let pc = chars_of(p);
    let mut rest: Vec<CompletionSuggestion> = Vec::new();
    std::mem::swap(suggestions, &mut rest);
    let ghost input = rest@;
    let mut kept: Vec<CompletionSuggestion> = Vec::new();
    let n = rest.len();
    let mut i: usize = 0;
    assert(rest@ =~= input.skip(0));
    while i < n
        invariant
            n == input.len(),
            rest@ == input.skip(i as int),
            pc@ == p@,
            i <= n,
            kept@ == input.take(i as int).filter(|s: CompletionSuggestion| mentions(s, p@)),
        decreases n - i,
    {
        assert(input.skip(i as int)[0] == input[i as int]);
        let s = rest.remove(0);
        assert(rest@ =~= input.skip(i + 1));
        let lc = chars_of(s.label.as_str());
        let tc = chars_of(s.insert_text.as_str());
        let keep = contains_chars(lc.as_slice(), pc.as_slice()) || contains_chars(
            tc.as_slice(),
            pc.as_slice(),
        );
        proof {
            input.take(i as int).lemma_filter_push(
                input[i as int],
                |s: CompletionSuggestion| mentions(s, p@),
            );
            assert(input.take(i + 1) =~= input.take(i as int).push(input[i as int]));
        }
        if keep {
            kept.push(s);
        }
        i = i + 1;
    }
    assert(input.take(n as int) =~= input);
    *suggestions = kept;
}

/// The largest character boundary of `text` at or below `offset`.
pub fn previous_char_boundary(text: &str, offset: usize) -> (r: usize)
    ensures
        r == boundary_at_or_below(text.spec_bytes(), offset as int),
{
    let mut o = offset;
    while o > 0 && !text.is_char_boundary(o)
        invariant
            o <= offset,
            boundary_at_or_below(text.spec_bytes(), o as int) == boundary_at_or_below(
                text.spec_bytes(),
                offset as int,
            ),
        decreases o,
    {
        o = o - 1;
    }
    o
}

/// The characters of the bytes `from..to` of `b`.
pub open spec fn piece(b: Seq<u8>, from: int, to: int) -> Seq<char> {
    decode_utf8(b.subrange(from, to))
}

/// The text of bytes `start..end` of `source` with the cursor marker at byte `offset`.
pub open spec fn marked(b: Seq<u8>, start: int, offset: int, end: int) -> Seq<char> {
    piece(b, start, offset) + "<HARNESSD_CURSOR>"@ + piece(b, offset, end)
}

/// The text of `source` from byte `start` to byte `end` with the cursor
/// marker inserted at byte `offset`.
pub fn insert_cursor_marker(source: &str, start: usize, offset: usize, end: usize) -> (r: String)
    requires
        start <= offset <= end,
        crate::text::boundary(source, start as int),
        crate::text::boundary(source, offset as int),
        crate::text::boundary(source, end as int),
    ensures
        r@ == marked(source.spec_bytes(), start as int, offset as int, end as int),
{
    let before = byte_slice(source, start, offset);
    let after = byte_slice(source, offset, end);
    proof {
        encode_utf8_decode_utf8(before@);
        encode_utf8_decode_utf8(after@);
    }
    let mut r = owned(before);
    r.push_str(CURSOR_MARKER);
    r.push_str(after);
    r
}

/// The window of `source` sent around `offset` when no enclosing function
/// fits: about half of `max` bytes before the cursor and the rest after it,
/// cut back to character boundaries, reaching back further when it ends at
/// the end of the source.
pub open spec fn cursor_window(b: Seq<u8>, offset: int, max: int) -> (int, int) {
    let half = max / 2;
    let s0 = if offset >= half {
        offset - half
    } else {
        0
    };
    let e0 = if s0 + max < b.len() {
        s0 + max
    } else {
        b.len() as int
    };
    let s1 = boundary_at_or_below(b, s0);
    let e1 = boundary_at_or_below(b, e0);
    let e2 = if e1 < offset {
        offset
    } else {
        e1
    };
    let s2 = if e2 - s1 < max && e2 == b.len() {
        boundary_at_or_below(
            b,
            if e2 >= max {
                e2 - max
            } else {
                0
            },
        )
    } else {
        s1
    };
    (s2, e2)
}

/// The inline context around `offset`: the enclosing function's text when it
/// has one of at most `max` bytes, else the window around the cursor; the
/// cursor marker stands at the cursor.
pub open spec fn cursor_context_spec(
    b: Seq<u8>,
    offset: int,
    function: Option<(usize, usize)>,
    max: int,
) -> Seq<char> {
    match function {
        Some((fs, fe)) if fe - fs <= max => marked(b, fs as int, offset, fe as int),
        _ => {
            let (s, e) = cursor_window(b, offset, max);
            marked(b, s, offset, e)
        },
    }
}

/// The last character boundary at or below `i` of valid UTF-8 bytes is one,
/// and lies in the bytes and at or below `i`.
pub proof fn lemma_boundary_below(b: Seq<u8>, i: int)
    requires
        vstd::utf8::valid_utf8(b),
        0 <= i,
    ensures
        0 <= boundary_at_or_below(b, i) <= i,
        boundary_at_or_below(b, i) <= b.len(),
        is_char_boundary(b, boundary_at_or_below(b, i)),
    decreases i,
{
    if i > 0 && !is_char_boundary(b, i) {
        lemma_boundary_below(b, i - 1);
    } else if i > 0 {
        assert(i <= b.len()) by {
            if i > b.len() {
                assert(!is_char_boundary(b, i));
            }
        };
    }
}

/// The inline context around a cursor at a character boundary `offset` of
/// `source`; `function` is the byte range of the innermost enclosing
/// function, when there is one.
pub fn inline_cursor_context(
    source: &str,
    offset: usize,
    function: Option<(usize, usize)>,
    max: usize,
) -> (r: String)
    requires
        crate::text::boundary(source, offset as int),
        match function {
            Some((fs, fe)) => fs <= offset <= fe && crate::text::boundary(source, fs as int)
                && crate::text::boundary(source, fe as int),
            None => true,
        },
        source.spec_bytes().len() + max <= usize::MAX,
    ensures
        r@ == cursor_context_spec(source.spec_bytes(), offset as int, function, max as int),
{
    let ghost b = source.spec_bytes();
    proof {
        vstd::utf8::encode_utf8_valid_utf8(source@);
    }
    match function {
        Some((fs, fe)) => {
            if fe - fs <= max {
                return insert_cursor_marker(source, fs, offset, fe);
            }
        },
        None => {},
    }
    let len = source.as_bytes().len();
    let half = max / 2;
    let mut start = if offset >= half {
        offset - half
    } else {
        0
    };
    let mut end = if start + max < len {
        start + max
    } else {
        len
    };
    proof {
        lemma_boundary_below(b, start as int);
        lemma_boundary_below(b, end as int);
    }
    start = previous_char_boundary(source, start);
    end = previous_char_boundary(source, end);
    if end < offset {
        end = offset;
    }
    if end - start < max && end == len {
        let back = if end >= max {
            end - max
        } else {
            0
        };
        proof {
            lemma_boundary_below(b, back as int);
        }
        start = previous_char_boundary(source, back);
    }
    insert_cursor_marker(source, start, offset, end)
}

} // verus!
