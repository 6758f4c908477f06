//! Line anchoring shared by marks and threads: cursor validation, line
//! lookup, line hashes and reanchoring to the nearest matching line.

use vstd::prelude::*;
use vstd::string::StringSliceAdditionalSpecFns;
use vstd::utf8::{encode_utf8, is_char_boundary};

use crate::cache::{compute_hash, content_hash};
use crate::text::{
    boundary, chars_of, collapse_whitespace, collapse_ws, decimal, decimal_string, join, lines,
    lines_of, owned, string_from_chars, views,
};

verus! {

/// Why a cursor offset does not name a place in a buffer.
#[derive(Debug, Clone, Copy, PartialEq, Eq, Structural)]
pub enum OffsetError {
    /// The offset lies beyond the end of the buffer.
    OutsideContent,
    /// The offset falls inside the UTF-8 encoding of a character.
    NotCharBoundary,
}

/// The message shown to a user for an offset error.
pub open spec fn offset_error_text(e: OffsetError) -> Seq<char> {
    match e {
        OffsetError::OutsideContent => "cursor offset is outside buffer content"@,
        OffsetError::NotCharBoundary => "cursor offset is not a UTF-8 character boundary"@,
    }
}

impl OffsetError {
    /// The message shown to a user for this error.
    pub fn message(&self) -> (r: String)
        ensures
            r@ == offset_error_text(*self),
    {
        match self {
            OffsetError::OutsideContent => crate::text::owned(
                "cursor offset is outside buffer content",
            ),
            OffsetError::NotCharBoundary => crate::text::owned(
                "cursor offset is not a UTF-8 character boundary",
            ),
        }
    }
}

/// What validating `offset` against `content` gives.
pub open spec fn offset_check(content: Seq<char>, offset: int) -> Result<(), OffsetError> {
    if offset > encode_utf8(content).len() {
        Err(OffsetError::OutsideContent)
    } else if !is_char_boundary(encode_utf8(content), offset) {
        Err(OffsetError::NotCharBoundary)
    } else {
        Ok(())
    }
}

/// Check that `offset` is a character boundary of `content`.
pub fn validate_offset(content: &str, offset: usize) -> (r: Result<(), OffsetError>)
    ensures
        r == offset_check(content@, offset as int),
        r is Ok ==> boundary(content, offset as int),
{
    if offset > content.as_bytes().len() {
        return Err(OffsetError::OutsideContent);
    }
    if !content.is_char_boundary(offset) {
        return Err(OffsetError::NotCharBoundary);
    }
    Ok(())
}

/// The text of 1-based line `line` of `content`, as `lines().nth(line - 1)`
/// (line 0 reads as line 1), or nothing past the last line.
pub open spec fn line_text(content: Seq<char>, line: int) -> Option<Seq<char>> {
    let idx = if line <= 0 {
        0
    } else {
        line - 1
    };
    if idx < lines(content).len() {
        Some(lines(content)[idx])
    } else {
        None
    }
}

/// The text of a line, empty when the line does not exist.
pub open spec fn line_text_or_empty(content: Seq<char>, line: int) -> Seq<char> {
    match line_text(content, line) {
        Some(t) => t,
        None => seq![],
    }
}

/// The hash of a line: the content hash of its words joined by single spaces.
pub open spec fn line_hash_spec(line: Seq<char>) -> Seq<char> {
    content_hash(collapse_ws(line))
}

/// The hash of a line.
pub fn line_hash(line: &[char]) -> (r: String)
    ensures
        r@ == line_hash_spec(line@),
{
    let normalized = collapse_whitespace(line);
    let s = string_from_chars(normalized.as_slice());
    compute_hash(s.as_str())
}

/// The text of 1-based line `line` of the characters `cs`.
pub fn line_text_of(ls: &Vec<Vec<char>>, line: usize) -> (r: Vec<char>)
    ensures
        r@ == (if (if line == 0 { 0 } else { line - 1 }) < views(ls@).len() {
            views(ls@)[if line == 0 { 0 } else { line - 1 }]
        } else {
            seq![]
        }),
{
    let idx = if line == 0 {
        0
    } else {
        line - 1
    };
    let mut r: Vec<char> = Vec::new();
    if idx < ls.len() {
        let src = &ls[idx];
        let mut k: usize = 0;
        while k < src.len()
            invariant
                k <= src.len(),
                r@ == src@.take(k as int),
            decreases src.len() - k,
        {
            r.push(src[k]);
            k = k + 1;
            assert(r@ =~= src@.take(k as int));
        }
        assert(r@ =~= src@);
    }
    r
}

/// The distance between two lines.
pub open spec fn dist(a: int, b: int) -> int {
    if a >= b {
        a - b
    } else {
        b - a
    }
}

/// The 1-based line among `hashes` whose hash is `target` and which lies
/// nearest to `current`; of equally near lines, the first. Nothing when no
/// line matches.
pub open spec fn nearest_match(hashes: Seq<Seq<char>>, target: Seq<char>, current: int) -> Option<int>
    decreases hashes.len(),
{
    if hashes.len() == 0 {
        None
    } else {
        let best = nearest_match(hashes.drop_last(), target, current);
        let k = hashes.len() as int;
        if hashes.last() == target {
            match best {
                None => Some(k),
                Some(j) => if dist(k, current) < dist(j, current) {
                    Some(k)
                } else {
                    Some(j)
                },
            }
        } else {
            best
        }
    }
}

/// The line hashes of `content`.
pub open spec fn line_hashes(content: Seq<char>) -> Seq<Seq<char>> {
    lines(content).map_values(|l: Seq<char>| line_hash_spec(l))
}

/// The hash of each line of `content`.
pub fn hashes_of_lines(content: &str) -> (r: Vec<String>)
    ensures
        r@.len() == line_hashes(content@).len(),
        forall|i: int| 0 <= i < r@.len() ==> r@[i]@ == #[trigger] line_hashes(content@)[i],
{
    let cs = chars_of(content);
    let ls = lines_of(cs.as_slice());
    let mut r: Vec<String> = Vec::new();
    let mut i: usize = 0;
    while i < ls.len()
        invariant
            i <= ls.len(),
            views(ls@) == lines(content@),
            r@.len() == i,
            forall|j: int| 0 <= j < i ==> r@[j]@ == #[trigger] line_hashes(content@)[j],
        decreases ls.len() - i,
    {
        let h = line_hash(ls[i].as_slice());
        assert(ls@[i as int]@ == lines(content@)[i as int]);
        r.push(h);
        i = i + 1;
    }
    r
}

/// `nearest_match` over the hashes of `content`.
pub fn nearest_line(content: &str, target: &str, current: usize) -> (r: Option<usize>)
    ensures
        (match r {
            Some(l) => nearest_match(line_hashes(content@), target@, current as int) == Some(l as int),
            None => nearest_match(line_hashes(content@), target@, current as int) is None,
        }),
{
    let hs = hashes_of_lines(content);
    let tc = chars_of(target);
    let ghost all = line_hashes(content@);
    let mut best: Option<usize> = None;
    let mut i: usize = 0;
    while i < hs.len()
        invariant
            i <= hs.len() == all.len(),
            forall|j: int| 0 <= j < hs@.len() ==> hs@[j]@ == #[trigger] all[j],
            tc@ == target@,
            (match best {
                Some(l) => nearest_match(all.take(i as int), target@, current as int) == Some(l as int) && 1 <= l <= i,
                None => nearest_match(all.take(i as int), target@, current as int) is None,
            }),
        decreases hs.len() - i,
    {
        let hc = chars_of(hs[i].as_str());
        assert(all.take(i + 1).drop_last() =~= all.take(i as int));
        assert(all.take(i + 1).last() == all[i as int]);
        if crate::text::chars_eq(hc.as_slice(), tc.as_slice()) {
            let k = i + 1;
            best = match best {
                None => Some(k),
                Some(j) => {
                    let dk = if k >= current {
                        k - current
                    } else {
                        current - k
                    };
                    let dj = if j >= current {
                        j - current
                    } else {
                        current - j
                    };
                    if dk < dj {
                        Some(k)
                    } else {
                        Some(j)
                    }
                },
            };
        }
        i = i + 1;
    }
    assert(all.take(hs.len() as int) =~= all);
    best
}

/// The law of `nearest_match`: what it picks is a matching line, no matching
/// line is nearer to `current`, and every earlier matching line is farther.
/// It picks nothing exactly when no line matches.
pub proof fn lemma_nearest_match(hashes: Seq<Seq<char>>, target: Seq<char>, current: int)
    ensures
        (match nearest_match(hashes, target, current) {
            Some(j) => {
                &&& 1 <= j <= hashes.len()
                &&& hashes[j - 1] == target
                &&& forall|i: int|
                    1 <= i <= hashes.len() && #[trigger] hashes[i - 1] == target ==> dist(j, current)
                        <= dist(i, current)
                &&& forall|i: int|
                    1 <= i < j && #[trigger] hashes[i - 1] == target ==> dist(j, current) < dist(
                        i,
                        current,
                    )
            },
            None => forall|i: int| 1 <= i <= hashes.len() ==> #[trigger] hashes[i - 1] != target,
        }),
    decreases hashes.len(),
{
    if hashes.len() > 0 {
        let prefix = hashes.drop_last();
        lemma_nearest_match(prefix, target, current);
        assert forall|i: int| 1 <= i < hashes.len() implies #[trigger] hashes[i - 1] == prefix[i
            - 1] by {}
    }
}

/// A context line as the prompts show it: its 1-based number, a colon and
/// a space, and its text.
pub open spec fn numbered_line(n: int, text: Seq<char>) -> Seq<char> {
    decimal(n as nat) + ": "@ + text
}

/// The first line of the window of `radius` lines around `line`, as
/// `line.saturating_sub(radius).max(1)`.
pub open spec fn window_start(line: int, radius: int) -> int {
    if line - radius < 1 {
        1
    } else {
        line - radius
    }
}

/// The last line of the window, as `line.saturating_add(radius)`.
pub open spec fn window_end(line: int, radius: int) -> int {
    if line + radius > usize::MAX {
        usize::MAX as int
    } else {
        line + radius
    }
}

/// The numbered lines of `ls` from `lo` through `hi` (1-based), those that exist.
pub open spec fn numbered_lines(ls: Seq<Seq<char>>, lo: int, hi: int) -> Seq<Seq<char>> {
    let top = if hi < ls.len() {
        hi
    } else {
        ls.len() as int
    };
    Seq::new(
        if top >= lo {
            (top - lo + 1) as nat
        } else {
            0
        },
        |i: int| numbered_line(lo + i, ls[lo + i - 1]),
    )
}

/// The lines of `content` within `radius` of `line`, each numbered, joined
/// by newlines.
pub open spec fn nearby(content: Seq<char>, line: int, radius: int) -> Seq<char> {
    join(
        numbered_lines(lines(content), window_start(line, radius), window_end(line, radius)),
        "\n"@,
    )
}

/// The lines of `content` within `radius` of 1-based `line`, numbered.
pub fn nearby_lines(content: &str, line: usize, radius: usize) -> (r: String)
    ensures
        r@ == nearby(content@, line as int, radius as int),
{
    let start: usize = if line < radius || line - radius < 1 {
        1
    } else {
        line - radius
    };
    let end: usize = if line > usize::MAX - radius {
        usize::MAX
    } else {
        line + radius
    };
    let cs = chars_of(content);
    let ls = lines_of(cs.as_slice());
    let top: usize = if end < ls.len() {
        end
    } else {
        ls.len()
    };
    let ghost parts = numbered_lines(views(ls@), start as int, end as int);
    assert(start as int == window_start(line as int, radius as int));
    assert(end as int == window_end(line as int, radius as int));
    let mut out = String::new();
    let count: usize = if top >= start {
        top - start + 1
    } else {
        0
    };
    assert(parts.len() == count);
    let mut k: usize = 0;
    while k < count
        invariant
            1 <= start,
            k <= count,
            count > 0 ==> start + count - 1 == top,
            top <= ls@.len(),
            parts == numbered_lines(views(ls@), start as int, end as int),
            parts.len() == count,
            out@ == join(parts.take(k as int), "\n"@),
        decreases count - k,
    {
        let n = start + k;
        assert(parts.take(k + 1).drop_last() =~= parts.take(k as int));
        assert(parts.take(k + 1).last() == parts[k as int]);
        assert(views(ls@)[n - 1] == ls@[n - 1]@);
        let ghost before = out@;
        if k > 0 {
            out.push_str("\n");
        }
        out.push_str(decimal_string(n as u64).as_str());
        out.push_str(": ");
        out.push_str(string_from_chars(ls[n - 1].as_slice()).as_str());
        proof {
            reveal_strlit("\n");
            reveal_strlit(": ");
            if k == 0 {
                assert(out@ =~= join(parts.take(k + 1), "\n"@));
            } else {
                assert(out@ =~= before + "\n"@ + parts[k as int]);
            }
        }
        k = k + 1;
    }
    assert(parts.take(count as int) =~= parts);
    assert(views(ls@) == lines(content@));
    out
}

} // verus!
