//! Editor-protocol helpers: turning an LSP position into a byte offset and a
//! `file://` URI into a path. Reading and writing LSP frames is the caller's
//! part.

use vstd::prelude::*;
use vstd::string::StringSliceAdditionalSpecFns;
use vstd::utf8::{decode_utf8, encode_utf8, is_char_boundary, valid_utf8};

use crate::text::{
    chars_of, lemma_encode_prefix, lemma_encode_push, owned, utf16_width, utf16_width_of,
    utf8_width_of,
};

verus! {

/// The index in `cs` where line `line` (0-based) starts, scanning from index
/// `k` on line `cur`: right after the `line`-th newline; nothing when there
/// are fewer newlines.
pub open spec fn line_start_from(cs: Seq<char>, k: int, cur: int, line: int) -> Option<int>
    decreases cs.len() - k,
{
    if cur == line {
        Some(k)
    } else if k >= cs.len() || k < 0 {
        None
    } else {
        line_start_from(
            cs,
            k + 1,
            if cs[k] == '\n' {
                cur + 1
            } else {
                cur
            },
            line,
        )
    }
}

/// The UTF-8 length of the first `k` characters of `cs`.
pub open spec fn bytes_before(cs: Seq<char>, k: int) -> int {
    encode_utf8(cs.take(k)).len() as int
}

/// The byte offset of UTF-16 column `character` in the line that starts at
/// index `k` of `cs`, having counted `u` units so far: the offset of the
/// character at that column, or of the line end when the column is the
/// line's length; nothing when the column falls inside a character or past
/// the line end.
pub open spec fn scan_line(cs: Seq<char>, k: int, u: int, character: int) -> Option<int>
    decreases cs.len() - k,
{
    if k < 0 || k >= cs.len() || cs[k] == '\r' || cs[k] == '\n' {
        if u == character {
            Some(bytes_before(cs, k))
        } else {
            None
        }
    } else if u == character {
        Some(bytes_before(cs, k))
    } else if u + utf16_width(cs[k]) > character {
        None
    } else {
        scan_line(cs, k + 1, u + utf16_width(cs[k]), character)
    }
}

/// The byte offset of an LSP position (0-based line, UTF-16 column) in `text`.
pub open spec fn lsp_offset(text: Seq<char>, line: int, character: int) -> Option<int> {
    match line_start_from(text, 0, 0, line) {
        None => None,
        Some(st) => scan_line(text, st, 0, character),
    }
}

/// The byte offset of UTF-16 column `character` in the line starting at
/// character index `start` of `cs`, whose first `start` characters take
/// `start_bytes` bytes.
fn byte_offset_in_line(cs: &Vec<char>, start: usize, start_bytes: usize, character: usize) -> (r: Option<usize>)
    requires
        start <= cs@.len(),
        start_bytes == bytes_before(cs@, start as int),
        encode_utf8(cs@).len() <= usize::MAX,
    ensures
        (match r {
            Some(o) => scan_line(cs@, start as int, 0, character as int) == Some(o as int),
            None => scan_line(cs@, start as int, 0, character as int) is None,
        }),
{
    let mut k: usize = start;
    let mut u: usize = 0;
    let mut bytes: usize = start_bytes;
    while k < cs.len() && cs[k] != '\r' && cs[k] != '\n'
        invariant
            start <= k <= cs@.len(),
            u <= character,
            bytes == bytes_before(cs@, k as int),
            encode_utf8(cs@).len() <= usize::MAX,
            scan_line(cs@, start as int, 0, character as int) == scan_line(
                cs@,
                k as int,
                u as int,
                character as int,
            ),
        decreases cs@.len() - k,
    {
        if u == character {
            return Some(bytes);
        }
        let w = utf16_width_of(cs[k]);
        if w > character - u {
            return None;
        }
        proof {
            assert(cs@.take(k + 1) =~= cs@.take(k as int).push(cs@[k as int]));
            lemma_encode_push(cs@.take(k as int), cs@[k as int]);
            lemma_encode_prefix(cs@, k + 1);
        }
        u = u + w;
        bytes = bytes + utf8_width_of(cs[k]);
        k = k + 1;
    }
    if u == character {
        Some(bytes)
    } else {
        None
    }
}

/// The byte offset of an LSP position (0-based line, UTF-16 column) in `text`,
/// or nothing when the position is not on a character boundary of the text.
pub fn byte_offset_for_lsp_position(text: &str, line: usize, character: usize) -> (r: Option<usize>)
    ensures
        (match r {
            Some(o) => lsp_offset(text@, line as int, character as int) == Some(o as int),
            None => lsp_offset(text@, line as int, character as int) is None,
        }),
{
    let cs = chars_of(text);
    let total = text.as_bytes().len();
    assert(encode_utf8(cs@) == text.spec_bytes());
    let mut cur: usize = 0;
    let mut k: usize = 0;
    let mut bytes: usize = 0;
    assert(cs@.take(0) =~= Seq::<char>::empty());
    while k < cs.len() && cur != line
        invariant
            k <= cs@.len(),
            cur <= line,
            bytes == bytes_before(cs@, k as int),
            encode_utf8(cs@).len() == total,
            line_start_from(cs@, 0, 0, line as int) == line_start_from(
                cs@,
                k as int,
                cur as int,
                line as int,
            ),
        decreases cs@.len() - k,
    {
        proof {
            assert(cs@.take(k + 1) =~= cs@.take(k as int).push(cs@[k as int]));
            lemma_encode_push(cs@.take(k as int), cs@[k as int]);
            lemma_encode_prefix(cs@, k + 1);
        }
        if cs[k] == '\n' {
            cur = cur + 1;
        }
        bytes = bytes + utf8_width_of(cs[k]);
        k = k + 1;
    }
    if cur != line {
        return None;
    }
    byte_offset_in_line(&cs, k, bytes, character)
}

/// The number of newlines in `s`.
pub open spec fn newline_count(s: Seq<char>) -> nat
    decreases s.len(),
{
    if s.len() == 0 {
        0
    } else {
        newline_count(s.drop_last()) + if s.last() == '\n' {
            1nat
        } else {
            0nat
        }
    }
}

proof fn lemma_newline_count_step(s: Seq<char>, k: int)
    requires
        0 <= k < s.len(),
    ensures
        newline_count(s.take(k + 1)) == newline_count(s.take(k)) + if s[k] == '\n' {
            1nat
        } else {
            0nat
        },
{
    assert(s.take(k + 1).drop_last() =~= s.take(k));
}

proof fn lemma_newline_count_grows(s: Seq<char>, k: int, j: int)
    requires
        0 <= k <= j <= s.len(),
    ensures
        newline_count(s.take(k)) <= newline_count(s.take(j)),
    decreases j - k,
{
    if k < j {
        lemma_newline_count_step(s, j - 1);
        lemma_newline_count_grows(s, k, j - 1);
    }
}

proof fn lemma_line_start(text: Seq<char>, k: int, p: int)
    requires
        0 <= k <= p <= text.len(),
        p == 0 || text[p - 1] == '\n',
    ensures
        line_start_from(text, k, newline_count(text.take(k)) as int, newline_count(text.take(p)) as int)
            == Some(p),
    decreases p - k,
{
    if k < p {
        lemma_newline_count_step(text, p - 1);
        lemma_newline_count_grows(text, k, p - 1);
        lemma_newline_count_step(text, k);
        lemma_line_start(text, k + 1, p);
    }
}

/// Every newline starts a new line, blank lines included: at any index `p`
/// that begins a line (the start of the text, or just after a newline), the
/// position on the line numbered by the newlines before `p`, column 0, is the
/// byte offset of `p`, the UTF-8 length of the text before it.
pub proof fn law_lines_start_after_each_newline(text: Seq<char>, p: int)
    requires
        0 <= p <= text.len(),
        p == 0 || text[p - 1] == '\n',
    ensures
        lsp_offset(text, newline_count(text.take(p)) as int, 0) == Some(encode_utf8(text.take(p)).len() as int),
{
    assert(text.take(0) =~= Seq::<char>::empty());
    lemma_line_start(text, 0, p);
}

/// Why a `file://` URI does not give a path.
#[derive(Debug, Clone, Copy, PartialEq, Eq)]
pub enum UriError {
    /// The URI does not start with `file://`.
    UnsupportedScheme,
    /// A `%` is not followed by two more bytes of whole characters.
    EscapeOutOfRange,
    /// The two characters after the `%` at this byte index are not a hex byte.
    EscapeNotHex(usize),
    /// The decoded bytes are not UTF-8.
    InvalidUtf8,
}

impl UriError {
    /// The message shown to a user for this error about `uri`.
    pub fn message(&self, uri: &str) -> (r: String)
        ensures
            r@ == (match self {
                UriError::UnsupportedScheme => "unsupported URI scheme: "@ + uri@,
                UriError::EscapeOutOfRange => "invalid percent escape in URI: "@ + uri@,
                UriError::EscapeNotHex(_) => "invalid percent escape in URI: "@ + uri@,
                UriError::InvalidUtf8 => "invalid UTF-8 in URI"@,
            }),
    {
        match self {
            UriError::UnsupportedScheme => {
                let mut m = owned("unsupported URI scheme: ");
                m.push_str(uri);
                m
            },
            UriError::EscapeOutOfRange => {
                let mut m = owned("invalid percent escape in URI: ");
                m.push_str(uri);
                m
            },
            UriError::EscapeNotHex(_) => {
                let mut m = owned("invalid percent escape in URI: ");
                m.push_str(uri);
                m
            },
            UriError::InvalidUtf8 => owned("invalid UTF-8 in URI"),
        }
    }
}

/// The value of a hexadecimal digit byte.
pub open spec fn hex_value(b: u8) -> Option<u8> {
    if 48 <= b <= 57 {
        Some((b - 48) as u8)
    } else if 97 <= b <= 102 {
        Some((b - 87) as u8)
    } else if 65 <= b <= 70 {
        Some((b - 55) as u8)
    } else {
        None
    }
}

/// The byte two characters after a `%` stand for, as `u8::from_str_radix`
/// with radix 16 reads them: two hex digits, or `+` and one hex digit.
pub open spec fn hex_pair(x: u8, y: u8) -> Option<u8> {
    if x == 43 {
        hex_value(y)
    } else {
        match (hex_value(x), hex_value(y)) {
            (Some(a), Some(b)) => Some((16 * a + b) as u8),
            _ => None,
        }
    }
}

/// The bytes of `b` from index `i` on with each `%` escape decoded.
pub open spec fn percent_from(b: Seq<u8>, i: int) -> Result<Seq<u8>, UriError>
    decreases b.len() - i,
{
    if i < 0 || i >= b.len() {
        Ok(seq![])
    } else if b[i] == 37 {
        if !(i + 3 <= b.len() && is_char_boundary(b, i + 1) && is_char_boundary(b, i + 3)) {
            Err(UriError::EscapeOutOfRange)
        } else {
            match hex_pair(b[i + 1], b[i + 2]) {
                None => Err(UriError::EscapeNotHex(i as usize)),
                Some(v) => match percent_from(b, i + 3) {
                    Ok(r) => Ok(seq![v] + r),
                    Err(e) => Err(e),
                },
            }
        }
    } else {
        match percent_from(b, i + 1) {
            Ok(r) => Ok(seq![b[i]] + r),
            Err(e) => Err(e),
        }
    }
}

/// The value of a hexadecimal digit byte.
fn hex_value_of(b: u8) -> (r: Option<u8>)
    ensures
        r == hex_value(b),
{
    if 48 <= b && b <= 57 {
        Some(b - 48)
    } else if 97 <= b && b <= 102 {
        Some(b - 87)
    } else if 65 <= b && b <= 70 {
        Some(b - 55)
    } else {
        None
    }
}

/// `std::string::String::from_utf8`: the string whose UTF-8 encoding is
/// `bytes` when they are valid UTF-8, nothing otherwise.
#[verifier::external_body]
fn string_from_utf8(bytes: Vec<u8>) -> (r: Option<String>)
    ensures
        (match r {
            Some(s) => valid_utf8(bytes@) && encode_utf8(s@) == bytes@,
            None => !valid_utf8(bytes@),
        }),
{
    String::from_utf8(bytes).ok()
}

/// What decoding the percent escapes of `input` gives: the escapes must be
/// whole and hexadecimal and the result UTF-8.
pub open spec fn percent_outcome(input: Seq<char>) -> Result<Seq<u8>, UriError> {
    match percent_from(encode_utf8(input), 0) {
        Err(e) => Err(e),
        Ok(bs) => if valid_utf8(bs) {
            Ok(bs)
        } else {
            Err(UriError::InvalidUtf8)
        },
    }
}

/// Decode the percent escapes of a URI path.
pub fn percent_decode(input: &str) -> (r: Result<String, UriError>)
    ensures
        (match r {
            Ok(s) => percent_outcome(input@) == Ok::<Seq<u8>, UriError>(encode_utf8(s@)),
            Err(e) => percent_outcome(input@) == Err::<Seq<u8>, UriError>(e),
        }),
{
    let bytes = input.as_bytes();
    let ghost b = bytes@;
    let n = bytes.len();
    let mut out: Vec<u8> = Vec::new();
    let mut idx: usize = 0;
    while idx < n
        invariant
            b == bytes@,
            b == input.spec_bytes(),
            n == b.len(),
            idx <= n,
            (match percent_from(b, 0) {
                Ok(all) => percent_from(b, idx as int) matches Ok(rest) && all == out@ + rest,
                Err(e) => percent_from(b, idx as int) == Err::<Seq<u8>, UriError>(e),
            }),
        decreases n - idx,
    {
        if bytes[idx] == 37u8 {
            if !(n >= 3 && idx <= n - 3 && input.is_char_boundary(idx + 1) && input.is_char_boundary(idx + 3)) {
                return Err(UriError::EscapeOutOfRange);
            }
            let x = bytes[idx + 1];
            let y = bytes[idx + 2];
            let v = if x == 43u8 {
                hex_value_of(y)
            } else {
                match (hex_value_of(x), hex_value_of(y)) {
                    (Some(a), Some(c)) => Some(16 * a + c),
                    _ => None,
                }
            };
            match v {
                None => {
                    return Err(UriError::EscapeNotHex(idx));
                },
                Some(value) => {
                    proof {
                        match percent_from(b, idx as int + 3) {
                            Ok(rest) => {
                                assert(out@.push(value) + rest =~= out@ + (seq![value] + rest));
                            },
                            Err(_) => {},
                        }
                    }
                    out.push(value);
                    idx = idx + 3;
                },
            }
        } else {
            let c = bytes[idx];
            proof {
                match percent_from(b, idx as int + 1) {
                    Ok(rest) => {
                        assert(out@.push(c) + rest =~= out@ + (seq![c] + rest));
                    },
                    Err(_) => {},
                }
            }
            out.push(c);
            idx = idx + 1;
        }
    }
    assert(percent_from(b, n as int) == Ok::<Seq<u8>, UriError>(seq![]));
    assert(out@ + seq![] =~= out@);
    match string_from_utf8(out) {
        Some(s) => Ok(s),
        None => Err(UriError::InvalidUtf8),
    }
}

/// The path named by a `file://` URI, with its percent escapes decoded.
pub open spec fn uri_path_outcome(uri: Seq<char>) -> Result<Seq<u8>, UriError> {
    if uri.len() >= 7 && uri.take(7) == "file://"@ {
        percent_outcome(uri.skip(7))
    } else {
        Err(UriError::UnsupportedScheme)
    }
}

/// The path named by a `file://` URI.
pub fn file_uri_to_path(uri: &str) -> (r: Result<String, UriError>)
    ensures
        (match r {
            Ok(s) => uri_path_outcome(uri@) == Ok::<Seq<u8>, UriError>(encode_utf8(s@)),
            Err(e) => uri_path_outcome(uri@) == Err::<Seq<u8>, UriError>(e),
        }),
{
    let cs = chars_of(uri);
    let prefix = chars_of("file://");
    proof {
        reveal_strlit("file://");
    }
    if cs.len() < 7 || !crate::text::chars_eq(&cs.as_slice()[0..7], prefix.as_slice()) {
        return Err(UriError::UnsupportedScheme);
    }
    let rest = crate::text::string_from_range(cs.as_slice(), 7, cs.len());
    assert(cs@.subrange(7, cs@.len() as int) =~= uri@.skip(7));
    percent_decode(rest.as_str())
}

} // verus!
