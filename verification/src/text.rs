//! Character- and byte-level string helpers shared by the stores.

use vstd::prelude::*;
use vstd::utf8::*;
use vstd::string::*;
use vstd::std_specs::iter::IteratorSpec;

verus! {

broadcast use vstd::string::group_string_axioms;

/// `String::push` appends one character.
pub assume_specification[ String::push ](s: &mut String, ch: char)
    ensures
        final(s)@ == old(s)@.push(ch),
;

/// `String::push_str` appends the characters of a string slice.
pub assume_specification[ String::push_str ](s: &mut String, string: &str)
    ensures
        final(s)@ == old(s)@ + string@,
;

/// An owned copy of `s`.
pub fn owned(s: &str) -> (r: String)
    ensures
        r@ == s@,
{
    s.to_string()
}

/// The characters of `s`, in order.
pub fn chars_of(s: &str) -> (v: Vec<char>)
    ensures
        v@ == s@,
{
    let mut v: Vec<char> = Vec::new();
    let mut it = s.chars();
    loop
        invariant
            v@ + it.remaining() == s@,
            it.decrease() is Some,
        ensures
            v@ == s@,
        decreases it.decrease()->0,
    {
        match it.next() {
            Some(c) => {
                v.push(c);
            },
            None => {
                assert(v@ =~= v@ + it.remaining());
                break;
            },
        }
    }
    v
}

/// A string made of the characters of `cs`.
pub fn string_from_chars(cs: &[char]) -> (r: String)
    ensures
        r@ == cs@,
{
    let mut r = String::new();
    let mut i: usize = 0;
    while i < cs.len()
        invariant
            i <= cs.len(),
            r@ == cs@.take(i as int),
        decreases cs.len() - i,
    {
        r.push(cs[i]);
        i = i + 1;
        assert(r@ =~= cs@.take(i as int));
    }
    assert(cs@.take(i as int) =~= cs@);
    r
}


/// Unicode `White_Space`, the set that `char::is_whitespace` tests.
pub open spec fn is_ws(c: char) -> bool {
    let u = c as u32;
    ||| 0x09 <= u <= 0x0d
    ||| u == 0x20
    ||| u == 0x85
    ||| u == 0xa0
    ||| u == 0x1680
    ||| 0x2000 <= u <= 0x200a
    ||| u == 0x2028
    ||| u == 0x2029
    ||| u == 0x202f
    ||| u == 0x205f
    ||| u == 0x3000
}

/// ASCII control characters, the set that `char::is_ascii_control` tests.
pub open spec fn is_ascii_control(c: char) -> bool {
    (c as u32) < 0x20 || (c as u32) == 0x7f
}

/// `s` without its leading white space.
pub open spec fn trim_start(s: Seq<char>) -> Seq<char>
    decreases s.len(),
{
    if s.len() > 0 && is_ws(s[0]) {
        trim_start(s.drop_first())
    } else {
        s
    }
}

/// `s` without its trailing white space.
pub open spec fn trim_end(s: Seq<char>) -> Seq<char>
    decreases s.len(),
{
    if s.len() > 0 && is_ws(s.last()) {
        trim_end(s.drop_last())
    } else {
        s
    }
}

proof fn lemma_trim_start_suffix(s: Seq<char>, k: int) -> (j: int)
    requires
        0 <= k < s.len(),
        !is_ws(s[k]),
    ensures
        0 <= j <= k,
        trim_start(s) == s.subrange(j, s.len() as int),
    decreases s.len(),
{
    if is_ws(s[0]) {
        let j = lemma_trim_start_suffix(s.drop_first(), k - 1);
        assert(s.drop_first().subrange(j, s.len() - 1) =~= s.subrange(j + 1, s.len() as int));
        j + 1
    } else {
        assert(s.subrange(0, s.len() as int) =~= s);
        0
    }
}

proof fn lemma_trim_end_keeps(t: Seq<char>, k: int)
    requires
        0 <= k < t.len(),
        !is_ws(t[k]),
    ensures
        trim_end(t).len() > k,
    decreases t.len(),
{
    if is_ws(t.last()) {
        lemma_trim_end_keeps(t.drop_last(), k);
    }
}

/// A string with a character that is not white space trims to a non-empty one.
pub proof fn lemma_trim_nonempty(s: Seq<char>, k: int)
    requires
        0 <= k < s.len(),
        !is_ws(s[k]),
    ensures
        trim(s).len() > 0,
{
    let j = lemma_trim_start_suffix(s, k);
    lemma_trim_end_keeps(s.subrange(j, s.len() as int), k - j);
}

/// `s` without leading and trailing white space, as `str::trim` gives it.
pub open spec fn trim(s: Seq<char>) -> Seq<char> {
    trim_end(trim_start(s))
}

/// The first `n` characters of `s`, followed by `...` when `s` is longer than `n`.
pub open spec fn truncate_chars(s: Seq<char>, n: nat) -> Seq<char> {
    if s.len() > n {
        s.take(n as int) + seq!['.', '.', '.']
    } else {
        s
    }
}

/// The characters of an optional string.
pub open spec fn opt_chars(o: Option<String>) -> Option<Seq<char>> {
    match o {
        Some(s) => Some(s@),
        None => None,
    }
}

/// Whether `c` is `char::is_whitespace`.
pub fn char_is_ws(c: char) -> (b: bool)
    ensures
        b == is_ws(c),
{
    let u = c as u32;
    (0x09 <= u && u <= 0x0d) || u == 0x20 || u == 0x85 || u == 0xa0 || u == 0x1680 || (0x2000
        <= u && u <= 0x200a) || u == 0x2028 || u == 0x2029 || u == 0x202f || u == 0x205f || u
        == 0x3000
}

/// Whether any character of `cs` is an ASCII control character.
pub fn has_ascii_control(cs: &[char]) -> (b: bool)
    ensures
        b == exists|i: int| 0 <= i < cs@.len() && is_ascii_control(#[trigger] cs@[i]),
{
    let mut i: usize = 0;
    while i < cs.len()
        invariant
            i <= cs.len(),
            forall|j: int| 0 <= j < i ==> !is_ascii_control(#[trigger] cs@[j]),
        decreases cs.len() - i,
    {
        let u = cs[i] as u32;
        if u < 0x20 || u == 0x7f {
            return true;
        }
        i = i + 1;
    }
    false
}

proof fn lemma_trim_start_skip(s: Seq<char>, i: int)
    requires
        0 <= i < s.len(),
        forall|j: int| 0 <= j <= i ==> is_ws(#[trigger] s[j]),
    ensures
        trim_start(s) == trim_start(s.subrange(i + 1, s.len() as int)),
    decreases i,
{
    if i == 0 {
        assert(s.drop_first() =~= s.subrange(1, s.len() as int));
    } else {
        lemma_trim_start_skip(s, i - 1);
        let t = s.subrange(i, s.len() as int);
        assert(t.drop_first() =~= s.subrange(i + 1, s.len() as int));
        assert(t[0] == s[i]);
    }
}

proof fn lemma_trim_end_skip(s: Seq<char>, e: int)
    requires
        0 < e <= s.len(),
        forall|j: int| e - 1 <= j < s.len() ==> is_ws(#[trigger] s[j]),
    ensures
        trim_end(s) == trim_end(s.subrange(0, e - 1)),
    decreases s.len() - e,
{
    if e == s.len() {
        assert(s.drop_last() =~= s.subrange(0, e - 1));
    } else {
        lemma_trim_end_skip(s, e + 1);
        let t = s.subrange(0, e);
        assert(t.drop_last() =~= s.subrange(0, e - 1));
        assert(t.last() == s[e - 1]);
    }
}

/// The index range of `cs` that `str::trim` keeps.
pub fn trim_range(cs: &[char]) -> (r: (usize, usize))
    ensures
        r.0 <= r.1 <= cs@.len(),
        cs@.subrange(r.0 as int, r.1 as int) == trim(cs@),
{
    let n = cs.len();
    let mut i: usize = 0;
    while i < n && char_is_ws(cs[i])
        invariant
            i <= n == cs@.len(),
            forall|j: int| 0 <= j < i ==> is_ws(#[trigger] cs@[j]),
        decreases n - i,
    {
        i = i + 1;
    }
    proof {
        if i > 0 {
            lemma_trim_start_skip(cs@, i - 1);
        } else {
            assert(cs@.subrange(0, cs@.len() as int) =~= cs@);
        }
        let t = cs@.subrange(i as int, n as int);
        if i < n {
            assert(t[0] == cs@[i as int]);
        }
        assert(trim_start(cs@) == t);
    }
    let ghost t = cs@.subrange(i as int, n as int);
    let mut e: usize = n;
    while e > i && char_is_ws(cs[e - 1])
        invariant
            i <= e <= n == cs@.len(),
            t == cs@.subrange(i as int, n as int),
            forall|j: int| e <= j < n ==> is_ws(#[trigger] cs@[j]),
        decreases e,
    {
        e = e - 1;
    }
    proof {
        let k = e - i;
        if e < n {
            assert forall|j: int| (k + 1) - 1 <= j < t.len() implies is_ws(#[trigger] t[j]) by {
                assert(t[j] == cs@[j + i]);
            }
            lemma_trim_end_skip(t, k + 1);
            assert(t.subrange(0, k) =~= cs@.subrange(i as int, e as int));
        } else {
            assert(t.subrange(0, k) =~= t);
        }
        let u = t.subrange(0, k);
        if k > 0 {
            assert(u.last() == cs@[e - 1]);
        }
        assert(trim_end(u) == u);
    }
    (i, e)
}

/// A string made of `cs[from..to]`.
pub fn string_from_range(cs: &[char], from: usize, to: usize) -> (r: String)
    requires
        from <= to <= cs@.len(),
    ensures
        r@ == cs@.subrange(from as int, to as int),
{
    let mut r = String::new();
    let mut i: usize = from;
    while i < to
        invariant
            from <= i <= to <= cs@.len(),
            r@ == cs@.subrange(from as int, i as int),
        decreases to - i,
    {
        r.push(cs[i]);
        i = i + 1;
        assert(r@ =~= cs@.subrange(from as int, i as int));
    }
    r
}

/// `s` trimmed as `str::trim` does, as a new string.
pub fn trim_str(s: &str) -> (r: String)
    ensures
        r@ == trim(s@),
{
    let cs = chars_of(s);
    let (a, b) = trim_range(cs.as_slice());
    string_from_range(cs.as_slice(), a, b)
}

/// `truncate_chars` on `cs`.
pub fn truncate(cs: &[char], n: usize) -> (r: String)
    ensures
        r@ == truncate_chars(cs@, n as nat),
{
    if cs.len() > n {
        let mut r = string_from_range(cs, 0, n);
        r.push('.');
        r.push('.');
        r.push('.');
        assert(r@ =~= cs@.take(n as int) + seq!['.', '.', '.']);
        r
    } else {
        assert(cs@.subrange(0, cs@.len() as int) =~= cs@);
        string_from_range(cs, 0, cs.len())
    }
}


/// The words of `s`, as `str::split_whitespace` yields them: its maximal runs
/// of characters that are not white space, from left to right.
pub open spec fn words(s: Seq<char>) -> Seq<Seq<char>>
    decreases s.len(),
{
    if s.len() == 0 {
        seq![]
    } else {
        let w = words(s.drop_last());
        let c = s.last();
        if is_ws(c) {
            w
        } else if s.len() > 1 && !is_ws(s[s.len() - 2]) {
            w.update(w.len() - 1, w.last().push(c))
        } else {
            w.push(seq![c])
        }
    }
}

/// The pieces of `parts` joined with `sep` between each two.
pub open spec fn join(parts: Seq<Seq<char>>, sep: Seq<char>) -> Seq<char>
    decreases parts.len(),
{
    if parts.len() == 0 {
        seq![]
    } else if parts.len() == 1 {
        parts[0]
    } else {
        join(parts.drop_last(), sep) + sep + parts.last()
    }
}

/// `split_whitespace().collect::<Vec<_>>().join(" ")`.
pub open spec fn collapse_ws(s: Seq<char>) -> Seq<char> {
    join(words(s), seq![' '])
}

proof fn lemma_words_nonempty(s: Seq<char>)
    ensures
        forall|i: int| 0 <= i < words(s).len() ==> (#[trigger] words(s)[i]).len() > 0,
        s.len() > 0 && !is_ws(s.last()) ==> words(s).len() > 0,
    decreases s.len(),
{
    if s.len() > 0 {
        lemma_words_nonempty(s.drop_last());
        let w = words(s.drop_last());
        if !is_ws(s.last()) && s.len() > 1 && !is_ws(s[s.len() - 2]) {
            assert(s.drop_last().last() == s[s.len() - 2]);
        }
    }
}

proof fn lemma_join_extend_last(parts: Seq<Seq<char>>, sep: Seq<char>, c: char)
    requires
        parts.len() > 0,
    ensures
        join(parts.update(parts.len() - 1, parts.last().push(c)), sep) == join(parts, sep).push(c),
{
    let q = parts.update(parts.len() - 1, parts.last().push(c));
    if parts.len() == 1 {
    } else {
        assert(q.drop_last() =~= parts.drop_last());
        assert(join(q, sep) == join(parts.drop_last(), sep) + sep + parts.last().push(c));
        assert(join(q, sep) =~= join(parts, sep).push(c));
    }
}

/// `collapse_ws` of `cs`.
pub fn collapse_whitespace(cs: &[char]) -> (r: Vec<char>)
    ensures
        r@ == collapse_ws(cs@),
{
    let mut out: Vec<char> = Vec::new();
    let mut i: usize = 0;
    while i < cs.len()
        invariant
            i <= cs.len(),
            out@ == join(words(cs@.take(i as int)), seq![' ']),
            i > 0 && !is_ws(cs@[i - 1]) ==> words(cs@.take(i as int)).len() > 0,
        decreases cs.len() - i,
    {
        let c = cs[i];
        let ghost pre = cs@.take(i as int);
        let ghost cur = cs@.take(i + 1);
        assert(cur.drop_last() =~= pre);
        assert(cur.last() == c);
        if char_is_ws(c) {
        } else if i > 0 && !char_is_ws(cs[i - 1]) {
            assert(cur[cur.len() - 2] == cs@[i - 1]);
            proof {
                lemma_join_extend_last(words(pre), seq![' '], c);
            }
            out.push(c);
        } else {
            proof {
                if i > 0 {
                    assert(cur[cur.len() - 2] == cs@[i - 1]);
                }
                let w = words(pre);
                assert(words(cur) == w.push(seq![c]));
                assert(w.push(seq![c]).drop_last() =~= w);
                if w.len() > 0 {
                    assert(join(w.push(seq![c]), seq![' ']) =~= out@ + seq![' '] + seq![c]);
                } else {
                    assert(join(w.push(seq![c]), seq![' ']) =~= seq![c]);
                }
            }
            if out.len() > 0 {
                out.push(' ');
            } else {
                proof {
                    lemma_words_nonempty(pre);
                    if words(pre).len() > 0 {
                        lemma_join_nonempty(words(pre), seq![' ']);
                    }
                }
            }
            out.push(c);
            assert(out@ =~= join(words(cur), seq![' ']));
        }
        i = i + 1;
    }
    assert(cs@.take(cs@.len() as int) =~= cs@);
    out
}

proof fn lemma_join_nonempty(parts: Seq<Seq<char>>, sep: Seq<char>)
    requires
        parts.len() > 0,
        forall|i: int| 0 <= i < parts.len() ==> (#[trigger] parts[i]).len() > 0,
    ensures
        join(parts, sep).len() > 0,
    decreases parts.len(),
{
    if parts.len() > 1 {
        lemma_join_nonempty(parts.drop_last(), sep);
    }
}


/// The pieces of `s` between its `sep` characters, as `str::split(sep)` yields them.
pub open spec fn split_on(s: Seq<char>, sep: char) -> Seq<Seq<char>>
    decreases s.len(),
{
    if s.len() == 0 {
        seq![seq![]]
    } else {
        let p = split_on(s.drop_last(), sep);
        if s.last() == sep {
            p.push(seq![])
        } else {
            p.update(p.len() - 1, p.last().push(s.last()))
        }
    }
}

/// The pieces of `s` between its `'\n'` characters.
pub open spec fn split_nl(s: Seq<char>) -> Seq<Seq<char>> {
    split_on(s, '\n')
}

/// `l` without one trailing `'\r'`.
pub open spec fn strip_cr(l: Seq<char>) -> Seq<char> {
    if l.len() > 0 && l.last() == '\r' {
        l.drop_last()
    } else {
        l
    }
}

/// The lines of `s`, as `str::lines` yields them: the pieces that a `'\n'`
/// ends, each without one trailing `'\r'`, then the last piece if it is not empty.
pub open spec fn lines(s: Seq<char>) -> Seq<Seq<char>> {
    let p = split_nl(s);
    let n = p.len() - 1;
    Seq::new(n as nat, |i: int| strip_cr(p[i])) + if p[n].len() > 0 {
        seq![p[n]]
    } else {
        seq![]
    }
}

proof fn lemma_split_on_len(s: Seq<char>, sep: char)
    ensures
        split_on(s, sep).len() >= 1,
    decreases s.len(),
{
    if s.len() > 0 {
        lemma_split_on_len(s.drop_last(), sep);
    }
}

/// The pieces of `cs` between its `sep` characters: all but the last, and the last.
pub fn split_chars(cs: &[char], sep: char) -> (r: (Vec<Vec<char>>, Vec<char>))
    ensures
        split_on(cs@, sep) == views(r.0@).push(r.1@),
{
    let mut done: Vec<Vec<char>> = Vec::new();
    let mut cur: Vec<char> = Vec::new();
    let mut i: usize = 0;
    while i < cs.len()
        invariant
            i <= cs.len(),
            split_on(cs@.take(i as int), sep) == views(done@).push(cur@),
        decreases cs.len() - i,
    {
        let c = cs[i];
        let ghost pre = cs@.take(i as int);
        let ghost next = cs@.take(i + 1);
        assert(next.drop_last() =~= pre);
        proof {
            lemma_split_on_len(pre, sep);
        }
        if c == sep {
            let mut old_cur: Vec<char> = Vec::new();
            std::mem::swap(&mut old_cur, &mut cur);
            done.push(old_cur);
            assert(split_on(next, sep) =~= views(done@).push(cur@));
        } else {
            cur.push(c);
            assert(split_on(next, sep) =~= views(done@).push(cur@));
        }
        i = i + 1;
    }
    assert(cs@.take(cs@.len() as int) =~= cs@);
    (done, cur)
}

/// The character sequences that a vector of character vectors holds.
pub open spec fn views(v: Seq<Vec<char>>) -> Seq<Seq<char>> {
    Seq::new(v.len(), |i: int| v[i]@)
}

/// The lines of `cs`, as `str::lines` yields them.
pub fn lines_of(cs: &[char]) -> (r: Vec<Vec<char>>)
    ensures
        views(r@) == lines(cs@),
{
    let (done, cur) = split_chars(cs, '\n');
    let ghost p = split_nl(cs@);
    let mut r: Vec<Vec<char>> = Vec::new();
    let mut j: usize = 0;
    proof {
        lemma_split_on_len(cs@, '\n');
    }
    while j < done.len()
        invariant
            j <= done.len(),
            p == views(done@).push(cur@),
            views(r@) =~= Seq::new(j as nat, |k: int| strip_cr(p[k])),
        decreases done.len() - j,
    {
        let line = &done[j];
        let n = line.len();
        let mut piece: Vec<char> = Vec::new();
        let keep = if n > 0 && line[n - 1] == '\r' {
            n - 1
        } else {
            n
        };
        let mut k: usize = 0;
        while k < keep
            invariant
                k <= keep <= n == line@.len(),
                piece@ == line@.take(k as int),
            decreases keep - k,
        {
            piece.push(line[k]);
            k = k + 1;
            assert(piece@ =~= line@.take(k as int));
        }
        assert(p[j as int] == line@);
        assert(piece@ =~= strip_cr(p[j as int]));
        let ghost before = r@;
        r.push(piece);
        assert(views(r@) =~= views(before).push(strip_cr(p[j as int])));
        j = j + 1;
    }
    proof {
        lemma_split_on_len(cs@, '\n');
    }
    assert(p.len() - 1 == done@.len());
    let ghost before = r@;
    if cur.len() > 0 {
        r.push(cur);
        assert(views(r@) =~= views(before).push(p[p.len() - 1]));
    }
    assert(views(r@) =~= lines(cs@));
    r
}

/// The digit `d` (below 16) in lower-case hexadecimal.
pub open spec fn hex_char(d: nat) -> char {
    if d < 10 {
        (48 + d) as char
    } else {
        (87 + d) as char
    }
}

/// The decimal digits of `n`, as `u64::to_string` writes them.
pub open spec fn decimal(n: nat) -> Seq<char>
    decreases n,
{
    if n < 10 {
        seq![hex_char(n)]
    } else {
        decimal(n / 10).push(hex_char(n % 10))
    }
}

/// The last `k` hexadecimal digits of `x`, most significant first; for a `u64`
/// and `k == 16`, the text that `format!("{:016x}", x)` writes.
pub open spec fn hex_fixed(x: nat, k: nat) -> Seq<char>
    decreases k,
{
    if k == 0 {
        seq![]
    } else {
        hex_fixed(x / 16, (k - 1) as nat).push(hex_char(x % 16))
    }
}

/// The character of the digit `d`.
pub fn hex_digit(d: u64) -> (c: char)
    requires
        d < 16,
    ensures
        c == hex_char(d as nat),
{
    if d == 0 {
        '0'
    } else if d == 1 {
        '1'
    } else if d == 2 {
        '2'
    } else if d == 3 {
        '3'
    } else if d == 4 {
        '4'
    } else if d == 5 {
        '5'
    } else if d == 6 {
        '6'
    } else if d == 7 {
        '7'
    } else if d == 8 {
        '8'
    } else if d == 9 {
        '9'
    } else if d == 10 {
        'a'
    } else if d == 11 {
        'b'
    } else if d == 12 {
        'c'
    } else if d == 13 {
        'd'
    } else if d == 14 {
        'e'
    } else {
        'f'
    }
}

/// `n` in decimal.
pub fn decimal_string(n: u64) -> (r: String)
    ensures
        r@ == decimal(n as nat),
{
    let mut out: Vec<char> = Vec::new();
    let mut q: u64 = n;
    loop
        invariant_except_break
            decimal(n as nat) == decimal(q as nat) + out@,
        ensures
            decimal(n as nat) == out@,
        decreases q,
    {
        if q < 10 {
            let ghost before = out@;
            out.insert(0, hex_digit(q));
            assert(decimal(q as nat) + before =~= out@) by {
                assert(decimal(q as nat) == seq![hex_char(q as nat)]);
            }
            break;
        } else {
            let d = q % 10;
            out.insert(0, hex_digit(d));
            let ghost oq = q;
            q = q / 10;
            assert(decimal(oq as nat) == decimal(q as nat).push(hex_char(d as nat)));
            assert(decimal(n as nat) =~= decimal(q as nat) + out@);
        }
    }
    string_from_chars(out.as_slice())
}

/// `x` as sixteen lower-case hexadecimal digits.
pub fn hex16(x: u64) -> (r: String)
    ensures
        r@ == hex_fixed(x as nat, 16),
{
    let mut out: Vec<char> = Vec::new();
    let mut q: u64 = x;
    let mut k: u64 = 16;
    while k > 0
        invariant
            k <= 16,
            hex_fixed(x as nat, 16) == hex_fixed(q as nat, k as nat) + out@,
        decreases k,
    {
        let d = q % 16;
        out.insert(0, hex_digit(d));
        let ghost oq = q;
        q = q / 16;
        k = k - 1;
        assert(hex_fixed(oq as nat, (k + 1) as nat) == hex_fixed(q as nat, k as nat).push(hex_char(d as nat)));
        assert(hex_fixed(x as nat, 16) =~= hex_fixed(q as nat, k as nat) + out@);
    }
    assert(hex_fixed(q as nat, 0) =~= seq![]);
    assert(out@ =~= hex_fixed(x as nat, 16));
    string_from_chars(out.as_slice())
}

/// The number of times `v` occurs in `b`.
pub open spec fn count_byte(b: Seq<u8>, v: u8) -> nat
    decreases b.len(),
{
    if b.len() == 0 {
        0
    } else {
        count_byte(b.drop_last(), v) + if b.last() == v {
            1nat
        } else {
            0nat
        }
    }
}

/// The 1-based line of byte `offset` in `b`: one more than the `'\n'` bytes before it.
pub open spec fn line_at(b: Seq<u8>, offset: int) -> nat {
    count_byte(b.take(offset), 10u8) + 1
}

/// `line_at` of `s` at `offset`.
pub fn line_at_offset(s: &str, offset: usize) -> (r: usize)
    requires
        offset <= s.spec_bytes().len(),
        offset < usize::MAX,
    ensures
        r == line_at(s.spec_bytes(), offset as int),
{
    let b = s.as_bytes();
    let mut count: usize = 0;
    let mut i: usize = 0;
    while i < offset
        invariant
            i <= offset <= b@.len(),
            b@ == s.spec_bytes(),
            count == count_byte(b@.take(i as int), 10u8),
            count <= i,
        decreases offset - i,
    {
        assert(b@.take(i + 1).drop_last() =~= b@.take(i as int));
        if b[i] == 10u8 {
            count = count + 1;
        }
        i = i + 1;
    }
    count + 1
}


/// Whether byte `i` of `s` starts a character or ends `s`, as `str::is_char_boundary` tests.
pub open spec fn boundary(s: &str, i: int) -> bool {
    0 <= i <= s.spec_bytes().len() && is_char_boundary(s.spec_bytes(), i)
}

proof fn lemma_boundary_in_suffix(b: Seq<u8>, from: int, to: int)
    requires
        valid_utf8(b),
        0 <= from <= to <= b.len(),
        is_char_boundary(b, from),
        is_char_boundary(b, to),
    ensures
        valid_utf8(b.subrange(from, b.len() as int)),
        is_char_boundary(b.subrange(from, b.len() as int), to - from),
{
    let rest = b.subrange(from, b.len() as int);
    valid_utf8_split(b, from);
    if to == b.len() {
        is_char_boundary_start_end_of_seq(rest);
        assert(rest.len() == to - from);
    } else {
        is_char_boundary_iff_not_is_continuation_byte(b, to);
        is_char_boundary_iff_not_is_continuation_byte(rest, to - from);
        assert(rest[to - from] == b[to]);
    }
}

/// The bytes `from..to` of `s`, as `&s[from..to]`.
pub fn byte_slice(s: &str, from: usize, to: usize) -> (r: &str)
    requires
        from <= to,
        boundary(s, from as int),
        boundary(s, to as int),
    ensures
        r.spec_bytes() == s.spec_bytes().subrange(from as int, to as int),
{
    proof {
        encode_utf8_valid_utf8(s@);
        lemma_boundary_in_suffix(s.spec_bytes(), from as int, to as int);
    }
    let (_, rest) = s.split_at(from);
    let (mid, _) = rest.split_at(to - from);
    assert(mid.spec_bytes() =~= s.spec_bytes().subrange(from as int, to as int));
    mid
}

/// Whether `needle` occurs in `hay` starting at index `i`.
pub open spec fn occurs_at(hay: Seq<char>, needle: Seq<char>, i: int) -> bool {
    0 <= i && i + needle.len() <= hay.len() && hay.subrange(i, i + needle.len()) == needle
}

/// Whether `needle` occurs in `hay`, as `str::contains` tests.
pub open spec fn contains_seq(hay: Seq<char>, needle: Seq<char>) -> bool {
    exists|i: int| occurs_at(hay, needle, i)
}

/// Whether `needle` occurs at index `i` of `hay`.
pub fn matches_at(hay: &[char], needle: &[char], i: usize) -> (b: bool)
    ensures
        b == occurs_at(hay@, needle@, i as int),
{
    if i > hay.len() || needle.len() > hay.len() - i {
        return false;
    }
    let mut k: usize = 0;
    while k < needle.len()
        invariant
            k <= needle.len(),
            i + needle.len() <= hay.len(),
            forall|j: int| 0 <= j < k ==> hay@[i + j] == needle@[j],
        decreases needle.len() - k,
    {
        if hay[i + k] != needle[k] {
            assert(hay@.subrange(i as int, i + needle@.len())[k as int] != needle@[k as int]);
            return false;
        }
        k = k + 1;
    }
    assert(hay@.subrange(i as int, i + needle@.len()) =~= needle@);
    true
}

/// Whether `needle` occurs in `hay`.
pub fn contains_chars(hay: &[char], needle: &[char]) -> (b: bool)
    ensures
        b == contains_seq(hay@, needle@),
{
    let mut i: usize = 0;
    loop
        invariant
            i <= hay.len(),
            forall|j: int| 0 <= j < i ==> !occurs_at(hay@, needle@, j),
        ensures
            forall|j: int| 0 <= j <= hay.len() ==> !occurs_at(hay@, needle@, j),
        decreases hay.len() - i,
    {
        if matches_at(hay, needle, i) {
            return true;
        }
        if i == hay.len() {
            break;
        }
        i = i + 1;
    }
    assert forall|j: int| !occurs_at(hay@, needle@, j) by {
        if 0 <= j <= hay@.len() {
        }
    }
    false
}

/// Whether two character slices hold the same characters.
pub fn chars_eq(a: &[char], b: &[char]) -> (r: bool)
    ensures
        r == (a@ == b@),
{
    if a.len() != b.len() {
        return false;
    }
    let r = matches_at(a, b, 0);
    assert(a@.subrange(0, b@.len() as int) =~= a@);
    r
}

/// Whether two strings hold the same characters.
pub fn str_eq(a: &str, b: &str) -> (r: bool)
    ensures
        r == (a@ == b@),
{
    let x = chars_of(a);
    let y = chars_of(b);
    chars_eq(x.as_slice(), y.as_slice())
}

/// The UTF-8 encoding of two strings one after the other is the two encodings
/// one after the other.
pub proof fn lemma_encode_concat(a: Seq<char>, b: Seq<char>)
    ensures
        vstd::utf8::encode_utf8(a + b) == vstd::utf8::encode_utf8(a) + vstd::utf8::encode_utf8(b),
    decreases a.len(),
{
    if a.len() == 0 {
        assert(a + b =~= b);
    } else {
        lemma_encode_concat(a.drop_first(), b);
        assert((a + b).drop_first() =~= a.drop_first() + b);
        assert((a + b)[0] == a[0]);
        assert(vstd::utf8::encode_utf8(a + b) =~= vstd::utf8::encode_scalar(a[0] as u32)
            + vstd::utf8::encode_utf8(a.drop_first() + b));
    }
}

/// The number of UTF-8 bytes of `c`.
pub open spec fn utf8_width(c: char) -> nat {
    if (c as u32) <= 0x7f {
        1
    } else if (c as u32) <= 0x7ff {
        2
    } else if (c as u32) <= 0xffff {
        3
    } else {
        4
    }
}

/// The number of UTF-16 code units of `c`.
pub open spec fn utf16_width(c: char) -> nat {
    if (c as u32) >= 0x10000 {
        2
    } else {
        1
    }
}

/// Appending a character adds its width to the UTF-8 length.
pub proof fn lemma_encode_push(s: Seq<char>, c: char)
    ensures
        vstd::utf8::encode_utf8(s.push(c)).len() == vstd::utf8::encode_utf8(s).len() + utf8_width(c),
{
    lemma_encode_concat(s, seq![c]);
    assert(s.push(c) =~= s + seq![c]);
    vstd::utf8::char_is_scalar(c);
    assert(seq![c].drop_first() =~= Seq::<char>::empty());
    assert(vstd::utf8::encode_utf8(Seq::<char>::empty()) =~= Seq::<u8>::empty());
    assert(seq![c][0] == c);
    assert(vstd::utf8::encode_utf8(seq![c]) == vstd::utf8::encode_scalar(c as u32)
        + vstd::utf8::encode_utf8(seq![c].drop_first()));
    assert(vstd::utf8::encode_utf8(seq![c]) =~= vstd::utf8::encode_scalar(c as u32));
}

/// A prefix never encodes to more bytes than the whole.
pub proof fn lemma_encode_prefix(s: Seq<char>, k: int)
    requires
        0 <= k <= s.len(),
    ensures
        vstd::utf8::encode_utf8(s.take(k)).len() <= vstd::utf8::encode_utf8(s).len(),
{
    lemma_encode_concat(s.take(k), s.skip(k));
    assert(s.take(k) + s.skip(k) =~= s);
}

/// The number of UTF-8 bytes of `c`.
pub fn utf8_width_of(c: char) -> (r: usize)
    ensures
        r == utf8_width(c),
{
    if (c as u32) <= 0x7f {
        1
    } else if (c as u32) <= 0x7ff {
        2
    } else if (c as u32) <= 0xffff {
        3
    } else {
        4
    }
}

/// The number of UTF-16 code units of `c`.
pub fn utf16_width_of(c: char) -> (r: usize)
    ensures
        r == utf16_width(c),
{
    if (c as u32) >= 0x10000 {
        2
    } else {
        1
    }
}

} // verus!
