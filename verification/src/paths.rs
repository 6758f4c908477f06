//! Canonical runtime paths and path comparison.

use vstd::prelude::*;

use crate::text::{chars_eq, chars_of, opt_chars, owned, split_chars, split_on, views};

verus! {

/// `base` joined with `rel` as `Path::join` does: `rel` when it is absolute,
/// otherwise `base`, a `'/'` unless `base` is empty or already ends with one, and `rel`.
pub open spec fn join_path(base: Seq<char>, rel: Seq<char>) -> Seq<char> {
    if rel.len() > 0 && rel[0] == '/' {
        rel
    } else if base.len() > 0 && base.last() != '/' {
        base + seq!['/'] + rel
    } else {
        base + rel
    }
}

/// `Path::join` on string paths.
pub fn join(base: &str, rel: &str) -> (r: String)
    ensures
        r@ == join_path(base@, rel@),
{
    let rc = chars_of(rel);
    if rc.len() > 0 && rc[0] == '/' {
        return owned(rel);
    }
    let bc = chars_of(base);
    let mut r = owned(base);
    if bc.len() > 0 && bc[bc.len() - 1] != '/' {
        r.push('/');
    }
    r.push_str(rel);
    r
}

/// Whether the piece at index `i` of a path split on `'/'` names a component:
/// empty pieces never do, and `.` only as the very first piece.
pub open spec fn keeps_piece(p: Seq<char>, i: int) -> bool {
    p.len() > 0 && (p != seq!['.'] || i == 0)
}

/// The named components among `pieces`, in order.
pub open spec fn named_parts(pieces: Seq<Seq<char>>) -> Seq<Seq<char>>
    decreases pieces.len(),
{
    if pieces.len() == 0 {
        seq![]
    } else {
        named_parts(pieces.drop_last()) + if keeps_piece(pieces.last(), pieces.len() - 1) {
            seq![pieces.last()]
        } else {
            seq![]
        }
    }
}

/// The components of a Unix path as `Path::components` yields them: the root
/// (written `/`) when the path starts with `'/'`, then each non-empty piece
/// between separators, where `.` counts only at the very start.
pub open spec fn components(s: Seq<char>) -> Seq<Seq<char>> {
    (if s.len() > 0 && s[0] == '/' {
        seq![seq!['/']]
    } else {
        seq![]
    }) + named_parts(split_on(s, '/'))
}

/// Whether two paths are equal as `Path`s: component by component.
pub open spec fn same_path_spec(a: Seq<char>, b: Seq<char>) -> bool {
    components(a) == components(b)
}

/// The components of `s`.
pub fn path_components(s: &str) -> (r: Vec<Vec<char>>)
    ensures
        views(r@) == components(s@),
{
    let cs = chars_of(s);
    let (done, last) = split_chars(cs.as_slice(), '/');
    let ghost pieces = split_on(s@, '/');
    let mut r: Vec<Vec<char>> = Vec::new();
    if cs.len() > 0 && cs[0] == '/' {
        let mut root: Vec<char> = Vec::new();
        root.push('/');
        assert(root@ =~= seq!['/']);
        r.push(root);
        assert(views(r@) =~= seq![seq!['/']]);
    }
    let ghost prefix = views(r@);
    assert(prefix =~= (if s@.len() > 0 && s@[0] == '/' {
        seq![seq!['/']]
    } else {
        seq![]
    }));
    let mut i: usize = 0;
    while i < done.len()
        invariant
            i <= done.len(),
            pieces == views(done@).push(last@),
            views(r@) =~= prefix + named_parts(pieces.take(i as int)),
        decreases done.len() - i,
    {
        let piece = &done[i];
        let keep = piece.len() > 0 && (!(piece.len() == 1 && piece[0] == '.') || i == 0);
        assert(pieces.take(i + 1).drop_last() =~= pieces.take(i as int));
        assert(pieces.take(i + 1).last() == piece@);
        assert(keep == keeps_piece(piece@, i as int)) by {
            if piece@.len() == 1 && piece@[0] == '.' {
                assert(piece@ =~= seq!['.']);
            }
        }
        if keep {
            let mut copy: Vec<char> = Vec::new();
            let mut k: usize = 0;
            while k < piece.len()
                invariant
                    k <= piece.len(),
                    copy@ == piece@.take(k as int),
                decreases piece.len() - k,
            {
                copy.push(piece[k]);
                k = k + 1;
                assert(copy@ =~= piece@.take(k as int));
            }
            assert(copy@ =~= piece@);
            let ghost before = r@;
            r.push(copy);
            assert(views(r@) =~= views(before).push(piece@));
        }
        i = i + 1;
    }
    let n = done.len();
    assert(pieces.take(n + 1).drop_last() =~= pieces.take(n as int));
    assert(pieces.take(n + 1) =~= pieces);
    let keep = last.len() > 0 && (!(last.len() == 1 && last[0] == '.') || n == 0);
    assert(keep == keeps_piece(last@, n as int)) by {
        if last@.len() == 1 && last@[0] == '.' {
            assert(last@ =~= seq!['.']);
        }
    }
    if keep {
        let ghost before = r@;
        r.push(last);
        assert(views(r@) =~= views(before).push(pieces.last()));
    }
    r
}

/// Whether two vectors of character vectors hold the same sequences.
pub fn seqs_eq(a: &Vec<Vec<char>>, b: &Vec<Vec<char>>) -> (r: bool)
    ensures
        r == (views(a@) == views(b@)),
{
    if a.len() != b.len() {
        assert(views(a@).len() != views(b@).len());
        return false;
    }
    let mut i: usize = 0;
    while i < a.len()
        invariant
            i <= a.len() == b.len(),
            forall|j: int| 0 <= j < i ==> a@[j]@ == b@[j]@,
        decreases a.len() - i,
    {
        if !chars_eq(a[i].as_slice(), b[i].as_slice()) {
            assert(views(a@)[i as int] != views(b@)[i as int]);
            return false;
        }
        i = i + 1;
    }
    assert(views(a@) =~= views(b@));
    true
}

/// Whether two paths are equal as `Path`s.
pub fn same_path(a: &str, b: &str) -> (r: bool)
    ensures
        r == same_path_spec(a@, b@),
{
    let x = path_components(a);
    let y = path_components(b);
    seqs_eq(&x, &y)
}

/// The runtime directory under a home directory: `<home>/.local/share/harnessd`.
pub open spec fn runtime_root(home: Seq<char>) -> Seq<char> {
    join_path(home, ".local/share/harnessd"@)
}

/// The user's home directory, from `dirs::home_dir`.
#[verifier::external_body]
pub(crate) fn home_directory() -> (r: Option<String>)
    ensures
        r matches Some(h) ==> h@.len() > 0,
{
    match dirs::home_dir() {
        Some(path) => Some(path.display().to_string()),
        None => None,
    }
}

/// The runtime directory under `home`.
pub fn runtime_dir_under(home: &str) -> (r: String)
    ensures
        r@ == runtime_root(home@),
{
    join(home, ".local/share/harnessd")
}

/// User data directory for the daemon: `~/.local/share/harnessd`, or nothing
/// when no home directory is known.
pub fn runtime_dir() -> (r: Option<String>)
    ensures
        r matches Some(d) ==> exists|h: Seq<char>| h.len() > 0 && d@ == runtime_root(h),
{
    match home_directory() {
        Some(home) => Some(runtime_dir_under(home.as_str())),
        None => None,
    }
}

/// A file named `name` in the runtime directory, when one is known.
fn runtime_file(name: &str) -> (r: Option<String>)
    ensures
        r matches Some(p) ==> exists|h: Seq<char>| h.len() > 0 && p@ == join_path(runtime_root(h), name@),
{
    match runtime_dir() {
        Some(dir) => Some(join(dir.as_str(), name)),
        None => None,
    }
}

/// IPC socket path for Unix platforms.
pub fn socket_path() -> (r: Option<String>)
    ensures
        r matches Some(p) ==> exists|h: Seq<char>| h.len() > 0 && p@ == join_path(runtime_root(h), "daemon.sock"@),
{
    runtime_file("daemon.sock")
}

/// IPC port file path for loopback mode.
pub fn port_file() -> (r: Option<String>)
    ensures
        r matches Some(p) ==> exists|h: Seq<char>| h.len() > 0 && p@ == join_path(runtime_root(h), "daemon.port"@),
{
    runtime_file("daemon.port")
}

/// Recent project selections used by the dashboard project picker.
pub fn recent_projects_path() -> (r: Option<String>)
    ensures
        r matches Some(p) ==> exists|h: Seq<char>| h.len() > 0 && p@ == join_path(runtime_root(h), "recent-projects.json"@),
{
    runtime_file("recent-projects.json")
}

/// Persistent thread anchors.
pub fn threads_path() -> (r: Option<String>)
    ensures
        r matches Some(p) ==> exists|h: Seq<char>| h.len() > 0 && p@ == join_path(runtime_root(h), "threads.json"@),
{
    runtime_file("threads.json")
}

/// The final component of a path when it names a file or directory, as
/// `Path::file_name` gives it: nothing for an empty path, the root, a path
/// that is only `.`, or one that ends in `..`.
pub open spec fn file_name(p: Seq<char>) -> Option<Seq<char>> {
    let cs = components(p);
    if cs.len() > 0 && cs.last() != seq!['/'] && cs.last() != seq!['.'] && cs.last() != seq![
        '.',
        '.',
    ] {
        Some(cs.last())
    } else {
        None
    }
}

/// `Path::file_name` of a string path.
pub fn file_name_of(p: &str) -> (r: Option<String>)
    ensures
        opt_chars(r) == file_name(p@),
{
    let cs = path_components(p);
    if cs.len() == 0 {
        return None;
    }
    let last = &cs[cs.len() - 1];
    assert(views(cs@).last() == last@);
    let root = chars_of("/");
    let dot = chars_of(".");
    let dots = chars_of("..");
    proof {
        reveal_strlit("/");
        reveal_strlit(".");
        reveal_strlit("..");
        assert(root@ =~= seq!['/']);
        assert(dot@ =~= seq!['.']);
        assert(dots@ =~= seq!['.', '.']);
    }
    if chars_eq(last.as_slice(), root.as_slice()) || chars_eq(last.as_slice(), dot.as_slice())
        || chars_eq(last.as_slice(), dots.as_slice()) {
        return None;
    }
    Some(crate::text::string_from_chars(last.as_slice()))
}

/// The index of the last `.` in `n`.
pub open spec fn last_dot(n: Seq<char>) -> Option<int>
    decreases n.len(),
{
    if n.len() == 0 {
        None
    } else if n.last() == '.' {
        Some(n.len() - 1)
    } else {
        last_dot(n.drop_last())
    }
}

/// The extension of a path as `Path::extension` gives it: what follows the
/// last `.` of its file name, unless that `.` starts the name.
pub open spec fn extension(p: Seq<char>) -> Option<Seq<char>> {
    match file_name(p) {
        None => None,
        Some(n) => match last_dot(n) {
            None => None,
            Some(i) => if i == 0 {
                None
            } else {
                Some(n.subrange(i + 1, n.len() as int))
            },
        },
    }
}

/// `Path::extension` of a string path.
pub fn extension_of(p: &str) -> (r: Option<String>)
    ensures
        opt_chars(r) == extension(p@),
{
    let fname = file_name_of(p);
    let name = match fname {
        None => {
            return None;
        },
        Some(n) => n,
    };
    let cs = chars_of(name.as_str());
    assert(file_name(p@) == Some(cs@));
    let mut i: usize = cs.len();
    assert(cs@.take(cs@.len() as int) =~= cs@);
    while i > 0
        invariant
            i <= cs@.len(),
            file_name(p@) == Some(cs@),
            last_dot(cs@) == last_dot(cs@.take(i as int)),
        decreases i,
    {
        if cs[i - 1] == '.' {
            assert(cs@.take(i as int).last() == cs@[i - 1]);
            assert(last_dot(cs@) == Some(i - 1));
            if i == 1 {
                return None;
            }
            return Some(crate::text::string_from_range(cs.as_slice(), i, cs.len()));
        }
        assert(cs@.take(i as int).drop_last() =~= cs@.take(i - 1));
        i = i - 1;
    }
    None
}

} // verus!
