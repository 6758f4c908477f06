//! The single-instance lock file that holds the daemon's pid. Creating,
//! reading and removing the file is the caller's part; this module names the
//! file and reads the pid from its text.

use vstd::prelude::*;

use crate::paths::join_path;
use crate::text::{chars_of, trim, trim_range};

verus! {

/// The lock file held while a daemon runs.
#[derive(Debug, Clone)]
pub struct DaemonLock {
    path: String,
}

/// The path of the lock file under a runtime directory.
pub open spec fn lock_path_spec(runtime_dir: Seq<char>) -> Seq<char> {
    join_path(runtime_dir, "daemon.lock"@)
}

/// The path of the lock file under a runtime directory.
pub fn lock_path(runtime_dir: &str) -> (r: String)
    ensures
        r@ == lock_path_spec(runtime_dir@),
{
    crate::paths::join(runtime_dir, "daemon.lock")
}

impl DaemonLock {
    /// The path of the lock file.
    pub closed spec fn spec_path(&self) -> Seq<char> {
        self.path@
    }

    /// The lock held at the lock file under `runtime_dir`.
    pub fn held_in(runtime_dir: &str) -> (l: Self)
        ensures
            l.spec_path() == lock_path_spec(runtime_dir@),
    {
        DaemonLock { path: lock_path(runtime_dir) }
    }

    /// Path to the lock file (for diagnostics).
    pub fn path(&self) -> (r: &str)
        ensures
            r@ == self.spec_path(),
    {
        self.path.as_str()
    }
}

/// Whether `c` is an ASCII digit.
pub open spec fn is_digit(c: char) -> bool {
    '0' <= c && c <= '9'
}

/// The number the decimal digits `d` spell.
pub open spec fn digits_value(d: Seq<char>) -> nat
    decreases d.len(),
{
    if d.len() == 0 {
        0
    } else {
        digits_value(d.drop_last()) * 10 + ((d.last() as u32) - 48) as nat
    }
}

/// The text of a lock file trimmed and without a leading `+`.
pub open spec fn pid_digits(text: Seq<char>) -> Seq<char> {
    let t = trim(text);
    if t.len() > 0 && t[0] == '+' {
        t.drop_first()
    } else {
        t
    }
}

/// The pid a lock file's text holds, as `text.trim().parse::<u32>()` reads
/// it: an optional `+` and at least one decimal digit, at most `u32::MAX`.
pub open spec fn pid_spec(text: Seq<char>) -> Option<u32> {
    let d = pid_digits(text);
    if d.len() > 0 && (forall|i: int| 0 <= i < d.len() ==> is_digit(#[trigger] d[i]))
        && digits_value(d) <= u32::MAX {
        Some(digits_value(d) as u32)
    } else {
        None
    }
}

proof fn lemma_digits_prefix(d: Seq<char>, k: int)
    requires
        0 <= k <= d.len(),
        forall|i: int| 0 <= i < d.len() ==> is_digit(#[trigger] d[i]),
    ensures
        digits_value(d.take(k)) <= digits_value(d),
    decreases d.len() - k,
{
    if k < d.len() {
        lemma_digits_prefix(d, k + 1);
        assert(d.take(k + 1).drop_last() =~= d.take(k));
    } else {
        assert(d.take(k) =~= d);
    }
}

/// The pid a lock file's text holds, or nothing when it holds none.
pub fn parse_pid(text: &str) -> (r: Option<u32>)
    ensures
        r == pid_spec(text@),
{
    let cs = chars_of(text);
    let (a, b) = trim_range(cs.as_slice());
    let ghost t = trim(text@);
    assert(cs@.subrange(a as int, b as int) == t);
    let start = if a < b && cs[a] == '+' {
        a + 1
    } else {
        a
    };
    let ghost d = cs@.subrange(start as int, b as int);
    assert(d =~= (if t.len() > 0 && t[0] == '+' {
        t.drop_first()
    } else {
        t
    }));
    if start >= b {
        return None;
    }
    let mut value: u64 = 0;
    let mut i: usize = start;
    while i < b
        invariant
            start <= i <= b <= cs@.len(),
            d == cs@.subrange(start as int, b as int),
            d == pid_digits(text@),
            value == digits_value(d.take(i - start)),
            value <= u32::MAX,
            forall|j: int| 0 <= j < i - start ==> is_digit(#[trigger] d[j]),
        decreases b - i,
    {
        let c = cs[i];
        if !('0' <= c && c <= '9') {
            assert(!is_digit(d[i - start]));
            return None;
        }
        assert(d.take(i - start + 1).drop_last() =~= d.take(i - start));
        assert(d.take(i - start + 1).last() == c);
        let next = value * 10 + ((c as u32) - 48) as u64;
        i = i + 1;
        if next > 4294967295 {
            proof {
                assert forall|j: int| 0 <= j < i - start implies is_digit(#[trigger] d[j]) by {}
                if forall|j: int| 0 <= j < d.len() ==> is_digit(#[trigger] d[j]) {
                    lemma_digits_prefix(d, i - start);
                }
            }
            return None;
        }
        value = next;
    }
    assert(d.take(b - start) =~= d);
    Some(value as u32)
}

} // verus!
