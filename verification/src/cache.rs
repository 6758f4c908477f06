//! Content hashing and the size caps of cached proposals.

use std::collections::hash_map::DefaultHasher;
use std::hash::Hasher;
use vstd::prelude::*;
use vstd::std_specs::hash::DefaultHasherAdditionalSpecFns;
use vstd::utf8::encode_utf8;
use vstd::string::StringSliceAdditionalSpecFns;

use crate::text::{chars_of, hex16, hex_fixed, lines, lines_of};

verus! {

/// Maximum lines per proposal (enforced at storage time).
pub const MAX_LINES: usize = 20;

/// Maximum bytes per proposal (enforced at storage time).
pub const MAX_BYTES: usize = 2048;

/// A cached proposal for a specific code region.
#[derive(Debug, Clone)]
pub struct Proposal {
    /// Row id.
    pub id: i64,
    /// Absolute source file path.
    pub file_path: String,
    /// Region start byte.
    pub byte_start: usize,
    /// Region end byte.
    pub byte_end: usize,
    /// Hash of the region text.
    pub content_hash: String,
    /// Proposed insertion text.
    pub snippet: String,
    /// Label shown to an editor user.
    pub label: String,
    /// Creation time as Unix seconds.
    pub created_at: i64,
}

/// Cache statistics for diagnostics.
#[derive(Debug, Clone)]
pub struct CacheStats {
    /// Number of stored proposals.
    pub total_proposals: usize,
    /// Sum of the snippet lengths.
    pub total_bytes: usize,
    /// Oldest creation time, if any proposal is stored.
    pub oldest_timestamp: Option<i64>,
    /// Newest creation time, if any proposal is stored.
    pub newest_timestamp: Option<i64>,
}

/// The hash of `content`: the `DefaultHasher` digest of its UTF-8 bytes
/// (hashed the way `str` hashes itself: its bytes, then the byte `0xff`),
/// written as sixteen lower-case hexadecimal digits.
pub open spec fn content_hash(content: Seq<char>) -> Seq<char> {
    hex_fixed(
        DefaultHasher::spec_finish(seq![encode_utf8(content), seq![0xffu8]]) as nat,
        16,
    )
}

proof fn lemma_hex_fixed_shape(x: nat, k: nat)
    ensures
        hex_fixed(x, k).len() == k,
        forall|i: int| 0 <= i < k ==> hex_fixed(x, k)[i] != '/',
    decreases k,
{
    if k > 0 {
        lemma_hex_fixed_shape(x / 16, (k - 1) as nat);
    }
}

/// A content hash is sixteen characters, none of them a `/`.
pub proof fn lemma_content_hash_shape(content: Seq<char>)
    ensures
        content_hash(content).len() == 16,
        forall|i: int| 0 <= i < 16 ==> content_hash(content)[i] != '/',
{
    lemma_hex_fixed_shape(DefaultHasher::spec_finish(seq![encode_utf8(content), seq![0xffu8]]) as nat, 16);
}

/// Compute a simple content hash for invalidation.
pub fn compute_hash(content: &str) -> (r: String)
    ensures
        r@ == content_hash(content@),
{
    let mut hasher = DefaultHasher::new();
    hasher.write(content.as_bytes());
    let tail: Vec<u8> = vec![0xffu8];
    assert(tail@ =~= seq![0xffu8]);
    hasher.write(tail.as_slice());
    assert(hasher@ =~= seq![encode_utf8(content@), seq![0xffu8]]);
    let digest = hasher.finish();
    hex16(digest)
}

/// Why a snippet cannot be stored.
#[derive(Debug, Clone, PartialEq, Eq)]
pub enum CapError {
    /// The snippet has more than `MAX_LINES` lines; the count is given.
    TooManyLines(usize),
    /// The snippet has more than `MAX_BYTES` bytes; the count is given.
    TooManyBytes(usize),
}

/// Check a snippet against the storage caps: first the line count, then the byte length.
pub fn check_snippet_caps(snippet: &str) -> (r: Result<(), CapError>)
    ensures
        lines(snippet@).len() > MAX_LINES ==> r == Err::<(), CapError>(
            CapError::TooManyLines(lines(snippet@).len() as usize),
        ),
        lines(snippet@).len() <= MAX_LINES && snippet.spec_bytes().len() > MAX_BYTES ==> r
            == Err::<(), CapError>(CapError::TooManyBytes(snippet.spec_bytes().len() as usize)),
        lines(snippet@).len() <= MAX_LINES && snippet.spec_bytes().len() <= MAX_BYTES ==> r
            is Ok,
{
    let cs = chars_of(snippet);
    let ls = lines_of(cs.as_slice());
    assert(ls@.len() == lines(snippet@).len());
    if ls.len() > MAX_LINES {
        return Err(CapError::TooManyLines(ls.len()));
    }
    let n = snippet.as_bytes().len();
    if n > MAX_BYTES {
        return Err(CapError::TooManyBytes(n));
    }
    Ok(())
}

} // verus!
