//! Daemon request counters and the proposal previews of the status report.
//! The shared cache, parser and clock live with the caller.

use vstd::prelude::*;
use vstd::string::StringSliceAdditionalSpecFns;
use vstd::utf8::{decode_utf8, encode_utf8, encode_utf8_decode_utf8};

use crate::cache::{CacheStats, MAX_BYTES, MAX_LINES, Proposal};
use crate::rpc::{CacheStatus, DaemonMetricsSnapshot, RecentProposal};
use crate::completion::{lemma_boundary_below, previous_char_boundary};
use crate::scratch::boundary_at_or_below;
use crate::text::{byte_slice, chars_of, owned, str_eq, string_from_chars};

verus! {

/// Longest snippet preview, in bytes.
pub const PREVIEW_MAX_BYTES: usize = 96;

/// Request counters of a running daemon.
#[derive(Debug, Clone, Copy, PartialEq, Eq, Structural)]
pub struct DaemonMetrics {
    /// Total number of requests processed.
    pub total_requests: u64,
    /// Number of `complete` requests processed.
    pub complete_requests: u64,
    /// Number of `prefetch` requests processed.
    pub prefetch_requests: u64,
    /// Number of `status` requests processed.
    pub status_requests: u64,
    /// Number of `shutdown` requests processed.
    pub shutdown_requests: u64,
    /// Last request time as Unix seconds, 0 before the first.
    pub last_request_at: u64,
}

/// A counter after one more request, wrapping as an atomic counter does.
pub open spec fn incr(c: u64) -> u64 {
    if c == u64::MAX {
        0
    } else {
        (c + 1) as u64
    }
}

/// One more request on a counter.
fn bump(c: u64) -> (r: u64)
    ensures
        r == incr(c),
{
    if c == u64::MAX {
        0
    } else {
        c + 1
    }
}

/// The counters after a request for `method` at `now`: the total and the
/// method's own counter (for `complete`, `prefetch`, `status` and
/// `shutdown`) go up by one, and the last request time becomes `now`.
pub open spec fn recorded(m: DaemonMetrics, method: Seq<char>, now: u64) -> DaemonMetrics {
    DaemonMetrics {
        total_requests: incr(m.total_requests),
        complete_requests: if method == "complete"@ {
            incr(m.complete_requests)
        } else {
            m.complete_requests
        },
        prefetch_requests: if method == "prefetch"@ {
            incr(m.prefetch_requests)
        } else {
            m.prefetch_requests
        },
        status_requests: if method == "status"@ {
            incr(m.status_requests)
        } else {
            m.status_requests
        },
        shutdown_requests: if method == "shutdown"@ {
            incr(m.shutdown_requests)
        } else {
            m.shutdown_requests
        },
        last_request_at: now,
    }
}

impl DaemonMetrics {
    /// Counters with nothing recorded.
    pub fn new() -> (m: Self)
        ensures
            m.total_requests == 0 && m.complete_requests == 0 && m.prefetch_requests == 0
                && m.status_requests == 0 && m.shutdown_requests == 0 && m.last_request_at == 0,
    {
        DaemonMetrics {
            total_requests: 0,
            complete_requests: 0,
            prefetch_requests: 0,
            status_requests: 0,
            shutdown_requests: 0,
            last_request_at: 0,
        }
    }

    /// Record an incoming method call for diagnostics.
    pub fn record_request(&mut self, method: &str, now: u64)
        ensures
            *final(self) == recorded(*old(self), method@, now),
    {
        proof {
            reveal_strlit("complete");
            reveal_strlit("prefetch");
            reveal_strlit("status");
            reveal_strlit("shutdown");
            assert("complete"@[0] != "prefetch"@[0]);
            assert("complete"@[0] != "shutdown"@[0]);
            assert("prefetch"@[0] != "shutdown"@[0]);
            assert("complete"@ != "prefetch"@);
            assert("complete"@ != "shutdown"@);
            assert("prefetch"@ != "shutdown"@);
            assert("status"@.len() != "complete"@.len());
        }
        self.total_requests = bump(self.total_requests);
        if str_eq(method, "complete") {
            self.complete_requests = bump(self.complete_requests);
        } else if str_eq(method, "prefetch") {
            self.prefetch_requests = bump(self.prefetch_requests);
        } else if str_eq(method, "status") {
            self.status_requests = bump(self.status_requests);
        } else if str_eq(method, "shutdown") {
            self.shutdown_requests = bump(self.shutdown_requests);
        }
        self.last_request_at = now;
    }

    /// The counters as the status report shows them; no last request time
    /// before the first request.
    pub fn snapshot(&self) -> (r: DaemonMetricsSnapshot)
        ensures
            r.total_requests == self.total_requests,
            r.complete_requests == self.complete_requests,
            r.prefetch_requests == self.prefetch_requests,
            r.status_requests == self.status_requests,
            r.shutdown_requests == self.shutdown_requests,
            r.last_request_at == (if self.last_request_at == 0 {
                None
            } else {
                Some(self.last_request_at)
            }),
    {
        DaemonMetricsSnapshot {
            total_requests: self.total_requests,
            complete_requests: self.complete_requests,
            prefetch_requests: self.prefetch_requests,
            status_requests: self.status_requests,
            shutdown_requests: self.shutdown_requests,
            last_request_at: if self.last_request_at == 0 {
                None
            } else {
                Some(self.last_request_at)
            },
        }
    }
}

/// A snippet with carriage returns, newlines and tabs made spaces.
pub open spec fn flattened(s: Seq<char>) -> Seq<char> {
    s.map_values(|c: char| if c == '\r' || c == '\n' || c == '\t' { ' ' } else { c })
}

/// The preview of a snippet: flattened to one line and, when longer than
/// `PREVIEW_MAX_BYTES` bytes, cut at the last character boundary at or
/// below that many bytes.
pub open spec fn snippet_preview(s: Seq<char>) -> Seq<char> {
    let f = flattened(s);
    if encode_utf8(f).len() <= PREVIEW_MAX_BYTES {
        f
    } else {
        decode_utf8(encode_utf8(f).take(boundary_at_or_below(encode_utf8(f), PREVIEW_MAX_BYTES as int)))
    }
}

/// The preview of a snippet.
pub fn summarize_snippet(snippet: &str) -> (r: String)
    ensures
        r@ == snippet_preview(snippet@),
{
    let cs = chars_of(snippet);
    let mut out: Vec<char> = Vec::new();
    let mut i: usize = 0;
    while i < cs.len()
        invariant
            i <= cs@.len(),
            out@ == flattened(cs@.take(i as int)),
        decreases cs@.len() - i,
    {
        let c = cs[i];
        out.push(
            if c == '\r' || c == '\n' || c == '\t' {
                ' '
            } else {
                c
            },
        );
        i = i + 1;
        assert(out@ =~= flattened(cs@.take(i as int)));
    }
    assert(cs@.take(cs@.len() as int) =~= cs@);
    let f = string_from_chars(out.as_slice());
    if f.as_str().as_bytes().len() <= PREVIEW_MAX_BYTES {
        return f;
    }
    proof {
        vstd::utf8::encode_utf8_valid_utf8(f@);
        lemma_boundary_below(encode_utf8(f@), PREVIEW_MAX_BYTES as int);
    }
    let end = previous_char_boundary(f.as_str(), PREVIEW_MAX_BYTES);
    let cut = byte_slice(f.as_str(), 0, end);
    proof {
        encode_utf8_decode_utf8(cut@);
        assert(encode_utf8(f@).subrange(0, end as int) =~= encode_utf8(f@).take(end as int));
    }
    owned(cut)
}

/// How a cached proposal is listed among the recent ones of a status report.
pub fn recent_proposal(p: &Proposal) -> (r: RecentProposal)
    ensures
        r.label == p.label,
        r.file_path == p.file_path,
        r.byte_start == p.byte_start,
        r.byte_end == p.byte_end,
        r.created_at == p.created_at,
        r.snippet_bytes == encode_utf8(p.snippet@).len(),
        r.snippet_preview@ == snippet_preview(p.snippet@),
{
    RecentProposal {
        label: p.label.clone(),
        file_path: p.file_path.clone(),
        byte_start: p.byte_start,
        byte_end: p.byte_end,
        created_at: p.created_at,
        snippet_preview: summarize_snippet(p.snippet.as_str()),
        snippet_bytes: p.snippet.as_str().as_bytes().len(),
    }
}

/// The cache part of a status report: the cache's statistics, the size of
/// its database file, and the bounds proposals are held to.
pub fn cache_status(stats: &CacheStats, db_file_size_bytes: u64) -> (r: CacheStatus)
    ensures
        r.total_proposals == stats.total_proposals,
        r.total_bytes == stats.total_bytes,
        r.db_file_size_bytes == db_file_size_bytes,
        r.oldest_timestamp == stats.oldest_timestamp,
        r.newest_timestamp == stats.newest_timestamp,
        r.max_lines == MAX_LINES,
        r.max_bytes == MAX_BYTES,
{
    CacheStatus {
        total_proposals: stats.total_proposals,
        total_bytes: stats.total_bytes,
        db_file_size_bytes,
        oldest_timestamp: stats.oldest_timestamp,
        newest_timestamp: stats.newest_timestamp,
        max_lines: MAX_LINES,
        max_bytes: MAX_BYTES,
    }
}

} // verus!
