use harnessd::dashboard::{bool_text, format_duration, format_unix, ipc_ready, shown_endpoint};
use harnessd::state::{summarize_snippet, DaemonMetrics};
use harnessd::cache::{CacheStats, Proposal, MAX_BYTES, MAX_LINES};
use harnessd::state::{cache_status, recent_proposal};

#[test]
fn counts_requests_by_method() {
    let mut m = DaemonMetrics::new();
    m.record_request("complete", 10);
    m.record_request("status", 11);
    m.record_request("other", 12);
    let s = m.snapshot();
    assert_eq!(s.total_requests, 3);
    assert_eq!(s.complete_requests, 1);
    assert_eq!(s.status_requests, 1);
    assert_eq!(s.prefetch_requests, 0);
    assert_eq!(s.last_request_at, Some(12));
    assert_eq!(DaemonMetrics::new().snapshot().last_request_at, None);
}

#[test]
fn previews_snippets_on_one_line() {
    assert_eq!(summarize_snippet("a\nb\tc\r"), "a b c ");
    assert_eq!(summarize_snippet(&"x".repeat(100)).len(), 96);
    // A two-byte character across byte 96 is left out whole.
    let split = format!("{}é tail", "x".repeat(95));
    assert_eq!(summarize_snippet(&split), "x".repeat(95));
    let exact = format!("{}é tail", "x".repeat(94));
    assert_eq!(summarize_snippet(&exact), format!("{}é", "x".repeat(94)));
}

#[test]
fn formats_dashboard_values() {
    assert_eq!(format_duration(3_725), "01h 02m 05s");
    assert_eq!(format_duration(360_000), "100h 00m 00s");
    assert_eq!(format_unix(5), "5s");
    assert_eq!(bool_text(true), "yes");
    assert!(ipc_ready(false, true));
    assert!(!ipc_ready(false, false));
    assert_eq!(shown_endpoint(&None, "/r/daemon.sock"), "/r/daemon.sock");
}

#[test]
fn status_parts() {
    let p = Proposal {
        id: 1,
        file_path: "/w/a.rs".to_string(),
        byte_start: 3,
        byte_end: 9,
        content_hash: "h".to_string(),
        snippet: "a\tb\nc".to_string(),
        label: "L".to_string(),
        created_at: 5,
    };
    let r = recent_proposal(&p);
    assert_eq!(r.snippet_preview, "a b c");
    assert_eq!(r.snippet_bytes, 5);
    assert_eq!((r.byte_start, r.byte_end, r.created_at), (3, 9, 5));
    let stats = CacheStats { total_proposals: 2, total_bytes: 10, oldest_timestamp: Some(1), newest_timestamp: Some(2) };
    let c = cache_status(&stats, 4096);
    assert_eq!((c.total_proposals, c.total_bytes, c.db_file_size_bytes), (2, 10, 4096));
    assert_eq!((c.max_lines, c.max_bytes), (MAX_LINES, MAX_BYTES));
}
