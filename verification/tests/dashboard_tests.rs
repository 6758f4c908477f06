use harnessd::dashboard::{
    cache_lines, daemon_lines, help_lines, metrics_lines, paths_lines, recent_lines, DashboardSnapshot, Overview,
    PanelLine,
};
use harnessd::rpc::{CacheStatus, DaemonMetricsSnapshot, RecentProposal, StatusResult};
use harnessd::runtime::RuntimeHealth;

fn health(warnings: Vec<&str>) -> RuntimeHealth {
    RuntimeHealth {
        runtime_dir: "/r".to_string(),
        lock_path: "/r/daemon.lock".to_string(),
        lock_exists: false,
        lock_pid: None,
        stale_lock: false,
        port_file_path: "/r/daemon.port".to_string(),
        port_file_exists: false,
        stale_port_file: false,
        endpoint_reachable: false,
        warnings: warnings.into_iter().map(|w| w.to_string()).collect(),
    }
}

fn cache() -> CacheStatus {
    CacheStatus {
        total_proposals: 4,
        total_bytes: 120,
        db_file_size_bytes: 8192,
        oldest_timestamp: Some(10),
        newest_timestamp: Some(20),
        max_lines: 200,
        max_bytes: 4096,
    }
}

fn status(proposals: Vec<RecentProposal>) -> StatusResult {
    StatusResult {
        pid: 77,
        runtime_dir: "/r".to_string(),
        ipc_endpoint: "/r/daemon.sock".to_string(),
        cache_db_path: "/r/cache.sqlite3".to_string(),
        started_at: 1000,
        uptime_secs: 3725,
        metrics: DaemonMetricsSnapshot {
            total_requests: 9,
            complete_requests: 5,
            prefetch_requests: 2,
            status_requests: 1,
            shutdown_requests: 1,
            last_request_at: Some(1500),
        },
        cache: cache(),
        runtime: health(vec![]),
        recent_proposals: proposals,
    }
}

fn snapshot(remote: Option<StatusResult>, warnings: Vec<&str>, lock_exists: bool) -> DashboardSnapshot {
    DashboardSnapshot {
        collected_at: 2000,
        runtime_dir: "/r".to_string(),
        lock_path: "/r/daemon.lock".to_string(),
        lock_exists,
        daemon_pid: None,
        ipc_endpoint: "/r/daemon.sock".to_string(),
        ipc_ready: false,
        cache_db_path: "/r/cache.sqlite3".to_string(),
        cache_db_exists: true,
        cache_db_size_bytes: 8192,
        local_cache: None,
        remote_status: remote,
        error: Some("connection refused".to_string()),
        runtime_health: health(warnings),
    }
}

fn field(label: &str, value: &str) -> PanelLine {
    PanelLine::Field(label.to_string(), value.to_string())
}

fn text(t: &str) -> PanelLine {
    PanelLine::Text(t.to_string())
}

#[test]
fn overview_follows_daemon_and_warnings() {
    assert_eq!(Overview::of(&snapshot(Some(status(vec![])), vec![], false)).label(), "ONLINE");
    assert_eq!(Overview::of(&snapshot(Some(status(vec![])), vec!["w"], false)).label(), "WARNING");
    assert_eq!(Overview::of(&snapshot(None, vec!["w"], true)).label(), "STALE STATE");
    assert_eq!(Overview::of(&snapshot(None, vec![], true)).label(), "DEGRADED");
    assert_eq!(Overview::of(&snapshot(None, vec![], false)).label(), "OFFLINE");
}

#[test]
fn daemon_panel_with_and_without_daemon() {
    let online = daemon_lines(&snapshot(Some(status(vec![])), vec![], true));
    assert_eq!(
        online,
        vec![
            field("Daemon PID", "77"),
            field("Lock file", "yes"),
            field("IPC ready", "no"),
            field("Runtime warnings", "0"),
            field("Started", "1000s"),
            field("Uptime", "01h 02m 05s"),
        ]
    );
    let offline = daemon_lines(&snapshot(None, vec!["a", "b"], false));
    assert_eq!(
        offline,
        vec![
            field("Daemon PID", "not running"),
            field("Lock file", "no"),
            field("IPC ready", "no"),
            field("Runtime warnings", "2"),
            PanelLine::Blank,
            PanelLine::Warning("connection refused".to_string()),
        ]
    );
}

#[test]
fn cache_panel_prefers_daemon_cache() {
    let lines = cache_lines(&snapshot(Some(status(vec![])), vec![], false), "8.0 KB".to_string(), "120 B".to_string());
    assert_eq!(
        lines,
        vec![
            field("DB exists", "yes"),
            field("DB size", "8.0 KB"),
            field("Proposals", "4"),
            field("Payload size", "120 B"),
            field("Caps", "200 lines / 4096 bytes"),
            field("Newest entry", "20s"),
        ]
    );
    let none = cache_lines(&snapshot(None, vec![], false), "0 B".to_string(), "0 B".to_string());
    assert_eq!(none, vec![field("DB exists", "yes"), field("DB size", "0 B")]);
}

#[test]
fn metrics_and_paths_panels() {
    let m = metrics_lines(&snapshot(Some(status(vec![])), vec![], false));
    assert_eq!(m[0], field("Total requests", "9"));
    assert_eq!(m[1], field("complete()", "5"));
    assert_eq!(m[5], field("Last request", "1500s"));
    assert_eq!(m.len(), 6);
    assert_eq!(
        metrics_lines(&snapshot(None, vec![], false)),
        vec![text("Metrics are available once the daemon answers `status`.")]
    );
    let p = paths_lines(&snapshot(None, vec![], false));
    assert_eq!(p[1], field("IPC endpoint", "/r/daemon.sock"));
    assert_eq!(p[3], field("Cache DB", "/r/cache.sqlite3"));
}

#[test]
fn recent_panel_lists_proposals() {
    let p = RecentProposal {
        label: "fn main".to_string(),
        file_path: "/w/a.rs".to_string(),
        byte_start: 3,
        byte_end: 9,
        created_at: 42,
        snippet_preview: "x".repeat(120),
        snippet_bytes: 120,
    };
    let lines = recent_lines(&snapshot(Some(status(vec![p])), vec![], false));
    assert_eq!(lines.len(), 3);
    assert_eq!(lines[0], PanelLine::Strong("fn main  [3..9]  /w/a.rs".to_string()));
    assert_eq!(lines[1], PanelLine::Text(format!("42s  {}...", "x".repeat(110))));
    assert_eq!(lines[2], PanelLine::Blank);
    assert_eq!(recent_lines(&snapshot(Some(status(vec![])), vec![], false)), vec![text("No cached proposals yet.")]);
    assert_eq!(
        recent_lines(&snapshot(None, vec![], false)),
        vec![text("Recent proposal previews require a live daemon connection.")]
    );
}

#[test]
fn help_panel_shows_three_warnings_at_most() {
    let h = help_lines(&snapshot(None, vec!["w1", "w2", "w3", "w4"], false));
    assert_eq!(h.len(), 6);
    assert_eq!(h[0], text("q / Esc  quit + teardown"));
    assert_eq!(h[5], PanelLine::Warning("w3".to_string()));
    let e = help_lines(&snapshot(None, vec![], false));
    assert_eq!(e[3], PanelLine::Warning("connection refused".to_string()));
    let mut quiet = snapshot(None, vec![], false);
    quiet.error = None;
    assert_eq!(help_lines(&quiet)[3], text("Polling every second."));
}
