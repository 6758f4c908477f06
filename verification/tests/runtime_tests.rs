use harnessd::daemon_lock::{lock_path, parse_pid, DaemonLock};
use harnessd::runtime::{inspect, render_report, yes_no};

#[test]
fn reports_healthy_runtime() {
    let h = inspect("/r", true, Some(12), true, "/r/daemon.port".to_string(), false, true);
    assert!(!h.stale_lock);
    assert!(h.warnings.is_empty());
    assert_eq!(h.lock_path, "/r/daemon.lock");
    assert_eq!(
        render_report(&h),
        "runtime_dir: /r\nendpoint_reachable: yes\nlock_exists: yes\nlock_pid: 12\nstale_lock: no\nwarnings: none"
    );
}

#[test]
fn warns_about_stale_and_unreachable_locks() {
    let h = inspect("/r", true, Some(12), false, String::new(), false, false);
    assert!(h.stale_lock);
    assert_eq!(h.warnings, vec!["stale daemon lock: pid 12 is not running".to_string()]);
    let h = inspect("/r", true, None, true, String::new(), false, true);
    assert_eq!(h.warnings, vec!["stale daemon lock: pid is missing or invalid".to_string()]);
    let h = inspect("/r", true, Some(3), true, String::new(), false, false);
    assert!(!h.stale_lock);
    assert_eq!(
        render_report(&h),
        "runtime_dir: /r\nendpoint_reachable: no\nlock_exists: yes\nlock_pid: 3\nstale_lock: no\nwarnings:\n- daemon lock exists but IPC endpoint is not reachable"
    );
    let h = inspect("/r", false, None, false, String::new(), false, false);
    assert!(!h.stale_lock);
    assert!(h.warnings.is_empty());
    assert_eq!(yes_no(false), "no");
}

#[test]
fn reads_pids_like_str_parse() {
    assert_eq!(parse_pid("  1234\n"), Some(1234));
    assert_eq!(parse_pid("+7"), Some(7));
    assert_eq!(parse_pid("4294967295"), Some(u32::MAX));
    assert_eq!(parse_pid("4294967296"), None);
    assert_eq!(parse_pid("-1"), None);
    assert_eq!(parse_pid(""), None);
    assert_eq!(parse_pid("+"), None);
    assert_eq!(parse_pid("12a"), None);
    assert_eq!(lock_path("/r"), "/r/daemon.lock");
    assert_eq!(DaemonLock::held_in("/r").path(), "/r/daemon.lock");
}
