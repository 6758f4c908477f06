//! Runtime state diagnostics shared by setup, status, and the dashboard.
//!
//! Whether the lock and port files exist, the pid in the lock, and whether
//! that process runs are read by the caller; this module decides what they
//! mean and how they are reported.

use vstd::prelude::*;

use crate::paths::join_path;
use crate::text::{decimal, decimal_string, join, owned};

verus! {

/// Summary of local runtime health.
#[derive(Debug, Clone)]
pub struct RuntimeHealth {
    /// Runtime directory path.
    pub runtime_dir: String,
    /// Lock file path.
    pub lock_path: String,
    /// Whether the lock file exists.
    pub lock_exists: bool,
    /// PID parsed from the lock file, if any.
    pub lock_pid: Option<u32>,
    /// Whether the lock file points at a missing process or contains invalid data.
    pub stale_lock: bool,
    /// Port file path on Windows loopback mode.
    pub port_file_path: String,
    /// Whether the port file exists.
    pub port_file_exists: bool,
    /// Whether the port file exists but the endpoint is not reachable.
    pub stale_port_file: bool,
    /// Whether the IPC endpoint accepted a connection.
    pub endpoint_reachable: bool,
    /// Human-readable warnings about stale or inconsistent runtime state.
    pub warnings: Vec<String>,
}

/// Whether a lock is stale: it exists and names no pid, or a pid that does
/// not run.
pub open spec fn stale_lock_spec(lock_exists: bool, lock_pid: Option<u32>, pid_running: bool) -> bool {
    lock_exists && match lock_pid {
        Some(_) => !pid_running,
        None => true,
    }
}

/// The warnings of a runtime state, in order: a stale lock, then a lock whose
/// daemon does not answer.
pub open spec fn warnings_spec(
    lock_exists: bool,
    lock_pid: Option<u32>,
    stale: bool,
    endpoint_reachable: bool,
) -> Seq<Seq<char>> {
    (if stale {
        seq![
            match lock_pid {
                Some(pid) => "stale daemon lock: pid "@ + decimal(pid as nat) + " is not running"@,
                None => "stale daemon lock: pid is missing or invalid"@,
            },
        ]
    } else {
        seq![]
    }) + if lock_exists && !endpoint_reachable && !stale {
        seq!["daemon lock exists but IPC endpoint is not reachable"@]
    } else {
        seq![]
    }
}

/// The characters of each string.
pub open spec fn string_seq(v: Seq<String>) -> Seq<Seq<char>> {
    Seq::new(v.len(), |i: int| v[i]@)
}

/// Inspect the runtime state: `lock_exists` and `lock_pid` as read from the
/// lock file under `runtime_dir`, `pid_running` whether that pid runs,
/// `port_file_path` and `port_file_exists` for the loopback port file, and
/// whether the IPC endpoint accepted a connection.
pub fn inspect(
    runtime_dir: &str,
    lock_exists: bool,
    lock_pid: Option<u32>,
    pid_running: bool,
    port_file_path: String,
    port_file_exists: bool,
    endpoint_reachable: bool,
) -> (r: RuntimeHealth)
    ensures
        r.runtime_dir@ == runtime_dir@,
        r.lock_path@ == join_path(runtime_dir@, "daemon.lock"@),
        r.lock_exists == lock_exists,
        r.lock_pid == lock_pid,
        r.stale_lock == stale_lock_spec(lock_exists, lock_pid, pid_running),
        r.port_file_path@ == port_file_path@,
        r.port_file_exists == port_file_exists,
        !r.stale_port_file,
        r.endpoint_reachable == endpoint_reachable,
        string_seq(r.warnings@) == warnings_spec(
            lock_exists,
            lock_pid,
            r.stale_lock,
            endpoint_reachable,
        ),
{
    let stale_lock = lock_exists && match lock_pid {
        Some(_) => !pid_running,
        None => true,
    };
    let mut warnings: Vec<String> = Vec::new();
    if stale_lock {
        match lock_pid {
            Some(pid) => {
                let mut w = owned("stale daemon lock: pid ");
                w.push_str(decimal_string(pid as u64).as_str());
                w.push_str(" is not running");
                warnings.push(w);
            },
            None => {
                warnings.push(owned("stale daemon lock: pid is missing or invalid"));
            },
        }
    }
    if lock_exists && !endpoint_reachable && !stale_lock {
        warnings.push(owned("daemon lock exists but IPC endpoint is not reachable"));
    }
    assert(string_seq(warnings@) =~= warnings_spec(lock_exists, lock_pid, stale_lock, endpoint_reachable));
    RuntimeHealth {
        runtime_dir: owned(runtime_dir),
        lock_path: crate::paths::join(runtime_dir, "daemon.lock"),
        lock_exists,
        lock_pid,
        stale_lock,
        port_file_path,
        port_file_exists,
        stale_port_file: false,
        endpoint_reachable,
        warnings,
    }
}

/// `yes` or `no`.
pub open spec fn yes_no_spec(value: bool) -> Seq<char> {
    if value {
        "yes"@
    } else {
        "no"@
    }
}

/// `yes` or `no`.
pub fn yes_no(value: bool) -> (r: &'static str)
    ensures
        r@ == yes_no_spec(value),
{
    if value {
        "yes"
    } else {
        "no"
    }
}

/// The lines of a diagnostics report.
pub open spec fn report_lines(h: RuntimeHealth) -> Seq<Seq<char>> {
    seq![
        "runtime_dir: "@ + h.runtime_dir@,
        "endpoint_reachable: "@ + yes_no_spec(h.endpoint_reachable),
        "lock_exists: "@ + yes_no_spec(h.lock_exists),
        "lock_pid: "@ + match h.lock_pid {
            Some(pid) => decimal(pid as nat),
            None => "none"@,
        },
        "stale_lock: "@ + yes_no_spec(h.stale_lock),
    ] + if h.warnings@.len() == 0 {
        seq!["warnings: none"@]
    } else {
        seq!["warnings:"@] + Seq::new(h.warnings@.len(), |i: int| "- "@ + h.warnings@[i]@)
    }
}

/// Format a concise diagnostics block for CLI output.
pub fn render_report(health: &RuntimeHealth) -> (r: String)
    ensures
        r@ == join(report_lines(*health), "\n"@),
{
    let mut lines: Vec<String> = Vec::new();
    let mut l = owned("runtime_dir: ");
    l.push_str(health.runtime_dir.as_str());
    lines.push(l);
    let mut l = owned("endpoint_reachable: ");
    l.push_str(yes_no(health.endpoint_reachable));
    lines.push(l);
    let mut l = owned("lock_exists: ");
    l.push_str(yes_no(health.lock_exists));
    lines.push(l);
    let mut l = owned("lock_pid: ");
    match health.lock_pid {
        Some(pid) => l.push_str(decimal_string(pid as u64).as_str()),
        None => l.push_str("none"),
    }
    lines.push(l);
    let mut l = owned("stale_lock: ");
    l.push_str(yes_no(health.stale_lock));
    lines.push(l);
    if health.warnings.len() == 0 {
        lines.push(owned("warnings: none"));
    } else {
        lines.push(owned("warnings:"));
        let mut i: usize = 0;
        while i < health.warnings.len()
            invariant
                i <= health.warnings@.len(),
                health.warnings@.len() > 0,
                string_seq(lines@) == report_lines(*health).take(6 + i),
            decreases health.warnings@.len() - i,
        {
            let mut w = owned("- ");
            w.push_str(health.warnings[i].as_str());
            let ghost rl = report_lines(*health);
            let ghost tail = seq!["warnings:"@] + Seq::new(
                health.warnings@.len(),
                |j: int| "- "@ + health.warnings@[j]@,
            );
            assert(rl.len() == 6 + health.warnings@.len());
            assert(rl[6 + i] == tail[1 + i]);
            assert(tail[1 + i] == "- "@ + health.warnings@[i as int]@);
            let ghost before = lines@;
            lines.push(w);
            assert(string_seq(lines@) =~= string_seq(before).push(rl[6 + i]));
            assert(rl.take(6 + i + 1) =~= rl.take(6 + i).push(rl[6 + i]));
            i = i + 1;
        }
    }
    assert(string_seq(lines@) =~= report_lines(*health));
    join_lines(&lines)
}

/// The strings of `parts` joined with newlines.
pub fn join_lines(parts: &Vec<String>) -> (r: String)
    ensures
        r@ == join(string_seq(parts@), "\n"@),
{
    let mut r = String::new();
    let mut i: usize = 0;
    while i < parts.len()
        invariant
            i <= parts@.len(),
            r@ == join(string_seq(parts@).take(i as int), "\n"@),
        decreases parts@.len() - i,
    {
        let ghost ps = string_seq(parts@);
        assert(ps.take(i + 1).drop_last() =~= ps.take(i as int));
        assert(ps.take(i + 1).last() == parts@[i as int]@);
        let ghost before = r@;
        if i > 0 {
            r.push_str("\n");
        }
        r.push_str(parts[i].as_str());
        proof {
            reveal_strlit("\n");
            if i == 0 {
                assert(r@ =~= join(ps.take(1), "\n"@));
            } else {
                assert(r@ =~= before + "\n"@ + parts@[i as int]@);
            }
        }
        i = i + 1;
    }
    assert(string_seq(parts@).take(parts@.len() as int) =~= string_seq(parts@));
    r
}

} // verus!
