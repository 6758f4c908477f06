//! The snapshot the terminal dashboard renders and its number formats.
//! Collecting the facts (files, the daemon's status reply) is the caller's
//! part.

use vstd::prelude::*;

use crate::rpc::{CacheStatus, RecentProposal, StatusResult};
use crate::runtime::RuntimeHealth;
use crate::scratch::padded;
use crate::runtime::yes_no_spec;
use crate::text::{chars_of, decimal, decimal_string, owned, truncate, truncate_chars};

verus! {

/// Combined local and remote status data rendered by the dashboard.
#[derive(Debug, Clone)]
pub struct DashboardSnapshot {
    /// Time the snapshot was collected, as Unix seconds.
    pub collected_at: u64,
    /// Runtime directory path.
    pub runtime_dir: String,
    /// Lock file path.
    pub lock_path: String,
    /// Whether the daemon lock file exists.
    pub lock_exists: bool,
    /// PID parsed from the lock file, if any.
    pub daemon_pid: Option<u32>,
    /// IPC endpoint path or address.
    pub ipc_endpoint: String,
    /// Whether the IPC endpoint accepted a connection.
    pub ipc_ready: bool,
    /// Local cache database path.
    pub cache_db_path: String,
    /// Whether the cache database exists.
    pub cache_db_exists: bool,
    /// Local cache database file size in bytes.
    pub cache_db_size_bytes: u64,
    /// Cache statistics obtained locally if the database exists.
    pub local_cache: Option<CacheStatus>,
    /// Daemon-reported status if the daemon answered a request.
    pub remote_status: Option<StatusResult>,
    /// Most recent collection error, typically a connect issue.
    pub error: Option<String>,
    /// Local runtime health for stale-state reporting.
    pub runtime_health: RuntimeHealth,
}

/// Whether the dashboard shows the endpoint as ready: the daemon answered
/// the status request, or a connection was accepted.
pub fn ipc_ready(remote_answered: bool, can_connect: bool) -> (r: bool)
    ensures
        r == (remote_answered || can_connect),
{
    remote_answered || can_connect
}

/// The endpoint the dashboard shows: the one the daemon reports, else the
/// local one.
pub fn shown_endpoint(remote: &Option<StatusResult>, local: &str) -> (r: String)
    ensures
        r@ == (match remote {
            Some(s) => s.ipc_endpoint@,
            None => local@,
        }),
{
    match remote {
        Some(s) => s.ipc_endpoint.clone(),
        None => owned(local),
    }
}

/// A duration as `HHh MMm SSs`.
pub open spec fn duration_text(seconds: u64) -> Seq<char> {
    padded((seconds / 3600) as nat, 2) + "h "@ + padded(((seconds % 3600) / 60) as nat, 2) + "m "@
        + padded((seconds % 60) as nat, 2) + "s"@
}

/// A duration as `HHh MMm SSs`.
pub fn format_duration(seconds: u64) -> (r: String)
    ensures
        r@ == duration_text(seconds),
{
    let mut r = crate::scratch::pad_number(seconds / 3600, 2);
    r.push_str("h ");
    r.push_str(crate::scratch::pad_number((seconds % 3600) / 60, 2).as_str());
    r.push_str("m ");
    r.push_str(crate::scratch::pad_number(seconds % 60, 2).as_str());
    r.push_str("s");
    r
}

/// A Unix time as seconds with an `s`.
pub fn format_unix(timestamp: u64) -> (r: String)
    ensures
        r@ == decimal(timestamp as nat) + "s"@,
{
    let mut r = decimal_string(timestamp);
    r.push_str("s");
    r
}

/// `yes` or `no`.
pub fn bool_text(value: bool) -> (r: String)
    ensures
        r@ == crate::runtime::yes_no_spec(value),
{
    owned(crate::runtime::yes_no(value))
}

/// The state the dashboard's overview shows.
#[derive(Debug, Clone, Copy, PartialEq, Eq, Structural)]
pub enum Overview {
    /// The daemon answered and reports no warning.
    Online,
    /// The daemon answered with runtime warnings.
    Warning,
    /// No answer, and the runtime files look stale.
    StaleState,
    /// No answer, but a lock file is present.
    Degraded,
    /// No daemon.
    Offline,
}

/// The overview state of a snapshot.
pub open spec fn overview_spec(s: DashboardSnapshot) -> Overview {
    if s.remote_status is Some {
        if s.runtime_health.warnings@.len() == 0 {
            Overview::Online
        } else {
            Overview::Warning
        }
    } else if s.runtime_health.warnings@.len() > 0 {
        Overview::StaleState
    } else if s.lock_exists {
        Overview::Degraded
    } else {
        Overview::Offline
    }
}

impl Overview {
    /// The overview state of a snapshot.
    pub fn of(s: &DashboardSnapshot) -> (r: Overview)
        ensures
            r == overview_spec(*s),
    {
        if s.remote_status.is_some() {
            if s.runtime_health.warnings.len() == 0 {
                Overview::Online
            } else {
                Overview::Warning
            }
        } else if s.runtime_health.warnings.len() > 0 {
            Overview::StaleState
        } else if s.lock_exists {
            Overview::Degraded
        } else {
            Overview::Offline
        }
    }

    /// The word shown for this state.
    pub fn label(self) -> (r: &'static str)
        ensures
            r@ == (match self {
                Overview::Online => "ONLINE"@,
                Overview::Warning => "WARNING"@,
                Overview::StaleState => "STALE STATE"@,
                Overview::Degraded => "DEGRADED"@,
                Overview::Offline => "OFFLINE"@,
            }),
    {
        match self {
            Overview::Online => "ONLINE",
            Overview::Warning => "WARNING",
            Overview::StaleState => "STALE STATE",
            Overview::Degraded => "DEGRADED",
            Overview::Offline => "OFFLINE",
        }
    }
}

/// One line of a dashboard panel.
#[derive(Debug, Clone, PartialEq, Eq)]
pub enum PanelLine {
    /// A label and its value.
    Field(String, String),
    /// Plain text.
    Text(String),
    /// Text to notice.
    Warning(String),
    /// Emphasized text.
    Strong(String),
    /// An empty line.
    Blank,
}

/// A panel line, as text.
pub enum LineView {
    /// A label and its value.
    Field(Seq<char>, Seq<char>),
    /// Plain text.
    Text(Seq<char>),
    /// Text to notice.
    Warning(Seq<char>),
    /// Emphasized text.
    Strong(Seq<char>),
    /// An empty line.
    Blank,
}

impl View for PanelLine {
    type V = LineView;

    open spec fn view(&self) -> LineView {
        match self {
            PanelLine::Field(l, v) => LineView::Field(l@, v@),
            PanelLine::Text(t) => LineView::Text(t@),
            PanelLine::Warning(t) => LineView::Warning(t@),
            PanelLine::Strong(t) => LineView::Strong(t@),
            PanelLine::Blank => LineView::Blank,
        }
    }
}

/// The text of each line.
pub open spec fn line_views(v: Seq<PanelLine>) -> Seq<LineView> {
    v.map_values(|l: PanelLine| l@)
}

/// A Unix time as shown.
pub open spec fn unix_text(t: u64) -> Seq<char> {
    decimal(t as nat) + "s"@
}

/// The daemon pid a snapshot shows.
pub open spec fn pid_text(s: DashboardSnapshot) -> Seq<char> {
    match s.remote_status {
        Some(st) => decimal(st.pid as nat),
        None => match s.daemon_pid {
            Some(p) => decimal(p as nat),
            None => "not running"@,
        },
    }
}

/// The daemon panel: pid, lock, endpoint and warning count; then the start
/// time and uptime when the daemon answered, else the collection error.
pub open spec fn daemon_spec(s: DashboardSnapshot) -> Seq<LineView> {
    seq![
        LineView::Field("Daemon PID"@, pid_text(s)),
        LineView::Field("Lock file"@, yes_no_spec(s.lock_exists)),
        LineView::Field("IPC ready"@, yes_no_spec(s.ipc_ready)),
        LineView::Field("Runtime warnings"@, decimal(s.runtime_health.warnings@.len())),
    ] + match s.remote_status {
        Some(st) => seq![
            LineView::Field("Started"@, unix_text(st.started_at)),
            LineView::Field("Uptime"@, duration_text(st.uptime_secs)),
        ],
        None => match s.error {
            Some(e) => seq![LineView::Blank, LineView::Warning(truncate_chars(e@, 96))],
            None => Seq::empty(),
        },
    }
}

fn field(label: &str, value: String) -> (r: PanelLine)
    ensures
        r@ == LineView::Field(label@, value@),
{
    PanelLine::Field(owned(label), value)
}

/// The lines of the daemon panel.
pub fn daemon_lines(s: &DashboardSnapshot) -> (r: Vec<PanelLine>)
    ensures
        line_views(r@) == daemon_spec(*s),
{
    let pid = match &s.remote_status {
        Some(st) => decimal_string(st.pid as u64),
        None => match s.daemon_pid {
            Some(p) => decimal_string(p as u64),
            None => owned("not running"),
        },
    };
    let mut r: Vec<PanelLine> = Vec::new();
    r.push(field("Daemon PID", pid));
    r.push(field("Lock file", bool_text(s.lock_exists)));
    r.push(field("IPC ready", bool_text(s.ipc_ready)));
    r.push(field("Runtime warnings", decimal_string(s.runtime_health.warnings.len() as u64)));
    match &s.remote_status {
        Some(st) => {
            r.push(field("Started", format_unix(st.started_at)));
            r.push(field("Uptime", format_duration(st.uptime_secs)));
        },
        None => match &s.error {
            Some(e) => {
                r.push(PanelLine::Blank);
                r.push(PanelLine::Warning(truncate(chars_of(e.as_str()).as_slice(), 96)));
            },
            None => {},
        },
    }
    proof {
        reveal_strlit("not running");
        assert(line_views(r@) =~= daemon_spec(*s));
    }
    r
}

/// The cache the dashboard shows: the daemon's, else the local one.
pub open spec fn shown_cache_spec(s: DashboardSnapshot) -> Option<CacheStatus> {
    match s.remote_status {
        Some(st) => Some(st.cache),
        None => s.local_cache,
    }
}

/// The cache the dashboard shows.
pub fn shown_cache(s: &DashboardSnapshot) -> (r: Option<&CacheStatus>)
    ensures
        (match r {
            Some(c) => shown_cache_spec(*s) == Some(*c),
            None => shown_cache_spec(*s) is None,
        }),
{
    match &s.remote_status {
        Some(st) => Some(&st.cache),
        None => match &s.local_cache {
            Some(c) => Some(c),
            None => None,
        },
    }
}

/// The cache panel, with the sizes already written out: whether the
/// database exists and its size; with a cache to show, its proposal count,
/// payload size, caps and newest entry.
pub open spec fn cache_spec(s: DashboardSnapshot, db_size: Seq<char>, payload_size: Seq<char>) -> Seq<LineView> {
    seq![LineView::Field("DB exists"@, yes_no_spec(s.cache_db_exists)), LineView::Field("DB size"@, db_size)]
        + match shown_cache_spec(s) {
        Some(c) => seq![
            LineView::Field("Proposals"@, decimal(c.total_proposals as nat)),
            LineView::Field("Payload size"@, payload_size),
            LineView::Field(
                "Caps"@,
                decimal(c.max_lines as nat) + " lines / "@ + decimal(c.max_bytes as nat) + " bytes"@,
            ),
            LineView::Field(
                "Newest entry"@,
                match c.newest_timestamp {
                    Some(t) => unix_text(t as u64),
                    None => "none"@,
                },
            ),
        ],
        None => Seq::empty(),
    }
}

/// The lines of the cache panel; `db_size` and `payload_size` are the
/// database's and the shown cache's byte counts as written for people.
pub fn cache_lines(s: &DashboardSnapshot, db_size: String, payload_size: String) -> (r: Vec<PanelLine>)
    ensures
        line_views(r@) == cache_spec(*s, db_size@, payload_size@),
{
    let mut r: Vec<PanelLine> = Vec::new();
    r.push(field("DB exists", bool_text(s.cache_db_exists)));
    r.push(field("DB size", db_size));
    match shown_cache(s) {
        Some(c) => {
            r.push(field("Proposals", decimal_string(c.total_proposals as u64)));
            r.push(field("Payload size", payload_size));
            let mut caps = decimal_string(c.max_lines as u64);
            caps.push_str(" lines / ");
            caps.push_str(decimal_string(c.max_bytes as u64).as_str());
            caps.push_str(" bytes");
            r.push(field("Caps", caps));
            let newest = match c.newest_timestamp {
                Some(t) => format_unix(t as u64),
                None => owned("none"),
            };
            r.push(field("Newest entry", newest));
        },
        None => {},
    }
    proof {
        assert(line_views(r@) =~= cache_spec(*s, db_size@, payload_size@));
    }
    r
}

/// The request counters panel, or a note when the daemon did not answer.
pub open spec fn metrics_spec(s: DashboardSnapshot) -> Seq<LineView> {
    match s.remote_status {
        Some(st) => seq![
            LineView::Field("Total requests"@, decimal(st.metrics.total_requests as nat)),
            LineView::Field("complete()"@, decimal(st.metrics.complete_requests as nat)),
            LineView::Field("prefetch()"@, decimal(st.metrics.prefetch_requests as nat)),
            LineView::Field("status()"@, decimal(st.metrics.status_requests as nat)),
            LineView::Field("shutdown()"@, decimal(st.metrics.shutdown_requests as nat)),
            LineView::Field(
                "Last request"@,
                match st.metrics.last_request_at {
                    Some(t) => unix_text(t),
                    None => "none"@,
                },
            ),
        ],
        None => seq![LineView::Text("Metrics are available once the daemon answers `status`."@)],
    }
}

/// The lines of the request counters panel.
pub fn metrics_lines(s: &DashboardSnapshot) -> (r: Vec<PanelLine>)
    ensures
        line_views(r@) == metrics_spec(*s),
{
    let mut r: Vec<PanelLine> = Vec::new();
    match &s.remote_status {
        Some(st) => {
            let m = &st.metrics;
            r.push(field("Total requests", decimal_string(m.total_requests)));
            r.push(field("complete()", decimal_string(m.complete_requests)));
            r.push(field("prefetch()", decimal_string(m.prefetch_requests)));
            r.push(field("status()", decimal_string(m.status_requests)));
            r.push(field("shutdown()", decimal_string(m.shutdown_requests)));
            let last = match m.last_request_at {
                Some(t) => format_unix(t),
                None => owned("none"),
            };
            r.push(field("Last request", last));
        },
        None => {
            r.push(PanelLine::Text(owned("Metrics are available once the daemon answers `status`.")));
        },
    }
    proof {
        assert(line_views(r@) =~= metrics_spec(*s));
    }
    r
}

/// The paths panel.
pub open spec fn paths_spec(s: DashboardSnapshot) -> Seq<LineView> {
    seq![
        LineView::Field("Runtime dir"@, s.runtime_dir@),
        LineView::Field("IPC endpoint"@, s.ipc_endpoint@),
        LineView::Field("Lock path"@, s.lock_path@),
        LineView::Field("Cache DB"@, s.cache_db_path@),
    ]
}

/// The lines of the paths panel.
pub fn paths_lines(s: &DashboardSnapshot) -> (r: Vec<PanelLine>)
    ensures
        line_views(r@) == paths_spec(*s),
{
    let mut r: Vec<PanelLine> = Vec::new();
    r.push(field("Runtime dir", s.runtime_dir.clone()));
    r.push(field("IPC endpoint", s.ipc_endpoint.clone()));
    r.push(field("Lock path", s.lock_path.clone()));
    r.push(field("Cache DB", s.cache_db_path.clone()));
    proof {
        assert(line_views(r@) =~= paths_spec(*s));
    }
    r
}

/// The three lines of one recent proposal: its label, range and file; its
/// time and preview; a blank line.
pub open spec fn proposal_spec(p: RecentProposal) -> Seq<LineView> {
    seq![
        LineView::Strong(
            p.label@ + "  ["@ + decimal(p.byte_start as nat) + ".."@ + decimal(p.byte_end as nat) + "]  "@
                + p.file_path@,
        ),
        LineView::Text(unix_text(p.created_at as u64) + "  "@ + truncate_chars(p.snippet_preview@, 110)),
        LineView::Blank,
    ]
}

/// The lines of recent proposals, in order.
pub open spec fn proposals_spec(ps: Seq<RecentProposal>) -> Seq<LineView>
    decreases ps.len(),
{
    if ps.len() == 0 {
        Seq::empty()
    } else {
        proposals_spec(ps.drop_last()) + proposal_spec(ps.last())
    }
}

/// The recent proposals panel.
pub open spec fn recent_spec(s: DashboardSnapshot) -> Seq<LineView> {
    match s.remote_status {
        Some(st) => if st.recent_proposals@.len() == 0 {
            seq![LineView::Text("No cached proposals yet."@)]
        } else {
            proposals_spec(st.recent_proposals@)
        },
        None => seq![LineView::Text("Recent proposal previews require a live daemon connection."@)],
    }
}

fn proposal_lines(p: &RecentProposal, r: &mut Vec<PanelLine>)
    ensures
        line_views(final(r)@) == line_views(old(r)@) + proposal_spec(*p),
{
    let mut head = p.label.clone();
    head.push_str("  [");
    head.push_str(decimal_string(p.byte_start as u64).as_str());
    head.push_str("..");
    head.push_str(decimal_string(p.byte_end as u64).as_str());
    head.push_str("]  ");
    head.push_str(p.file_path.as_str());
    let mut second = format_unix(p.created_at as u64);
    second.push_str("  ");
    second.push_str(truncate(chars_of(p.snippet_preview.as_str()).as_slice(), 110).as_str());
    let ghost before = r@;
    r.push(PanelLine::Strong(head));
    r.push(PanelLine::Text(second));
    r.push(PanelLine::Blank);
    proof {
        assert(line_views(r@) =~= line_views(before) + proposal_spec(*p));
    }
}

/// The lines of the recent proposals panel.
pub fn recent_lines(s: &DashboardSnapshot) -> (r: Vec<PanelLine>)
    ensures
        line_views(r@) == recent_spec(*s),
{
    let mut r: Vec<PanelLine> = Vec::new();
    match &s.remote_status {
        Some(st) => {
            let ps = &st.recent_proposals;
            if ps.len() == 0 {
                r.push(PanelLine::Text(owned("No cached proposals yet.")));
                proof {
                    assert(line_views(r@) =~= recent_spec(*s));
                }
                return r;
            }
            let mut i: usize = 0;
            assert(line_views(r@) =~= proposals_spec(ps@.take(0)));
            while i < ps.len()
                invariant
                    i <= ps@.len(),
                    line_views(r@) == proposals_spec(ps@.take(i as int)),
                decreases ps@.len() - i,
            {
                assert(ps@.take(i + 1).drop_last() =~= ps@.take(i as int));
                proposal_lines(&ps[i], &mut r);
                i = i + 1;
            }
            assert(ps@.take(ps@.len() as int) =~= ps@);
        },
        None => {
            r.push(PanelLine::Text(owned("Recent proposal previews require a live daemon connection.")));
            proof {
                assert(line_views(r@) =~= recent_spec(*s));
            }
        },
    }
    r
}

/// The warnings of the help panel: each of the first three, cut at 100
/// characters.
pub open spec fn warning_views(w: Seq<String>) -> Seq<LineView> {
    w.map_values(|x: String| LineView::Warning(truncate_chars(x@, 100)))
}

/// The help panel: the keys, then the first three runtime warnings, else
/// the collection error, else a note on polling.
pub open spec fn help_spec(s: DashboardSnapshot) -> Seq<LineView> {
    let w = s.runtime_health.warnings@;
    seq![
        LineView::Text("q / Esc  quit + teardown"@),
        LineView::Text("r        refresh now"@),
        LineView::Blank,
    ] + if w.len() > 0 {
        warning_views(if w.len() > 3 {
            w.take(3)
        } else {
            w
        })
    } else {
        match s.error {
            Some(e) => seq![LineView::Warning(truncate_chars(e@, 100))],
            None => seq![LineView::Text("Polling every second."@)],
        }
    }
}

/// The lines of the help panel.
pub fn help_lines(s: &DashboardSnapshot) -> (r: Vec<PanelLine>)
    ensures
        line_views(r@) == help_spec(*s),
{
    let mut r: Vec<PanelLine> = Vec::new();
    r.push(PanelLine::Text(owned("q / Esc  quit + teardown")));
    r.push(PanelLine::Text(owned("r        refresh now")));
    r.push(PanelLine::Blank);
    let ghost head = line_views(r@);
    let w = &s.runtime_health.warnings;
    if w.len() > 0 {
        let n: usize = if w.len() > 3 {
            3
        } else {
            w.len()
        };
        let ghost shown = if w@.len() > 3 {
            w@.take(3)
        } else {
            w@
        };
        assert(shown =~= w@.take(n as int));
        let mut i: usize = 0;
        while i < n
            invariant
                n <= w@.len(),
                shown == w@.take(n as int),
                i <= n,
                line_views(r@) == head + warning_views(w@.take(i as int)),
            decreases n - i,
        {
            let ghost before = r@;
            r.push(PanelLine::Warning(truncate(chars_of(w[i].as_str()).as_slice(), 100)));
            proof {
                assert(w@.take(i + 1) =~= w@.take(i as int).push(w@[i as int]));
                assert(line_views(r@) =~= line_views(before).push(LineView::Warning(truncate_chars(w@[i as int]@, 100))));
                assert(warning_views(w@.take(i + 1)) =~= warning_views(w@.take(i as int)).push(
                    LineView::Warning(truncate_chars(w@[i as int]@, 100)),
                ));
            }
            i = i + 1;
        }
    } else {
        match &s.error {
            Some(e) => {
                r.push(PanelLine::Warning(truncate(chars_of(e.as_str()).as_slice(), 100)));
            },
            None => {
                r.push(PanelLine::Text(owned("Polling every second.")));
            },
        }
    }
    proof {
        assert(line_views(r@) =~= help_spec(*s));
    }
    r
}

} // verus!
