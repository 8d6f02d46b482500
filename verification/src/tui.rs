//! The dashboard: what it knows, and what it shows of it.

pub mod show;

use vstd::prelude::*;
use crate::telemetry::{
    bucket_of, clock_stamp, clock_text, event_impacts_health, field, field_is,
    field_or, get_field, get_field_or, get_flag, get_number, impacts_health, link_from_target,
    link_of, number_in, recent_event_suffix, route_bucket_for_event, traffic_sample_is_aggregate,
    EventView, RouteBucket, RouteStats, TraceEvent,
};
use crate::telemetry::hub::TrafficState;
use crate::telemetry::snapshot::{
    add_traffic, append_recent_domain_ip, counted_again, counts, counts_in_history, default_detail,
    detail_with_ip, event_line, happening, is_failure, merge_recent_domain_detail, merged_detail,
    lemma_moved_on, no_traffic, only_if, put_first, recent_domain_default_detail, rotate_history, rotated,
    seconds_between, shows_traffic, with_traffic, DashboardSnapshot, Happening, MonitorContext,
    RecentTargetSnapshot, RecentView, HISTORY_LEN, RECENT_EVENTS, RECENT_TARGETS,
};
use crate::text::{cat, cat3, contains, has, opt_view, same, views};

verus! {

/// How wide what is said of a name is at least.
pub const RECENT_DOMAIN_STATUS_WIDTH: usize = 9;

/// How wide the name of a route is.
pub const ROUTE_STAT_LABEL_WIDTH: usize = 9;

/// How many pictures the spinner has.
pub const SPINNER_LEN: usize = 10;

// ---------------------------------------------------------------------------
// Types

/// What a dashboard is about.
#[derive(Debug)]
pub struct DashboardContext {
    pub command_label: String,
    pub mode_label: String,
    pub traffic_state: TrafficState,
    pub listen: Option<String>,
    pub upstream: Option<String>,
    pub path: Option<String>,
    pub log_file: String,
    pub log_filter: String,
    pub log_timezone_offset_secs: i32,
}

/// What a dashboard is about.
#[verifier::ext_equal]
pub struct ContextView {
    pub command_label: Seq<char>,
    pub mode_label: Seq<char>,
    pub traffic_state: TrafficState,
    pub listen: Option<Seq<char>>,
    pub upstream: Option<Seq<char>>,
    pub path: Option<Seq<char>>,
    pub log_file: Seq<char>,
    pub log_filter: Seq<char>,
    pub log_timezone_offset_secs: i32,
}

impl View for DashboardContext {
    type V = ContextView;

    open spec fn view(&self) -> ContextView {
        ContextView {
            command_label: self.command_label@,
            mode_label: self.mode_label@,
            traffic_state: self.traffic_state,
            listen: opt_view(self.listen),
            upstream: opt_view(self.upstream),
            path: opt_view(self.path),
            log_file: self.log_file@,
            log_filter: self.log_filter@,
            log_timezone_offset_secs: self.log_timezone_offset_secs,
        }
    }
}

/// What a dashboard on something that is watched is about.
pub open spec fn context_of(c: MonitorContext) -> ContextView {
    ContextView {
        command_label: c.command_label@,
        mode_label: c.mode_label@,
        traffic_state: c.traffic_state,
        listen: opt_view(c.listen),
        upstream: opt_view(c.upstream),
        path: opt_view(c.path),
        log_file: c.log_file@,
        log_filter: c.log_filter@,
        log_timezone_offset_secs: c.log_timezone_offset_secs,
    }
}

impl DashboardContext {
    /// What a dashboard on something that is watched is about.
    pub fn from_monitor(value: MonitorContext) -> (r: Self)
        ensures
            r@ == context_of(value),
    {
        DashboardContext {
            command_label: value.command_label,
            mode_label: value.mode_label,
            traffic_state: value.traffic_state,
            listen: value.listen,
            upstream: value.upstream,
            path: value.path,
            log_file: value.log_file,
            log_filter: value.log_filter,
            log_timezone_offset_secs: value.log_timezone_offset_secs,
        }
    }
}

/// A row of the list of targets.
#[derive(Debug)]
pub struct RecentTarget {
    pub seen_at: String,
    pub route: String,
    pub link: String,
    pub detail: String,
    pub repeat_count: u64,
    pub uploaded: u64,
    pub downloaded: u64,
}

/// A row of the list of targets.
#[verifier::ext_equal]
pub struct RowView {
    pub seen_at: Seq<char>,
    pub route: Seq<char>,
    pub link: Seq<char>,
    pub detail: Seq<char>,
    pub repeat_count: u64,
    pub uploaded: u64,
    pub downloaded: u64,
}

impl View for RecentTarget {
    type V = RowView;

    open spec fn view(&self) -> RowView {
        RowView {
            seen_at: self.seen_at@,
            route: self.route@,
            link: self.link@,
            detail: self.detail@,
            repeat_count: self.repeat_count,
            uploaded: self.uploaded,
            downloaded: self.downloaded,
        }
    }
}

/// The row of a target that is taken over.
pub open spec fn row_of(r: RecentView) -> RowView {
    RowView {
        seen_at: r.seen_at,
        route: r.route,
        link: r.link,
        detail: r.detail,
        repeat_count: if r.repeat_count == 0 {
            1
        } else {
            r.repeat_count
        },
        uploaded: r.uploaded,
        downloaded: r.downloaded,
    }
}

impl RecentTarget {
    /// The row of a target that is taken over.
    pub fn from_snapshot(value: &RecentTargetSnapshot) -> (r: Self)
        ensures
            r@ == row_of(value@),
    {
        RecentTarget {
            seen_at: value.seen_at.clone(),
            route: value.route.clone(),
            link: value.link.clone(),
            detail: value.detail.clone(),
            repeat_count: if value.repeat_count == 0 { 1 } else { value.repeat_count },
            uploaded: value.uploaded,
            downloaded: value.downloaded,
        }
    }
}

/// The rows of a list.
pub open spec fn table(list: Seq<RecentTarget>) -> Seq<RowView> {
    list.map_values(|r: RecentTarget| r@)
}

/// What a process takes.
#[derive(Clone, Copy, Debug, PartialEq, Eq, Structural)]
pub struct ProcessStats {
    pub memory_bytes: u64,
    pub threads: Option<usize>,
}

/// What a dashboard knows. Times are milliseconds of a clock that never goes
/// back; they may lie before its start.
#[derive(Debug)]
pub struct DashboardApp {
    pub context: DashboardContext,
    pub pid: u32,
    pub started_at: i128,
    pub spinner_index: usize,
    pub total_relays: u64,
    pub total_errors: u64,
    pub total_warnings: u64,
    pub total_uploaded: u64,
    pub total_downloaded: u64,
    pub route_stats: RouteStats,
    pub upload_history: Vec<u64>,
    pub download_history: Vec<u64>,
    pub last_bucket_at: u64,
    pub last_process_refresh: i128,
    pub process_stats: ProcessStats,
    pub last_event_at: Option<i128>,
    pub last_warning_at: Option<i128>,
    pub last_traffic_at: Option<i128>,
    /// The latest first.
    pub recent_targets: Vec<RecentTarget>,
    /// The latest first.
    pub recent_events: Vec<String>,
}

/// What a dashboard knows.
#[verifier::ext_equal]
pub struct AppView {
    pub context: ContextView,
    pub pid: u32,
    pub started_at: int,
    pub spinner_index: int,
    pub total_relays: u64,
    pub total_errors: u64,
    pub total_warnings: u64,
    pub total_uploaded: u64,
    pub total_downloaded: u64,
    pub route_stats: RouteStats,
    pub upload_history: Seq<u64>,
    pub download_history: Seq<u64>,
    pub last_bucket_at: u64,
    pub last_process_refresh: int,
    pub process_stats: ProcessStats,
    pub last_event_at: Option<i128>,
    pub last_warning_at: Option<i128>,
    pub last_traffic_at: Option<i128>,
    pub recent_targets: Seq<RowView>,
    pub recent_events: Seq<Seq<char>>,
}

impl View for DashboardApp {
    type V = AppView;

    open spec fn view(&self) -> AppView {
        AppView {
            context: self.context@,
            pid: self.pid,
            started_at: self.started_at as int,
            spinner_index: self.spinner_index as int,
            total_relays: self.total_relays,
            total_errors: self.total_errors,
            total_warnings: self.total_warnings,
            total_uploaded: self.total_uploaded,
            total_downloaded: self.total_downloaded,
            route_stats: self.route_stats,
            upload_history: self.upload_history@,
            download_history: self.download_history@,
            last_bucket_at: self.last_bucket_at,
            last_process_refresh: self.last_process_refresh as int,
            process_stats: self.process_stats,
            last_event_at: self.last_event_at,
            last_warning_at: self.last_warning_at,
            last_traffic_at: self.last_traffic_at,
            recent_targets: table(self.recent_targets@),
            recent_events: views(self.recent_events@),
        }
    }
}

// ---------------------------------------------------------------------------
// What an event does

/// Whether an event comes into a list of `n` recent events.
pub open spec fn is_listed(e: EventView, n: nat) -> bool {
    &&& e.message != "traffic sample"@
    &&& e.message != "dns query"@
    &&& !(contains(e.message, "relay completed"@) && n >= RECENT_EVENTS)
}

/// What a dashboard is about after an event: news of a switch tell where the
/// traffic goes, news of a listener fill what is not known yet.
pub open spec fn context_after(c: ContextView, e: EventView) -> ContextView {
    let news = contains(e.message, "listening"@);
    ContextView {
        traffic_state: if e.message == "traffic switch"@ && field_is(e, "state"@, "bypass"@) {
            TrafficState::Bypass
        } else if e.message == "traffic switch"@ && field_is(e, "state"@, "proxying"@) {
            TrafficState::Proxying
        } else {
            c.traffic_state
        },
        listen: if news && c.listen is None {
            field(e, "listen"@)
        } else {
            c.listen
        },
        upstream: if news && c.upstream is None {
            match field(e, "server"@) {
                Some(s) => Some(s),
                None => field(e, "fallback"@),
            }
        } else {
            c.upstream
        },
        path: if news && c.path is None {
            field(e, "path"@)
        } else {
            c.path
        },
        mode_label: if news && c.mode_label == "-"@ {
            field_or(e, "mode"@, "-"@)
        } else {
            c.mode_label
        },
        ..c
    }
}

/// The first row with a link and a route.
pub open spec fn row_from(list: Seq<RowView>, link: Seq<char>, route: Seq<char>, from: int)
    -> Option<int>
    decreases list.len() - from,
{
    if from < 0 || from >= list.len() {
        None
    } else if list[from].link == link && list[from].route == route {
        Some(from)
    } else {
        row_from(list, link, route, from + 1)
    }
}

/// The first row of a domain.
pub open spec fn domain_row_from(list: Seq<RowView>, domain: Seq<char>, from: int) -> Option<int>
    decreases list.len() - from,
{
    if from < 0 || from >= list.len() {
        None
    } else if list[from].link == "dns://"@ + domain || list[from].link == domain {
        Some(from)
    } else {
        domain_row_from(list, domain, from + 1)
    }
}

/// The list of targets after an event that ties a domain to an address.
pub open spec fn rows_with_ip(list: Seq<RowView>, e: EventView) -> Seq<RowView> {
    match (field(e, "domain"@), field(e, "ip"@)) {
        (Some(domain), Some(ip)) => match domain_row_from(list, domain, 0) {
            Some(i) => list.update(
                i,
                RowView { detail: detail_with_ip(list[i].detail, ip), ..list[i] },
            ),
            None => list,
        },
        _ => list,
    }
}

/// The list of targets after a question for a name.
pub open spec fn rows_with_domain(list: Seq<RowView>, e: EventView, offset: i32) -> Seq<RowView> {
    let target = field_or(e, "target"@, "-"@);
    let link = field_or(e, "link"@, link_of(target));
    let route = field_or(e, "route"@, "remote"@);
    let detail = field_or(e, "detail"@, default_detail(route));
    let seen_at = clock_text(e.at_secs, offset);
    match row_from(list, link, route, 0) {
        Some(i) => list.remove(i).insert(
            0,
            RowView {
                seen_at,
                detail: merged_detail(list[i].detail, detail, route),
                repeat_count: counted_again(list[i].repeat_count),
                ..list[i]
            },
        ),
        None => put_first(
            list,
            RowView {
                seen_at,
                route,
                link,
                detail,
                repeat_count: 1,
                uploaded: 0,
                downloaded: 0,
            },
            RECENT_TARGETS as int,
        ),
    }
}

/// The list of targets after a relay that ended.
pub open spec fn rows_with_relay(list: Seq<RowView>, e: EventView, offset: i32) -> Seq<RowView> {
    put_first(
        list,
        RowView {
            seen_at: clock_text(e.at_secs, offset),
            route: field_or(e, "route"@, "remote"@),
            link: link_of(field_or(e, "target"@, "-"@)),
            detail: Seq::empty(),
            repeat_count: 1,
            uploaded: number_in(e, "uploaded"@) as u64,
            downloaded: number_in(e, "downloaded"@) as u64,
        },
        RECENT_TARGETS as int,
    )
}

/// What a dashboard knows after an event.
pub open spec fn ingested(s: AppView, e: EventView, now: u64) -> AppView {
    let uploaded = number_in(e, "uploaded"@);
    let downloaded = number_in(e, "downloaded"@);
    let offset = s.context.log_timezone_offset_secs;
    let named = rows_with_ip(s.recent_targets, e);
    AppView {
        context: context_after(s.context, e),
        total_relays: (s.total_relays + only_if(happening(e) is Relay, 1)) as u64,
        total_errors: (s.total_errors + only_if(is_failure(e), 1)) as u64,
        total_warnings: (s.total_warnings + only_if(e.level == "WARN"@, 1)) as u64,
        total_uploaded: (s.total_uploaded + only_if(counts(e), uploaded)) as u64,
        total_downloaded: (s.total_downloaded + only_if(counts(e), downloaded)) as u64,
        route_stats: match bucket_of(e) {
            Some(bucket) => s.route_stats.with_one_more(bucket),
            None => s.route_stats,
        },
        upload_history: with_traffic(s.upload_history, only_if(counts_in_history(e), uploaded)),
        download_history: with_traffic(
            s.download_history,
            only_if(counts_in_history(e), downloaded),
        ),
        last_event_at: Some(now as i128),
        last_warning_at: if impacts_health(Some(s.context.command_label), e) {
            Some(now as i128)
        } else {
            s.last_warning_at
        },
        last_traffic_at: if shows_traffic(e) {
            Some(now as i128)
        } else {
            s.last_traffic_at
        },
        recent_targets: match happening(e) {
            Happening::Question => rows_with_domain(named, e, offset),
            Happening::Relay => rows_with_relay(named, e, offset),
            _ => named,
        },
        recent_events: if is_listed(e, s.recent_events.len()) {
            put_first(s.recent_events, event_line(e, offset), RECENT_EVENTS as int)
        } else {
            s.recent_events
        },
        ..s
    }
}

/// Whether the counters can take an event.
pub open spec fn has_room(s: AppView, e: EventView) -> bool {
    let uploaded = number_in(e, "uploaded"@);
    let downloaded = number_in(e, "downloaded"@);
    &&& s.total_relays + only_if(happening(e) is Relay, 1) <= u64::MAX
    &&& s.total_errors + only_if(is_failure(e), 1) <= u64::MAX
    &&& s.total_warnings + only_if(e.level == "WARN"@, 1) <= u64::MAX
    &&& s.total_uploaded + only_if(counts(e), uploaded) <= u64::MAX
    &&& s.total_downloaded + only_if(counts(e), downloaded) <= u64::MAX
    &&& (bucket_of(e) matches Some(bucket) ==> s.route_stats.count(bucket) < u64::MAX)
    &&& s.upload_history.last() + only_if(counts_in_history(e), uploaded) <= u64::MAX
    &&& s.download_history.last() + only_if(counts_in_history(e), downloaded) <= u64::MAX
}

fn find_row(list: &Vec<RecentTarget>, link: &str, route: &str) -> (r: Option<usize>)
    ensures
        match (r, row_from(table(list@), link@, route@, 0)) {
            (Some(i), Some(k)) => i == k && i < list.len(),
            (None, None) => true,
            _ => false,
        },
{
    let mut i: usize = 0;
    while i < list.len()
        invariant
            i <= list.len(),
            row_from(table(list@), link@, route@, 0) == row_from(
                table(list@),
                link@,
                route@,
                i as int,
            ),
        decreases list.len() - i,
    {
        assert(table(list@)[i as int] == list@[i as int]@);
        if same(list[i].link.as_str(), link) && same(list[i].route.as_str(), route) {
            return Some(i);
        }
        i = i + 1;
    }
    None
}

fn find_domain_row(list: &Vec<RecentTarget>, domain: &str) -> (r: Option<usize>)
    ensures
        match (r, domain_row_from(table(list@), domain@, 0)) {
            (Some(i), Some(k)) => i == k && i < list.len(),
            (None, None) => true,
            _ => false,
        },
{
    let link = cat("dns://", domain);
    let mut i: usize = 0;
    while i < list.len()
        invariant
            link@ == "dns://"@ + domain@,
            i <= list.len(),
            domain_row_from(table(list@), domain@, 0) == domain_row_from(
                table(list@),
                domain@,
                i as int,
            ),
        decreases list.len() - i,
    {
        assert(table(list@)[i as int] == list@[i as int]@);
        if same(list[i].link.as_str(), link.as_str()) || same(list[i].link.as_str(), domain) {
            return Some(i);
        }
        i = i + 1;
    }
    None
}

fn put_row(list: &mut Vec<RecentTarget>, row: RecentTarget)
    ensures
        table(final(list)@) == put_first(table(old(list)@), row@, RECENT_TARGETS as int),
{
    list.insert(0, row);
    assert(table(list@) =~= table(old(list)@).insert(0, row@));
    list.truncate(RECENT_TARGETS);
}

fn put_event(list: &mut Vec<String>, line: String)
    ensures
        views(final(list)@) == put_first(views(old(list)@), line@, RECENT_EVENTS as int),
{
    list.insert(0, line);
    assert(views(list@) =~= views(old(list)@).insert(0, line@));
    list.truncate(RECENT_EVENTS);
}

fn field_text(event: &TraceEvent, name: &str) -> (r: Option<String>)
    ensures
        opt_view(r) == field(event@, name@),
{
    match get_field(event, name) {
        Some(v) => Some(v.to_owned()),
        None => None,
    }
}

/// No traffic leaves a history as it is.
proof fn lemma_no_traffic(history: Seq<u64>)
    requires
        history.len() > 0,
    ensures
        with_traffic(history, 0) == history,
{
    assert(with_traffic(history, 0) =~= history);
}

impl DashboardContext {
    fn capture_traffic_state(&mut self, event: &TraceEvent)
        ensures
            final(self)@ == (ContextView {
                traffic_state: context_after(old(self)@, event@).traffic_state,
                ..old(self)@
            }),
    {
        if !same(event.message.as_str(), "traffic switch") {
            return ;
        }
        match get_field(event, "state") {
            Some(v) => {
                if same(v, "bypass") {
                    self.traffic_state = TrafficState::Bypass;
                } else if same(v, "proxying") {
                    self.traffic_state = TrafficState::Proxying;
                }
            },
            None => {},
        }
    }

    fn capture_listener_context(&mut self, event: &TraceEvent)
        ensures
            final(self)@ == (ContextView {
                traffic_state: old(self)@.traffic_state,
                ..context_after(old(self)@, event@)
            }),
    {
        let news = has(event.message.as_str(), "listening");
        if !news {
            return ;
        }
        if self.listen.is_none() {
            self.listen = field_text(event, "listen");
        }
        if self.upstream.is_none() {
            self.upstream = match field_text(event, "server") {
                Some(s) => Some(s),
                None => field_text(event, "fallback"),
            };
        }
        if self.path.is_none() {
            self.path = field_text(event, "path");
        }
        if same(self.mode_label.as_str(), "-") {
            self.mode_label = get_field_or(event, "mode", "-");
        }
    }
}

impl DashboardContext {
    fn capture(&mut self, event: &TraceEvent)
        ensures
            final(self)@ == context_after(old(self)@, event@),
    {
        self.capture_traffic_state(event);
        self.capture_listener_context(event);
        assert(self@ =~= context_after(old(self)@, event@));
    }
}

/// A history that is as long as it should be: the latest seconds, or zeros
/// before what there is.
pub open spec fn fitted(history: Seq<u64>) -> Seq<u64> {
    if history.len() > HISTORY_LEN {
        history.skip(history.len() - HISTORY_LEN)
    } else {
        Seq::new((HISTORY_LEN - history.len()) as nat, |i: int| 0u64) + history
    }
}

/// A history that is as long as it should be.
pub fn fit_history(history: &Vec<u64>) -> (r: Vec<u64>)
    ensures
        r@ == fitted(history@),
        r.len() == HISTORY_LEN,
{
    let mut out: Vec<u64> = Vec::new();
    let n: usize = history.len();
    let mut i: usize = 0;
    while i < HISTORY_LEN
        invariant
            n == history.len(),
            i <= HISTORY_LEN,
            out@ == fitted(history@).take(i as int),
        decreases HISTORY_LEN - i,
    {
        let value: u64 = if n >= HISTORY_LEN {
            history[n - HISTORY_LEN + i]
        } else if i < HISTORY_LEN - n {
            0
        } else {
            history[i - (HISTORY_LEN - n)]
        };
        assert(value == fitted(history@)[i as int]);
        out.push(value);
        i = i + 1;
        assert(fitted(history@).take(i as int) =~= fitted(history@).take(i - 1).push(value));
    }
    assert(fitted(history@).take(i as int) =~= fitted(history@));
    out
}

/// A time that lies so long ago.
pub open spec fn time_ago(now: u64, age: Option<u64>) -> Option<i128> {
    match age {
        Some(a) => Some((now - a) as i128),
        None => None,
    }
}

fn age_to_instant(now: u64, age: Option<u64>) -> (r: Option<i128>)
    ensures
        r == time_ago(now, age),
{
    match age {
        Some(a) => Some(now as i128 - a as i128),
        None => None,
    }
}

/// How a program is.
#[derive(Clone, Copy, Debug, PartialEq, Eq, Structural)]
pub enum Status {
    Degraded,
    Active,
    Ready,
    Idle,
}

/// The colours of the states of a program.
#[derive(Clone, Copy, Debug, PartialEq, Eq, Structural)]
pub enum Tone {
    Yellow,
    Green,
    Cyan,
    DarkGray,
}

/// Whether something happened at most so many milliseconds ago.
pub open spec fn within(at: Option<i128>, now: u64, limit: int) -> bool {
    at matches Some(t) && now - t <= limit
}

/// How a program is: troubled for a while after a failure, busy for a while
/// after traffic, there for a while after anything.
pub open spec fn status_of(s: AppView, now: u64) -> Status {
    if within(s.last_warning_at, now, 20000) {
        Status::Degraded
    } else if within(s.last_traffic_at, now, 5000) {
        Status::Active
    } else if within(s.last_event_at, now, 30000) {
        Status::Ready
    } else {
        Status::Idle
    }
}

impl Status {
    /// What is shown of a state.
    pub open spec fn label(self) -> (Seq<char>, Tone) {
        match self {
            Status::Degraded => ("degraded"@, Tone::Yellow),
            Status::Active => ("active"@, Tone::Green),
            Status::Ready => ("ready"@, Tone::Cyan),
            Status::Idle => ("idle"@, Tone::DarkGray),
        }
    }
}

fn is_within(at: Option<i128>, now: u64, limit: u64) -> (r: bool)
    requires
        at matches Some(t) ==> -u64::MAX <= t <= u64::MAX,
    ensures
        r == within(at, now, limit as int),
{
    match at {
        Some(t) => now as i128 - t <= limit as i128,
        None => false,
    }
}

/// Whether a time can be one of a dashboard.
pub open spec fn is_time(at: Option<i128>) -> bool {
    at matches Some(t) ==> -u64::MAX <= t <= u64::MAX
}

impl DashboardApp {
    /// What holds of every dashboard.
    pub open spec fn wf(&self) -> bool {
        &&& self.upload_history.len() == HISTORY_LEN
        &&& self.download_history.len() == HISTORY_LEN
        &&& self.spinner_index < SPINNER_LEN
        &&& -1001 * u64::MAX <= self.started_at <= u64::MAX
        &&& -1001 * u64::MAX <= self.last_process_refresh <= u64::MAX
        &&& is_time(self.last_event_at)
        &&& is_time(self.last_warning_at)
        &&& is_time(self.last_traffic_at)
    }

    /// A dashboard before anything happened.
    pub fn new(context: DashboardContext, pid: u32, stats: ProcessStats, now: u64) -> (r: Self)
        ensures
            r.wf(),
            r@ == (AppView {
                context: context@,
                pid,
                started_at: now as int,
                spinner_index: 0,
                total_relays: 0,
                total_errors: 0,
                total_warnings: 0,
                total_uploaded: 0,
                total_downloaded: 0,
                route_stats: RouteStats { proxy: 0, direct: 0, blocked: 0 },
                upload_history: no_traffic(),
                download_history: no_traffic(),
                last_bucket_at: now,
                last_process_refresh: now as int,
                process_stats: stats,
                last_event_at: None,
                last_warning_at: None,
                last_traffic_at: None,
                recent_targets: seq![],
                recent_events: seq![],
            }),
    {
        let r = DashboardApp {
            context,
            pid,
            started_at: now as i128,
            spinner_index: 0,
            total_relays: 0,
            total_errors: 0,
            total_warnings: 0,
            total_uploaded: 0,
            total_downloaded: 0,
            route_stats: RouteStats { proxy: 0, direct: 0, blocked: 0 },
            upload_history: vec![0u64; HISTORY_LEN],
            download_history: vec![0u64; HISTORY_LEN],
            last_bucket_at: now,
            last_process_refresh: now as i128,
            process_stats: stats,
            last_event_at: None,
            last_warning_at: None,
            last_traffic_at: None,
            recent_targets: Vec::new(),
            recent_events: Vec::new(),
        };
        proof {
            assert(r@.upload_history =~= no_traffic());
            assert(r@.download_history =~= no_traffic());
            assert(r@.recent_targets =~= Seq::<RowView>::empty());
            assert(r@.recent_events =~= Seq::<Seq<char>>::empty());
        }
        r
    }

    /// A dashboard that takes over from a snapshot.
    pub fn from_snapshot(snapshot: DashboardSnapshot, stats: ProcessStats, now: u64) -> (r: Self)
        ensures
            r.wf(),
            r@ == (AppView {
                context: context_of(snapshot.context),
                pid: snapshot.context.pid,
                started_at: now - 1000 * snapshot.uptime_secs,
                spinner_index: 0,
                total_relays: snapshot.total_relays,
                total_errors: snapshot.total_errors,
                total_warnings: snapshot.total_warnings,
                total_uploaded: snapshot.total_uploaded,
                total_downloaded: snapshot.total_downloaded,
                route_stats: snapshot.route_stats,
                upload_history: fitted(snapshot.upload_history@),
                download_history: fitted(snapshot.download_history@),
                last_bucket_at: now,
                last_process_refresh: now as int,
                process_stats: stats,
                last_event_at: time_ago(now, snapshot.last_event_age_ms),
                last_warning_at: time_ago(now, snapshot.last_warning_age_ms),
                last_traffic_at: time_ago(now, snapshot.last_traffic_age_ms),
                recent_targets: snapshot.recent_targets@.map_values(
                    |t: RecentTargetSnapshot| row_of(t@),
                ),
                recent_events: views(snapshot.recent_events@),
            }),
    {
        let ghost taken = snapshot.recent_targets@.map_values(
            |t: RecentTargetSnapshot| row_of(t@),
        );
        let mut recent_targets: Vec<RecentTarget> = Vec::new();
        let mut i: usize = 0;
        while i < snapshot.recent_targets.len()
            invariant
                i <= snapshot.recent_targets.len(),
                taken == snapshot.recent_targets@.map_values(
                    |t: RecentTargetSnapshot| row_of(t@),
                ),
                table(recent_targets@) == taken.take(i as int),
            decreases snapshot.recent_targets.len() - i,
        {
            let row = RecentTarget::from_snapshot(&snapshot.recent_targets[i]);
            let ghost before = recent_targets@;
            recent_targets.push(row);
            i = i + 1;
            assert(table(recent_targets@) =~= table(before).push(row@));
            assert(taken.take(i as int) =~= taken.take(i - 1).push(taken[i - 1]));
        }
        assert(taken.take(i as int) =~= taken);
        DashboardApp {
            pid: snapshot.context.pid,
            context: DashboardContext::from_monitor(snapshot.context),
            started_at: now as i128 - 1000 * snapshot.uptime_secs as i128,
            spinner_index: 0,
            total_relays: snapshot.total_relays,
            total_errors: snapshot.total_errors,
            total_warnings: snapshot.total_warnings,
            total_uploaded: snapshot.total_uploaded,
            total_downloaded: snapshot.total_downloaded,
            route_stats: snapshot.route_stats,
            upload_history: fit_history(&snapshot.upload_history),
            download_history: fit_history(&snapshot.download_history),
            last_bucket_at: now,
            last_process_refresh: now as i128,
            process_stats: stats,
            last_event_at: age_to_instant(now, snapshot.last_event_age_ms),
            last_warning_at: age_to_instant(now, snapshot.last_warning_age_ms),
            last_traffic_at: age_to_instant(now, snapshot.last_traffic_age_ms),
            recent_targets,
            recent_events: snapshot.recent_events,
        }
    }
}

impl DashboardApp {
    fn capture_recent_event(&mut self, event: &TraceEvent)
        ensures
            old(self).wf() ==> final(self).wf(),
            final(self)@ == (AppView {
                recent_events: if is_listed(event@, old(self)@.recent_events.len()) {
                    put_first(
                        old(self)@.recent_events,
                        event_line(event@, old(self)@.context.log_timezone_offset_secs),
                        RECENT_EVENTS as int,
                    )
                } else {
                    old(self)@.recent_events
                },
                ..old(self)@
            }),
    {
        let message = event.message.as_str();
        if same(message, "traffic sample") || same(message, "dns query") {
            return ;
        }
        if has(message, "relay completed") && self.recent_events.len() >= RECENT_EVENTS {
            return ;
        }
        let stamp = clock_stamp(event.at_secs, self.context.log_timezone_offset_secs);
        let head = cat3(cat3(stamp.as_str(), " [", event.level.as_str()).as_str(), "] ", message);
        let suffix = recent_event_suffix(event);
        put_event(&mut self.recent_events, cat(head.as_str(), suffix.as_str()));
    }

    fn capture_recent_domain_ip(&mut self, event: &TraceEvent)
        ensures
            old(self).wf() ==> final(self).wf(),
            final(self)@ == (AppView {
                recent_targets: rows_with_ip(old(self)@.recent_targets, event@),
                ..old(self)@
            }),
    {
        let domain = match get_field(event, "domain") {
            Some(d) => d,
            None => {
                return ;
            },
        };
        let ip = match get_field(event, "ip") {
            Some(ip) => ip,
            None => {
                return ;
            },
        };
        match find_domain_row(&self.recent_targets, domain) {
            Some(i) => {
                let ghost before = self.recent_targets@;
                let mut row = self.recent_targets.remove(i);
                row.detail = append_recent_domain_ip(row.detail.as_str(), ip);
                self.recent_targets.insert(i, row);
                proof {
                    assert(table(before)[i as int] == before[i as int]@);
                    assert(table(self.recent_targets@) =~= rows_with_ip(
                        old(self)@.recent_targets,
                        event@,
                    ));
                }
            },
            None => {},
        }
    }

    fn capture_recent_domain(&mut self, event: &TraceEvent)
        ensures
            old(self).wf() ==> final(self).wf(),
            final(self)@ == (AppView {
                recent_targets: rows_with_domain(
                    old(self)@.recent_targets,
                    event@,
                    old(self)@.context.log_timezone_offset_secs,
                ),
                ..old(self)@
            }),
    {
        let target = get_field_or(event, "target", "-");
        let link = match get_field(event, "link") {
            Some(l) => l.to_owned(),
            None => link_from_target(target.as_str()),
        };
        let route = get_field_or(event, "route", "remote");
        let detail = match get_field(event, "detail") {
            Some(d) => d.to_owned(),
            None => recent_domain_default_detail(route.as_str()),
        };
        let seen_at = clock_stamp(event.at_secs, self.context.log_timezone_offset_secs);
        match find_row(&self.recent_targets, link.as_str(), route.as_str()) {
            Some(i) => {
                let ghost before = self.recent_targets@;
                let mut row = self.recent_targets.remove(i);
                row.seen_at = seen_at;
                row.detail = merge_recent_domain_detail(
                    row.detail.as_str(),
                    detail.as_str(),
                    route.as_str(),
                );
                row.repeat_count = if row.repeat_count == u64::MAX {
                    u64::MAX
                } else if row.repeat_count == 0 {
                    2
                } else {
                    row.repeat_count + 1
                };
                self.recent_targets.insert(0, row);
                proof {
                    assert(table(before)[i as int] == before[i as int]@);
                    assert(table(self.recent_targets@) =~= table(before).remove(i as int).insert(
                        0,
                        row@,
                    ));
                }
            },
            None => {
                put_row(
                    &mut self.recent_targets,
                    RecentTarget {
                        seen_at,
                        route,
                        link,
                        detail,
                        repeat_count: 1,
                        uploaded: 0,
                        downloaded: 0,
                    },
                );
            },
        }
    }

    /// Takes an event in.
    #[verifier::spinoff_prover]
    #[verifier::rlimit(60)]
    pub fn ingest(&mut self, event: &TraceEvent, now: u64)
        requires
            old(self).wf(),
            has_room(old(self)@, event@),
        ensures
            final(self).wf(),
            final(self)@ == ingested(old(self)@, event@, now),
    {
        let ghost start = self@;
        let ghost e = event@;
        self.last_event_at = Some(now as i128);
        let impacts = event_impacts_health(Some(self.context.command_label.as_str()), event);
        if same(event.level.as_str(), "WARN") {
            self.total_warnings = self.total_warnings + 1;
        }
        let with_error = has(event.message.as_str(), "with error");
        if same(event.level.as_str(), "ERROR") || with_error {
            self.total_errors = self.total_errors + 1;
        }
        if impacts {
            self.last_warning_at = Some(now as i128);
        }
        self.context.capture(event);
        self.capture_recent_event(event);
        self.capture_recent_domain_ip(event);
        match route_bucket_for_event(event) {
            Some(bucket) => {
                self.route_stats.record(bucket);
            },
            None => {},
        }
        let uploaded: u64 = get_number(event, "uploaded");
        let downloaded: u64 = get_number(event, "downloaded");
        if same(event.message.as_str(), "dns query") {
            self.capture_recent_domain(event);
            proof {
                lemma_no_traffic(self@.upload_history);
                lemma_no_traffic(self@.download_history);
                assert(self@ =~= ingested(start, e, now));
            }
            return ;
        }
        if same(event.message.as_str(), "traffic sample") {
            self.last_traffic_at = Some(now as i128);
            if traffic_sample_is_aggregate(event) {
                self.total_uploaded = self.total_uploaded + uploaded;
                self.total_downloaded = self.total_downloaded + downloaded;
            }
            add_traffic(&mut self.upload_history, uploaded);
            add_traffic(&mut self.download_history, downloaded);
            assert(self@ =~= ingested(start, e, now));
            return ;
        }
        if has(event.message.as_str(), "relay completed") {
            self.total_relays = self.total_relays + 1;
            self.total_uploaded = self.total_uploaded + uploaded;
            self.total_downloaded = self.total_downloaded + downloaded;
            if uploaded > 0 || downloaded > 0 {
                self.last_traffic_at = Some(now as i128);
            }
            let counted: bool = !get_flag(event, "sampled");
            add_traffic(&mut self.upload_history, if counted { uploaded } else { 0 });
            add_traffic(&mut self.download_history, if counted { downloaded } else { 0 });
            let target = get_field_or(event, "target", "-");
            let row = RecentTarget {
                seen_at: clock_stamp(event.at_secs, self.context.log_timezone_offset_secs),
                link: link_from_target(target.as_str()),
                route: get_field_or(event, "route", "remote"),
                detail: String::new(),
                repeat_count: 1,
                uploaded,
                downloaded,
            };
            assert(row.detail@ =~= Seq::<char>::empty());
            put_row(&mut self.recent_targets, row);
            assert(self@ =~= ingested(start, e, now));
        } else {
            proof {
                lemma_no_traffic(self@.upload_history);
                lemma_no_traffic(self@.download_history);
                assert(self@ =~= ingested(start, e, now));
            }
        }
    }

    /// Whether the counters can take an event.
    pub fn can_ingest(&self, event: &TraceEvent) -> (r: bool)
        requires
            self.wf(),
        ensures
            r == has_room(self@, event@),
    {
        let message = event.message.as_str();
        let question = same(message, "dns query");
        let sample = !question && same(message, "traffic sample");
        let relay = !question && !sample && has(message, "relay completed");
        let counted = relay || (sample && traffic_sample_is_aggregate(event));
        let drawn = sample || (relay && !get_flag(event, "sampled"));
        let with_error = has(message, "with error");
        let failure = same(event.level.as_str(), "ERROR") || with_error;
        let warning = same(event.level.as_str(), "WARN");
        let uploaded: u64 = get_number(event, "uploaded");
        let downloaded: u64 = get_number(event, "downloaded");
        let full_route = match route_bucket_for_event(event) {
            Some(RouteBucket::Proxy) => self.route_stats.proxy == u64::MAX,
            Some(RouteBucket::Direct) => self.route_stats.direct == u64::MAX,
            Some(RouteBucket::Blocked) => self.route_stats.blocked == u64::MAX,
            None => false,
        };
        let last: usize = HISTORY_LEN - 1;
        let up: u64 = self.upload_history[last];
        let down: u64 = self.download_history[last];
        !(relay && self.total_relays == u64::MAX) && !(failure && self.total_errors == u64::MAX)
            && !(warning && self.total_warnings == u64::MAX) && !(counted && uploaded > u64::MAX
            - self.total_uploaded) && !(counted && downloaded > u64::MAX - self.total_downloaded)
            && !full_route && !(drawn && uploaded > u64::MAX - up) && !(drawn && downloaded
            > u64::MAX - down)
    }

    /// Moves the dashboard on. Says whether what the process takes is to be
    /// looked up again.
    pub fn on_tick(&mut self, now: u64) -> (refresh: bool)
        requires
            old(self).wf(),
        ensures
            final(self).wf(),
            final(self)@ == ticked(old(self)@, now),
            refresh == (now - old(self).last_process_refresh >= 2000),
    {
        let ghost start = self@;
        self.spinner_index = (self.spinner_index + 1) % SPINNER_LEN;
        let ghost total = seconds_between(start.last_bucket_at, now);
        while now >= self.last_bucket_at && now - self.last_bucket_at >= 1000
            invariant
                self.wf(),
                total == seconds_between(start.last_bucket_at, now),
                rotated(start.upload_history, total) == rotated(
                    self@.upload_history,
                    seconds_between(self.last_bucket_at, now),
                ),
                rotated(start.download_history, total) == rotated(
                    self@.download_history,
                    seconds_between(self.last_bucket_at, now),
                ),
                self.last_bucket_at + 1000 * seconds_between(self.last_bucket_at, now)
                    == start.last_bucket_at + 1000 * total,
                self@ == (AppView {
                    upload_history: self@.upload_history,
                    download_history: self@.download_history,
                    last_bucket_at: self.last_bucket_at,
                    spinner_index: (start.spinner_index + 1) % SPINNER_LEN as int,
                    ..start
                }),
            decreases now - self.last_bucket_at,
        {
            let ghost before = self.last_bucket_at;
            rotate_history(&mut self.upload_history);
            rotate_history(&mut self.download_history);
            self.last_bucket_at = self.last_bucket_at + 1000;
            proof {
                assert(seconds_between(before, now) == seconds_between(self.last_bucket_at, now)
                    + 1);
            }
        }
        assert(seconds_between(self.last_bucket_at, now) == 0);
        now as i128 - self.last_process_refresh >= 2000
    }

    /// Takes in what the process takes.
    pub fn refresh_process_stats(&mut self, stats: ProcessStats, now: u64)
        ensures
            final(self)@ == (AppView {
                process_stats: stats,
                last_process_refresh: now as int,
                ..old(self)@
            }),
            old(self).wf() ==> final(self).wf(),
    {
        self.process_stats = stats;
        self.last_process_refresh = now as i128;
    }

    /// How the program is.
    pub fn status(&self, now: u64) -> (r: (&'static str, Tone))
        requires
            self.wf(),
        ensures
            (r.0@, r.1) == status_of(self@, now).label(),
    {
        if is_within(self.last_warning_at, now, 20000) {
            ("degraded", Tone::Yellow)
        } else if is_within(self.last_traffic_at, now, 5000) {
            ("active", Tone::Green)
        } else if is_within(self.last_event_at, now, 30000) {
            ("ready", Tone::Cyan)
        } else {
            ("idle", Tone::DarkGray)
        }
    }
}

/// A dashboard when time has passed.
pub open spec fn ticked(s: AppView, now: u64) -> AppView {
    let seconds = seconds_between(s.last_bucket_at, now);
    AppView {
        spinner_index: (s.spinner_index + 1) % SPINNER_LEN as int,
        upload_history: rotated(s.upload_history, seconds),
        download_history: rotated(s.download_history, seconds),
        last_bucket_at: (s.last_bucket_at + 1000 * seconds) as u64,
        ..s
    }
}

/// A failure that counts shows for twenty seconds.
pub proof fn failures_show_for_a_while(s: AppView, e: EventView, now: u64, later: u64)
    requires
        impacts_health(Some(s.context.command_label), e),
        now <= later <= now + 20000,
    ensures
        status_of(ingested(s, e, now), later) == Status::Degraded,
{
}

/// After a time without anything a program is idle.
pub proof fn quiet_programs_are_idle(s: AppView, now: u64)
    requires
        !within(s.last_warning_at, now, 20000),
        !within(s.last_traffic_at, now, 5000),
        !within(s.last_event_at, now, 30000),
    ensures
        status_of(s, now) == Status::Idle,
{
}

// ---------------------------------------------------------------------------
// Keys

/// A key.
#[derive(Clone, Copy, Debug, PartialEq, Eq, Structural)]
pub enum Key {
    Char(char),
    Escape,
    Other,
}

/// Whether a key, held down with control or not, ends the dashboard.
pub fn is_exit_key(key: Key, control: bool) -> (r: bool)
    ensures
        r == (key == Key::Char('q') || key == Key::Escape || (key == Key::Char('c') && control)),
{
    match key {
        Key::Char(c) => c == 'q' || (c == 'c' && control),
        Key::Escape => true,
        Key::Other => false,
    }
}

/// What asking for the next event gave.
pub enum Received {
    Event(TraceEvent),
    Empty,
    Lagged,
    Closed,
}

/// What is done next.
pub enum Turn {
    Ingest(TraceEvent),
    Draw,
    Again,
    Leave,
}

/// What is done with the next event: events are taken in until there is none
/// left, then the dashboard is drawn.
pub fn next_turn(received: Received) -> (r: Turn)
    ensures
        r == match received {
            Received::Event(e) => Turn::Ingest(e),
            Received::Empty => Turn::Draw,
            Received::Lagged => Turn::Again,
            Received::Closed => Turn::Leave,
        },
{
    match received {
        Received::Event(e) => Turn::Ingest(e),
        Received::Empty => Turn::Draw,
        Received::Lagged => Turn::Again,
        Received::Closed => Turn::Leave,
    }
}

/// What a relay carried is added up when it is over, and in the last second of the
/// history unless it was told before; the relay is counted, by its route too, and
/// its target stands first.
#[verifier::spinoff_prover]
#[verifier::rlimit(50)]
pub proof fn relays_are_added_up(
    state: &mut DashboardApp,
    event: &TraceEvent,
    now: u64,
    up: u64,
    down: u64,
    sampled: bool,
    bucket: Option<RouteBucket>,
    target: String,
    target_text: &str,
    link: String,
    route: String,
)
    requires
        old(state).wf(),
        has_room(old(state)@, event@),
        call_ensures(DashboardApp::ingest, (state, event, now), ()),
        contains(event@.message, "relay completed"@),
        call_ensures(get_number, (event, "uploaded"), up),
        call_ensures(get_number, (event, "downloaded"), down),
        call_ensures(get_flag, (event, "sampled"), sampled),
        call_ensures(route_bucket_for_event, (event,), bucket),
        call_ensures(get_field_or, (event, "target", "-"), target),
        target_text@ == target@,
        call_ensures(link_from_target, (target_text,), link),
        call_ensures(get_field_or, (event, "route", "remote"), route),
    ensures
        final(state).total_relays == old(state).total_relays + 1,
        final(state).total_uploaded == old(state).total_uploaded + up,
        final(state).total_downloaded == old(state).total_downloaded + down,
        final(state).upload_history@.last() == old(state).upload_history@.last() + (if sampled {
            0int
        } else {
            up as int
        }),
        final(state).download_history@.last() == old(state).download_history@.last() + (if sampled {
            0int
        } else {
            down as int
        }),
        bucket matches Some(b) ==> final(state).route_stats.count(b) == old(state).route_stats.count(b)
            + 1,
        bucket is None ==> final(state).route_stats == old(state).route_stats,
        final(state)@.recent_targets.len() > 0 && ({
            let first = final(state)@.recent_targets[0];
            first.link == link@ && first.route == route@ && first.uploaded == up
                && first.downloaded == down && first.repeat_count == 1
        }),
{
    reveal_strlit("relay completed");
    reveal_strlit("dns query");
    reveal_strlit("traffic sample");
    assert("relay completed"@.len() == 15 && "dns query"@.len() == 9 && "traffic sample"@.len() == 14);
}

/// A sample of traffic is drawn in the history, and added up only where it stands for
/// a whole; no relay is counted for it, and nothing is listed.
pub proof fn samples_are_drawn(
    state: &mut DashboardApp,
    event: &TraceEvent,
    now: u64,
    up: u64,
    down: u64,
    whole: bool,
)
    requires
        old(state).wf(),
        has_room(old(state)@, event@),
        call_ensures(DashboardApp::ingest, (state, event, now), ()),
        event@.message == "traffic sample"@,
        call_ensures(get_number, (event, "uploaded"), up),
        call_ensures(get_number, (event, "downloaded"), down),
        call_ensures(traffic_sample_is_aggregate, (event,), whole),
    ensures
        final(state).total_relays == old(state).total_relays,
        final(state).total_uploaded == old(state).total_uploaded + (if whole {
            up as int
        } else {
            0
        }),
        final(state).total_downloaded == old(state).total_downloaded + (if whole {
            down as int
        } else {
            0
        }),
        final(state).upload_history@.last() == old(state).upload_history@.last() + up,
        final(state).download_history@.last() == old(state).download_history@.last() + down,
        final(state).last_traffic_at matches Some(t) && t == now,
        views(final(state).recent_events@) == views(old(state).recent_events@),
{
    reveal_strlit("relay completed");
    reveal_strlit("dns query");
    reveal_strlit("traffic sample");
    assert("relay completed"@.len() == 15 && "dns query"@.len() == 9 && "traffic sample"@.len() == 14);
}

/// Warnings and failures are counted, every event is noted with its time, and those
/// that count against the health with theirs.
pub proof fn trouble_is_counted(
    state: &mut DashboardApp,
    event: &TraceEvent,
    now: u64,
    command: Option<&str>,
    harms: bool,
)
    requires
        old(state).wf(),
        has_room(old(state)@, event@),
        call_ensures(DashboardApp::ingest, (state, event, now), ()),
        command matches Some(c) && c@ == old(state).context.command_label@,
        call_ensures(event_impacts_health, (command, event), harms),
    ensures
        final(state).total_warnings == old(state).total_warnings + (if event@.level == "WARN"@ {
            1int
        } else {
            0
        }),
        final(state).total_errors == old(state).total_errors + (if event@.level == "ERROR"@ || contains(
            event@.message,
            "with error"@,
        ) {
            1int
        } else {
            0
        }),
        final(state).last_event_at matches Some(t) && t == now,
        harms ==> (final(state).last_warning_at matches Some(t) && t == now),
        !harms ==> final(state).last_warning_at == old(state).last_warning_at,
{
}

/// An event is listed first, with its level, its message and what is told behind it,
/// unless it is one of many alike.
#[verifier::spinoff_prover]
#[verifier::rlimit(50)]
pub proof fn events_are_listed_first(
    state: &mut DashboardApp,
    event: &TraceEvent,
    now: u64,
    stamp: String,
    suffix: String,
)
    requires
        old(state).wf(),
        has_room(old(state)@, event@),
        call_ensures(DashboardApp::ingest, (state, event, now), ()),
        event@.message != "traffic sample"@,
        event@.message != "dns query"@,
        event@.message != "tunnel health"@,
        !contains(event@.message, "relay completed"@),
        call_ensures(
            clock_stamp,
            (event.at_secs, old(state).context.log_timezone_offset_secs),
            stamp,
        ),
        call_ensures(recent_event_suffix, (event,), suffix),
    ensures
        ({
            let list = final(state)@.recent_events;
            &&& list.len() > 0
            &&& list[0] == stamp@ + " ["@ + event@.level + "] "@ + event@.message + suffix@
            &&& list.len() <= 40
            &&& list.len() == (if old(state)@.recent_events.len() < 40 {
                old(state)@.recent_events.len() + 1
            } else {
                40
            })
            &&& forall|i: int|
                1 <= i < list.len() ==> #[trigger] list[i] == old(state)@.recent_events[i - 1]
        }),
{
    let before = old(state)@.recent_events;
    let list = final(state)@.recent_events;
    assert(views(old(state).recent_events@).len() == old(state).recent_events@.len());
    assert forall|i: int| 1 <= i < list.len() implies #[trigger] list[i] == before[i - 1] by {}
}

/// A question for a name stands first, under its link and route, and nothing is added
/// up for it.
pub proof fn questions_stand_first(
    state: &mut DashboardApp,
    event: &TraceEvent,
    now: u64,
    target: String,
    target_text: &str,
    own_link: String,
    own_text: &str,
    link: String,
    route: String,
)
    requires
        old(state).wf(),
        has_room(old(state)@, event@),
        call_ensures(DashboardApp::ingest, (state, event, now), ()),
        event@.message == "dns query"@,
        call_ensures(get_field_or, (event, "target", "-"), target),
        target_text@ == target@,
        call_ensures(link_from_target, (target_text,), own_link),
        own_text@ == own_link@,
        call_ensures(get_field_or, (event, "link", own_text), link),
        call_ensures(get_field_or, (event, "route", "remote"), route),
    ensures
        final(state)@.recent_targets.len() > 0 && final(state)@.recent_targets[0].link == link@ && final(state)@.recent_targets[0].route == route@,
        final(state).total_relays == old(state).total_relays,
        final(state).total_uploaded == old(state).total_uploaded,
        final(state).total_downloaded == old(state).total_downloaded,
{
    reveal_strlit("dns query");
    reveal_strlit("traffic sample");
    reveal_strlit("relay completed");
    assert("relay completed"@.len() == 15 && "dns query"@.len() == 9 && "traffic sample"@.len() == 14);
    let named = rows_with_ip(old(state)@.recent_targets, event@);
    lemma_row(named, link@, route@, 0);
    if let Some(i) = row_from(named, link@, route@, 0) {
        assert(named.remove(i).insert(0, named[i])[0] == named[i]);
    }
}

proof fn lemma_row(list: Seq<RowView>, link: Seq<char>, route: Seq<char>, from: int)
    requires
        0 <= from,
    ensures
        row_from(list, link, route, from) matches Some(i) ==> from <= i < list.len() && list[i].link
            == link && list[i].route == route,
    decreases list.len() - from,
{
    if from < list.len() && !(list[from].link == link && list[from].route == route) {
        lemma_row(list, link, route, from + 1);
    }
}

/// A dashboard shows what the snapshot that it was attached with says, with the ages
/// turned back into times.
pub proof fn dashboards_start_from_the_snapshot(
    s: DashboardSnapshot,
    stats: ProcessStats,
    now: u64,
    r: DashboardApp,
    i: int,
)
    requires
        call_ensures(DashboardApp::from_snapshot, (s, stats, now), r),
        s.upload_history@.len() == 48,
        s.download_history@.len() == 48,
    ensures
        r.pid == s.context.pid,
        r.started_at == now - 1000 * s.uptime_secs,
        r.total_relays == s.total_relays,
        r.total_errors == s.total_errors,
        r.total_warnings == s.total_warnings,
        r.total_uploaded == s.total_uploaded,
        r.total_downloaded == s.total_downloaded,
        r.route_stats == s.route_stats,
        r.upload_history@ == s.upload_history@,
        r.download_history@ == s.download_history@,
        views(r.recent_events@) == views(s.recent_events@),
        r.recent_targets@.len() == s.recent_targets@.len(),
        s.last_event_age_ms matches Some(a) ==> (r.last_event_at matches Some(t) && now - t == a),
        s.last_warning_age_ms matches Some(a) ==> (r.last_warning_at matches Some(t) && now - t
            == a),
        s.last_traffic_age_ms matches Some(a) ==> (r.last_traffic_at matches Some(t) && now - t
            == a),
        s.last_event_age_ms is None ==> r.last_event_at is None,
        s.last_warning_age_ms is None ==> r.last_warning_at is None,
        s.last_traffic_age_ms is None ==> r.last_traffic_at is None,
{
    let none = Seq::new(0nat, |i: int| 0u64);
    assert(none + s.upload_history@ =~= s.upload_history@);
    assert(none + s.download_history@ =~= s.download_history@);
    assert(fitted(s.upload_history@) =~= s.upload_history@);
    assert(fitted(s.download_history@) =~= s.download_history@);
    assert(table(r.recent_targets@).len() == r.recent_targets@.len());
}

/// A history is shown in full width: its end where it is longer, and behind empty
/// seconds where it is shorter.
pub proof fn histories_keep_their_end(history: &Vec<u64>, i: int, r: Vec<u64>)
    requires
        call_ensures(fit_history, (history,), r),
        0 <= i < 48,
    ensures
        r@.len() == 48,
        i < history@.len() ==> r@[47 - i] == history@[history@.len() - 1 - i],
        i >= history@.len() ==> r@[47 - i] == 0,
{
}

/// A service is degraded for a while after trouble, else active for a while after
/// traffic, else ready for a while after any event, and else idle.
pub proof fn the_status_tells_the_latest(app: &DashboardApp, now: u64, r: (&'static str, Tone))
    requires
        app.wf(),
        call_ensures(DashboardApp::status, (app, now), r),
    ensures
        r.0@ == "degraded"@ <==> (app.last_warning_at matches Some(t) && now - t <= 20000),
        r.0@ == "active"@ <==> !(app.last_warning_at matches Some(t) && now - t <= 20000) && (
        app.last_traffic_at matches Some(t) && now - t <= 5000),
        app.last_warning_at is None && app.last_traffic_at is None && app.last_event_at is None
            ==> r.0@ == "idle"@,
        r.0@ == "ready"@ ==> (app.last_event_at matches Some(t) && now - t <= 30000),
        r.0@ == "degraded"@ <==> r.1 == Tone::Yellow,
{
    reveal_strlit("degraded");
    reveal_strlit("active");
    reveal_strlit("ready");
    reveal_strlit("idle");
    assert("degraded"@.len() == 8 && "active"@.len() == 6 && "ready"@.len() == 5 && "idle"@.len()
        == 4);
}

/// A tick moves the history on with the seconds, turns the spinner, and asks for the
/// numbers of the process every two seconds; nothing that was added up changes.
pub proof fn ticks_move_the_history(
    app: &mut DashboardApp,
    now: u64,
    seconds: u64,
    refresh: bool,
    i: int,
)
    requires
        old(app).wf(),
        call_ensures(DashboardApp::on_tick, (app, now), refresh),
        old(app).last_bucket_at + 1000 * seconds <= now,
        now < old(app).last_bucket_at + 1000 * (seconds + 1),
        0 <= i < 48,
    ensures
        refresh <==> now - old(app).last_process_refresh >= 2000,
        final(app).upload_history@[i] == (if i + seconds < 48 {
            old(app).upload_history@[i + seconds]
        } else {
            0
        }),
        final(app).download_history@[i] == (if i + seconds < 48 {
            old(app).download_history@[i + seconds]
        } else {
            0
        }),
        final(app).total_relays == old(app).total_relays,
        final(app).total_uploaded == old(app).total_uploaded,
        final(app).total_downloaded == old(app).total_downloaded,
        final(app).last_event_at == old(app).last_event_at,
        final(app).last_bucket_at == old(app).last_bucket_at + 1000 * seconds,
{
    let n = seconds_between(old(app).last_bucket_at, now);
    assert(n == seconds);
    lemma_moved_on(old(app).upload_history@, n, i);
    lemma_moved_on(old(app).download_history@, n, i);
}

/// A switch that was told is shown, and nothing else changes the state of traffic.
pub proof fn switches_are_shown(
    app: &mut DashboardApp,
    event: &TraceEvent,
    now: u64,
    state: Option<&str>,
)
    requires
        old(app).wf(),
        has_room(old(app)@, event@),
        call_ensures(DashboardApp::ingest, (app, event, now), ()),
        call_ensures(get_field, (event, "state"), state),
    ensures
        event@.message == "traffic switch"@ && (state matches Some(s) && s@ == "bypass"@) ==> final(app).context.traffic_state == TrafficState::Bypass,
        event@.message == "traffic switch"@ && (state matches Some(s) && s@ == "proxying"@) ==> final(app).context.traffic_state == TrafficState::Proxying,
        event@.message != "traffic switch"@ ==> final(app).context.traffic_state == old(app).context.traffic_state,
{
    reveal_strlit("bypass");
    reveal_strlit("proxying");
    assert("bypass"@.len() == 6 && "proxying"@.len() == 8);
    assert(final(app).context@ == context_after(old(app).context@, event@));
    assert(final(app).context.traffic_state == final(app).context@.traffic_state);
}

/// What a process uses is shown as it was last measured, and nothing else changes with
/// it.
pub proof fn measurements_are_shown(app: &mut DashboardApp, stats: ProcessStats, now: u64)
    requires
        call_ensures(DashboardApp::refresh_process_stats, (app, stats, now), ()),
    ensures
        final(app).process_stats == stats,
        final(app).last_process_refresh == now,
        final(app).total_relays == old(app).total_relays,
        final(app).total_uploaded == old(app).total_uploaded,
        final(app).total_downloaded == old(app).total_downloaded,
        final(app).upload_history@ == old(app).upload_history@,
        final(app).last_event_at == old(app).last_event_at,
{
}

/// What a service tells when it starts to listen fills in what a dashboard does not
/// know yet of it, and changes nothing that it knows; what the events say otherwise is
/// told of no endpoint.
pub proof fn endpoints_are_learnt_once(
    app: &mut DashboardApp,
    event: &TraceEvent,
    now: u64,
    listen: Option<&str>,
    server: Option<&str>,
    path: Option<&str>,
)
    requires
        old(app).wf(),
        has_room(old(app)@, event@),
        call_ensures(DashboardApp::ingest, (app, event, now), ()),
        call_ensures(get_field, (event, "listen"), listen),
        call_ensures(get_field, (event, "server"), server),
        call_ensures(get_field, (event, "path"), path),
    ensures
        old(app).context.listen is Some ==> opt_view(final(app).context.listen) == opt_view(
            old(app).context.listen,
        ),
        old(app).context.upstream is Some ==> opt_view(final(app).context.upstream) == opt_view(
            old(app).context.upstream,
        ),
        !contains(event@.message, "listening"@) ==> opt_view(final(app).context.listen) == opt_view(
            old(app).context.listen,
        ) && opt_view(final(app).context.upstream) == opt_view(old(app).context.upstream) && opt_view(
            final(app).context.path,
        ) == opt_view(old(app).context.path),
        contains(event@.message, "listening"@) && old(app).context.listen is None ==> (
        listen matches Some(l) ==> opt_view(final(app).context.listen) == Some(l@)),
        contains(event@.message, "listening"@) && old(app).context.upstream is None ==> (
        server matches Some(s) ==> opt_view(final(app).context.upstream) == Some(s@)),
        contains(event@.message, "listening"@) && old(app).context.path is None ==> (
        path matches Some(p) ==> opt_view(final(app).context.path) == Some(p@)),
{
    let before = old(app).context@;
    let after = final(app).context@;
    assert(after == context_after(before, event@));
    assert(before.listen == opt_view(old(app).context.listen));
    assert(before.upstream == opt_view(old(app).context.upstream));
    assert(before.path == opt_view(old(app).context.path));
    assert(after.listen == opt_view(final(app).context.listen));
    assert(after.upstream == opt_view(final(app).context.upstream));
    assert(after.path == opt_view(final(app).context.path));
}

/// The dashboard ends at its keys, and takes events in before it draws.
pub proof fn keys_and_turns_mean_what_they_say(
    control: bool,
    q: bool,
    c: bool,
    x: char,
    other: bool,
    event: TraceEvent,
    taken: Turn,
    drawn: Turn,
    left: Turn,
)
    requires
        call_ensures(is_exit_key, (Key::Char('q'), control), q),
        call_ensures(is_exit_key, (Key::Char('c'), control), c),
        x != 'q' && x != 'c',
        call_ensures(is_exit_key, (Key::Char(x), control), other),
        call_ensures(next_turn, (Received::Event(event),), taken),
        call_ensures(next_turn, (Received::Empty,), drawn),
        call_ensures(next_turn, (Received::Closed,), left),
    ensures
        q,
        c <==> control,
        !other,
        taken == Turn::Ingest(event),
        drawn is Draw,
        left is Leave,
{
}

} // verus!
