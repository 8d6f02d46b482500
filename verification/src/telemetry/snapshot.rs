//! What the events so far add up to.

use vstd::prelude::*;
use super::{
    bucket_of, clock_stamp, clock_text, event_impacts_health, event_suffix, field, field_or,
    flag_in, get_field, get_field_or, get_flag, get_number, health_of, health_stage, impacts_health,
    is_aggregate, link_from_target, link_of, number_in, recent_event_suffix, recoverable,
    route_bucket_for_event, traffic_sample_is_aggregate, EventView, HealthView, RouteBucket,
    RouteStats, TraceEvent, TunnelHealth, TunnelState,
};
use super::hub::TrafficState;
use crate::text::{cat, cat3, clone_strings, contains, has, same, split, split_on, views};

verus! {

/// How many seconds the history of traffic goes back.
pub const HISTORY_LEN: usize = 48;

/// How many events are kept.
pub const RECENT_EVENTS: usize = 40;

/// How many targets are kept.
pub const RECENT_TARGETS: usize = 40;

// ---------------------------------------------------------------------------
// Types

/// A target that was reached lately.
#[derive(Debug)]
pub struct RecentTargetSnapshot {
    pub seen_at: String,
    pub target: String,
    pub route: String,
    pub link: String,
    pub detail: String,
    pub repeat_count: u64,
    pub uploaded: u64,
    pub downloaded: u64,
}

/// A target that was reached lately.
#[verifier::ext_equal]
pub struct RecentView {
    pub seen_at: Seq<char>,
    pub target: Seq<char>,
    pub route: Seq<char>,
    pub link: Seq<char>,
    pub detail: Seq<char>,
    pub repeat_count: u64,
    pub uploaded: u64,
    pub downloaded: u64,
}

impl View for RecentTargetSnapshot {
    type V = RecentView;

    open spec fn view(&self) -> RecentView {
        RecentView {
            seen_at: self.seen_at@,
            target: self.target@,
            route: self.route@,
            link: self.link@,
            detail: self.detail@,
            repeat_count: self.repeat_count,
            uploaded: self.uploaded,
            downloaded: self.downloaded,
        }
    }
}

impl RecentTargetSnapshot {
    /// A copy.
    pub fn copy(&self) -> (r: Self)
        ensures
            r == *self,
    {
        RecentTargetSnapshot {
            seen_at: self.seen_at.clone(),
            target: self.target.clone(),
            route: self.route.clone(),
            link: self.link.clone(),
            detail: self.detail.clone(),
            repeat_count: self.repeat_count,
            uploaded: self.uploaded,
            downloaded: self.downloaded,
        }
    }
}

/// The rows of a list of targets.
pub open spec fn rows(list: Seq<RecentTargetSnapshot>) -> Seq<RecentView> {
    list.map_values(|r: RecentTargetSnapshot| r@)
}

/// What is watched.
#[derive(Debug)]
pub struct MonitorContext {
    pub command_label: String,
    pub mode_label: String,
    pub traffic_state: TrafficState,
    pub listen: Option<String>,
    pub upstream: Option<String>,
    pub path: Option<String>,
    pub log_file: String,
    pub log_filter: String,
    pub log_timezone_offset_secs: i32,
    pub pid: u32,
}

fn copy_opt(s: &Option<String>) -> (r: Option<String>)
    ensures
        r == *s,
{
    match s {
        Some(x) => Some(x.clone()),
        None => None,
    }
}

impl MonitorContext {
    /// A copy.
    pub fn copy(&self) -> (r: Self)
        ensures
            r == *self,
    {
        MonitorContext {
            command_label: self.command_label.clone(),
            mode_label: self.mode_label.clone(),
            traffic_state: self.traffic_state,
            listen: copy_opt(&self.listen),
            upstream: copy_opt(&self.upstream),
            path: copy_opt(&self.path),
            log_file: self.log_file.clone(),
            log_filter: self.log_filter.clone(),
            log_timezone_offset_secs: self.log_timezone_offset_secs,
            pid: self.pid,
        }
    }
}

/// What a dashboard shows.
#[derive(Debug)]
pub struct DashboardSnapshot {
    pub context: MonitorContext,
    pub uptime_secs: u64,
    pub total_relays: u64,
    pub total_errors: u64,
    pub total_warnings: u64,
    pub total_uploaded: u64,
    pub total_downloaded: u64,
    pub route_stats: RouteStats,
    pub tunnel_health: TunnelHealth,
    pub upload_history: Vec<u64>,
    pub download_history: Vec<u64>,
    pub recent_targets: Vec<RecentTargetSnapshot>,
    pub recent_events: Vec<String>,
    pub last_event_age_ms: Option<u64>,
    pub last_warning_age_ms: Option<u64>,
    pub last_traffic_age_ms: Option<u64>,
}

/// What the events so far add up to. Times are milliseconds of a clock that
/// never goes back.
#[derive(Debug)]
pub struct SnapshotState {
    pub context: Option<MonitorContext>,
    pub started_at: u64,
    pub total_relays: u64,
    pub total_errors: u64,
    pub total_warnings: u64,
    pub total_uploaded: u64,
    pub total_downloaded: u64,
    pub route_stats: RouteStats,
    pub tunnel_health: TunnelHealth,
    pub upload_history: Vec<u64>,
    pub download_history: Vec<u64>,
    pub last_bucket_at: u64,
    pub last_event_at: Option<u64>,
    pub last_warning_at: Option<u64>,
    pub last_traffic_at: Option<u64>,
    /// The latest first.
    pub recent_targets: Vec<RecentTargetSnapshot>,
    /// The latest first.
    pub recent_events: Vec<String>,
}

/// What the events so far add up to.
#[verifier::ext_equal]
pub struct SnapshotView {
    pub context: Option<MonitorContext>,
    pub started_at: u64,
    pub total_relays: u64,
    pub total_errors: u64,
    pub total_warnings: u64,
    pub total_uploaded: u64,
    pub total_downloaded: u64,
    pub route_stats: RouteStats,
    pub tunnel_health: HealthView,
    pub upload_history: Seq<u64>,
    pub download_history: Seq<u64>,
    pub last_bucket_at: u64,
    pub last_event_at: Option<u64>,
    pub last_warning_at: Option<u64>,
    pub last_traffic_at: Option<u64>,
    pub recent_targets: Seq<RecentView>,
    pub recent_events: Seq<Seq<char>>,
}

impl View for SnapshotState {
    type V = SnapshotView;

    open spec fn view(&self) -> SnapshotView {
        SnapshotView {
            context: self.context,
            started_at: self.started_at,
            total_relays: self.total_relays,
            total_errors: self.total_errors,
            total_warnings: self.total_warnings,
            total_uploaded: self.total_uploaded,
            total_downloaded: self.total_downloaded,
            route_stats: self.route_stats,
            tunnel_health: self.tunnel_health@,
            upload_history: self.upload_history@,
            download_history: self.download_history@,
            last_bucket_at: self.last_bucket_at,
            last_event_at: self.last_event_at,
            last_warning_at: self.last_warning_at,
            last_traffic_at: self.last_traffic_at,
            recent_targets: rows(self.recent_targets@),
            recent_events: views(self.recent_events@),
        }
    }
}

// ---------------------------------------------------------------------------
// What an event does

/// The command that is watched.
pub open spec fn command_of(s: SnapshotView) -> Option<Seq<char>> {
    match s.context {
        Some(c) => Some(c.command_label@),
        None => None,
    }
}

/// How many seconds the zone of the log is ahead.
pub open spec fn offset_of(s: SnapshotView) -> i32 {
    match s.context {
        Some(c) => c.log_timezone_offset_secs,
        None => 0,
    }
}

/// A history without traffic.
pub open spec fn no_traffic() -> Seq<u64> {
    Seq::new(HISTORY_LEN as nat, |i: int| 0u64)
}

/// What is known before anything happened.
pub open spec fn fresh(now: u64) -> SnapshotView {
    SnapshotView {
        context: None,
        started_at: now,
        total_relays: 0,
        total_errors: 0,
        total_warnings: 0,
        total_uploaded: 0,
        total_downloaded: 0,
        route_stats: RouteStats { proxy: 0, direct: 0, blocked: 0 },
        tunnel_health: health_stage(TunnelState::Unknown, seq![]),
        upload_history: no_traffic(),
        download_history: no_traffic(),
        last_bucket_at: now,
        last_event_at: None,
        last_warning_at: None,
        last_traffic_at: None,
        recent_targets: seq![],
        recent_events: seq![],
    }
}

/// Whole seconds from one time to another.
pub open spec fn seconds_between(from: u64, to: u64) -> nat {
    if to >= from {
        ((to - from) / 1000) as nat
    } else {
        0
    }
}

/// A history after `n` seconds without traffic.
pub open spec fn rotated(history: Seq<u64>, n: nat) -> Seq<u64>
    decreases n,
{
    if n == 0 {
        history
    } else {
        rotated(history.skip(1).push(0), (n - 1) as nat)
    }
}

/// A history with more traffic in the last second.
pub open spec fn with_traffic(history: Seq<u64>, amount: int) -> Seq<u64> {
    history.update(history.len() - 1, (history.last() + amount) as u64)
}

/// What a list looks like with something put before it, when it may not get
/// longer than `limit`.
pub open spec fn put_first<T>(list: Seq<T>, first: T, limit: int) -> Seq<T> {
    let longer = list.insert(0, first);
    if longer.len() > limit {
        longer.take(limit)
    } else {
        longer
    }
}

/// A line in the list of recent events.
pub open spec fn event_line(e: EventView, offset: i32) -> Seq<char> {
    clock_text(e.at_secs, offset) + " ["@ + e.level + "] "@ + e.message + event_suffix(e)
}

/// Whether an event comes into a list of `n` recent events.
pub open spec fn is_listed(e: EventView, n: nat) -> bool {
    &&& e.message != "traffic sample"@
    &&& e.message != "dns query"@
    &&& !(e.message == "tunnel health"@ && e.level != "WARN"@)
    &&& !(contains(e.message, "relay completed"@) && n >= RECENT_EVENTS)
}

/// What is said of a name when nothing else is known.
pub open spec fn default_detail(route: Seq<char>) -> Seq<char> {
    if route == "wg-dns-direct"@ || route == "direct"@ {
        "pending"@
    } else if route == "wg-dns-block"@ || route == "block"@ {
        "blocked"@
    } else if route == "wg-dns"@ || route == "wg-dns-remote"@ || route == "remote"@ {
        "wg tunnel"@
    } else {
        "-"@
    }
}

/// What is said of a name that is asked for again.
pub open spec fn merged_detail(current: Seq<char>, next: Seq<char>, route: Seq<char>) -> Seq<char> {
    if current.len() == 0 || current == "-"@ || current == default_detail(route) {
        next
    } else {
        current
    }
}

/// What is said of a name that turned out to have an address.
pub open spec fn detail_with_ip(detail: Seq<char>, ip: Seq<char>) -> Seq<char> {
    if detail.len() == 0 || detail == "-"@ || detail == "pending"@ || detail == "blocked"@
        || detail == "wg tunnel"@ {
        ip
    } else {
        let known = split(detail, ", "@);
        if known.contains(ip) || known.contains("..."@) {
            detail
        } else if known.len() >= 3 {
            detail + ", ..."@
        } else {
            detail + ", "@ + ip
        }
    }
}

/// The first row with a link and a route.
pub open spec fn row_from(list: Seq<RecentView>, link: Seq<char>, route: Seq<char>, from: int)
    -> Option<int>
    decreases list.len() - from,
{
    if from < 0 || from >= list.len() {
        None
    } else if list[from].link == link && list[from].route == route {
        Some(from)
    } else {
        row_from(list, link, route, from + 1)
    }
}

/// The first row of a domain.
pub open spec fn domain_row_from(list: Seq<RecentView>, domain: Seq<char>, from: int) -> Option<int>
    decreases list.len() - from,
{
    if from < 0 || from >= list.len() {
        None
    } else if list[from].link == "dns://"@ + domain || list[from].target == domain {
        Some(from)
    } else {
        domain_row_from(list, domain, from + 1)
    }
}

/// The list of targets after an event that ties a domain to an address.
pub open spec fn rows_with_ip(list: Seq<RecentView>, e: EventView) -> Seq<RecentView> {
    match (field(e, "domain"@), field(e, "ip"@)) {
        (Some(domain), Some(ip)) => match domain_row_from(list, domain, 0) {
            Some(i) => list.update(
                i,
                RecentView { detail: detail_with_ip(list[i].detail, ip), ..list[i] },
            ),
            None => list,
        },
        _ => list,
    }
}

/// Whether each row counts at least once.
pub open spec fn each_counts(list: Seq<RecentView>) -> bool {
    forall|i: int| 0 <= i < list.len() ==> (#[trigger] list[i]).repeat_count >= 1
}

/// One more, and at least two.
pub open spec fn counted_again(n: u64) -> u64 {
    if n == u64::MAX {
        n
    } else if n == 0 {
        2
    } else {
        (n + 1) as u64
    }
}

/// The list of targets after a question for a name.
pub open spec fn rows_with_domain(list: Seq<RecentView>, e: EventView, offset: i32) -> Seq<
    RecentView,
> {
    let target = field_or(e, "target"@, "-"@);
    let link = field_or(e, "link"@, link_of(target));
    let route = field_or(e, "route"@, "remote"@);
    let detail = field_or(e, "detail"@, default_detail(route));
    let seen_at = clock_text(e.at_secs, offset);
    match row_from(list, link, route, 0) {
        Some(i) => list.remove(i).insert(
            0,
            RecentView {
                seen_at,
                detail: merged_detail(list[i].detail, detail, route),
                repeat_count: counted_again(list[i].repeat_count),
                ..list[i]
            },
        ),
        None => put_first(
            list,
            RecentView {
                seen_at,
                target,
                route,
                link,
                detail,
                repeat_count: 1,
                uploaded: 0,
                downloaded: 0,
            },
            RECENT_TARGETS as int,
        ),
    }
}

/// The list of targets after a relay that ended.
pub open spec fn rows_with_relay(list: Seq<RecentView>, e: EventView, offset: i32) -> Seq<
    RecentView,
> {
    let target = field_or(e, "target"@, "-"@);
    put_first(
        list,
        RecentView {
            seen_at: clock_text(e.at_secs, offset),
            target,
            route: field_or(e, "route"@, "remote"@),
            link: link_of(target),
            detail: Seq::empty(),
            repeat_count: 1,
            uploaded: number_in(e, "uploaded"@) as u64,
            downloaded: number_in(e, "downloaded"@) as u64,
        },
        RECENT_TARGETS as int,
    )
}

/// The kinds of events that are told apart.
pub enum Happening {
    Question,
    Sample,
    Relay,
    Other,
}

/// What kind of event it is.
pub open spec fn happening(e: EventView) -> Happening {
    if e.message == "dns query"@ {
        Happening::Question
    } else if e.message == "traffic sample"@ {
        Happening::Sample
    } else if contains(e.message, "relay completed"@) {
        Happening::Relay
    } else {
        Happening::Other
    }
}

/// Whether the bytes of an event count for the totals.
pub open spec fn counts(e: EventView) -> bool {
    match happening(e) {
        Happening::Sample => is_aggregate(e),
        Happening::Relay => true,
        _ => false,
    }
}

/// Whether the bytes of an event count for the history.
pub open spec fn counts_in_history(e: EventView) -> bool {
    match happening(e) {
        Happening::Sample => true,
        Happening::Relay => !flag_in(e, "sampled"@),
        _ => false,
    }
}

/// Whether an event is a failure.
pub open spec fn is_failure(e: EventView) -> bool {
    e.level == "ERROR"@ || contains(e.message, "with error"@)
}

/// Whether an event shows traffic.
pub open spec fn shows_traffic(e: EventView) -> bool {
    match happening(e) {
        Happening::Sample => true,
        Happening::Relay => number_in(e, "uploaded"@) > 0 || number_in(e, "downloaded"@) > 0,
        _ => false,
    }
}

/// `n`, or nothing.
pub open spec fn only_if(yes: bool, n: int) -> int {
    if yes {
        n
    } else {
        0
    }
}

/// What the events add up to when one more happens.
pub open spec fn ingested(s: SnapshotView, e: EventView, now: u64) -> SnapshotView {
    let seconds = seconds_between(s.last_bucket_at, now);
    let uploaded = number_in(e, "uploaded"@);
    let downloaded = number_in(e, "downloaded"@);
    let named = rows_with_ip(s.recent_targets, e);
    SnapshotView {
        context: s.context,
        started_at: s.started_at,
        total_relays: (s.total_relays + only_if(happening(e) is Relay, 1)) as u64,
        total_errors: (s.total_errors + only_if(is_failure(e), 1)) as u64,
        total_warnings: (s.total_warnings + only_if(e.level == "WARN"@, 1)) as u64,
        total_uploaded: (s.total_uploaded + only_if(counts(e), uploaded)) as u64,
        total_downloaded: (s.total_downloaded + only_if(counts(e), downloaded)) as u64,
        route_stats: match bucket_of(e) {
            Some(bucket) => s.route_stats.with_one_more(bucket),
            None => s.route_stats,
        },
        tunnel_health: match health_of(e) {
            Some(h) => h,
            None => s.tunnel_health,
        },
        upload_history: with_traffic(
            rotated(s.upload_history, seconds),
            only_if(counts_in_history(e), uploaded),
        ),
        download_history: with_traffic(
            rotated(s.download_history, seconds),
            only_if(counts_in_history(e), downloaded),
        ),
        last_bucket_at: (s.last_bucket_at + 1000 * seconds) as u64,
        last_event_at: Some(now),
        last_warning_at: if impacts_health(command_of(s), e) {
            Some(now)
        } else {
            s.last_warning_at
        },
        last_traffic_at: if shows_traffic(e) {
            Some(now)
        } else {
            s.last_traffic_at
        },
        recent_targets: match happening(e) {
            Happening::Question => rows_with_domain(named, e, offset_of(s)),
            Happening::Relay => rows_with_relay(named, e, offset_of(s)),
            _ => named,
        },
        recent_events: if is_listed(e, s.recent_events.len()) {
            put_first(s.recent_events, event_line(e, offset_of(s)), RECENT_EVENTS as int)
        } else {
            s.recent_events
        },
    }
}

/// Whether the counters can take an event.
pub open spec fn has_room(s: SnapshotView, e: EventView, now: u64) -> bool {
    let seconds = seconds_between(s.last_bucket_at, now);
    let uploaded = number_in(e, "uploaded"@);
    let downloaded = number_in(e, "downloaded"@);
    &&& s.total_relays + only_if(happening(e) is Relay, 1) <= u64::MAX
    &&& s.total_errors + only_if(is_failure(e), 1) <= u64::MAX
    &&& s.total_warnings + only_if(e.level == "WARN"@, 1) <= u64::MAX
    &&& s.total_uploaded + only_if(counts(e), uploaded) <= u64::MAX
    &&& s.total_downloaded + only_if(counts(e), downloaded) <= u64::MAX
    &&& (bucket_of(e) matches Some(bucket) ==> s.route_stats.count(bucket) < u64::MAX)
    &&& rotated(s.upload_history, seconds).last() + only_if(counts_in_history(e), uploaded)
        <= u64::MAX
    &&& rotated(s.download_history, seconds).last() + only_if(counts_in_history(e), downloaded)
        <= u64::MAX
}

// ---------------------------------------------------------------------------
// Lists

pub(crate) fn recent_domain_default_detail(route: &str) -> (r: String)
    ensures
        r@ == default_detail(route@),
{
    if same(route, "wg-dns-direct") || same(route, "direct") {
        "pending".to_owned()
    } else if same(route, "wg-dns-block") || same(route, "block") {
        "blocked".to_owned()
    } else if same(route, "wg-dns") || same(route, "wg-dns-remote") || same(route, "remote") {
        "wg tunnel".to_owned()
    } else {
        "-".to_owned()
    }
}

pub(crate) fn merge_recent_domain_detail(current: &str, next: &str, route: &str) -> (r: String)
    ensures
        r@ == merged_detail(current@, next@, route@),
{
    if current.is_empty() || same(current, "-") || same(
        current,
        recent_domain_default_detail(route).as_str(),
    ) {
        next.to_owned()
    } else {
        current.to_owned()
    }
}

pub(crate) fn has_piece(pieces: &Vec<String>, piece: &str) -> (r: bool)
    ensures
        r == views(pieces@).contains(piece@),
{
    let mut i: usize = 0;
    while i < pieces.len()
        invariant
            i <= pieces.len(),
            forall|k: int| 0 <= k < i ==> (#[trigger] views(pieces@)[k]) != piece@,
        decreases pieces.len() - i,
    {
        if same(pieces[i].as_str(), piece) {
            assert(views(pieces@)[i as int] == piece@);
            return true;
        }
        i = i + 1;
    }
    false
}

/// Adds an address to what is said of a name.
pub fn append_recent_domain_ip(detail: &str, ip: &str) -> (r: String)
    ensures
        r@ == detail_with_ip(detail@, ip@),
{
    if detail.is_empty() || same(detail, "-") || same(detail, "pending") || same(detail, "blocked")
        || same(detail, "wg tunnel") {
        return ip.to_owned();
    }
    proof {
        reveal_strlit(", ");
    }
    let known = split_on(detail, ", ");
    if has_piece(&known, ip) || has_piece(&known, "...") {
        return detail.to_owned();
    }
    if known.len() >= 3 {
        return cat(detail, ", ...");
    }
    cat3(detail, ", ", ip)
}

fn find_row(list: &Vec<RecentTargetSnapshot>, link: &str, route: &str) -> (r: Option<usize>)
    ensures
        match (r, row_from(rows(list@), link@, route@, 0)) {
            (Some(i), Some(k)) => i == k && i < list.len(),
            (None, None) => true,
            _ => false,
        },
{
    let mut i: usize = 0;
    while i < list.len()
        invariant
            i <= list.len(),
            row_from(rows(list@), link@, route@, 0) == row_from(
                rows(list@),
                link@,
                route@,
                i as int,
            ),
        decreases list.len() - i,
    {
        assert(rows(list@)[i as int] == list@[i as int]@);
        if same(list[i].link.as_str(), link) && same(list[i].route.as_str(), route) {
            return Some(i);
        }
        i = i + 1;
    }
    None
}

fn find_domain_row(list: &Vec<RecentTargetSnapshot>, domain: &str) -> (r: Option<usize>)
    ensures
        match (r, domain_row_from(rows(list@), domain@, 0)) {
            (Some(i), Some(k)) => i == k && i < list.len(),
            (None, None) => true,
            _ => false,
        },
{
    let link = cat("dns://", domain);
    let mut i: usize = 0;
    while i < list.len()
        invariant
            link@ == "dns://"@ + domain@,
            i <= list.len(),
            domain_row_from(rows(list@), domain@, 0) == domain_row_from(
                rows(list@),
                domain@,
                i as int,
            ),
        decreases list.len() - i,
    {
        assert(rows(list@)[i as int] == list@[i as int]@);
        if same(list[i].link.as_str(), link.as_str()) || same(list[i].target.as_str(), domain) {
            return Some(i);
        }
        i = i + 1;
    }
    None
}

fn put_row(list: &mut Vec<RecentTargetSnapshot>, row: RecentTargetSnapshot)
    ensures
        rows(final(list)@) == put_first(rows(old(list)@), row@, RECENT_TARGETS as int),
        final(list).len() <= RECENT_TARGETS,
{
    list.insert(0, row);
    assert(rows(list@) =~= rows(old(list)@).insert(0, row@));
    list.truncate(RECENT_TARGETS);
}

fn put_event(list: &mut Vec<String>, line: String)
    ensures
        views(final(list)@) == put_first(views(old(list)@), line@, RECENT_EVENTS as int),
        final(list).len() <= RECENT_EVENTS,
{
    list.insert(0, line);
    assert(views(list@) =~= views(old(list)@).insert(0, line@));
    list.truncate(RECENT_EVENTS);
}

/// Moves a history on by one second.
pub fn rotate_history(history: &mut Vec<u64>)
    requires
        old(history).len() > 0,
    ensures
        final(history)@ == old(history)@.skip(1).push(0),
{
    let _ = history.remove(0);
    history.push(0);
    assert(history@ =~= old(history)@.skip(1).push(0));
}

pub(crate) fn add_traffic(history: &mut Vec<u64>, amount: u64)
    requires
        old(history).len() > 0,
        old(history)@.last() + amount <= u64::MAX,
    ensures
        final(history)@ == with_traffic(old(history)@, amount as int),
{
    let last: usize = history.len() - 1;
    let sum: u64 = history[last] + amount;
    history.set(last, sum);
}

// ---------------------------------------------------------------------------
// The state

impl SnapshotState {
    /// What holds of every state.
    pub open spec fn wf(&self) -> bool {
        &&& self.upload_history.len() == HISTORY_LEN
        &&& self.download_history.len() == HISTORY_LEN
        &&& self.recent_targets.len() <= RECENT_TARGETS
        &&& self.recent_events.len() <= RECENT_EVENTS
        &&& each_counts(self@.recent_targets)
    }

    /// The state before anything happened.
    pub fn new(now: u64) -> (r: Self)
        ensures
            r.wf(),
            r@ == fresh(now),
    {
        let r = SnapshotState {
            context: None,
            started_at: now,
            total_relays: 0,
            total_errors: 0,
            total_warnings: 0,
            total_uploaded: 0,
            total_downloaded: 0,
            route_stats: RouteStats { proxy: 0, direct: 0, blocked: 0 },
            tunnel_health: TunnelHealth::default(),
            upload_history: vec![0u64; HISTORY_LEN],
            download_history: vec![0u64; HISTORY_LEN],
            last_bucket_at: now,
            last_event_at: None,
            last_warning_at: None,
            last_traffic_at: None,
            recent_targets: Vec::new(),
            recent_events: Vec::new(),
        };
        proof {
            assert(r@.upload_history =~= no_traffic());
            assert(r@.download_history =~= no_traffic());
            assert(r@.recent_targets =~= Seq::<RecentView>::empty());
            assert(r@.recent_events =~= Seq::<Seq<char>>::empty());
        }
        r
    }

    /// Says what is watched.
    pub fn set_context(&mut self, context: MonitorContext)
        ensures
            final(self)@ == (SnapshotView { context: Some(context), ..old(self)@ }),
            old(self).wf() ==> final(self).wf(),
    {
        self.context = Some(context);
    }

    /// Says where the traffic of what is watched goes.
    pub fn set_traffic_state(&mut self, state: TrafficState)
        ensures
            final(self)@ == (SnapshotView {
                context: match old(self).context {
                    Some(c) => Some(MonitorContext { traffic_state: state, ..c }),
                    None => None,
                },
                ..old(self)@
            }),
            old(self).wf() ==> final(self).wf(),
    {
        match &mut self.context {
            Some(context) => {
                context.traffic_state = state;
            },
            None => {},
        }
    }

    fn log_timezone_offset_secs(&self) -> (r: i32)
        ensures
            r == offset_of(self@),
    {
        match &self.context {
            Some(context) => context.log_timezone_offset_secs,
            None => 0,
        }
    }

    fn rotate_history(&mut self, now: u64)
        requires
            old(self).wf(),
        ensures
            final(self).wf(),
            final(self)@ == (SnapshotView {
                upload_history: rotated(
                    old(self)@.upload_history,
                    seconds_between(old(self).last_bucket_at, now),
                ),
                download_history: rotated(
                    old(self)@.download_history,
                    seconds_between(old(self).last_bucket_at, now),
                ),
                last_bucket_at: (old(self).last_bucket_at + 1000 * seconds_between(
                    old(self).last_bucket_at,
                    now,
                )) as u64,
                ..old(self)@
            }),
    {
        let ghost start = self@;
        let ghost total = seconds_between(start.last_bucket_at, now);
        while now >= self.last_bucket_at && now - self.last_bucket_at >= 1000
            invariant
                self.wf(),
                total == seconds_between(start.last_bucket_at, now),
                rotated(start.upload_history, total) == rotated(
                    self@.upload_history,
                    seconds_between(self.last_bucket_at, now),
                ),
                rotated(start.download_history, total) == rotated(
                    self@.download_history,
                    seconds_between(self.last_bucket_at, now),
                ),
                self.last_bucket_at + 1000 * seconds_between(self.last_bucket_at, now)
                    == start.last_bucket_at + 1000 * total,
                self@ == (SnapshotView {
                    upload_history: self@.upload_history,
                    download_history: self@.download_history,
                    last_bucket_at: self.last_bucket_at,
                    ..start
                }),
            decreases now - self.last_bucket_at,
        {
            let ghost before = self.last_bucket_at;
            rotate_history(&mut self.upload_history);
            rotate_history(&mut self.download_history);
            self.last_bucket_at = self.last_bucket_at + 1000;
            proof {
                assert(seconds_between(before, now) == seconds_between(self.last_bucket_at, now)
                    + 1);
            }
        }
        assert(seconds_between(self.last_bucket_at, now) == 0);
    }

    fn capture_recent_event(&mut self, event: &TraceEvent)
        ensures
            old(self).wf() ==> final(self).wf(),
            final(self)@ == (SnapshotView {
                recent_events: if is_listed(event@, old(self)@.recent_events.len()) {
                    put_first(
                        old(self)@.recent_events,
                        event_line(event@, offset_of(old(self)@)),
                        RECENT_EVENTS as int,
                    )
                } else {
                    old(self)@.recent_events
                },
                ..old(self)@
            }),
    {
        let message = event.message.as_str();
        if same(message, "traffic sample") || same(message, "dns query") || (same(
            message,
            "tunnel health",
        ) && !same(event.level.as_str(), "WARN")) {
            return ;
        }
        if has(message, "relay completed") && self.recent_events.len() >= RECENT_EVENTS {
            return ;
        }
        let stamp = clock_stamp(event.at_secs, self.log_timezone_offset_secs());
        let head = cat3(cat3(stamp.as_str(), " [", event.level.as_str()).as_str(), "] ", message);
        let suffix = recent_event_suffix(event);
        put_event(&mut self.recent_events, cat(head.as_str(), suffix.as_str()));
    }

    fn capture_recent_domain_ip(&mut self, event: &TraceEvent)
        ensures
            old(self).wf() ==> final(self).wf(),
            final(self)@ == (SnapshotView {
                recent_targets: rows_with_ip(old(self)@.recent_targets, event@),
                ..old(self)@
            }),
    {
        let domain = match get_field(event, "domain") {
            Some(d) => d,
            None => {
                return ;
            },
        };
        let ip = match get_field(event, "ip") {
            Some(ip) => ip,
            None => {
                return ;
            },
        };
        match find_domain_row(&self.recent_targets, domain) {
            Some(i) => {
                let mut row = self.recent_targets[i].copy();
                row.detail = append_recent_domain_ip(row.detail.as_str(), ip);
                self.recent_targets.set(i, row);
                proof {
                    assert(rows(old(self).recent_targets@)[i as int] == old(
                        self,
                    ).recent_targets@[i as int]@);
                    assert(rows(self.recent_targets@) =~= rows_with_ip(
                        old(self)@.recent_targets,
                        event@,
                    ));
                }
            },
            None => {},
        }
    }

    fn capture_recent_domain(&mut self, event: &TraceEvent)
        ensures
            old(self).wf() ==> final(self).wf(),
            final(self)@ == (SnapshotView {
                recent_targets: rows_with_domain(
                    old(self)@.recent_targets,
                    event@,
                    offset_of(old(self)@),
                ),
                ..old(self)@
            }),
    {
        let target = get_field_or(event, "target", "-");
        let link = match get_field(event, "link") {
            Some(l) => l.to_owned(),
            None => link_from_target(target.as_str()),
        };
        let route = get_field_or(event, "route", "remote");
        let detail = match get_field(event, "detail") {
            Some(d) => d.to_owned(),
            None => recent_domain_default_detail(route.as_str()),
        };
        let seen_at = clock_stamp(event.at_secs, self.log_timezone_offset_secs());
        match find_row(&self.recent_targets, link.as_str(), route.as_str()) {
            Some(i) => {
                let ghost before = self.recent_targets@;
                let mut row = self.recent_targets.remove(i);
                row.seen_at = seen_at;
                row.detail = merge_recent_domain_detail(
                    row.detail.as_str(),
                    detail.as_str(),
                    route.as_str(),
                );
                row.repeat_count = if row.repeat_count == u64::MAX {
                    u64::MAX
                } else if row.repeat_count == 0 {
                    2
                } else {
                    row.repeat_count + 1
                };
                self.recent_targets.insert(0, row);
                proof {
                    assert(rows(before)[i as int] == before[i as int]@);
                    assert(rows(self.recent_targets@) =~= rows(before).remove(i as int).insert(
                        0,
                        row@,
                    ));
                }
            },
            None => {
                put_row(
                    &mut self.recent_targets,
                    RecentTargetSnapshot {
                        seen_at,
                        target,
                        route,
                        link,
                        detail,
                        repeat_count: 1,
                        uploaded: 0,
                        downloaded: 0,
                    },
                );
            },
        }
    }

    /// Takes an event in.
    #[verifier::spinoff_prover]
    #[verifier::rlimit(60)]
    pub fn ingest(&mut self, event: &TraceEvent, now: u64)
        requires
            old(self).wf(),
            has_room(old(self)@, event@, now),
        ensures
            final(self).wf(),
            final(self)@ == ingested(old(self)@, event@, now),
    {
        let ghost start = self@;
        let ghost e = event@;
        self.rotate_history(now);
        self.last_event_at = Some(now);
        let impacts = match &self.context {
            Some(c) => event_impacts_health(Some(c.command_label.as_str()), event),
            None => event_impacts_health(None, event),
        };
        if same(event.level.as_str(), "WARN") {
            self.total_warnings = self.total_warnings + 1;
        }
        let with_error = has(event.message.as_str(), "with error");
        if same(event.level.as_str(), "ERROR") || with_error {
            self.total_errors = self.total_errors + 1;
        }
        if impacts {
            self.last_warning_at = Some(now);
        }
        self.capture_recent_event(event);
        self.capture_recent_domain_ip(event);
        match TunnelHealth::from_event(event) {
            Some(health) => {
                self.tunnel_health = health;
            },
            None => {},
        }
        match route_bucket_for_event(event) {
            Some(bucket) => {
                self.route_stats.record(bucket);
            },
            None => {},
        }
        let uploaded: u64 = get_number(event, "uploaded");
        let downloaded: u64 = get_number(event, "downloaded");
        if same(event.message.as_str(), "dns query") {
            self.capture_recent_domain(event);
            proof {
                lemma_no_traffic(self@.upload_history);
                lemma_no_traffic(self@.download_history);
                assert(self@ =~= ingested(start, e, now));
            }
            return ;
        }
        if same(event.message.as_str(), "traffic sample") {
            self.last_traffic_at = Some(now);
            if traffic_sample_is_aggregate(event) {
                self.total_uploaded = self.total_uploaded + uploaded;
                self.total_downloaded = self.total_downloaded + downloaded;
            }
            add_traffic(&mut self.upload_history, uploaded);
            add_traffic(&mut self.download_history, downloaded);
            assert(self@ =~= ingested(start, e, now));
            return ;
        }
        if has(event.message.as_str(), "relay completed") {
            self.total_relays = self.total_relays + 1;
            self.total_uploaded = self.total_uploaded + uploaded;
            self.total_downloaded = self.total_downloaded + downloaded;
            if uploaded > 0 || downloaded > 0 {
                self.last_traffic_at = Some(now);
            }
            let counted: bool = !get_flag(event, "sampled");
            add_traffic(&mut self.upload_history, if counted { uploaded } else { 0 });
            add_traffic(&mut self.download_history, if counted { downloaded } else { 0 });
            let target = get_field_or(event, "target", "-");
            let row = RecentTargetSnapshot {
                seen_at: clock_stamp(event.at_secs, self.log_timezone_offset_secs()),
                link: link_from_target(target.as_str()),
                target,
                route: get_field_or(event, "route", "remote"),
                detail: String::new(),
                repeat_count: 1,
                uploaded,
                downloaded,
            };
            assert(row.detail@ =~= Seq::<char>::empty());
            put_row(&mut self.recent_targets, row);
            assert(self@ =~= ingested(start, e, now));
        } else {
            proof {
                lemma_no_traffic(self@.upload_history);
                lemma_no_traffic(self@.download_history);
                assert(self@ =~= ingested(start, e, now));
            }
        }
    }
}

/// How long ago a time is.
pub open spec fn age(at: Option<u64>, now: u64) -> Option<u64> {
    match at {
        Some(t) => Some(if now >= t {
            (now - t) as u64
        } else {
            0
        }),
        None => None,
    }
}

pub(crate) fn age_millis(at: Option<u64>, now: u64) -> (r: Option<u64>)
    ensures
        r == age(at, now),
{
    match at {
        Some(t) => Some(if now >= t { now - t } else { 0 }),
        None => None,
    }
}

fn copy_numbers(v: &Vec<u64>) -> (r: Vec<u64>)
    ensures
        r@ == v@,
{
    let mut out: Vec<u64> = Vec::new();
    let mut i: usize = 0;
    while i < v.len()
        invariant
            i <= v.len(),
            out@ == v@.take(i as int),
        decreases v.len() - i,
    {
        out.push(v[i]);
        i = i + 1;
        assert(v@.take(i as int) =~= v@.take(i - 1).push(v@[i - 1]));
    }
    assert(v@.take(i as int) =~= v@);
    out
}

fn copy_rows(v: &Vec<RecentTargetSnapshot>) -> (r: Vec<RecentTargetSnapshot>)
    ensures
        r@ == v@,
{
    let mut out: Vec<RecentTargetSnapshot> = Vec::new();
    let mut i: usize = 0;
    while i < v.len()
        invariant
            i <= v.len(),
            out@ == v@.take(i as int),
        decreases v.len() - i,
    {
        out.push(v[i].copy());
        i = i + 1;
        assert(v@.take(i as int) =~= v@.take(i - 1).push(v@[i - 1]));
    }
    assert(v@.take(i as int) =~= v@);
    out
}

/// Whether a snapshot tells what a state holds.
pub open spec fn shows(d: DashboardSnapshot, s: SnapshotView, now: u64) -> bool {
    &&& Some(d.context) == s.context
    &&& d.uptime_secs == seconds_between(s.started_at, now)
    &&& d.total_relays == s.total_relays
    &&& d.total_errors == s.total_errors
    &&& d.total_warnings == s.total_warnings
    &&& d.total_uploaded == s.total_uploaded
    &&& d.total_downloaded == s.total_downloaded
    &&& d.route_stats == s.route_stats
    &&& d.tunnel_health@ == s.tunnel_health
    &&& d.upload_history@ == s.upload_history
    &&& d.download_history@ == s.download_history
    &&& rows(d.recent_targets@) == s.recent_targets
    &&& views(d.recent_events@) == s.recent_events
    &&& d.last_event_age_ms == age(s.last_event_at, now)
    &&& d.last_warning_age_ms == age(s.last_warning_at, now)
    &&& d.last_traffic_age_ms == age(s.last_traffic_at, now)
}

impl SnapshotState {
    /// What a dashboard shows, once it is known what is watched.
    pub fn snapshot(&self, now: u64) -> (r: Option<DashboardSnapshot>)
        ensures
            match r {
                Some(d) => shows(d, self@, now),
                None => self.context is None,
            },
    {
        let context = match &self.context {
            Some(c) => c.copy(),
            None => {
                return None;
            },
        };
        Some(
            DashboardSnapshot {
                context,
                uptime_secs: if now >= self.started_at {
                    (now - self.started_at) / 1000
                } else {
                    0
                },
                total_relays: self.total_relays,
                total_errors: self.total_errors,
                total_warnings: self.total_warnings,
                total_uploaded: self.total_uploaded,
                total_downloaded: self.total_downloaded,
                route_stats: self.route_stats,
                tunnel_health: self.tunnel_health.copy(),
                upload_history: copy_numbers(&self.upload_history),
                download_history: copy_numbers(&self.download_history),
                recent_targets: copy_rows(&self.recent_targets),
                recent_events: clone_strings(&self.recent_events),
                last_event_age_ms: age_millis(self.last_event_at, now),
                last_warning_age_ms: age_millis(self.last_warning_at, now),
                last_traffic_age_ms: age_millis(self.last_traffic_at, now),
            },
        )
    }

    /// Whether the counters can take an event.
    pub fn can_ingest(&self, event: &TraceEvent, now: u64) -> (r: bool)
        requires
            self.wf(),
        ensures
            r == has_room(self@, event@, now),
    {
        proof {
            lemma_rotated(self@.upload_history, seconds_between(self.last_bucket_at, now));
            lemma_rotated(self@.download_history, seconds_between(self.last_bucket_at, now));
        }
        let message = event.message.as_str();
        let question = same(message, "dns query");
        let sample = !question && same(message, "traffic sample");
        let relay = !question && !sample && has(message, "relay completed");
        let counted = relay || (sample && traffic_sample_is_aggregate(event));
        let drawn = sample || (relay && !get_flag(event, "sampled"));
        let with_error = has(message, "with error");
        let failure = same(event.level.as_str(), "ERROR") || with_error;
        let warning = same(event.level.as_str(), "WARN");
        let uploaded: u64 = get_number(event, "uploaded");
        let downloaded: u64 = get_number(event, "downloaded");
        let fresh = now >= self.last_bucket_at && now - self.last_bucket_at >= 1000;
        let full_route = match route_bucket_for_event(event) {
            Some(RouteBucket::Proxy) => self.route_stats.proxy == u64::MAX,
            Some(RouteBucket::Direct) => self.route_stats.direct == u64::MAX,
            Some(RouteBucket::Blocked) => self.route_stats.blocked == u64::MAX,
            None => false,
        };
        let last: usize = HISTORY_LEN - 1;
        let up: u64 = if fresh { 0 } else { self.upload_history[last] };
        let down: u64 = if fresh { 0 } else { self.download_history[last] };
        !(relay && self.total_relays == u64::MAX) && !(failure && self.total_errors == u64::MAX)
            && !(warning && self.total_warnings == u64::MAX) && !(counted && uploaded > u64::MAX
            - self.total_uploaded) && !(counted && downloaded > u64::MAX - self.total_downloaded)
            && !full_route && !(drawn && uploaded > u64::MAX - up) && !(drawn && downloaded
            > u64::MAX - down)
    }
}

/// A history keeps its length, and a second without traffic ends in nothing.
proof fn lemma_rotated(history: Seq<u64>, n: nat)
    requires
        history.len() > 0,
    ensures
        rotated(history, n).len() == history.len(),
        n > 0 ==> rotated(history, n).last() == 0,
    decreases n,
{
    if n > 0 {
        lemma_rotated(history.skip(1).push(0), (n - 1) as nat);
        if n == 1 {
            assert(rotated(history.skip(1).push(0), 0) == history.skip(1).push(0));
        }
    }
}

/// No traffic leaves a history as it is.
proof fn lemma_no_traffic(history: Seq<u64>)
    requires
        history.len() > 0,
    ensures
        with_traffic(history, 0) == history,
{
    assert(with_traffic(history, 0) =~= history);
}

// ---------------------------------------------------------------------------
// Laws

/// A name that is asked for again gets no second row: the first one comes to the
/// front and counts on.
pub proof fn asking_again_adds_no_row(
    s: SnapshotView,
    first: EventView,
    second: EventView,
    t1: u64,
    t2: u64,
)
    requires
        happening(first) is Question,
        happening(second) is Question,
        field(first, "link"@) is Some,
        field(first, "link"@) == field(second, "link"@),
        field_or(first, "route"@, "remote"@) == field_or(second, "route"@, "remote"@),
    ensures
        ({
            let once = ingested(s, first, t1);
            let twice = ingested(once, second, t2);
            &&& twice.recent_targets.len() == once.recent_targets.len()
            &&& twice.recent_targets[0].link == once.recent_targets[0].link
            &&& twice.recent_targets[0].repeat_count == counted_again(
                once.recent_targets[0].repeat_count,
            )
            &&& twice.recent_targets[0].repeat_count >= 2
        }),
{
    let once = ingested(s, first, t1);
    let route = field_or(first, "route"@, "remote"@);
    let link = field(first, "link"@)->0;
    let before = rows_with_ip(s.recent_targets, first);
    lemma_row_from(before, link, route, 0);
    let row = once.recent_targets[0];
    assert(row.link == link && row.route == route);
    let named = rows_with_ip(once.recent_targets, second);
    assert(once.recent_targets.len() > 0);
    assert(named.len() == once.recent_targets.len() && named[0].link == link && named[0].route
        == route && named[0].repeat_count == row.repeat_count) by {
        if let (Some(domain), Some(ip)) = (field(second, "domain"@), field(second, "ip"@)) {
            lemma_domain_row_from(once.recent_targets, domain, 0);
        }
    }
    assert(row_from(named, link, route, 0) == Some(0int));
}

/// A row that is found is in the list.
proof fn lemma_row_from(list: Seq<RecentView>, link: Seq<char>, route: Seq<char>, from: int)
    ensures
        row_from(list, link, route, from) matches Some(i) ==> 0 <= i < list.len() && list[i].link
            == link && list[i].route == route,
    decreases list.len() - from,
{
    if 0 <= from < list.len() {
        lemma_row_from(list, link, route, from + 1);
    }
}

/// A row that is found is in the list.
proof fn lemma_domain_row_from(list: Seq<RecentView>, domain: Seq<char>, from: int)
    ensures
        domain_row_from(list, domain, from) matches Some(i) ==> 0 <= i < list.len(),
    decreases list.len() - from,
{
    if 0 <= from < list.len() {
        lemma_domain_row_from(list, domain, from + 1);
    }
}

/// A sample of traffic that does not stand for the whole moves no total, and
/// fills neither list.
pub proof fn plain_samples_only_draw(s: SnapshotView, e: EventView, now: u64)
    requires
        happening(e) is Sample,
        !is_aggregate(e),
        field(e, "domain"@) is None,
    ensures
        ingested(s, e, now).total_uploaded == s.total_uploaded,
        ingested(s, e, now).total_downloaded == s.total_downloaded,
        ingested(s, e, now).recent_targets == s.recent_targets,
        ingested(s, e, now).recent_events == s.recent_events,
        ingested(s, e, now).last_traffic_at == Some(now),
{
}

/// A failed question for a name that is asked again leaves the health of a
/// tunnel as it was.
pub proof fn recoverable_failures_do_no_harm(s: SnapshotView, e: EventView, now: u64)
    requires
        recoverable(command_of(s), e),
    ensures
        ingested(s, e, now).last_warning_at == s.last_warning_at,
{
}

/// What a relay carried is added up when it is over, and in the last second of the
/// history unless it was told before; the relay is counted, by its route too, and
/// its target stands first.
#[verifier::spinoff_prover]
#[verifier::rlimit(50)]
pub proof fn relays_are_added_up(
    state: &mut SnapshotState,
    event: &TraceEvent,
    now: u64,
    up: u64,
    down: u64,
    sampled: bool,
    bucket: Option<RouteBucket>,
    target: String,
    target_text: &str,
    link: String,
    route: String,
)
    requires
        old(state).wf(),
        has_room(old(state)@, event@, now),
        call_ensures(SnapshotState::ingest, (state, event, now), ()),
        old(state).last_bucket_at <= now < old(state).last_bucket_at + 1000,
        contains(event@.message, "relay completed"@),
        call_ensures(get_number, (event, "uploaded"), up),
        call_ensures(get_number, (event, "downloaded"), down),
        call_ensures(get_flag, (event, "sampled"), sampled),
        call_ensures(route_bucket_for_event, (event,), bucket),
        call_ensures(get_field_or, (event, "target", "-"), target),
        target_text@ == target@,
        call_ensures(link_from_target, (target_text,), link),
        call_ensures(get_field_or, (event, "route", "remote"), route),
    ensures
        final(state).total_relays == old(state).total_relays + 1,
        final(state).total_uploaded == old(state).total_uploaded + up,
        final(state).total_downloaded == old(state).total_downloaded + down,
        final(state).upload_history@.last() == old(state).upload_history@.last() + (if sampled {
            0int
        } else {
            up as int
        }),
        final(state).download_history@.last() == old(state).download_history@.last() + (if sampled {
            0int
        } else {
            down as int
        }),
        bucket matches Some(b) ==> final(state).route_stats.count(b) == old(state).route_stats.count(b)
            + 1,
        bucket is None ==> final(state).route_stats == old(state).route_stats,
        final(state)@.recent_targets.len() > 0 && ({
            let first = final(state)@.recent_targets[0];
            first.link == link@ && first.route == route@ && first.target == target@ && first.uploaded == up
                && first.downloaded == down && first.repeat_count == 1
        }),
{
    reveal_strlit("relay completed");
    reveal_strlit("dns query");
    reveal_strlit("traffic sample");
    assert("relay completed"@.len() == 15 && "dns query"@.len() == 9 && "traffic sample"@.len() == 14);
    assert(rotated(old(state)@.upload_history, 0) == old(state)@.upload_history);
    assert(rotated(old(state)@.download_history, 0) == old(state)@.download_history);
}

/// A sample of traffic is drawn in the history, and added up only where it stands for
/// a whole; no relay is counted for it, and nothing is listed.
pub proof fn samples_are_drawn(
    state: &mut SnapshotState,
    event: &TraceEvent,
    now: u64,
    up: u64,
    down: u64,
    whole: bool,
)
    requires
        old(state).wf(),
        has_room(old(state)@, event@, now),
        call_ensures(SnapshotState::ingest, (state, event, now), ()),
        old(state).last_bucket_at <= now < old(state).last_bucket_at + 1000,
        event@.message == "traffic sample"@,
        call_ensures(get_number, (event, "uploaded"), up),
        call_ensures(get_number, (event, "downloaded"), down),
        call_ensures(traffic_sample_is_aggregate, (event,), whole),
    ensures
        final(state).total_relays == old(state).total_relays,
        final(state).total_uploaded == old(state).total_uploaded + (if whole {
            up as int
        } else {
            0
        }),
        final(state).total_downloaded == old(state).total_downloaded + (if whole {
            down as int
        } else {
            0
        }),
        final(state).upload_history@.last() == old(state).upload_history@.last() + up,
        final(state).download_history@.last() == old(state).download_history@.last() + down,
        final(state).last_traffic_at matches Some(t) && t == now,
        views(final(state).recent_events@) == views(old(state).recent_events@),
{
    reveal_strlit("relay completed");
    reveal_strlit("dns query");
    reveal_strlit("traffic sample");
    assert("relay completed"@.len() == 15 && "dns query"@.len() == 9 && "traffic sample"@.len() == 14);
    assert(rotated(old(state)@.upload_history, 0) == old(state)@.upload_history);
    assert(rotated(old(state)@.download_history, 0) == old(state)@.download_history);
}

/// Warnings and failures are counted, every event is noted with its time, and those
/// that count against the health with theirs.
pub proof fn trouble_is_counted(
    state: &mut SnapshotState,
    event: &TraceEvent,
    now: u64,
    command: Option<&str>,
    harms: bool,
)
    requires
        old(state).wf(),
        has_room(old(state)@, event@, now),
        call_ensures(SnapshotState::ingest, (state, event, now), ()),
        command matches Some(c) <==> old(state).context is Some,
        command matches Some(c) ==> (old(state).context matches Some(x) && c@ == x.command_label@),
        call_ensures(event_impacts_health, (command, event), harms),
    ensures
        final(state).total_warnings == old(state).total_warnings + (if event@.level == "WARN"@ {
            1int
        } else {
            0
        }),
        final(state).total_errors == old(state).total_errors + (if event@.level == "ERROR"@ || contains(
            event@.message,
            "with error"@,
        ) {
            1int
        } else {
            0
        }),
        final(state).last_event_at matches Some(t) && t == now,
        harms ==> (final(state).last_warning_at matches Some(t) && t == now),
        !harms ==> final(state).last_warning_at == old(state).last_warning_at,
{
}

/// An event is listed first, with its level, its message and what is told behind it,
/// unless it is one of many alike.
#[verifier::spinoff_prover]
#[verifier::rlimit(50)]
pub proof fn events_are_listed_first(
    state: &mut SnapshotState,
    event: &TraceEvent,
    now: u64,
    stamp: String,
    suffix: String,
)
    requires
        old(state).wf(),
        has_room(old(state)@, event@, now),
        call_ensures(SnapshotState::ingest, (state, event, now), ()),
        event@.message != "traffic sample"@,
        event@.message != "dns query"@,
        event@.message != "tunnel health"@,
        !contains(event@.message, "relay completed"@),
        call_ensures(
            clock_stamp,
            (event.at_secs, offset_of(old(state)@)),
            stamp,
        ),
        call_ensures(recent_event_suffix, (event,), suffix),
    ensures
        ({
            let list = final(state)@.recent_events;
            &&& list.len() > 0
            &&& list[0] == stamp@ + " ["@ + event@.level + "] "@ + event@.message + suffix@
            &&& list.len() <= 40
            &&& list.len() == (if old(state)@.recent_events.len() < 40 {
                old(state)@.recent_events.len() + 1
            } else {
                40
            })
            &&& forall|i: int|
                1 <= i < list.len() ==> #[trigger] list[i] == old(state)@.recent_events[i - 1]
        }),
{
    let before = old(state)@.recent_events;
    let list = final(state)@.recent_events;
    assert(views(old(state).recent_events@).len() == old(state).recent_events@.len());
    assert forall|i: int| 1 <= i < list.len() implies #[trigger] list[i] == before[i - 1] by {}
}

/// A question for a name stands first, under its link and route, and nothing is added
/// up for it.
pub proof fn questions_stand_first(
    state: &mut SnapshotState,
    event: &TraceEvent,
    now: u64,
    target: String,
    target_text: &str,
    own_link: String,
    own_text: &str,
    link: String,
    route: String,
)
    requires
        old(state).wf(),
        has_room(old(state)@, event@, now),
        call_ensures(SnapshotState::ingest, (state, event, now), ()),
        event@.message == "dns query"@,
        call_ensures(get_field_or, (event, "target", "-"), target),
        target_text@ == target@,
        call_ensures(link_from_target, (target_text,), own_link),
        own_text@ == own_link@,
        call_ensures(get_field_or, (event, "link", own_text), link),
        call_ensures(get_field_or, (event, "route", "remote"), route),
    ensures
        final(state)@.recent_targets.len() > 0 && final(state)@.recent_targets[0].link == link@ && final(state)@.recent_targets[0].route == route@,
        final(state).total_relays == old(state).total_relays,
        final(state).total_uploaded == old(state).total_uploaded,
        final(state).total_downloaded == old(state).total_downloaded,
{
    reveal_strlit("dns query");
    reveal_strlit("traffic sample");
    reveal_strlit("relay completed");
    assert("relay completed"@.len() == 15 && "dns query"@.len() == 9 && "traffic sample"@.len() == 14);
    let named = rows_with_ip(old(state)@.recent_targets, event@);
    lemma_row(named, link@, route@, 0);
    if let Some(i) = row_from(named, link@, route@, 0) {
        assert(named.remove(i).insert(0, named[i])[0] == named[i]);
    }
}

proof fn lemma_row(list: Seq<RecentView>, link: Seq<char>, route: Seq<char>, from: int)
    requires
        0 <= from,
    ensures
        row_from(list, link, route, from) matches Some(i) ==> from <= i < list.len() && list[i].link
            == link && list[i].route == route,
    decreases list.len() - from,
{
    if from < list.len() && !(list[from].link == link && list[from].route == route) {
        lemma_row(list, link, route, from + 1);
    }
}

pub(crate) proof fn lemma_moved_on(history: Seq<u64>, n: nat, i: int)
    requires
        0 <= i < history.len(),
    ensures
        rotated(history, n).len() == history.len(),
        rotated(history, n)[i] == (if i + n < history.len() {
            history[i + n]
        } else {
            0
        }),
    decreases n,
{
    if n > 0 {
        let next = history.skip(1).push(0);
        lemma_moved_on(next, (n - 1) as nat, i);
        let k = i + n - 1;
        if k < next.len() {
            if k + 1 < history.len() {
                assert(next[k] == history.skip(1)[k]);
            } else {
                assert(next[k] == 0);
            }
        }
    }
}

/// The history moves on with the seconds: what was carried so many seconds ago stands
/// so many places before the end, and seconds in which nothing came are empty.
pub proof fn the_history_moves_with_the_seconds(
    state: &mut SnapshotState,
    event: &TraceEvent,
    now: u64,
    seconds: u64,
    i: int,
)
    requires
        old(state).wf(),
        has_room(old(state)@, event@, now),
        call_ensures(SnapshotState::ingest, (state, event, now), ()),
        event@.message != "traffic sample"@,
        !contains(event@.message, "relay completed"@),
        old(state).last_bucket_at + 1000 * seconds <= now,
        now < old(state).last_bucket_at + 1000 * (seconds + 1),
        0 <= i < 48,
    ensures
        final(state).upload_history@.len() == 48,
        final(state).upload_history@[i] == (if i + seconds < 48 {
            old(state).upload_history@[i + seconds]
        } else {
            0
        }),
        final(state).download_history@[i] == (if i + seconds < 48 {
            old(state).download_history@[i + seconds]
        } else {
            0
        }),
        final(state).last_bucket_at == old(state).last_bucket_at + 1000 * seconds,
{
    let n = seconds_between(old(state).last_bucket_at, now);
    assert(n == seconds);
    lemma_moved_on(old(state).upload_history@, n, i);
    lemma_moved_on(old(state).download_history@, n, i);
    lemma_moved_on(old(state).upload_history@, n, 47);
    lemma_moved_on(old(state).download_history@, n, 47);
}

/// The second that is over moves away, and the next starts empty.
pub proof fn histories_rotate(history: &mut Vec<u64>, i: int)
    requires
        old(history)@.len() > 0,
        call_ensures(rotate_history, (history,), ()),
        0 <= i < old(history)@.len() - 1,
    ensures
        final(history)@.len() == old(history)@.len(),
        final(history)@[i] == old(history)@[i + 1],
        final(history)@.last() == 0,
{
}

/// The health of the tunnel is the one that was last told.
pub proof fn the_last_health_is_kept(
    state: &mut SnapshotState,
    event: &TraceEvent,
    now: u64,
    told: Option<TunnelHealth>,
)
    requires
        old(state).wf(),
        has_room(old(state)@, event@, now),
        call_ensures(SnapshotState::ingest, (state, event, now), ()),
        call_ensures(TunnelHealth::from_event, (event,), told),
    ensures
        told matches Some(h) ==> final(state).tunnel_health@ == h@,
        told is None ==> final(state).tunnel_health@ == old(state).tunnel_health@,
        final(state).context == old(state).context,
        final(state).started_at == old(state).started_at,
{
}

/// A snapshot shows what the events added up to, with the times as ages; there is one
/// as soon as the service has told what it is.
pub proof fn snapshots_show_the_sums(state: &SnapshotState, now: u64, r: Option<DashboardSnapshot>)
    requires
        call_ensures(SnapshotState::snapshot, (state, now), r),
        state.started_at <= now,
    ensures
        r is Some <==> state.context is Some,
        r matches Some(d) ==> {
            &&& Some(d.context) == state.context
            &&& d.uptime_secs * 1000 <= now - state.started_at < (d.uptime_secs + 1) * 1000
            &&& d.total_relays == state.total_relays
            &&& d.total_errors == state.total_errors
            &&& d.total_warnings == state.total_warnings
            &&& d.total_uploaded == state.total_uploaded
            &&& d.total_downloaded == state.total_downloaded
            &&& d.route_stats == state.route_stats
            &&& d.tunnel_health@ == state.tunnel_health@
            &&& d.upload_history@ == state.upload_history@
            &&& d.download_history@ == state.download_history@
            &&& rows(d.recent_targets@) == rows(state.recent_targets@)
            &&& views(d.recent_events@) == views(state.recent_events@)
            &&& state.last_event_at matches Some(t) ==> t <= now ==> d.last_event_age_ms == Some(
                (now - t) as u64,
            )
            &&& state.last_warning_at matches Some(t) ==> t <= now ==> d.last_warning_age_ms
                == Some((now - t) as u64)
            &&& state.last_traffic_at matches Some(t) ==> t <= now ==> d.last_traffic_age_ms
                == Some((now - t) as u64)
            &&& state.last_event_at is None ==> d.last_event_age_ms is None
            &&& state.last_warning_at is None ==> d.last_warning_age_ms is None
            &&& state.last_traffic_at is None ==> d.last_traffic_age_ms is None
        },
{
}

/// A service starts with nothing added up, and can take any event then.
pub proof fn services_start_with_nothing(now: u64, r: SnapshotState, event: &TraceEvent, later: u64, can: bool)
    requires
        call_ensures(SnapshotState::new, (now,), r),
        call_ensures(SnapshotState::can_ingest, (&r, event, later), can),
    ensures
        r.context is None,
        r.total_relays == 0 && r.total_errors == 0 && r.total_warnings == 0,
        r.total_uploaded == 0 && r.total_downloaded == 0,
        r.recent_targets@.len() == 0 && r.recent_events@.len() == 0,
        r.last_event_at is None && r.last_warning_at is None && r.last_traffic_at is None,
        forall|i: int| 0 <= i < 48 ==> #[trigger] r.upload_history@[i] == 0,
        can,
{
    assert(rows(r.recent_targets@).len() == r.recent_targets@.len());
    assert(views(r.recent_events@).len() == r.recent_events@.len());
    let n = seconds_between(now, later);
    lemma_moved_on(no_traffic(), n, 47);
    assert(r@.upload_history == no_traffic());
    assert forall|i: int| 0 <= i < 48 implies #[trigger] r.upload_history@[i] == 0 by {
        assert(no_traffic()[i] == 0);
    }
}

/// The addresses of a name are listed behind it, each once, up to three.
pub proof fn addresses_are_listed_once(detail: &str, ip: &str, r: String)
    requires
        call_ensures(append_recent_domain_ip, (detail, ip), r),
    ensures
        detail@.len() == 0 || detail@ == "-"@ || detail@ == "pending"@ ==> r@ == ip@,
        split(detail@, ", "@).contains(ip@) && detail@.len() > 0 && detail@ != "-"@ && detail@
            != "pending"@ && detail@ != "blocked"@ && detail@ != "wg tunnel"@ ==> r@ == detail@,
        detail@.len() > 0 && detail@ != "-"@ && detail@ != "pending"@ && detail@ != "blocked"@
            && detail@ != "wg tunnel"@ && !split(detail@, ", "@).contains(ip@) && !split(
            detail@,
            ", "@,
        ).contains("..."@) && split(detail@, ", "@).len() < 3 ==> r@ == detail@ + ", "@ + ip@,
{
}

} // verus!
