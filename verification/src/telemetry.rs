//! Telemetry: what happens, what it says of the health of the program, and how
//! others watch and switch it.

pub mod hub;
pub mod snapshot;

use vstd::prelude::*;
use crate::ip::{
    ip_value, is_loopback, loopback, parse_ip, parse_socket, socket_value,
};
use crate::num::{decimal, parse_unsigned, to_decimal, to_two_digits, two_digits, unsigned_value};
use crate::text::{cat, cat3, contains, has, same};
use crate::textmap::TextMap;
use crate::traffic::{split_target, target_parts};

verus! {

// ---------------------------------------------------------------------------
// Events

/// Something that happened.
#[derive(Debug)]
pub struct TraceEvent {
    /// Seconds since 1970, and nanoseconds behind them.
    pub at_secs: u64,
    pub at_nanos: u32,
    pub level: String,
    pub message: String,
    pub fields: TextMap,
}

/// Something that happened, as far as it counts.
#[verifier::ext_equal]
pub struct EventView {
    pub at_secs: u64,
    pub level: Seq<char>,
    pub message: Seq<char>,
    pub fields: Map<Seq<char>, Seq<char>>,
}

impl View for TraceEvent {
    type V = EventView;

    open spec fn view(&self) -> EventView {
        EventView {
            at_secs: self.at_secs,
            level: self.level@,
            message: self.message@,
            fields: self.fields@,
        }
    }
}

impl TraceEvent {
    /// A copy of the event.
    pub fn copy(&self) -> (r: Self)
        ensures
            r@ == self@,
            r.at_nanos == self.at_nanos,
    {
        TraceEvent {
            at_secs: self.at_secs,
            at_nanos: self.at_nanos,
            level: self.level.clone(),
            message: self.message.clone(),
            fields: self.fields.copy(),
        }
    }
}

/// The value of a field, if the event has it.
pub open spec fn field(e: EventView, name: Seq<char>) -> Option<Seq<char>> {
    if e.fields.contains_key(name) {
        Some(e.fields[name])
    } else {
        None
    }
}

/// The value of a field, or another text.
pub open spec fn field_or(e: EventView, name: Seq<char>, other: Seq<char>) -> Seq<char> {
    match field(e, name) {
        Some(v) => v,
        None => other,
    }
}

/// The value of a field, if the event has it.
pub fn get_field<'a>(event: &'a TraceEvent, name: &str) -> (r: Option<&'a str>)
    ensures
        match (r, field(event@, name@)) {
            (Some(v), Some(w)) => v@ == w,
            (None, None) => true,
            _ => false,
        },
{
    event.fields.get(name)
}

/// The value of a field, or another text.
pub fn get_field_or(event: &TraceEvent, name: &str, other: &str) -> (r: String)
    ensures
        r@ == field_or(event@, name@, other@),
{
    match get_field(event, name) {
        Some(v) => v.to_owned(),
        None => other.to_owned(),
    }
}

/// The number in a field, or 0.
pub open spec fn number_in(e: EventView, name: Seq<char>) -> int {
    match field(e, name) {
        Some(v) => match unsigned_value(v, u64::MAX as int) {
            Some(n) => n,
            None => 0,
        },
        None => 0,
    }
}

/// The number in a field, or 0.
pub fn get_number(event: &TraceEvent, name: &str) -> (r: u64)
    ensures
        r == number_in(event@, name@),
{
    match get_field(event, name) {
        Some(v) => match parse_unsigned(v, u64::MAX) {
            Some(n) => n,
            None => 0,
        },
        None => 0,
    }
}

/// Whether a field says yes.
pub open spec fn flag_in(e: EventView, name: Seq<char>) -> bool {
    match field(e, name) {
        Some(v) => v == "true"@ || v == "1"@ || v == "yes"@,
        None => false,
    }
}

/// Whether a field says yes.
pub fn get_flag(event: &TraceEvent, name: &str) -> (r: bool)
    ensures
        r == flag_in(event@, name@),
{
    match get_field(event, name) {
        Some(v) => same(v, "true") || same(v, "1") || same(v, "yes"),
        None => false,
    }
}

/// Whether the event has a field with exactly this text.
pub open spec fn field_is(e: EventView, name: Seq<char>, text: Seq<char>) -> bool {
    field(e, name) == Some(text)
}

fn has_field(event: &TraceEvent, name: &str, text: &str) -> (r: bool)
    ensures
        r == field_is(event@, name@, text@),
{
    match get_field(event, name) {
        Some(v) => same(v, text),
        None => false,
    }
}

/// Whether a sample of traffic counts for the totals.
pub open spec fn is_aggregate(e: EventView) -> bool {
    flag_in(e, "aggregate"@) || field_is(e, "mode"@, "wg"@)
}

/// Whether a sample of traffic counts for the totals.
pub fn traffic_sample_is_aggregate(event: &TraceEvent) -> (r: bool)
    ensures
        r == is_aggregate(event@),
{
    get_flag(event, "aggregate") || has_field(event, "mode", "wg")
}

// ---------------------------------------------------------------------------
// Health

/// Whether the text of a peer is an address of the local host.
pub open spec fn loopback_peer(peer: Seq<char>) -> bool {
    match socket_value(peer) {
        Some(a) => loopback(a.ip),
        None => match ip_value(peer) {
            Some(ip) => loopback(ip),
            None => false,
        },
    }
}

/// Whether the text of a peer is an address of the local host.
pub fn is_loopback_peer(peer: &str) -> (r: bool)
    ensures
        r == loopback_peer(peer@),
{
    match parse_socket(peer) {
        Some(a) => is_loopback(a.ip),
        None => match parse_ip(peer) {
            Some(ip) => is_loopback(ip),
            None => false,
        },
    }
}

/// Whether an event of a tunnel device is one of the failed questions for a name
/// that are asked again.
pub open spec fn recoverable(command: Option<Seq<char>>, e: EventView) -> bool {
    let failure = "SOCKS connection failed: Reply::GeneralFailure"@;
    let resolver = "198.18.0.1:53"@;
    &&& command == Some("tun"@)
    &&& {
        ||| {
            &&& e.message == "client session ended with error"@
            &&& field_is(e, "error"@, "server response timed out"@)
            &&& field(e, "peer"@) matches Some(p)
            &&& loopback_peer(p)
        }
        ||| e.level == "ERROR"@ && contains(e.message, resolver) && contains(e.message, failure)
        ||| {
            &&& e.level == "ERROR"@
            &&& field_is(e, "target"@, resolver)
            &&& field(e, "error"@) matches Some(x)
            &&& contains(x, failure)
        }
    }
}

fn is_known_recoverable_tun_dns_failure(command: Option<&str>, event: &TraceEvent) -> (r: bool)
    ensures
        r == recoverable(crate::paths::str_view(command), event@),
{
    match command {
        Some(c) => {
            if !same(c, "tun") {
                return false;
            }
        },
        None => {
            return false;
        },
    }
    let from_loopback = match get_field(event, "peer") {
        Some(p) => is_loopback_peer(p),
        None => false,
    };
    if same(event.message.as_str(), "client session ended with error") && has_field(
        event,
        "error",
        "server response timed out",
    ) && from_loopback {
        return true;
    }
    if !same(event.level.as_str(), "ERROR") {
        return false;
    }
    let refused = match get_field(event, "error") {
        Some(x) => has(x, "SOCKS connection failed: Reply::GeneralFailure"),
        None => false,
    };
    (has(event.message.as_str(), "198.18.0.1:53") && has(
        event.message.as_str(),
        "SOCKS connection failed: Reply::GeneralFailure",
    )) || (has_field(event, "target", "198.18.0.1:53") && refused)
}

/// Whether an event speaks against the health of a command.
pub open spec fn impacts_health(command: Option<Seq<char>>, e: EventView) -> bool {
    (e.level == "WARN"@ || e.level == "ERROR"@ || contains(e.message, "with error"@))
        && !recoverable(command, e)
}

/// Whether an event speaks against the health of a command.
pub fn event_impacts_health(command_label: Option<&str>, event: &TraceEvent) -> (r: bool)
    ensures
        r == impacts_health(crate::paths::str_view(command_label), event@),
{
    let failed = has(event.message.as_str(), "with error");
    if !same(event.level.as_str(), "WARN") && !same(event.level.as_str(), "ERROR") && !failed {
        return false;
    }
    !is_known_recoverable_tun_dns_failure(command_label, event)
}

/// How far a tunnel is.
#[derive(Clone, Copy, Debug, PartialEq, Eq, Structural)]
pub enum TunnelState {
    Unknown,
    Starting,
    InterfaceUp,
    RoutesApplied,
    DnsApplied,
    ConnectivityOk,
    Active,
    Bypass,
    Degraded,
    Stopping,
}

impl TunnelState {
    /// The name of a state.
    pub open spec fn name(self) -> Seq<char> {
        match self {
            TunnelState::Unknown => "unknown"@,
            TunnelState::Starting => "starting"@,
            TunnelState::InterfaceUp => "interface-up"@,
            TunnelState::RoutesApplied => "routes-applied"@,
            TunnelState::DnsApplied => "dns-applied"@,
            TunnelState::ConnectivityOk => "connectivity-ok"@,
            TunnelState::Active => "active"@,
            TunnelState::Bypass => "bypass"@,
            TunnelState::Degraded => "degraded"@,
            TunnelState::Stopping => "stopping"@,
        }
    }

    /// The state with a name.
    pub open spec fn named(value: Seq<char>) -> Option<TunnelState> {
        if value == "unknown"@ {
            Some(TunnelState::Unknown)
        } else if value == "starting"@ {
            Some(TunnelState::Starting)
        } else if value == "interface-up"@ {
            Some(TunnelState::InterfaceUp)
        } else if value == "routes-applied"@ {
            Some(TunnelState::RoutesApplied)
        } else if value == "dns-applied"@ {
            Some(TunnelState::DnsApplied)
        } else if value == "connectivity-ok"@ {
            Some(TunnelState::ConnectivityOk)
        } else if value == "active"@ {
            Some(TunnelState::Active)
        } else if value == "bypass"@ {
            Some(TunnelState::Bypass)
        } else if value == "degraded"@ {
            Some(TunnelState::Degraded)
        } else if value == "stopping"@ {
            Some(TunnelState::Stopping)
        } else {
            None
        }
    }

    /// The name of the state.
    pub fn as_str(self) -> (r: &'static str)
        ensures
            r@ == self.name(),
    {
        match self {
            TunnelState::Unknown => "unknown",
            TunnelState::Starting => "starting",
            TunnelState::InterfaceUp => "interface-up",
            TunnelState::RoutesApplied => "routes-applied",
            TunnelState::DnsApplied => "dns-applied",
            TunnelState::ConnectivityOk => "connectivity-ok",
            TunnelState::Active => "active",
            TunnelState::Bypass => "bypass",
            TunnelState::Degraded => "degraded",
            TunnelState::Stopping => "stopping",
        }
    }

    /// The state with a name.
    pub fn from_name(value: &str) -> (r: Option<TunnelState>)
        ensures
            r == TunnelState::named(value@),
    {
        if same(value, "unknown") {
            Some(TunnelState::Unknown)
        } else if same(value, "starting") {
            Some(TunnelState::Starting)
        } else if same(value, "interface-up") {
            Some(TunnelState::InterfaceUp)
        } else if same(value, "routes-applied") {
            Some(TunnelState::RoutesApplied)
        } else if same(value, "dns-applied") {
            Some(TunnelState::DnsApplied)
        } else if same(value, "connectivity-ok") {
            Some(TunnelState::ConnectivityOk)
        } else if same(value, "active") {
            Some(TunnelState::Active)
        } else if same(value, "bypass") {
            Some(TunnelState::Bypass)
        } else if same(value, "degraded") {
            Some(TunnelState::Degraded)
        } else if same(value, "stopping") {
            Some(TunnelState::Stopping)
        } else {
            None
        }
    }
}

/// What a check of a tunnel found.
#[derive(Clone, Copy, Debug, PartialEq, Eq, Structural)]
pub enum TunnelCheckState {
    Unknown,
    Disabled,
    Okay,
    Warn,
    Error,
}

impl TunnelCheckState {
    /// The name of a finding.
    pub open spec fn name(self) -> Seq<char> {
        match self {
            TunnelCheckState::Unknown => "unknown"@,
            TunnelCheckState::Disabled => "disabled"@,
            TunnelCheckState::Okay => "ok"@,
            TunnelCheckState::Warn => "warn"@,
            TunnelCheckState::Error => "error"@,
        }
    }

    /// The finding with a name.
    pub open spec fn named(value: Seq<char>) -> Option<TunnelCheckState> {
        if value == "unknown"@ {
            Some(TunnelCheckState::Unknown)
        } else if value == "disabled"@ {
            Some(TunnelCheckState::Disabled)
        } else if value == "ok"@ {
            Some(TunnelCheckState::Okay)
        } else if value == "warn"@ {
            Some(TunnelCheckState::Warn)
        } else if value == "error"@ {
            Some(TunnelCheckState::Error)
        } else {
            None
        }
    }

    /// The name of the finding.
    pub fn as_str(self) -> (r: &'static str)
        ensures
            r@ == self.name(),
    {
        match self {
            TunnelCheckState::Unknown => "unknown",
            TunnelCheckState::Disabled => "disabled",
            TunnelCheckState::Okay => "ok",
            TunnelCheckState::Warn => "warn",
            TunnelCheckState::Error => "error",
        }
    }

    /// The finding with a name.
    pub fn from_name(value: &str) -> (r: Option<TunnelCheckState>)
        ensures
            r == TunnelCheckState::named(value@),
    {
        if same(value, "unknown") {
            Some(TunnelCheckState::Unknown)
        } else if same(value, "disabled") {
            Some(TunnelCheckState::Disabled)
        } else if same(value, "ok") {
            Some(TunnelCheckState::Okay)
        } else if same(value, "warn") {
            Some(TunnelCheckState::Warn)
        } else if same(value, "error") {
            Some(TunnelCheckState::Error)
        } else {
            None
        }
    }
}

/// How a tunnel is.
#[derive(Debug)]
pub struct TunnelHealth {
    pub state: TunnelState,
    pub detail: String,
    pub dns: TunnelCheckState,
    pub connectivity: TunnelCheckState,
    pub handshake_age_secs: Option<u64>,
}

/// How a tunnel is.
#[verifier::ext_equal]
pub struct HealthView {
    pub state: TunnelState,
    pub detail: Seq<char>,
    pub dns: TunnelCheckState,
    pub connectivity: TunnelCheckState,
    pub handshake_age_secs: Option<u64>,
}

impl View for TunnelHealth {
    type V = HealthView;

    open spec fn view(&self) -> HealthView {
        HealthView {
            state: self.state,
            detail: self.detail@,
            dns: self.dns,
            connectivity: self.connectivity,
            handshake_age_secs: self.handshake_age_secs,
        }
    }
}

/// A tunnel of which nothing is known but a state and a word on it.
pub open spec fn health_stage(state: TunnelState, detail: Seq<char>) -> HealthView {
    HealthView {
        state,
        detail,
        dns: TunnelCheckState::Unknown,
        connectivity: TunnelCheckState::Unknown,
        handshake_age_secs: None,
    }
}

/// What an event tells of the health of a tunnel.
pub open spec fn health_fields(h: HealthView) -> Map<Seq<char>, Seq<char>> {
    let m = Map::<Seq<char>, Seq<char>>::empty().insert("state"@, h.state.name());
    let m = if h.detail.len() > 0 {
        m.insert("detail"@, h.detail)
    } else {
        m
    };
    let m = m.insert("dns"@, h.dns.name()).insert("connectivity"@, h.connectivity.name());
    match h.handshake_age_secs {
        Some(age) => m.insert("handshake_age_secs"@, decimal(age as nat)),
        None => m,
    }
}

/// The finding that a field names, or none.
pub open spec fn check_in(e: EventView, name: Seq<char>) -> TunnelCheckState {
    match field(e, name) {
        Some(v) => match TunnelCheckState::named(v) {
            Some(c) => c,
            None => TunnelCheckState::Unknown,
        },
        None => TunnelCheckState::Unknown,
    }
}

/// The health of a tunnel that an event tells of.
pub open spec fn health_of(e: EventView) -> Option<HealthView> {
    if e.message != "tunnel health"@ {
        None
    } else {
        match field(e, "state"@) {
            None => None,
            Some(v) => match TunnelState::named(v) {
                None => None,
                Some(state) => Some(
                    HealthView {
                        state,
                        detail: field_or(e, "detail"@, ""@),
                        dns: check_in(e, "dns"@),
                        connectivity: check_in(e, "connectivity"@),
                        handshake_age_secs: match field(e, "handshake_age_secs"@) {
                            Some(a) => match unsigned_value(a, u64::MAX as int) {
                                Some(n) => Some(n as u64),
                                None => None,
                            },
                            None => None,
                        },
                    },
                ),
            },
        }
    }
}

fn get_check(event: &TraceEvent, name: &str) -> (r: TunnelCheckState)
    ensures
        r == check_in(event@, name@),
{
    match get_field(event, name) {
        Some(v) => match TunnelCheckState::from_name(v) {
            Some(c) => c,
            None => TunnelCheckState::Unknown,
        },
        None => TunnelCheckState::Unknown,
    }
}

impl Default for TunnelHealth {
    fn default() -> (r: Self)
        ensures
            r@ == health_stage(TunnelState::Unknown, seq![]),
    {
        let r = TunnelHealth {
            state: TunnelState::Unknown,
            detail: String::new(),
            dns: TunnelCheckState::Unknown,
            connectivity: TunnelCheckState::Unknown,
            handshake_age_secs: None,
        };
        assert(r@.detail =~= Seq::<char>::empty());
        r
    }
}

impl TunnelHealth {
    /// A tunnel of which nothing is known but a state and a word on it.
    pub fn stage(state: TunnelState, detail: String) -> (r: Self)
        ensures
            r@ == health_stage(state, detail@),
    {
        TunnelHealth {
            state,
            detail,
            dns: TunnelCheckState::Unknown,
            connectivity: TunnelCheckState::Unknown,
            handshake_age_secs: None,
        }
    }

    /// What an event tells of the health.
    pub fn as_fields(&self) -> (r: TextMap)
        ensures
            r@ == health_fields(self@),
    {
        let mut fields = TextMap::new();
        fields.insert("state".to_owned(), self.state.as_str().to_owned());
        if !self.detail.as_str().is_empty() {
            fields.insert("detail".to_owned(), self.detail.clone());
        }
        fields.insert("dns".to_owned(), self.dns.as_str().to_owned());
        fields.insert("connectivity".to_owned(), self.connectivity.as_str().to_owned());
        match self.handshake_age_secs {
            Some(age) => {
                fields.insert("handshake_age_secs".to_owned(), to_decimal(age));
            },
            None => {},
        }
        fields
    }

    /// The health that an event tells of.
    pub fn from_event(event: &TraceEvent) -> (r: Option<Self>)
        ensures
            match (r, health_of(event@)) {
                (Some(h), Some(v)) => h@ == v,
                (None, None) => true,
                _ => false,
            },
    {
        if !same(event.message.as_str(), "tunnel health") {
            return None;
        }
        let state = match get_field(event, "state") {
            None => {
                return None;
            },
            Some(v) => match TunnelState::from_name(v) {
                None => {
                    return None;
                },
                Some(s) => s,
            },
        };
        let handshake_age_secs = match get_field(event, "handshake_age_secs") {
            Some(a) => parse_unsigned(a, u64::MAX),
            None => None,
        };
        Some(
            TunnelHealth {
                state,
                detail: get_field_or(event, "detail", ""),
                dns: get_check(event, "dns"),
                connectivity: get_check(event, "connectivity"),
                handshake_age_secs,
            },
        )
    }

    /// A copy.
    pub fn copy(&self) -> (r: Self)
        ensures
            r@ == self@,
    {
        TunnelHealth {
            state: self.state,
            detail: self.detail.clone(),
            dns: self.dns,
            connectivity: self.connectivity,
            handshake_age_secs: self.handshake_age_secs,
        }
    }
}

// ---------------------------------------------------------------------------
// Routes

/// How many targets took which route.
#[derive(Clone, Copy, Debug, PartialEq, Eq, Structural)]
pub struct RouteStats {
    pub proxy: u64,
    pub direct: u64,
    pub blocked: u64,
}

/// The routes that are counted.
#[derive(Clone, Copy, Debug, PartialEq, Eq, Structural)]
pub enum RouteBucket {
    Proxy,
    Direct,
    Blocked,
}

impl RouteStats {
    /// How many targets took a route.
    pub open spec fn count(self, bucket: RouteBucket) -> u64 {
        match bucket {
            RouteBucket::Proxy => self.proxy,
            RouteBucket::Direct => self.direct,
            RouteBucket::Blocked => self.blocked,
        }
    }

    /// The counts with one more target on a route.
    pub open spec fn with_one_more(self, bucket: RouteBucket) -> RouteStats {
        match bucket {
            RouteBucket::Proxy => RouteStats { proxy: (self.proxy + 1) as u64, ..self },
            RouteBucket::Direct => RouteStats { direct: (self.direct + 1) as u64, ..self },
            RouteBucket::Blocked => RouteStats { blocked: (self.blocked + 1) as u64, ..self },
        }
    }

    /// Counts one more target on a route.
    pub fn record(&mut self, bucket: RouteBucket)
        requires
            old(self).count(bucket) < u64::MAX,
        ensures
            *final(self) == old(self).with_one_more(bucket),
    {
        match bucket {
            RouteBucket::Proxy => {
                self.proxy = self.proxy + 1;
            },
            RouteBucket::Direct => {
                self.direct = self.direct + 1;
            },
            RouteBucket::Blocked => {
                self.blocked = self.blocked + 1;
            },
        }
    }
}

/// The route that a label names.
pub open spec fn bucket_of_label(route: Seq<char>) -> Option<RouteBucket> {
    if route == "direct"@ || route == "wg-dns-direct"@ {
        Some(RouteBucket::Direct)
    } else if route == "block"@ || route == "blocked"@ || route == "wg-dns-block"@ {
        Some(RouteBucket::Blocked)
    } else if route == "remote"@ || route == "proxy"@ || route == "wg-dns"@ || route
        == "wg-dns-remote"@ {
        Some(RouteBucket::Proxy)
    } else {
        None
    }
}

fn route_bucket_from_label(route: &str) -> (r: Option<RouteBucket>)
    ensures
        r == bucket_of_label(route@),
{
    if same(route, "direct") || same(route, "wg-dns-direct") {
        Some(RouteBucket::Direct)
    } else if same(route, "block") || same(route, "blocked") || same(route, "wg-dns-block") {
        Some(RouteBucket::Blocked)
    } else if same(route, "remote") || same(route, "proxy") || same(route, "wg-dns") || same(
        route,
        "wg-dns-remote",
    ) {
        Some(RouteBucket::Proxy)
    } else {
        None
    }
}

/// The route that an event counts for.
pub open spec fn bucket_of(e: EventView) -> Option<RouteBucket> {
    if e.message == "dns query"@ || contains(e.message, "relay completed"@) {
        bucket_of_label(field_or(e, "route"@, "remote"@))
    } else if e.message == "route decision"@ {
        match field(e, "route"@) {
            Some(r) => bucket_of_label(r),
            None => None,
        }
    } else {
        None
    }
}

/// The route that an event counts for.
pub fn route_bucket_for_event(event: &TraceEvent) -> (r: Option<RouteBucket>)
    ensures
        r == bucket_of(event@),
{
    if same(event.message.as_str(), "dns query") || has(
        event.message.as_str(),
        "relay completed",
    ) {
        return route_bucket_from_label(get_field_or(event, "route", "remote").as_str());
    }
    if same(event.message.as_str(), "route decision") {
        return match get_field(event, "route") {
            Some(r) => route_bucket_from_label(r),
            None => None,
        };
    }
    None
}

// ---------------------------------------------------------------------------
// Texts

/// The time of day `n` seconds after midnight.
pub open spec fn time_text(n: int) -> Seq<char> {
    two_digits((n / 3600) as nat) + ":"@ + two_digits((n / 60 % 60) as nat) + ":"@ + two_digits(
        (n % 60) as nat,
    )
}

/// The time of day in a zone.
pub open spec fn clock_text(at_secs: u64, offset_secs: i32) -> Seq<char> {
    time_text((at_secs + offset_secs) % 86400)
}

/// The time of day in a zone that is so many seconds ahead.
#[verifier::spinoff_prover]
#[verifier::rlimit(40)]
pub fn clock_stamp(at_secs: u64, offset_secs: i32) -> (r: String)
    ensures
        r@ == clock_text(at_secs, offset_secs),
{
    let shift: i64 = if offset_secs >= 0 {
        offset_secs as i64 % 86400
    } else {
        86399 - (86399 - offset_secs as i64 - 86400) % 86400
    };
    proof {
        assert(0 <= shift < 86400);
        assert((shift - offset_secs) % 86400 == 0);
    }
    let local: u64 = (at_secs % 86400 + shift as u64) % 86400;
    proof {
        assert(local == (at_secs + offset_secs) % 86400);
    }
    let hours = to_two_digits(local / 3600);
    let minutes = to_two_digits(local / 60 % 60);
    let seconds = to_two_digits(local % 60);
    cat3(cat3(hours.as_str(), ":", minutes.as_str()).as_str(), ":", seconds.as_str())
}

/// The link that a target is shown as.
pub open spec fn link_of(target: Seq<char>) -> Seq<char> {
    let (host, port) = target_parts(target);
    match port {
        Some(p) => if p == 80 {
            "http://"@ + host
        } else if p == 443 {
            "https://"@ + host
        } else {
            "tcp://"@ + host + ":"@ + decimal(p as nat)
        },
        None => "tcp://"@ + target,
    }
}

/// The link that a target is shown as.
pub fn link_from_target(target: &str) -> (r: String)
    ensures
        r@ == link_of(target@),
{
    let (host, port) = split_target(target);
    match port {
        Some(p) => {
            if p == 80 {
                cat("http://", host.as_str())
            } else if p == 443 {
                cat("https://", host.as_str())
            } else {
                cat3(
                    cat("tcp://", host.as_str()).as_str(),
                    ":",
                    to_decimal(p as u64).as_str(),
                )
            }
        },
        None => cat("tcp://", target),
    }
}

/// What follows the message in the list of recent events.
pub open spec fn event_suffix(e: EventView) -> Seq<char> {
    match (field(e, "target"@), field(e, "error"@), field(e, "listen"@)) {
        (Some(t), _, _) => " "@ + t,
        (None, Some(x), _) => " "@ + x,
        (None, None, Some(l)) => " "@ + l,
        (None, None, None) => match (field(e, "domain"@), field(e, "ip"@)) {
            (Some(d), Some(ip)) => " "@ + d + " -> "@ + ip,
            (Some(d), None) => " "@ + d,
            (None, Some(ip)) => " "@ + ip,
            (None, None) => ""@,
        },
    }
}

/// What follows the message in the list of recent events.
pub fn recent_event_suffix(event: &TraceEvent) -> (r: String)
    ensures
        r@ == event_suffix(event@),
{
    match get_field(event, "target") {
        Some(t) => {
            return cat(" ", t);
        },
        None => {},
    }
    match get_field(event, "error") {
        Some(x) => {
            return cat(" ", x);
        },
        None => {},
    }
    match get_field(event, "listen") {
        Some(l) => {
            return cat(" ", l);
        },
        None => {},
    }
    match (get_field(event, "domain"), get_field(event, "ip")) {
        (Some(d), Some(ip)) => cat3(cat(" ", d).as_str(), " -> ", ip),
        (Some(d), None) => cat(" ", d),
        (None, Some(ip)) => cat(" ", ip),
        (None, None) => "".to_owned(),
    }
}

// ---------------------------------------------------------------------------
// Laws

/// The names of states give back the states.
pub proof fn state_names_read_back(s: TunnelState)
    ensures
        TunnelState::named(s.name()) == Some(s),
{
    reveal_strlit("unknown");
    reveal_strlit("starting");
    reveal_strlit("interface-up");
    reveal_strlit("routes-applied");
    reveal_strlit("dns-applied");
    reveal_strlit("connectivity-ok");
    reveal_strlit("active");
    reveal_strlit("bypass");
    reveal_strlit("degraded");
    reveal_strlit("stopping");
    assert("active"@[0] == 'a' && "bypass"@[0] == 'b');
    assert("starting"@[2] == 'a' && "stopping"@[2] == 'o' && "degraded"@[2] == 'g');
    assert(s.name().len() != 6 || s is Active || s is Bypass);
}

/// The names of findings give back the findings.
pub proof fn finding_names_read_back(c: TunnelCheckState)
    ensures
        TunnelCheckState::named(c.name()) == Some(c),
{
    reveal_strlit("unknown");
    reveal_strlit("disabled");
    reveal_strlit("ok");
    reveal_strlit("warn");
    reveal_strlit("error");
    assert("unknown"@.len() == 7);
    assert("disabled"@.len() == 8);
    assert("ok"@.len() == 2);
    assert("warn"@.len() == 4);
    assert("error"@.len() == 5);
}

/// A field is given as it is in the event, and its default where it is not there; a
/// number is the one that the field writes, and a flag is on in three words only.
pub proof fn fields_are_given_as_they_are(
    event: &TraceEvent,
    name: &str,
    other: &str,
    n: u64,
    r: Option<&str>,
    or_other: String,
    number: u64,
    flag: bool,
)
    requires
        call_ensures(get_field, (event, name), r),
        call_ensures(get_field_or, (event, name, other), or_other),
        call_ensures(get_number, (event, name), number),
        call_ensures(get_flag, (event, name), flag),
    ensures
        r is Some <==> event@.fields.contains_key(name@),
        r matches Some(v) ==> v@ == event@.fields[name@] && or_other@ == v@,
        r is None ==> or_other@ == other@ && number == 0 && !flag,
        r matches Some(v) ==> v@ == decimal(n as nat) ==> number == n,
        r matches Some(v) ==> (flag <==> v@ == "true"@ || v@ == "1"@ || v@ == "yes"@),
{
    crate::num::decimal_reads_back(n as nat, u64::MAX as int);
}

/// Only warnings, errors and what ended with an error count against the health, and
/// nothing else does.
pub proof fn only_trouble_counts_against_the_health(
    command: Option<&str>,
    event: &TraceEvent,
    r: bool,
)
    requires
        call_ensures(event_impacts_health, (command, event), r),
    ensures
        r ==> event@.level == "WARN"@ || event@.level == "ERROR"@ || contains(
            event@.message,
            "with error"@,
        ),
        (command matches Some(c) ==> c@ != "tun"@) && (event@.level == "WARN"@ || event@.level
            == "ERROR"@) ==> r,
        event@.level == "WARN"@ && event@.message != "client session ended with error"@ ==> r,
{
    reveal_strlit("WARN");
    reveal_strlit("ERROR");
    assert("WARN"@.len() == 4 && "ERROR"@.len() == 5);
}

/// The state and the findings of a tunnel are read back by their names.
pub proof fn names_of_states_are_understood(
    s: TunnelState,
    name: &'static str,
    r: Option<TunnelState>,
    c: TunnelCheckState,
    finding: &'static str,
    f: Option<TunnelCheckState>,
)
    requires
        call_ensures(TunnelState::as_str, (s,), name),
        call_ensures(TunnelState::from_name, (name,), r),
        call_ensures(TunnelCheckState::as_str, (c,), finding),
        call_ensures(TunnelCheckState::from_name, (finding,), f),
    ensures
        r == Some(s),
        f == Some(c),
{
    state_names_read_back(s);
    finding_names_read_back(c);
}

/// One more connection by a route is counted there, and nowhere else.
pub proof fn routes_are_counted_one_by_one(stats: &mut RouteStats, bucket: RouteBucket)
    requires
        old(stats).count(bucket) < u64::MAX,
        call_ensures(RouteStats::record, (stats, bucket), ()),
    ensures
        final(stats).proxy == old(stats).proxy + (if bucket == RouteBucket::Proxy {
            1int
        } else {
            0
        }),
        final(stats).direct == old(stats).direct + (if bucket == RouteBucket::Direct {
            1int
        } else {
            0
        }),
        final(stats).blocked == old(stats).blocked + (if bucket == RouteBucket::Blocked {
            1int
        } else {
            0
        }),
{
}

/// A relay that is over is counted by its route, as one through the server where it
/// names none; so is a decision, but only where it names one.
pub proof fn relays_are_counted_by_their_route(
    event: &TraceEvent,
    route: Option<&str>,
    r: Option<RouteBucket>,
)
    requires
        call_ensures(get_field, (event, "route"), route),
        call_ensures(route_bucket_for_event, (event,), r),
    ensures
        contains(event@.message, "relay completed"@) ==> {
            &&& route is None ==> r == Some(RouteBucket::Proxy)
            &&& route matches Some(s) ==> (s@ == "direct"@ ==> r == Some(RouteBucket::Direct))
            &&& route matches Some(s) ==> (s@ == "block"@ ==> r == Some(RouteBucket::Blocked))
            &&& route matches Some(s) ==> (s@ == "remote"@ ==> r == Some(RouteBucket::Proxy))
        },
        event@.message == "route decision"@ && !contains(event@.message, "relay completed"@) ==> {
            &&& route is None ==> r is None
            &&& route matches Some(s) ==> (s@ == "direct"@ ==> r == Some(RouteBucket::Direct))
            &&& route matches Some(s) ==> (s@ == "block"@ ==> r == Some(RouteBucket::Blocked))
            &&& route matches Some(s) ==> (s@ == "remote"@ ==> r == Some(RouteBucket::Proxy))
        },
        event@.message != "route decision"@ && event@.message != "dns query"@ && !contains(
            event@.message,
            "relay completed"@,
        ) ==> r is None,
{
    reveal_strlit("direct");
    reveal_strlit("wg-dns-direct");
    reveal_strlit("block");
    reveal_strlit("blocked");
    reveal_strlit("wg-dns-block");
    reveal_strlit("remote");
    reveal_strlit("proxy");
    reveal_strlit("wg-dns");
    reveal_strlit("wg-dns-remote");
    reveal_strlit("route decision");
    reveal_strlit("dns query");
    assert("route decision"@.len() == 14 && "dns query"@.len() == 9);
    assert("direct"@.len() == 6 && "direct"@[0] == 'd');
    assert("wg-dns-direct"@.len() == 13 && "wg-dns-block"@.len() == 12 && "blocked"@.len() == 7);
    assert("block"@.len() == 5 && "block"@[0] == 'b');
    assert("remote"@.len() == 6 && "remote"@[0] == 'r');
}

/// A time is told in the zone, from midnight, in hours, minutes and seconds.
pub proof fn times_are_told_in_the_zone(
    h: u64,
    m: u64,
    s: u64,
    days: u64,
    at_secs: u64,
    r: String,
    offset: i32,
    later: u64,
    shifted: String,
)
    requires
        h < 24,
        m < 60,
        s < 60,
        at_secs == days * 86400 + h * 3600 + m * 60 + s,
        call_ensures(clock_stamp, (at_secs, 0), r),
        later == at_secs - offset,
        call_ensures(clock_stamp, (later, offset), shifted),
    ensures
        r@ == two_digits(h as nat) + ":"@ + two_digits(m as nat) + ":"@ + two_digits(s as nat),
        shifted@ == r@,
{
    let n = h * 3600 + m * 60 + s;
    assert(at_secs as int % 86400 == n) by (nonlinear_arith)
        requires
            at_secs == days * 86400 + n,
            0 <= n < 86400,
    ;
    assert(n / 3600 == h && n / 60 % 60 == m && n % 60 == s);
}

/// A target is linked to by the scheme of its port.
pub proof fn targets_are_linked_by_their_port(
    target: &str,
    parts: (String, Option<u16>),
    r: String,
)
    requires
        call_ensures(crate::traffic::split_target, (target,), parts),
        call_ensures(link_from_target, (target,), r),
    ensures
        parts.1 == Some(80u16) ==> r@ == "http://"@ + parts.0@,
        parts.1 == Some(443u16) ==> r@ == "https://"@ + parts.0@,
        parts.1 matches Some(p) ==> p != 80 && p != 443 ==> r@ == "tcp://"@ + parts.0@ + ":"@
            + decimal(p as nat),
        parts.1 is None ==> r@ == "tcp://"@ + target@,
{
}

/// What is told behind an event is its target; without one what went wrong, and
/// without that where it listens.
pub proof fn events_are_told_with_their_target(
    event: &TraceEvent,
    target: Option<&str>,
    error: Option<&str>,
    listen: Option<&str>,
    r: String,
)
    requires
        call_ensures(get_field, (event, "target"), target),
        call_ensures(get_field, (event, "error"), error),
        call_ensures(get_field, (event, "listen"), listen),
        call_ensures(recent_event_suffix, (event,), r),
    ensures
        target matches Some(t) ==> r@ == " "@ + t@,
        target is None ==> (error matches Some(t) ==> r@ == " "@ + t@),
        target is None && error is None ==> (listen matches Some(t) ==> r@ == " "@ + t@),
{
}

} // verus!
