//! What events add up to, and how traffic is switched.

use runnel::failure::Failure;
use runnel::telemetry::hub::{
    attach_socket, control_response_with_state_fallback, current_snapshot, dispatch_control, emit,
    greet_subscriber, handle_subscriber, has_live_subscribers, init_channel, layer, set_context,
    set_traffic_state, set_tunnel_health, socket_mode, socket_owner, switch_socket, watch_next,
    ControlCommand, ControlRequest, ControlResponse, EventVisitor, Handling, LineRead,
    SubscriberEvent, SubscriberMove, SwitchEvent, SwitchMove, SwitchStage, TelemetryHub,
    TrafficState, TrafficSwitchTarget, WatchMove, WireMessage,
};
use runnel::telemetry::snapshot::{append_recent_domain_ip, MonitorContext, SnapshotState};
use runnel::telemetry::{
    clock_stamp, event_impacts_health, is_loopback_peer, link_from_target, route_bucket_for_event,
    RouteBucket, RouteStats, TraceEvent, TunnelCheckState, TunnelHealth, TunnelState,
};
use runnel::textmap::TextMap;

fn trace_event(level: &str, message: &str, fields: &[(&str, &str)]) -> TraceEvent {
    let mut map = TextMap::new();
    for (key, value) in fields {
        map.insert((*key).to_owned(), (*value).to_owned());
    }
    TraceEvent {
        at_secs: 0,
        at_nanos: 0,
        level: level.to_owned(),
        message: message.to_owned(),
        fields: map,
    }
}

fn ingest(snapshot: &mut SnapshotState, event: &TraceEvent) {
    assert!(snapshot.can_ingest(event, 0));
    snapshot.ingest(event, 0);
}

fn monitor(command: &str) -> MonitorContext {
    MonitorContext {
        command_label: command.to_owned(),
        mode_label: "native-http".to_owned(),
        traffic_state: TrafficState::Proxying,
        listen: None,
        upstream: None,
        path: None,
        log_file: "proxy.log".to_owned(),
        log_filter: "info".to_owned(),
        log_timezone_offset_secs: 0,
        pid: 1,
    }
}


#[test]
fn tun_dns_timeout_does_not_impact_health() {
    let event = trace_event(
        "WARN",
        "client session ended with error",
        &[
            ("peer", "127.0.0.1:53000"),
            ("error", "server response timed out"),
        ],
    );
    assert!(!event_impacts_health(Some("tun"), &event));
}

#[test]
fn clock_stamp_applies_timezone_offset() {
    assert_eq!(clock_stamp(0, 8 * 60 * 60), "08:00:00");
    assert_eq!(
        clock_stamp(0, -(5 * 60 * 60 + 30 * 60)),
        "18:30:00"
    );
}

#[test]
fn switch_response_uses_snapshot_state_as_old_daemon_fallback() {
    let response = control_response_with_state_fallback(
        ControlResponse {
            ok: true,
            previous_state: None,
            state: Some(TrafficState::Bypass),
            message: "ok".to_owned(),
        },
        TrafficState::Proxying,
        TrafficSwitchTarget::Toggle,
    );

    assert_eq!(response.previous_state, Some(TrafficState::Proxying));
    assert_eq!(response.state, Some(TrafficState::Bypass));
}

#[test]
fn same_timeout_still_impacts_client_health() {
    let event = trace_event(
        "WARN",
        "client session ended with error",
        &[
            ("peer", "127.0.0.1:53000"),
            ("error", "server response timed out"),
        ],
    );
    assert!(event_impacts_health(Some("client"), &event));
}

#[test]
fn unrelated_tun_errors_still_impact_health() {
    let event = trace_event(
        "WARN",
        "client session ended with error",
        &[
            ("peer", "127.0.0.1:53000"),
            ("error", "TLS handshake with server timed out"),
        ],
    );
    assert!(event_impacts_health(Some("tun"), &event));
}

#[test]
fn tun_dns_general_failure_does_not_impact_health() {
    let event = trace_event(
        "ERROR",
        "#3080 TCP 198.18.0.1:52190 -> 198.18.0.1:53 error \"SOCKS connection failed: Reply::GeneralFailure\"",
        &[],
    );
    assert!(!event_impacts_health(Some("tun"), &event));
}

#[test]
fn suppressed_tun_dns_timeout_keeps_snapshot_ready() {
    let mut snapshot = SnapshotState::new(0);
    snapshot.set_context(MonitorContext {
        command_label: "tun".to_owned(),
        mode_label: "native-http".to_owned(),
        traffic_state: TrafficState::Proxying,
        listen: None,
        upstream: None,
        path: None,
        log_file: "proxy.log".to_owned(),
        log_filter: "info".to_owned(),
        log_timezone_offset_secs: 0,
        pid: 1,
    });
    let event = trace_event(
        "WARN",
        "client session ended with error",
        &[
            ("peer", "127.0.0.1:53000"),
            ("error", "server response timed out"),
        ],
    );

    ingest(&mut snapshot, &event);

    assert_eq!(snapshot.total_warnings, 1);
    assert!(snapshot.last_warning_at.is_none());
}

#[test]
fn recent_events_use_monitor_timezone() {
    let mut snapshot = SnapshotState::new(0);
    snapshot.set_context(MonitorContext {
        command_label: "client".to_owned(),
        mode_label: "native-http".to_owned(),
        traffic_state: TrafficState::Proxying,
        listen: None,
        upstream: None,
        path: None,
        log_file: "proxy.log".to_owned(),
        log_filter: "info".to_owned(),
        log_timezone_offset_secs: 8 * 60 * 60,
        pid: 1,
    });

    ingest(&mut snapshot, &trace_event(
        "INFO",
        "client listening",
        &[("listen", "127.0.0.1:1080")],
    ));

    assert!(
        snapshot.recent_events[0].starts_with("08:00:00 [INFO]"),
        "{}",
        snapshot.recent_events[0]
    );
}

#[test]
fn traffic_sample_updates_snapshot_history_without_totals_by_default() {
    let mut snapshot = SnapshotState::new(0);
    let event = trace_event(
        "INFO",
        "traffic sample",
        &[("uploaded", "12"), ("downloaded", "34")],
    );

    ingest(&mut snapshot, &event);

    assert_eq!(snapshot.total_uploaded, 0);
    assert_eq!(snapshot.total_downloaded, 0);
    assert_eq!(snapshot.total_relays, 0);
    assert_eq!(snapshot.upload_history.last().copied(), Some(12));
    assert_eq!(snapshot.download_history.last().copied(), Some(34));
    assert!(snapshot.last_traffic_at.is_some());
}

#[test]
fn wg_traffic_sample_updates_snapshot_totals_without_recent_target() {
    let mut snapshot = SnapshotState::new(0);
    let event = trace_event(
        "INFO",
        "traffic sample",
        &[
            ("uploaded", "12"),
            ("downloaded", "34"),
            ("mode", "wg"),
            ("target", "wireguard"),
            ("link", "wg://wireguard"),
            ("route", "wg-client"),
        ],
    );

    ingest(&mut snapshot, &event);

    assert_eq!(snapshot.total_uploaded, 12);
    assert_eq!(snapshot.total_downloaded, 34);
    assert_eq!(snapshot.total_relays, 0);
    assert!(snapshot.recent_targets.is_empty());
}

#[test]
fn telemetry_traffic_sample_does_not_fill_recent_events_or_targets() {
    let mut snapshot = SnapshotState::new(0);
    let event = trace_event(
        "INFO",
        "traffic sample",
        &[
            ("uploaded", "12"),
            ("downloaded", "34"),
            ("mode", "wg"),
            ("target", "wireguard"),
        ],
    );

    ingest(&mut snapshot, &event);

    assert!(snapshot.recent_events.is_empty());
    assert!(snapshot.recent_targets.is_empty());
}

#[test]
fn telemetry_dns_query_updates_recent_domain_without_recent_event_spam() {
    let mut snapshot = SnapshotState::new(0);
    let event = trace_event(
        "INFO",
        "dns query",
        &[
            ("target", "example.com"),
            ("link", "dns://example.com"),
            ("route", "wg-dns"),
        ],
    );

    ingest(&mut snapshot, &event);

    assert!(snapshot.recent_events.is_empty());
    assert_eq!(snapshot.recent_targets.len(), 1);
    assert_eq!(snapshot.recent_targets[0].target, "example.com");
    assert_eq!(snapshot.recent_targets[0].link, "dns://example.com");
    assert_eq!(snapshot.recent_targets[0].route, "wg-dns");
    assert_eq!(snapshot.recent_targets[0].detail, "wg tunnel");
    assert_eq!(snapshot.recent_targets[0].repeat_count, 1);
    assert_eq!(snapshot.route_stats.proxy, 1);
    assert_eq!(snapshot.route_stats.direct, 0);
    assert_eq!(snapshot.route_stats.blocked, 0);
}

#[test]
fn telemetry_repeated_dns_queries_update_one_recent_domain_row() {
    let mut snapshot = SnapshotState::new(0);

    for _ in 0..3 {
        ingest(&mut snapshot, &trace_event(
            "INFO",
            "dns query",
            &[
                ("target", "tracker.example"),
                ("link", "dns://tracker.example"),
                ("route", "wg-dns-block"),
            ],
        ));
    }

    assert_eq!(snapshot.recent_targets.len(), 1);
    assert_eq!(snapshot.recent_targets[0].target, "tracker.example");
    assert_eq!(snapshot.recent_targets[0].detail, "blocked");
    assert_eq!(snapshot.recent_targets[0].repeat_count, 3);
    assert_eq!(snapshot.route_stats.blocked, 3);
}

#[test]
fn route_stats_count_proxy_direct_and_blocked_decisions() {
    let mut snapshot = SnapshotState::new(0);

    ingest(&mut snapshot, &trace_event(
        "INFO",
        "client relay completed",
        &[("target", "example.com:443")],
    ));
    ingest(&mut snapshot, &trace_event(
        "INFO",
        "client relay completed",
        &[("target", "qq.com:443"), ("route", "direct")],
    ));
    ingest(&mut snapshot, &trace_event(
        "INFO",
        "dns query",
        &[("target", "ads.example"), ("route", "wg-dns-block")],
    ));
    ingest(&mut snapshot, &trace_event(
        "INFO",
        "route decision",
        &[("target", "tracker.example:443"), ("route", "block")],
    ));
    ingest(&mut snapshot, &trace_event(
        "INFO",
        "traffic sample",
        &[("target", "wireguard"), ("route", "wg-client")],
    ));

    assert_eq!(snapshot.route_stats.proxy, 1);
    assert_eq!(snapshot.route_stats.direct, 1);
    assert_eq!(snapshot.route_stats.blocked, 2);
}

#[test]
fn telemetry_recent_event_shows_domain_and_ip_fields() {
    let mut snapshot = SnapshotState::new(0);
    let event = trace_event(
        "INFO",
        "running wg hook",
        &[("domain", "baidu.com"), ("ip", "110.242.74.102")],
    );

    ingest(&mut snapshot, &event);

    assert_eq!(snapshot.recent_events.len(), 1);
    assert!(
        snapshot.recent_events[0].contains("baidu.com -> 110.242.74.102"),
        "{}",
        snapshot.recent_events[0]
    );
}

#[test]
fn telemetry_wg_hook_updates_recent_domain_resolved_ips() {
    let mut snapshot = SnapshotState::new(0);
    ingest(&mut snapshot, &trace_event(
        "INFO",
        "dns query",
        &[
            ("target", "baidu.com"),
            ("link", "dns://baidu.com"),
            ("route", "wg-dns-direct"),
        ],
    ));
    ingest(&mut snapshot, &trace_event(
        "INFO",
        "running wg hook",
        &[("domain", "baidu.com"), ("ip", "110.242.74.102")],
    ));

    assert_eq!(snapshot.recent_targets.len(), 1);
    assert_eq!(snapshot.recent_targets[0].detail, "110.242.74.102");
}

#[test]
fn loopback_peer_detection_handles_ipv4_and_ipv6() {
    assert!(is_loopback_peer("127.0.0.1:53000"));
    assert!(is_loopback_peer("[::1]:53000"));
    assert!(!is_loopback_peer("192.168.1.2:53000"));
}

#[test]
fn old_programs_say_too_little() {
    let response = ControlResponse {
        ok: true,
        previous_state: None,
        state: None,
        message: "ok".to_owned(),
    };
    let filled = control_response_with_state_fallback(
        response,
        TrafficState::Bypass,
        TrafficSwitchTarget::Toggle,
    );
    assert_eq!(filled.previous_state, Some(TrafficState::Bypass));
    assert_eq!(filled.state, Some(TrafficState::Proxying));
    assert_eq!(filled.message, "ok");
    let refused = control_response_with_state_fallback(
        ControlResponse::error("no"),
        TrafficState::Bypass,
        TrafficSwitchTarget::Proxying,
    );
    assert_eq!(refused.previous_state, Some(TrafficState::Bypass));
    assert_eq!(refused.state, None);
}

#[test]
fn toggles_undo_each_other() {
    for state in [TrafficState::Proxying, TrafficState::Bypass] {
        let once = TrafficSwitchTarget::Toggle.resolve(state);
        assert_ne!(once, state);
        assert_eq!(TrafficSwitchTarget::Toggle.resolve(once), state);
        assert_eq!(TrafficSwitchTarget::Bypass.resolve(state), TrafficState::Bypass);
        assert_eq!(TrafficSwitchTarget::Proxying.resolve(state), TrafficState::Proxying);
    }
    assert_eq!(TrafficState::default(), TrafficState::Proxying);
    assert_eq!(TrafficState::Bypass.as_str(), "bypass");
}

#[test]
fn responses_name_both_states() {
    let response = ControlResponse::ok(TrafficState::Proxying, TrafficState::Bypass);
    assert!(response.ok);
    assert_eq!(response.message, "traffic state switched proxying -> bypass");
}

#[test]
fn orders_that_fail_say_why() {
    let text = |h: Handling| dispatch_control(h).message;
    assert_eq!(text(Handling::Unsupported), "runtime switch is not supported by this daemon");
    assert_eq!(text(Handling::Unavailable), "runtime switch handler is not available");
    assert_eq!(text(Handling::Dropped), "runtime switch handler closed");
    assert_eq!(text(Handling::TimedOut), "runtime switch handler timed out");
    assert_eq!(text(Handling::Answered(ControlResponse::error("x"))), "x");
}

#[test]
fn state_names_give_back_the_states() {
    for state in [
        TunnelState::Unknown,
        TunnelState::Starting,
        TunnelState::InterfaceUp,
        TunnelState::RoutesApplied,
        TunnelState::DnsApplied,
        TunnelState::ConnectivityOk,
        TunnelState::Active,
        TunnelState::Bypass,
        TunnelState::Degraded,
        TunnelState::Stopping,
    ] {
        assert_eq!(TunnelState::from_name(state.as_str()), Some(state));
    }
    assert_eq!(TunnelState::from_name("up"), None);
    for check in [
        TunnelCheckState::Unknown,
        TunnelCheckState::Disabled,
        TunnelCheckState::Okay,
        TunnelCheckState::Warn,
        TunnelCheckState::Error,
    ] {
        assert_eq!(TunnelCheckState::from_name(check.as_str()), Some(check));
    }
    assert_eq!(TunnelCheckState::Okay.as_str(), "ok");
}

#[test]
fn health_travels_in_an_event() {
    let mut hub: Option<TelemetryHub> = None;
    init_channel(&mut hub, 16, 5);
    let mut health = TunnelHealth::stage(TunnelState::Degraded, "no route".to_owned());
    health.dns = TunnelCheckState::Warn;
    health.handshake_age_secs = Some(7);
    let event = set_tunnel_health(&mut hub, &health, 10, 3, 6).unwrap();
    assert_eq!((event.at_secs, event.at_nanos), (10, 3));
    assert_eq!(event.level, "WARN");
    assert_eq!(event.message, "tunnel health");
    assert_eq!(event.fields.get("detail"), Some("no route"));
    assert_eq!(event.fields.get("connectivity"), Some("unknown"));
    assert_eq!(event.fields.get("handshake_age_secs"), Some("7"));
    let read = TunnelHealth::from_event(&event).unwrap();
    assert_eq!(read.state, TunnelState::Degraded);
    assert_eq!(read.dns, TunnelCheckState::Warn);
    assert_eq!(read.handshake_age_secs, Some(7));
    assert_eq!(hub.as_ref().unwrap().snapshot.tunnel_health.detail, "no route");
    let calm = TunnelHealth::stage(TunnelState::Active, String::new());
    let event = set_tunnel_health(&mut hub, &calm, 10, 0, 6).unwrap();
    assert_eq!(event.level, "INFO");
    assert_eq!(event.fields.get("detail"), None);
    assert_eq!(hub.as_ref().unwrap().snapshot.recent_events.len(), 1);
}

#[test]
fn the_first_hub_stays() {
    let mut hub: Option<TelemetryHub> = None;
    assert!(!has_live_subscribers(&hub, 3));
    assert!(emit(&mut hub, "INFO".to_owned(), "x".to_owned(), TextMap::new(), 0, 0, 0).is_none());
    set_context(&mut hub, monitor("client"));
    assert!(hub.is_none());
    init_channel(&mut hub, 16, 5);
    init_channel(&mut hub, 32, 9);
    assert_eq!(hub.as_ref().unwrap().capacity, 16);
    assert!(has_live_subscribers(&hub, 1));
    assert!(!has_live_subscribers(&hub, 0));
    assert!(current_snapshot(&hub, 10).is_none());
    set_context(&mut hub, monitor("client"));
    set_traffic_state(&mut hub, TrafficState::Bypass);
    let shown = current_snapshot(&hub, 3005).unwrap();
    assert_eq!(shown.context.traffic_state, TrafficState::Bypass);
    assert_eq!(shown.uptime_secs, 3);
    assert_eq!(shown.upload_history.len(), 48);
    assert_eq!(shown.last_event_age_ms, None);
    assert_eq!(hub.unwrap().capacity, 16);
}

#[test]
fn records_become_events() {
    let mut hub: Option<TelemetryHub> = None;
    init_channel(&mut hub, 16, 0);
    let mut visitor = EventVisitor::new();
    visitor.record_i64("delta", -3);
    visitor.record_u64("size", 9);
    visitor.record_bool("sampled", false);
    visitor.record_str("message", "client listening");
    let event = layer().on_event(&mut hub, visitor, "event x", "INFO", 3, 4, 5).unwrap();
    assert_eq!(event.message, "client listening");
    assert_eq!(event.fields.get("message"), None);
    assert_eq!(event.fields.get("delta"), Some("-3"));
    assert_eq!(event.fields.get("size"), Some("9"));
    assert_eq!(event.fields.get("sampled"), Some("false"));
    assert_eq!(event.at_secs, 3);
    assert_eq!(event.at_nanos, 4);
    let event = layer().on_event(&mut hub, EventVisitor::new(), "event x", "WARN", 3, 4, 5).unwrap();
    assert_eq!(event.message, "event x");
    assert_eq!(hub.unwrap().snapshot.total_warnings, 1);
}

#[test]
fn histories_move_on_by_the_second() {
    let mut snapshot = SnapshotState::new(0);
    let sample = trace_event("INFO", "traffic sample", &[("uploaded", "5"), ("downloaded", "6")]);
    snapshot.ingest(&sample, 10);
    snapshot.ingest(&sample, 2500);
    assert_eq!(snapshot.last_bucket_at, 2000);
    assert_eq!(snapshot.upload_history[47], 5);
    assert_eq!(snapshot.upload_history[46], 0);
    assert_eq!(snapshot.upload_history[45], 5);
    assert_eq!(snapshot.download_history[45], 6);
    snapshot.ingest(&sample, 2600);
    assert_eq!(snapshot.upload_history[47], 10);
    snapshot.ingest(&sample, 200_000);
    assert_eq!(snapshot.upload_history.iter().sum::<u64>(), 5);
    assert_eq!(snapshot.upload_history.len(), 48);
}

#[test]
fn sampled_relays_count_once_in_the_history() {
    let mut snapshot = SnapshotState::new(0);
    let relay = |sampled: &str| {
        trace_event(
            "INFO",
            "client relay completed",
            &[("uploaded", "7"), ("downloaded", "8"), ("sampled", sampled), ("target", "a:80")],
        )
    };
    ingest(&mut snapshot, &relay("true"));
    assert_eq!(snapshot.upload_history[47], 0);
    assert_eq!(snapshot.total_uploaded, 7);
    ingest(&mut snapshot, &relay("no"));
    assert_eq!(snapshot.upload_history[47], 7);
    assert_eq!(snapshot.total_downloaded, 16);
    assert_eq!(snapshot.total_relays, 2);
    assert_eq!(snapshot.recent_targets[0].link, "http://a");
    assert_eq!(snapshot.recent_targets[0].detail, "");
}

#[test]
fn lists_keep_forty_entries() {
    let mut snapshot = SnapshotState::new(0);
    for i in 0..45 {
        let name = format!("host{i}:1");
        ingest(&mut snapshot, &trace_event("INFO", "note", &[("target", &name)]));
        ingest(
            &mut snapshot,
            &trace_event("INFO", "client relay completed", &[("target", &name)]),
        );
    }
    assert_eq!(snapshot.recent_events.len(), 40);
    assert_eq!(snapshot.recent_targets.len(), 40);
    assert_eq!(snapshot.recent_targets[0].target, "host44:1");
    assert_eq!(snapshot.recent_events[0], "00:00:00 [INFO] note host44:1");
}

#[test]
fn full_counters_take_no_event() {
    let mut snapshot = SnapshotState::new(0);
    snapshot.total_warnings = u64::MAX;
    assert!(!snapshot.can_ingest(&trace_event("WARN", "x", &[]), 0));
    assert!(snapshot.can_ingest(&trace_event("INFO", "x", &[]), 0));
    snapshot.upload_history[47] = u64::MAX;
    let sample = trace_event("INFO", "traffic sample", &[("uploaded", "1")]);
    assert!(!snapshot.can_ingest(&sample, 0));
    assert!(snapshot.can_ingest(&sample, 1000));
}

#[test]
fn addresses_are_listed_up_to_three() {
    assert_eq!(append_recent_domain_ip("pending", "1.1.1.1"), "1.1.1.1");
    assert_eq!(append_recent_domain_ip("1.1.1.1", "2.2.2.2"), "1.1.1.1, 2.2.2.2");
    assert_eq!(append_recent_domain_ip("1.1.1.1, 2.2.2.2", "2.2.2.2"), "1.1.1.1, 2.2.2.2");
    assert_eq!(append_recent_domain_ip("a, b, c", "d"), "a, b, c, ...");
    assert_eq!(append_recent_domain_ip("a, b, c, ...", "d"), "a, b, c, ...");
}

#[test]
fn links_follow_the_port() {
    assert_eq!(link_from_target("a:80"), "http://a");
    assert_eq!(link_from_target("a:443"), "https://a");
    assert_eq!(link_from_target("a:22"), "tcp://a:22");
    assert_eq!(link_from_target("a"), "tcp://a");
}

#[test]
fn routes_are_counted_by_their_label() {
    let bucket = |message: &str, fields: &[(&str, &str)]| {
        route_bucket_for_event(&trace_event("INFO", message, fields))
    };
    assert_eq!(bucket("dns query", &[]), Some(RouteBucket::Proxy));
    assert_eq!(bucket("route decision", &[]), None);
    assert_eq!(bucket("route decision", &[("route", "proxy")]), Some(RouteBucket::Proxy));
    assert_eq!(bucket("dns query", &[("route", "blocked")]), Some(RouteBucket::Blocked));
    assert_eq!(bucket("relay completed", &[("route", "wg-dns-direct")]), Some(RouteBucket::Direct));
    assert_eq!(bucket("note", &[("route", "direct")]), None);
    let mut stats = RouteStats { proxy: 0, direct: 0, blocked: 4 };
    stats.record(RouteBucket::Blocked);
    assert_eq!(stats, RouteStats { proxy: 0, direct: 0, blocked: 5 });
}

fn snapshot_message(command: &str, state: TrafficState) -> WireMessage {
    let mut snapshot = SnapshotState::new(0);
    snapshot.set_context(monitor(command));
    snapshot.set_traffic_state(state);
    WireMessage::Snapshot(snapshot.snapshot(0).unwrap())
}

#[test]
fn streams_start_with_a_snapshot() {
    let first = LineRead::Message(snapshot_message("tun", TrafficState::Proxying));
    assert_eq!(attach_socket(first).unwrap().context.command_label, "tun");
    let text = |l: LineRead| attach_socket(l).unwrap_err().full_text();
    assert_eq!(text(LineRead::Closed), "telemetry socket closed before snapshot");
    assert_eq!(
        text(LineRead::Failed(Failure::new("broken"))),
        "failed to read telemetry snapshot: broken"
    );
    assert_eq!(
        text(LineRead::Garbled(Failure::new("odd"))),
        "failed to parse telemetry snapshot: odd"
    );
    let event = WireMessage::Event(trace_event("INFO", "x", &[]));
    assert_eq!(
        text(LineRead::Message(event)),
        "telemetry stream did not start with a snapshot"
    );
}

#[test]
fn watchers_show_events_only() {
    let event = WireMessage::Event(trace_event("INFO", "x", &[]));
    assert!(matches!(watch_next(LineRead::Message(event)), WatchMove::Show(_)));
    assert!(matches!(watch_next(LineRead::Garbled(Failure::new("odd"))), WatchMove::Skip));
    assert!(matches!(watch_next(LineRead::Closed), WatchMove::Stop));
    assert!(matches!(watch_next(LineRead::Failed(Failure::new("odd"))), WatchMove::Stop));
}

#[test]
fn orders_wait_for_their_response() {
    let target = TrafficSwitchTarget::Toggle;
    let first = SwitchEvent::Line(LineRead::Message(snapshot_message("tun", TrafficState::Bypass)));
    let (stage, action) = switch_socket(SwitchStage::Start, first, target, 100);
    assert!(matches!(
        action,
        SwitchMove::Order(
            ControlRequest { command: ControlCommand::Switch { target: TrafficSwitchTarget::Toggle } },
            10000
        )
    ));
    let noise = SwitchEvent::Line(LineRead::Message(WireMessage::Event(trace_event("INFO", "x", &[]))));
    let (stage, action) = switch_socket(stage, noise, target, 1100);
    assert!(matches!(action, SwitchMove::Wait(9000)));
    let old = ControlResponse { ok: true, previous_state: None, state: None, message: String::new() };
    let answer = SwitchEvent::Line(LineRead::Message(WireMessage::ControlResponse(old)));
    let (stage, action) = switch_socket(stage, answer, target, 1200);
    assert!(matches!(stage, SwitchStage::Done));
    match action {
        SwitchMove::Finish(r) => {
            assert_eq!(r.previous_state, Some(TrafficState::Bypass));
            assert_eq!(r.state, Some(TrafficState::Proxying));
        }
        _ => panic!("no response"),
    }
}

#[test]
fn orders_fail_in_their_own_words() {
    let fail = |event: SwitchEvent, now: u64| {
        let stage = SwitchStage::Waiting(TrafficState::Proxying, 0);
        match switch_socket(stage, event, TrafficSwitchTarget::Toggle, now).1 {
            SwitchMove::Fail(e) => e.full_text(),
            _ => panic!("no failure"),
        }
    };
    let noise = WireMessage::Event(trace_event("INFO", "x", &[]));
    assert_eq!(
        fail(SwitchEvent::Line(LineRead::Message(noise)), 10001),
        "timed out waiting for switch response"
    );
    assert_eq!(
        fail(SwitchEvent::TimedOut(Failure::new("late")), 1),
        "timed out waiting for switch response: late"
    );
    assert_eq!(
        fail(SwitchEvent::Line(LineRead::Closed), 1),
        "telemetry socket closed before switch response"
    );
    assert_eq!(
        fail(SwitchEvent::Line(LineRead::Failed(Failure::new("a"))), 1),
        "failed to read switch response: a"
    );
    assert_eq!(
        fail(SwitchEvent::Line(LineRead::Garbled(Failure::new("b"))), 1),
        "failed to parse switch response: b"
    );
    assert_eq!(fail(SwitchEvent::WriteFailed(Failure::new("c")), 1), "c");
}

#[test]
fn subscribers_are_served() {
    let mut snapshot = SnapshotState::new(0);
    assert_eq!(
        greet_subscriber(&snapshot, 1).unwrap_err().to_text(),
        "telemetry context is not ready yet"
    );
    snapshot.set_context(monitor("client"));
    assert!(greet_subscriber(&snapshot, 1).is_ok());
    let request = ControlRequest {
        command: ControlCommand::Switch { target: TrafficSwitchTarget::Bypass },
    };
    let order = SubscriberEvent::Line(LineRead::Message(WireMessage::Control(request)));
    assert!(matches!(handle_subscriber(order), SubscriberMove::Dispatch(_)));
    let event = SubscriberEvent::Event(trace_event("INFO", "x", &[]));
    assert!(matches!(handle_subscriber(event), SubscriberMove::Write(_)));
    assert!(matches!(handle_subscriber(SubscriberEvent::Lagged), SubscriberMove::Wait));
    assert!(matches!(handle_subscriber(SubscriberEvent::Closed), SubscriberMove::Stop));
    assert!(matches!(handle_subscriber(SubscriberEvent::WriteFailed), SubscriberMove::Stop));
    let closed = SubscriberEvent::Line(LineRead::Closed);
    assert!(matches!(handle_subscriber(closed), SubscriberMove::Stop));
    let broken = SubscriberEvent::Line(LineRead::Failed(Failure::new("x")));
    assert!(matches!(handle_subscriber(broken), SubscriberMove::Fail(_)));
    let odd = SubscriberEvent::Line(LineRead::Garbled(Failure::new("x")));
    assert!(matches!(handle_subscriber(odd), SubscriberMove::Wait));
}

#[test]
fn sockets_of_root_are_given_away_or_opened() {
    assert_eq!(socket_owner(0, Some("501"), Some("20")), Some((501, 20)));
    assert_eq!(socket_owner(501, Some("501"), Some("20")), None);
    assert_eq!(socket_owner(0, Some("x"), Some("20")), None);
    assert_eq!(socket_owner(0, None, Some("20")), None);
    assert_eq!(socket_mode(501, true), None);
    assert_eq!(socket_mode(0, true), Some(0o660));
    assert_eq!(socket_mode(0, false), Some(0o666));
}
