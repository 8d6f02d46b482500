//! The dashboard.

use runnel::telemetry::hub::TrafficState;
use runnel::telemetry::snapshot::{MonitorContext, SnapshotState};
use runnel::telemetry::{link_from_target, TraceEvent};
use runnel::textmap::TextMap;
use runnel::traffic::split_target;
use runnel::tui::show::{
    count_thread_lines, endpoint_fields, fit_wave_data_to_width, format_bytes, format_uptime,
    mode_fields, parse_ps_rss_kib, parse_thread_count, process_fields, process_memory,
    recent_target_activity, recent_target_link, recent_target_route,
    recent_targets_activity_header, recent_targets_link_header, recent_targets_title,
    recent_targets_widths, route_stat_label, wave_title, Width,
};
use runnel::tui::{
    fit_history, is_exit_key, next_turn, DashboardApp, DashboardContext, Key, ProcessStats,
    Received, RecentTarget, Tone, Turn,
};

fn trace_event(level: &str, message: &str, fields: &[(&str, &str)]) -> TraceEvent {
    let mut map = TextMap::new();
    for (key, value) in fields {
        map.insert((*key).to_owned(), (*value).to_owned());
    }
    TraceEvent {
        at_secs: 0,
        at_nanos: 0,
        level: level.to_owned(),
        message: message.to_owned(),
        fields: map,
    }
}

fn dashboard(context: DashboardContext) -> DashboardApp {
    DashboardApp::new(context, 1, ProcessStats { memory_bytes: 0, threads: None }, 0)
}

fn ingest(app: &mut DashboardApp, event: TraceEvent) {
    assert!(app.can_ingest(&event));
    app.ingest(&event, 0);
}

fn context(command: &str, mode: &str) -> DashboardContext {
    DashboardContext {
        command_label: command.to_owned(),
        mode_label: mode.to_owned(),
        traffic_state: TrafficState::Proxying,
        listen: None,
        upstream: None,
        path: None,
        log_file: "runnel.log".to_owned(),
        log_filter: "info".to_owned(),
        log_timezone_offset_secs: 0,
    }
}

#[test]
fn wave_data_uses_full_width_when_panel_is_wider() {
    assert_eq!(
        fit_wave_data_to_width(&vec![1, 2, 3], 6),
        vec![1, 1, 2, 2, 3, 3]
    );
}

#[test]
fn wave_data_compresses_history_when_panel_is_narrower() {
    assert_eq!(fit_wave_data_to_width(&vec![1, 2, 3, 4], 2), vec![2, 4]);
}

#[test]
fn wave_data_handles_empty_history() {
    assert_eq!(fit_wave_data_to_width(&vec![], 4), vec![0, 0, 0, 0]);
}

#[test]
fn route_stat_labels_align_values() {
    assert_eq!(route_stat_label("proxy:"), "proxy:   ");
    assert_eq!(route_stat_label("direct:"), "direct:  ");
    assert_eq!(route_stat_label("blocked:"), "blocked: ");
}

#[test]
fn https_link_for_port_443() {
    assert_eq!(link_from_target("example.com:443"), "https://example.com");
}

#[test]
fn split_ipv6_target() {
    assert_eq!(split_target("[::1]:1080"), ("::1".to_owned(), Some(1080)));
}

#[test]
fn parse_ps_rss_reads_kib_value() {
    assert_eq!(parse_ps_rss_kib(" 13568\n"), Some(13568));
}

#[test]
fn parse_ps_rss_skips_blank_and_invalid_lines() {
    assert_eq!(parse_ps_rss_kib("\nRSS\n  2048\n"), Some(2048));
    assert_eq!(parse_ps_rss_kib("\nRSS\n"), None);
}

#[test]
fn traffic_sample_updates_history_without_totals_by_default() {
    let mut app = dashboard(DashboardContext {
        command_label: "wg-client".to_owned(),
        mode_label: "wg".to_owned(),
        traffic_state: TrafficState::Proxying,
        listen: None,
        upstream: None,
        path: None,
        log_file: "runnel.log".to_owned(),
        log_filter: "info".to_owned(),
        log_timezone_offset_secs: 0,
    });

    ingest(&mut app, trace_event(
        "INFO",
        "traffic sample",
        &[("uploaded", "12"), ("downloaded", "34")],
    ));

    assert_eq!(app.total_uploaded, 0);
    assert_eq!(app.total_downloaded, 0);
    assert_eq!(app.total_relays, 0);
    assert_eq!(app.upload_history.last().copied(), Some(12));
    assert_eq!(app.download_history.last().copied(), Some(34));
    assert!(app.last_traffic_at.is_some());
}

#[test]
fn wg_traffic_sample_updates_totals_without_recent_target() {
    let mut app = dashboard(DashboardContext {
        command_label: "wg-client".to_owned(),
        mode_label: "wg".to_owned(),
        traffic_state: TrafficState::Proxying,
        listen: None,
        upstream: None,
        path: None,
        log_file: "runnel.log".to_owned(),
        log_filter: "info".to_owned(),
        log_timezone_offset_secs: 0,
    });

    ingest(&mut app, trace_event(
        "INFO",
        "traffic sample",
        &[
            ("uploaded", "12"),
            ("downloaded", "34"),
            ("mode", "wg"),
            ("target", "wireguard"),
            ("link", "wg://wireguard"),
            ("route", "wg-client"),
        ],
    ));

    assert_eq!(app.total_uploaded, 12);
    assert_eq!(app.total_downloaded, 34);
    assert_eq!(app.total_relays, 0);
    assert!(app.recent_targets.is_empty());
}

#[test]
fn tui_traffic_sample_does_not_fill_recent_events_or_targets() {
    let mut app = dashboard(DashboardContext {
        command_label: "wg-client".to_owned(),
        mode_label: "wg".to_owned(),
        traffic_state: TrafficState::Proxying,
        listen: None,
        upstream: None,
        path: None,
        log_file: "runnel.log".to_owned(),
        log_filter: "info".to_owned(),
        log_timezone_offset_secs: 0,
    });

    ingest(&mut app, trace_event(
        "INFO",
        "traffic sample",
        &[
            ("uploaded", "12"),
            ("downloaded", "34"),
            ("mode", "wg"),
            ("target", "wireguard"),
        ],
    ));

    assert!(app.recent_events.is_empty());
    assert!(app.recent_targets.is_empty());
}

#[test]
fn tui_dns_query_updates_recent_domain_without_recent_event_spam() {
    let mut app = dashboard(DashboardContext {
        command_label: "wg-client".to_owned(),
        mode_label: "wg".to_owned(),
        traffic_state: TrafficState::Proxying,
        listen: None,
        upstream: None,
        path: None,
        log_file: "runnel.log".to_owned(),
        log_filter: "info".to_owned(),
        log_timezone_offset_secs: 0,
    });

    ingest(&mut app, trace_event(
        "INFO",
        "dns query",
        &[
            ("target", "example.com"),
            ("link", "dns://example.com"),
            ("route", "wg-dns"),
        ],
    ));

    assert!(app.recent_events.is_empty());
    assert_eq!(app.recent_targets.len(), 1);
    assert_eq!(app.recent_targets[0].link, "dns://example.com");
    assert_eq!(app.recent_targets[0].route, "wg-dns");
    assert_eq!(app.recent_targets[0].detail, "wg tunnel");
    assert_eq!(app.recent_targets[0].repeat_count, 1);
    assert_eq!(app.route_stats.proxy, 1);
    assert_eq!(app.route_stats.direct, 0);
    assert_eq!(app.route_stats.blocked, 0);
}

#[test]
fn tui_repeated_dns_queries_update_one_recent_domain_row() {
    let mut app = dashboard(DashboardContext {
        command_label: "wg-client".to_owned(),
        mode_label: "wg".to_owned(),
        traffic_state: TrafficState::Proxying,
        listen: None,
        upstream: None,
        path: None,
        log_file: "runnel.log".to_owned(),
        log_filter: "info".to_owned(),
        log_timezone_offset_secs: 0,
    });

    for _ in 0..3 {
        ingest(&mut app, trace_event(
            "INFO",
            "dns query",
            &[
                ("target", "tracker.example"),
                ("link", "dns://tracker.example"),
                ("route", "wg-dns-block"),
            ],
        ));
    }

    assert_eq!(app.recent_targets.len(), 1);
    assert_eq!(app.recent_targets[0].link, "dns://tracker.example");
    assert_eq!(app.recent_targets[0].detail, "blocked");
    assert_eq!(app.recent_targets[0].repeat_count, 3);
    assert_eq!(
        recent_target_activity(&app.recent_targets[0], &app.context),
        "blocked   x3"
    );
    assert_eq!(app.route_stats.blocked, 3);
}

#[test]
fn overview_route_stats_count_proxy_direct_and_blocked_decisions() {
    let mut app = dashboard(DashboardContext {
        command_label: "client".to_owned(),
        mode_label: "native-http".to_owned(),
        traffic_state: TrafficState::Proxying,
        listen: None,
        upstream: None,
        path: None,
        log_file: "runnel.log".to_owned(),
        log_filter: "info".to_owned(),
        log_timezone_offset_secs: 0,
    });

    ingest(&mut app, trace_event(
        "INFO",
        "client relay completed",
        &[("target", "example.com:443")],
    ));
    ingest(&mut app, trace_event(
        "INFO",
        "client relay completed",
        &[("target", "qq.com:443"), ("route", "direct")],
    ));
    ingest(&mut app, trace_event(
        "INFO",
        "dns query",
        &[("target", "ads.example"), ("route", "wg-dns-block")],
    ));
    ingest(&mut app, trace_event(
        "INFO",
        "route decision",
        &[("target", "tracker.example:443"), ("route", "block")],
    ));
    ingest(&mut app, trace_event(
        "INFO",
        "traffic sample",
        &[("target", "wireguard"), ("route", "wg-client")],
    ));

    assert_eq!(app.route_stats.proxy, 1);
    assert_eq!(app.route_stats.direct, 1);
    assert_eq!(app.route_stats.blocked, 2);
}

#[test]
fn tui_recent_event_shows_domain_and_ip_fields() {
    let mut app = dashboard(DashboardContext {
        command_label: "wg-client".to_owned(),
        mode_label: "wg".to_owned(),
        traffic_state: TrafficState::Proxying,
        listen: None,
        upstream: None,
        path: None,
        log_file: "runnel.log".to_owned(),
        log_filter: "info".to_owned(),
        log_timezone_offset_secs: 0,
    });

    ingest(&mut app, trace_event(
        "INFO",
        "running wg hook",
        &[("domain", "baidu.com"), ("ip", "110.242.74.102")],
    ));

    assert_eq!(app.recent_events.len(), 1);
    assert!(
        app.recent_events[0].contains("baidu.com -> 110.242.74.102"),
        "{}",
        app.recent_events[0]
    );
}

#[test]
fn recent_event_uses_dashboard_timezone() {
    let mut app = dashboard(DashboardContext {
        command_label: "client".to_owned(),
        mode_label: "native-http".to_owned(),
        traffic_state: TrafficState::Proxying,
        listen: None,
        upstream: None,
        path: None,
        log_file: "runnel.log".to_owned(),
        log_filter: "info".to_owned(),
        log_timezone_offset_secs: 8 * 60 * 60,
    });

    ingest(&mut app, trace_event(
        "INFO",
        "client listening",
        &[("listen", "127.0.0.1:1080")],
    ));

    assert!(
        app.recent_events[0].starts_with("08:00:00 [INFO]"),
        "{}",
        app.recent_events[0]
    );
}

#[test]
fn traffic_switch_event_updates_context_state() {
    let mut app = dashboard(DashboardContext {
        command_label: "client".to_owned(),
        mode_label: "wg".to_owned(),
        traffic_state: TrafficState::Proxying,
        listen: None,
        upstream: None,
        path: None,
        log_file: "runnel.log".to_owned(),
        log_filter: "info".to_owned(),
        log_timezone_offset_secs: 0,
    });

    ingest(&mut app, trace_event(
        "INFO",
        "traffic switch",
        &[("state", "bypass")],
    ));

    assert_eq!(
        app.context.traffic_state,
        TrafficState::Bypass
    );
}

#[test]
fn wg_context_renames_recent_domains_panel() {
    let context = DashboardContext {
        command_label: "wg-client".to_owned(),
        mode_label: "wg".to_owned(),
        traffic_state: TrafficState::Proxying,
        listen: None,
        upstream: None,
        path: None,
        log_file: "runnel.log".to_owned(),
        log_filter: "info".to_owned(),
        log_timezone_offset_secs: 0,
    };

    assert_eq!(recent_targets_title(&context), "Recent Domains");
    assert_eq!(recent_targets_link_header(&context), "Domain");
    assert_eq!(recent_targets_activity_header(&context), "Resolved");
}

#[test]
fn wg_recent_domain_activity_shows_resolved_ips() {
    let context = DashboardContext {
        command_label: "client".to_owned(),
        mode_label: "wg".to_owned(),
        traffic_state: TrafficState::Proxying,
        listen: None,
        upstream: None,
        path: None,
        log_file: "runnel.log".to_owned(),
        log_filter: "info".to_owned(),
        log_timezone_offset_secs: 0,
    };
    let item = RecentTarget {
        seen_at: "08:27:01".to_owned(),
        route: "wg-dns-direct".to_owned(),
        link: "dns://example.com".to_owned(),
        detail: "93.184.216.34".to_owned(),
        repeat_count: 1,
        uploaded: 0,
        downloaded: 0,
    };

    assert_eq!(recent_target_route(&item, &context), "direct");
    assert_eq!(recent_target_link(&item, &context), "example.com");
    assert_eq!(recent_target_activity(&item, &context), "93.184.216.34");
}

#[test]
fn repeated_resolved_ip_detail_omits_repeat_count() {
    let context = DashboardContext {
        command_label: "client".to_owned(),
        mode_label: "wg".to_owned(),
        traffic_state: TrafficState::Proxying,
        listen: None,
        upstream: None,
        path: None,
        log_file: "runnel.log".to_owned(),
        log_filter: "info".to_owned(),
        log_timezone_offset_secs: 0,
    };
    let item = RecentTarget {
        seen_at: "08:27:01".to_owned(),
        route: "wg-dns-direct".to_owned(),
        link: "dns://example.com".to_owned(),
        detail: "93.184.216.34, 2606:2800:220:1:248:1893:25c8:1946".to_owned(),
        repeat_count: 4,
        uploaded: 0,
        downloaded: 0,
    };

    assert_eq!(
        recent_target_activity(&item, &context),
        "93.184.216.34, 2606:2800:220:1:248:1893:25c8:1946"
    );
}

#[test]
fn repeated_status_detail_aligns_repeat_count() {
    let context = DashboardContext {
        command_label: "client".to_owned(),
        mode_label: "wg".to_owned(),
        traffic_state: TrafficState::Proxying,
        listen: None,
        upstream: None,
        path: None,
        log_file: "runnel.log".to_owned(),
        log_filter: "info".to_owned(),
        log_timezone_offset_secs: 0,
    };
    let blocked = RecentTarget {
        seen_at: "08:27:01".to_owned(),
        route: "wg-dns-block".to_owned(),
        link: "dns://ads.example".to_owned(),
        detail: "blocked".to_owned(),
        repeat_count: 4,
        uploaded: 0,
        downloaded: 0,
    };
    let proxied = RecentTarget {
        seen_at: "08:27:02".to_owned(),
        route: "wg-dns".to_owned(),
        link: "dns://example.com".to_owned(),
        detail: "wg tunnel".to_owned(),
        repeat_count: 4,
        uploaded: 0,
        downloaded: 0,
    };

    assert_eq!(recent_target_activity(&blocked, &context), "blocked   x4");
    assert_eq!(recent_target_activity(&proxied, &context), "wg tunnel x4");
}

#[test]
fn tui_wg_hook_updates_recent_domain_resolved_ips() {
    let mut app = dashboard(DashboardContext {
        command_label: "wg-client".to_owned(),
        mode_label: "wg".to_owned(),
        traffic_state: TrafficState::Proxying,
        listen: None,
        upstream: None,
        path: None,
        log_file: "runnel.log".to_owned(),
        log_filter: "info".to_owned(),
        log_timezone_offset_secs: 0,
    });

    ingest(&mut app, trace_event(
        "INFO",
        "dns query",
        &[
            ("target", "baidu.com"),
            ("link", "dns://baidu.com"),
            ("route", "wg-dns-direct"),
        ],
    ));
    ingest(&mut app, trace_event(
        "INFO",
        "running wg hook",
        &[("domain", "baidu.com"), ("ip", "110.242.74.102")],
    ));

    assert_eq!(app.recent_targets.len(), 1);
    assert_eq!(app.recent_targets[0].detail, "110.242.74.102");
    assert_eq!(
        recent_target_activity(&app.recent_targets[0], &app.context),
        "110.242.74.102"
    );
}

#[test]
fn non_wg_recent_target_activity_keeps_byte_totals() {
    let context = DashboardContext {
        command_label: "client".to_owned(),
        mode_label: "native-http".to_owned(),
        traffic_state: TrafficState::Proxying,
        listen: None,
        upstream: None,
        path: None,
        log_file: "runnel.log".to_owned(),
        log_filter: "info".to_owned(),
        log_timezone_offset_secs: 0,
    };
    let item = RecentTarget {
        seen_at: "08:27:01".to_owned(),
        route: "remote".to_owned(),
        link: "https://example.com".to_owned(),
        detail: String::new(),
        repeat_count: 1,
        uploaded: 1024,
        downloaded: 2048,
    };

    assert_eq!(recent_targets_activity_header(&context), "Up / Down");
    assert_eq!(recent_target_activity(&item, &context), "1.0 KiB / 2.0 KiB");
}

#[test]
fn recent_targets_widths_fit_wg_route_and_common_totals() {
    let widths = recent_targets_widths();

    assert!(
        matches!(widths[1], Width::Length(width) if width >= "wg-client".len() as u16)
    );
    assert!(
        matches!(widths[3], Width::Length(width) if width >= "25.4 KiB / 39.9 KiB".len() as u16)
    );
}

#[test]
fn bytes_are_shown_as_doubles_are() {
    let samples: Vec<u64> = vec![
        0, 1, 1023, 1024, 1025, 1075, 1076, 1280, 1331, 1536, 1587, 1638, 1792, 10239, 10240,
        1048524, 1048525, 1048575, 1048576, 1310720, 1363149, 1073741823, 1073741824, 1342177280,
        1099511627775, 1099511627776, 9007199254740991, 9007199254740992, 9007199254740993,
        9007199254740995, 1152921504606846975, 1152921504606846976, 9223372036854775807,
        9223372036854776831, 9223372036854776832, 18446744073709550591, 18446744073709550592,
        18446744073709551615,
    ];
    let units = ["B", "KiB", "MiB", "GiB", "TiB"];
    let mut more = samples.clone();
    for n in samples {
        more.push(n / 3);
        more.push(n / 7 * 5);
        more.push(n ^ 0x5555);
    }
    for n in more {
        let mut value = n as f64;
        let mut unit = 0;
        while value >= 1024.0 && unit < 4 {
            value /= 1024.0;
            unit += 1;
        }
        let expected = if unit == 0 {
            format!("{n} B")
        } else {
            format!("{value:.1} {}", units[unit])
        };
        assert_eq!(format_bytes(n), expected);
    }
    assert_eq!(format_bytes(1280), "1.2 KiB");
    assert_eq!(format_bytes(1792), "1.8 KiB");
}

#[test]
fn uptimes_name_hours_once_there_are_some() {
    assert_eq!(format_uptime(59), "00m 59s");
    assert_eq!(format_uptime(3599), "59m 59s");
    assert_eq!(format_uptime(3661), "1h 01m 01s");
    assert_eq!(format_uptime(360000), "100h 00m 00s");
}

#[test]
fn waves_are_told_in_their_title() {
    assert_eq!(
        wave_title("Upload", &vec![0, 2048, 1]),
        "Upload · 1 B/s now · 2.0 KiB/s peak · active 2/3"
    );
    assert_eq!(wave_title("Up", &vec![]), "Up · 0 B/s now · 0 B/s peak · active 0/0");
    assert_eq!(fit_wave_data_to_width(&vec![1, 5, 3, 2, 9], 2), vec![5, 9]);
    assert_eq!(fit_wave_data_to_width(&vec![1, 2], 0), Vec::<u64>::new());
}

#[test]
fn histories_are_fitted() {
    assert_eq!(fit_history(&vec![7, 8])[46..], [7, 8]);
    assert_eq!(fit_history(&vec![7, 8])[..46], [0; 46]);
    let long: Vec<u64> = (0..60).collect();
    assert_eq!(fit_history(&long)[0], 12);
    assert_eq!(fit_history(&long)[47], 59);
}

#[test]
fn dashboards_take_over_from_snapshots() {
    let mut state = SnapshotState::new(0);
    state.set_context(MonitorContext {
        command_label: "server".to_owned(),
        mode_label: "native-mux".to_owned(),
        traffic_state: TrafficState::Bypass,
        listen: Some("0.0.0.0:443".to_owned()),
        upstream: None,
        path: Some("/x".to_owned()),
        log_file: "s.log".to_owned(),
        log_filter: "debug".to_owned(),
        log_timezone_offset_secs: 60,
        pid: 9,
    });
    state.ingest(&trace_event("INFO", "relay completed", &[("target", "a:80"), ("uploaded", "4")]), 0);
    state.recent_targets[0].repeat_count = 0;
    let shown = state.snapshot(2000).unwrap();
    let stats = ProcessStats { memory_bytes: 2048, threads: Some(3) };
    let app = DashboardApp::from_snapshot(shown, stats, 5000);
    assert_eq!(app.pid, 9);
    assert_eq!(app.started_at, 3000);
    assert_eq!(app.last_event_at, Some(3000));
    assert_eq!(app.recent_targets[0].repeat_count, 1);
    assert_eq!(app.recent_targets[0].link, "http://a");
    assert_eq!(app.total_uploaded, 4);
    assert_eq!(app.recent_events.len(), 1);
    let pairs = mode_fields(&app, 8000);
    assert_eq!(pairs[0], ("mode ", "native-mux".to_owned()));
    assert_eq!(pairs[1], ("traffic ", "bypass".to_owned()));
    assert_eq!(pairs[2], ("uptime ", "00m 05s".to_owned()));
    let pairs = process_fields(&app);
    assert_eq!(pairs[0], ("pid ", "9".to_owned()));
    assert_eq!(pairs[1], ("memory ", "2.0 KiB".to_owned()));
    assert_eq!(pairs[2], ("threads ", "3".to_owned()));
    assert_eq!(pairs[3], ("log ", "s.log".to_owned()));
    let pairs = endpoint_fields(&app.context);
    assert_eq!(pairs.len(), 2);
    assert_eq!(pairs[0], ("listen ", "0.0.0.0:443".to_owned()));
    let pairs = endpoint_fields(&context("client", "x"));
    assert_eq!(pairs.len(), 3);
    assert_eq!(pairs[1], ("upstream ", "-".to_owned()));
}

#[test]
fn listeners_fill_what_is_unknown() {
    let mut app = dashboard(context("client", "-"));
    app.context.path = Some("/kept".to_owned());
    ingest(
        &mut app,
        trace_event(
            "INFO",
            "client listening",
            &[("listen", "l"), ("fallback", "f"), ("path", "/new"), ("mode", "m")],
        ),
    );
    assert_eq!(app.context.listen.as_deref(), Some("l"));
    assert_eq!(app.context.upstream.as_deref(), Some("f"));
    assert_eq!(app.context.path.as_deref(), Some("/kept"));
    assert_eq!(app.context.mode_label, "m");
    ingest(&mut app, trace_event("INFO", "client listening", &[("listen", "z"), ("mode", "n")]));
    assert_eq!(app.context.listen.as_deref(), Some("l"));
    assert_eq!(app.context.mode_label, "m");
}

#[test]
fn states_fade_with_time() {
    let mut app = dashboard(context("client", "x"));
    assert_eq!(app.status(0), ("idle", Tone::DarkGray));
    app.ingest(&trace_event("INFO", "note", &[]), 1000);
    assert_eq!(app.status(31000), ("ready", Tone::Cyan));
    assert_eq!(app.status(31001), ("idle", Tone::DarkGray));
    app.ingest(&trace_event("INFO", "traffic sample", &[]), 2000);
    assert_eq!(app.status(7000), ("active", Tone::Green));
    assert_eq!(app.status(7001), ("ready", Tone::Cyan));
    app.ingest(&trace_event("WARN", "trouble", &[]), 3000);
    assert_eq!(app.status(23000), ("degraded", Tone::Yellow));
    assert_eq!(app.status(23001), ("ready", Tone::Cyan));
}

#[test]
fn ticks_move_the_dashboard_on() {
    let mut app = dashboard(context("client", "x"));
    ingest(&mut app, trace_event("INFO", "traffic sample", &[("uploaded", "3")]));
    assert!(!app.on_tick(1500));
    assert_eq!(app.spinner_index, 1);
    assert_eq!(app.upload_history[46], 3);
    assert_eq!(app.upload_history[47], 0);
    assert!(app.on_tick(2000));
    app.refresh_process_stats(ProcessStats { memory_bytes: 5, threads: Some(2) }, 2000);
    assert!(!app.on_tick(3999));
    for _ in 0..7 {
        app.on_tick(3999);
    }
    assert_eq!(app.spinner_index, 0);
}

#[test]
fn some_keys_end_the_dashboard() {
    assert!(is_exit_key(Key::Char('q'), false));
    assert!(is_exit_key(Key::Escape, false));
    assert!(is_exit_key(Key::Char('c'), true));
    assert!(!is_exit_key(Key::Char('c'), false));
    assert!(!is_exit_key(Key::Other, true));
    assert!(matches!(next_turn(Received::Empty), Turn::Draw));
    assert!(matches!(next_turn(Received::Lagged), Turn::Again));
    assert!(matches!(next_turn(Received::Closed), Turn::Leave));
    let event = Received::Event(trace_event("INFO", "x", &[]));
    assert!(matches!(next_turn(event), Turn::Ingest(_)));
}

#[test]
fn processes_are_measured() {
    assert_eq!(process_memory(Some(5), Some(1)), 5);
    assert_eq!(process_memory(Some(0), Some(2)), 2048);
    assert_eq!(process_memory(None, None), 0);
    assert_eq!(process_memory(None, Some(u64::MAX)), u64::MAX);
    assert_eq!(count_thread_lines("1\n \n2\n"), 2);
    assert_eq!(count_thread_lines(""), 1);
    assert_eq!(parse_thread_count(" 12\n"), Some(12));
    assert_eq!(parse_thread_count("x"), None);
}

#[test]
fn tunnel_health_is_listed_on_the_dashboard() {
    let mut app = dashboard(context("tun", "x"));
    ingest(&mut app, trace_event("INFO", "tunnel health", &[]));
    assert_eq!(app.recent_events[0], "00:00:00 [INFO] tunnel health");
}
