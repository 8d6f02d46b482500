//! The command line and the services that run.

use runnel::cli::daemon::{
    as_signed, candidate_for, classify_service_state, discover_status_targets_in_dir,
    format_duration, found_target, inspect_status_target, maybe_create_pid_file,
    merge_status_targets, needs_discovery, parse_sidecar_file_name, print_status_report,
    process_exists, read_pid_file, reload_check_args, reload_check_failure, reload_daemon_process,
    reload_start_args, reload_start_failure, reloaded_text, resolve_pid_file_for_role,
    resolve_reload_role, resolve_status_targets, resolve_stop_pid_file, role_from_pid_file,
    should_show_status_state, stop_daemon_process, switch_daemon_process, switch_outcome,
    wanted_pid_file, write_pid_file, PidSight, Probe, RuntimeStatus, SocketSight, StatusTarget,
    StopEvent, StopMove, StopStage,
};
use runnel::cli::service::{
    absolute_path, command_role, dashboard_context, default_log_file_for_command,
    default_log_file_for_role, default_pid_path, default_socket_path, monitor_context,
    resolve_attach_socket, resolve_socket_for_service, service_descriptor, Place, Present,
};
use runnel::cli::{
    command_requires_strict_config, default_config_paths_for, first_existing_config_path,
    is_utility_command, normalize_cli_modes, parse_log_timezone, plan, read_file_tail,
    should_spawn_daemon, started_text, startup_failure, validate_daemon_mode,
    wait_for_daemon_startup, Cli, Commands, LogSight, Plan, ReloadArgs, ServiceRole, StartupMove,
    StatusArgs, StopArgs, SwitchArgs, SwitchRole, TuiArgs,
};
use runnel::failure::Failure;
use runnel::telemetry::hub::{ControlResponse, TrafficState, TrafficSwitchTarget};
use runnel::tun::Platform;

fn place() -> Place {
    Place { home: Some("/home/alice".to_owned()), cwd: Ok("/work".to_owned()) }
}

fn nothing() -> Present {
    Present { client: false, server: false, tun: false, wg_client: false, wg_server: false }
}

fn cli(command: Commands) -> Cli {
    Cli {
        log: "debug".to_owned(),
        log_file: "runnel.log".to_owned(),
        log_timezone: "Asia/Shanghai".to_owned(),
        telemetry_sock: None,
        pid_file: None,
        tui: false,
        daemon: false,
        check_config_only: false,
        config: None,
        command,
    }
}

fn runtime(command: &str, pid: u32) -> RuntimeStatus {
    RuntimeStatus {
        command: command.to_owned(),
        mode: "native-http".to_owned(),
        traffic_state: TrafficState::Proxying,
        pid,
        listen: None,
        upstream: None,
        path: None,
        log_file: "proxy.log".to_owned(),
        log_filter: "info".to_owned(),
        uptime_secs: 0,
        total_relays: 0,
        total_errors: 0,
        total_warnings: 0,
        total_uploaded: 0,
        total_downloaded: 0,
        last_event_age_ms: None,
        last_warning_age_ms: None,
        last_traffic_age_ms: None,
    }
}

fn target(label: &str, pid: Option<&str>, sock: Option<&str>) -> StatusTarget {
    StatusTarget {
        label: label.to_owned(),
        pid_file: pid.map(|p| p.to_owned()),
        telemetry_socket: sock.map(|p| p.to_owned()),
    }
}

#[test]
fn default_config_paths_prefer_user_home_then_xdg_then_system() {
    let paths = default_config_paths_for(
        Some("/home/alice"),
        Some("/xdg"),
        Some("/home/alice"),
        Platform::Other,
        true,
    );

    assert_eq!(paths[0], "/home/alice/.runnel/config.yaml");
    assert_eq!(paths[1], "/home/alice/.runnel/config.yml");
    assert_eq!(paths[2], "/xdg/runnel/config.yaml");
    assert_eq!(paths[3], "/xdg/runnel/config.yml");
    assert!(paths.contains(&"/home/alice/.config/runnel/config.yaml".to_owned()));
    assert!(paths.contains(&"/home/alice/.config/runnel/config.yml".to_owned()));
    assert_eq!(
        paths.iter().filter(|path| *path == "/home/alice/.runnel/config.yaml").count(),
        1
    );
    assert_eq!(
        paths.iter().filter(|path| *path == "/home/alice/.runnel/config.yml").count(),
        1
    );
    assert!(paths.ends_with(&[
        "/etc/runnel/config.yaml".to_owned(),
        "/etc/runnel/config.yml".to_owned()
    ]));
}

#[test]
fn first_existing_config_path_uses_first_existing_candidate() {
    let paths = vec!["missing.yaml".to_owned(), "first.yaml".to_owned(), "second.yaml".to_owned()];
    assert_eq!(
        first_existing_config_path(&paths, &vec![false, true, true]),
        Some("first.yaml".to_owned())
    );
    assert_eq!(first_existing_config_path(&paths, &vec![false, false, false]), None);
}

#[test]
fn places_with_other_spellings_are_the_same() {
    let paths = default_config_paths_for(
        Some("/home/alice/"),
        None,
        Some("/home//./alice"),
        Platform::MacOs,
        false,
    );
    assert_eq!(paths.len(), 6);
    assert_eq!(paths[5], "/home/alice/Library/Application Support/runnel/config.yml");
}

#[test]
fn daemons_are_watched_at_their_start() {
    assert_eq!(wait_for_daemon_startup(true, 5000), StartupMove::Failed);
    assert_eq!(wait_for_daemon_startup(false, 1199), StartupMove::Sleep(100));
    assert_eq!(wait_for_daemon_startup(false, 1200), StartupMove::Running);
}

#[test]
fn read_file_tail_returns_last_lines() {
    assert_eq!(read_file_tail("one\ntwo\nthree\nfour\n", 2), "three\nfour");
    assert_eq!(read_file_tail("one\ntwo\n", 5), "one\ntwo");
    assert_eq!(read_file_tail("one\ntwo\n", 0), "");
}

#[test]
fn status_targets_default_to_all_roles() {
    let targets =
        resolve_status_targets("proxy.log", None, None, None, false, &vec![], &vec![], &place())
            .unwrap();
    let labels = targets.iter().map(|target| target.label.as_str()).collect::<Vec<_>>();
    assert!(labels.contains(&"client"));
    assert!(labels.contains(&"server"));
    assert!(labels.contains(&"tun"));
    assert!(!labels.contains(&"wg-client"));
    assert!(!labels.contains(&"wg-server"));
}

#[test]
fn service_commands_default_to_role_log_files() {
    assert_eq!(default_log_file_for_role("client"), "~/.runnel/logs/client.log");
    assert_eq!(default_log_file_for_role("server"), "~/.runnel/logs/server.log");
    assert_eq!(
        default_log_file_for_command(&Commands::Status(StatusArgs {
            role: Some(ServiceRole::Client),
            json: false,
        })),
        "~/.runnel/logs/client.log"
    );
    assert_eq!(default_log_file_for_command(&Commands::WgKeygen), "~/.runnel/logs/run.log");
    assert_eq!(
        default_log_file_for_command(&Commands::Switch(SwitchArgs {
            role: Some(SwitchRole::Tun),
            bypass: false,
            proxy: false,
        })),
        "~/.runnel/logs/tun.log"
    );
}

#[test]
fn log_timezone_accepts_common_values() {
    let zone = |text: &str| parse_log_timezone(text, Ok(0)).unwrap();
    let secs = |h: i8, m: i8, s: i8| time::UtcOffset::from_hms(h, m, s).unwrap().whole_seconds();
    assert_eq!(zone("utc"), time::UtcOffset::UTC.whole_seconds());
    assert_eq!(zone("Asia/Shanghai"), secs(8, 0, 0));
    assert_eq!(zone("+08:00"), secs(8, 0, 0));
    assert_eq!(zone("UTC-0530"), secs(-5, -30, 0));
    assert_eq!(zone("-23:59:59"), secs(-23, -59, -59));
    assert_eq!(zone("gmt+7"), secs(7, 0, 0));
    assert_eq!(zone(" +013015 "), secs(1, 30, 15));
    assert_eq!(parse_log_timezone("Local", Ok(3600)).unwrap(), 3600);
}

#[test]
fn faulty_zones_are_told() {
    let text = |zone: &str| parse_log_timezone(zone, Err(Failure::new("none"))).unwrap_err().full_text();
    assert_eq!(text(" "), "log timezone cannot be empty");
    assert_eq!(
        text("local"),
        "failed to determine local timezone offset; use a fixed offset like +08:00: none"
    );
    assert_eq!(
        text("Mars"),
        "unsupported log timezone `Mars`; expected utc, local, +08:00, or Asia/Shanghai"
    );
    assert_eq!(
        text("+24:00"),
        "invalid log timezone `+24:00`; offset must be within +/-23:59:59"
    );
    assert_eq!(text("+1:2:3:4"), "invalid log timezone `+1:2:3:4`; expected +HH:MM or +HH:MM:SS");
    assert_eq!(text("+123"), "invalid log timezone `+123`; expected +HH, +HHMM, or +HHMMSS");
    assert_eq!(text("+"), "invalid log timezone `+`; expected +HH, +HHMM, or +HHMMSS");
    assert_eq!(text("+08:x"), "invalid minutes in log timezone `+08:x`");
    assert_eq!(
        text("+999:00"),
        "invalid hours in log timezone `+999:00`: number too large to fit in target type"
    );
}

#[test]
fn status_defaults_can_use_role_log_files() {
    let targets =
        resolve_status_targets("ignored.log", None, None, None, true, &vec![], &vec![], &place())
            .unwrap();
    let server = targets.iter().find(|target| target.label == "server").expect("server target");
    assert_eq!(server.pid_file.as_deref(), Some("/home/alice/.runnel/current/server.pid"));
    assert_eq!(server.telemetry_socket.as_deref(), Some("/home/alice/.runnel/current/server.sock"));
}

#[test]
fn default_pid_and_socket_paths_use_current_dir() {
    assert_eq!(
        default_pid_path("/var/log/runnel/client.log", "client", &place()).unwrap(),
        "/home/alice/.runnel/current/client.pid"
    );
    assert_eq!(
        default_socket_path("/var/log/runnel/client.log", "client", &place()).unwrap(),
        "/home/alice/.runnel/current/client.sock"
    );
}

#[test]
fn paths_depend_on_the_place() {
    assert_eq!(absolute_path("~", &place()).unwrap(), "/home/alice");
    assert_eq!(absolute_path("/x", &place()).unwrap(), "/x");
    assert_eq!(absolute_path("x", &place()).unwrap(), "/work/x");
    let lost = Place { home: None, cwd: Err(Failure::new("gone")) };
    assert_eq!(
        absolute_path("x", &lost).unwrap_err().full_text(),
        "failed to read current directory: gone"
    );
    assert!(default_pid_path("l", "client", &lost).is_err());
}

#[test]
fn status_hides_not_running_services_by_default() {
    assert!(!should_show_status_state("not-running", false));
    assert!(should_show_status_state("running", false));
    assert!(should_show_status_state("degraded", false));
    assert!(should_show_status_state("stale", false));
    assert!(should_show_status_state("not-running", true));
}

#[test]
fn management_commands_use_lenient_global_config() {
    assert!(!command_requires_strict_config(&Commands::Stop(StopArgs {
        role: None,
        wait_secs: 10,
    })));
    assert!(!command_requires_strict_config(&Commands::Status(StatusArgs {
        role: None,
        json: false,
    })));
    assert!(!command_requires_strict_config(&Commands::Reload(ReloadArgs {
        role: Some(ServiceRole::Client),
        wait_secs: 10,
    })));
    assert!(!command_requires_strict_config(&Commands::Switch(SwitchArgs {
        role: Some(SwitchRole::Client),
        bypass: false,
        proxy: false,
    })));
}

#[test]
fn status_target_uses_role_specific_overrides() {
    let targets = resolve_status_targets(
        "proxy.log",
        Some("custom.pid"),
        Some("custom.sock"),
        Some(ServiceRole::Tun),
        false,
        &vec![],
        &vec![],
        &place(),
    )
    .unwrap();
    assert_eq!(targets.len(), 1);
    assert_eq!(targets[0].label, "tun");
    assert!(targets[0].pid_file.as_ref().is_some_and(|path| path.ends_with("custom.pid")));
    assert!(targets[0].telemetry_socket.as_ref().is_some_and(|path| path.ends_with("custom.sock")));
}

#[test]
fn given_files_make_one_target() {
    let targets = resolve_status_targets(
        "proxy.log",
        None,
        Some("/x.sock"),
        None,
        false,
        &vec![],
        &vec![],
        &place(),
    )
    .unwrap();
    assert_eq!(targets.len(), 1);
    assert_eq!(targets[0].label, "service");
    assert_eq!(targets[0].pid_file, None);
    assert_eq!(targets[0].telemetry_socket.as_deref(), Some("/x.sock"));
    assert!(needs_discovery(None, None, None));
    assert!(!needs_discovery(None, Some("x"), None));
}

#[test]
fn active_targets_take_the_place_of_defaults() {
    let defaults = vec![target("client", Some("/d/client.pid"), None), target("tun", None, None)];
    let found = vec![
        target("client", Some("/a/client.pid"), None),
        target("other", Some("/o.pid"), None),
        target("client", Some("/a//client.pid"), None),
        target("tun", Some("/dead.pid"), None),
    ];
    let merged = merge_status_targets(&defaults, &found, &vec![true, true, true, false]);
    let shown: Vec<(&str, Option<&str>)> =
        merged.iter().map(|t| (t.label.as_str(), t.pid_file.as_deref())).collect();
    assert_eq!(
        shown,
        vec![
            ("client", Some("/a/client.pid")),
            ("tun", None),
            ("other", Some("/o.pid")),
        ]
    );
}

#[test]
fn wg_utility_commands_are_not_treated_as_services() {
    assert!(command_role(&Commands::WgConfig).is_none());
    assert!(is_utility_command(&Commands::WgConfig));
    assert!(command_role(&Commands::WgKeygen).is_none());
    assert!(is_utility_command(&Commands::WgKeygen));
}

#[test]
fn reload_start_args_restarts_selected_role_as_daemon() {
    let mut cli = cli(Commands::Reload(ReloadArgs {
        role: Some(ServiceRole::WgClient),
        wait_secs: 10,
    }));
    cli.telemetry_sock = Some("runnel.sock".to_owned());
    cli.pid_file = Some("runnel.pid".to_owned());
    cli.config = Some("config.yaml".to_owned());
    assert_eq!(
        reload_start_args(&cli, Some("config.yaml"), ServiceRole::WgClient, "runnel.log"),
        vec![
            "--log",
            "debug",
            "--log-file",
            "runnel.log",
            "--log-timezone",
            "Asia/Shanghai",
            "--telemetry-sock",
            "runnel.sock",
            "--pid-file",
            "runnel.pid",
            "--config",
            "config.yaml",
            "--daemon",
            "wg-client",
        ]
    );
    let check = reload_check_args(&cli, None, ServiceRole::Tun, "x.log");
    assert_eq!(check[3], "x.log");
    assert_eq!(check[10..], ["--check-config-only".to_owned(), "tun".to_owned()]);
}

#[test]
fn reload_role_can_be_inferred_from_wg_pid_file() {
    assert_eq!(role_from_pid_file("server.pid"), Some(ServiceRole::Server));
    assert_eq!(role_from_pid_file("proxy.wg-client.pid"), Some(ServiceRole::WgClient));
    assert_eq!(role_from_pid_file("proxy.wg-server.pid"), Some(ServiceRole::WgServer));
    assert_eq!(role_from_pid_file("/a/b/x.tun.pid"), Some(ServiceRole::Tun));
    assert_eq!(role_from_pid_file("/"), None);
    assert_eq!(role_from_pid_file("/a/tun.pid/."), Some(ServiceRole::Tun));
    assert_eq!(role_from_pid_file("/a/tun.pid/.."), None);
}

#[test]
fn reload_requires_role_with_custom_pid_file() {
    let error = resolve_reload_role("proxy.log", Some("custom.pid"), None, nothing(), &place())
        .expect_err("custom pid reload needs explicit role");
    assert!(error.full_text().contains("requires a role"));
}

#[test]
fn reload_command_is_not_a_service_role() {
    let command = Commands::Reload(ReloadArgs { role: Some(ServiceRole::Client), wait_secs: 10 });
    assert!(command_role(&command).is_none());
    assert!(!is_utility_command(&command));
}

#[test]
fn switch_command_is_not_a_service_role() {
    let args = SwitchArgs { role: Some(SwitchRole::Client), bypass: true, proxy: false };
    assert_eq!(args.target(), TrafficSwitchTarget::Bypass);

    let command = Commands::Switch(args);
    assert!(command_role(&command).is_none());
    assert!(!is_utility_command(&command));
    let args = SwitchArgs { role: None, bypass: false, proxy: true };
    assert_eq!(args.target(), TrafficSwitchTarget::Proxying);
    let args = SwitchArgs { role: None, bypass: false, proxy: false };
    assert_eq!(args.target(), TrafficSwitchTarget::Toggle);
    assert_eq!(SwitchRole::WgClient.as_str(), "wg-client");
}

#[test]
fn status_state_is_running_when_pid_and_runtime_match() {
    let runtime = runtime("client", 42);
    assert_eq!(
        classify_service_state(true, true, Some(42), Some(true), Some(&runtime)),
        "running"
    );
}

#[test]
fn status_state_is_degraded_when_runtime_disagrees_with_pid_file() {
    let runtime = runtime("tun", 77);
    assert_eq!(
        classify_service_state(true, true, Some(42), Some(true), Some(&runtime)),
        "degraded"
    );
}

#[test]
fn status_state_is_stale_when_only_pid_file_remains() {
    assert_eq!(classify_service_state(true, true, Some(42), Some(false), None), "stale");
}

#[test]
fn states_cover_the_rest() {
    let runtime = runtime("tun", 77);
    assert_eq!(classify_service_state(false, false, None, None, Some(&runtime)), "running");
    assert_eq!(classify_service_state(true, true, Some(1), Some(true), None), "degraded");
    assert_eq!(classify_service_state(true, false, None, None, None), "not-running");
    assert_eq!(classify_service_state(false, false, None, None, None), "not-running");
}

#[test]
fn services_are_inspected() {
    let status = inspect_status_target(
        target("client", Some("/c.pid"), Some("/c.sock")),
        PidSight::Read(5, false),
        SocketSight::Failed(Failure::new("refused").context("failed to connect")),
    );
    assert_eq!(status.role, "client");
    assert_eq!(status.state, "stale");
    assert_eq!(status.pid_from_file, Some(5));
    assert_eq!(
        status.detail.as_deref(),
        Some("stale pid file /c.pid; failed to query telemetry socket /c.sock: failed to connect: refused")
    );
    let status = inspect_status_target(
        target("client", Some("/c.pid"), Some("/c.sock")),
        PidSight::Read(5, true),
        SocketSight::Answered(runtime("tun", 6)),
    );
    assert_eq!(status.role, "tun");
    assert_eq!(status.state, "degraded");
    assert_eq!(status.detail.as_deref(), Some("pid file reports 5, telemetry reports 6"));
    let status = inspect_status_target(
        target("tun", Some("/c.pid"), Some("/c.sock")),
        PidSight::Missing,
        SocketSight::Missing,
    );
    assert_eq!(status.state, "not-running");
    assert_eq!(
        status.detail.as_deref(),
        Some("pid file not found: /c.pid; telemetry socket not found: /c.sock")
    );
    let status = inspect_status_target(
        target("tun", None, None),
        PidSight::Unexpected,
        SocketSight::Unexpected,
    );
    assert_eq!(status.detail, None);
    let status = inspect_status_target(
        target("tun", Some("/p"), None),
        PidSight::Unreadable(Failure::new("odd")),
        SocketSight::Unexpected,
    );
    assert_eq!(status.state, "stale");
    assert_eq!(status.detail.as_deref(), Some("odd"));
}

#[test]
fn reports_have_a_line_for_everything() {
    assert_eq!(print_status_report(&vec![]), vec!["no running services"]);
    let mut running = runtime("client", 42);
    running.listen = Some("127.0.0.1:1080".to_owned());
    running.uptime_secs = 3661;
    running.total_uploaded = 1024;
    running.total_relays = 3;
    let first = inspect_status_target(
        target("client", Some("/c.pid"), Some("/c.sock")),
        PidSight::Read(42, true),
        SocketSight::Answered(running),
    );
    let second = inspect_status_target(
        target("tun", Some("/t.pid"), None),
        PidSight::Read(7, false),
        SocketSight::Unexpected,
    );
    assert_eq!(
        print_status_report(&vec![first, second]),
        vec![
            "client: running",
            "  pid: 42",
            "  mode: native-http",
            "  traffic_state: proxying",
            "  listen: 127.0.0.1:1080",
            "  uptime: 1h01m01s",
            "  traffic: up 1.0 KiB down 0 B",
            "  health: relays 3 warnings 0 errors 0",
            "  log: proxy.log (info)",
            "  pid_file: /c.pid",
            "  telemetry_sock: /c.sock",
            "",
            "tun: stale",
            "  pid: 7",
            "  pid_file: /t.pid",
            "  detail: stale pid file /t.pid",
        ]
    );
    assert_eq!(format_duration(61), "1m01s");
    assert_eq!(format_duration(9), "9s");
}

#[test]
fn sidecars_are_found_by_their_names() {
    assert_eq!(
        parse_sidecar_file_name("tun.sock"),
        Some(("tun".to_owned(), "tun", true))
    );
    assert_eq!(
        parse_sidecar_file_name("a.b.server.pid"),
        Some(("a.b".to_owned(), "server", false))
    );
    assert_eq!(parse_sidecar_file_name("x.pid"), None);
    let mut list = Vec::new();
    let names: Vec<String> = ["p.client.pid", "p.client.sock", "tun.pid", "notes.txt"]
        .iter()
        .map(|n| (*n).to_owned())
        .collect();
    discover_status_targets_in_dir("/tmp", &names, &mut list);
    assert_eq!(list.len(), 2);
    assert_eq!(list[0].pid_file, "/tmp/p.client.pid");
    assert_eq!(list[0].telemetry_socket, "/tmp/p.client.sock");
    assert_eq!(list[1].pid_file, "/tmp/tun.pid");
    discover_status_targets_in_dir("/tmp/", &names, &mut list);
    assert_eq!(list.len(), 2);
    let c = candidate_for("/tmp", "tun.pid").unwrap();
    let t = found_target(c, false, true);
    assert_eq!(t.pid_file, None);
    assert_eq!(t.telemetry_socket.as_deref(), Some("/tmp/tun.sock"));
}

#[test]
fn numbers_of_processes_are_kept_in_files() {
    assert_eq!(write_pid_file(1234), "1234\n");
    assert_eq!(read_pid_file("/x", &write_pid_file(1234)).unwrap(), 1234);
    assert_eq!(read_pid_file("/x", &write_pid_file(u32::MAX)).unwrap(), u32::MAX);
    assert_eq!(
        read_pid_file("/x", "abc").unwrap_err().full_text(),
        "invalid pid in /x: invalid digit found in string"
    );
    assert_eq!(
        read_pid_file("/x", " \n").unwrap_err().full_text(),
        "invalid pid in /x: cannot parse integer from empty string"
    );
    assert_eq!(
        maybe_create_pid_file("tun", "/x", &PidSight::Read(9, true)).unwrap_err().to_text(),
        "another tun daemon is already running with pid 9 (pid file: /x)"
    );
    assert!(maybe_create_pid_file("tun", "/x", &PidSight::Read(9, false)).is_ok());
    assert!(maybe_create_pid_file("tun", "/x", &PidSight::Unreadable(Failure::new("x"))).is_ok());
    assert!(process_exists(5, Probe::NotPermitted).unwrap());
    assert!(!process_exists(5, Probe::NoSuchProcess).unwrap());
    assert!(process_exists(5, Probe::Alive).unwrap());
    assert_eq!(
        process_exists(u32::MAX, Probe::Failed(Failure::new("odd"))).unwrap_err().full_text(),
        "failed to inspect process -1: odd"
    );
    assert_eq!(as_signed(0x80000000), i32::MIN);
    assert_eq!(
        resolve_pid_file_for_role("l", Some("x.pid"), "tun", &place()).unwrap(),
        "/work/x.pid"
    );
}

#[test]
fn the_only_service_is_meant() {
    let mut present = nothing();
    present.wg_server = true;
    assert_eq!(
        resolve_reload_role("l", None, None, present, &place()).unwrap(),
        ServiceRole::WgServer
    );
    assert_eq!(
        resolve_stop_pid_file("l", None, None, present, &place()).unwrap(),
        "/home/alice/.runnel/current/wg-server.pid"
    );
    present.tun = true;
    assert_eq!(
        resolve_stop_pid_file("l", None, None, present, &place()).unwrap_err().to_text(),
        "multiple pid files exist; pass `stop client`, `stop server`, `stop tun`, `stop wg-client`, `stop wg-server`, or `--pid-file`"
    );
    assert_eq!(
        resolve_stop_pid_file("l", None, None, nothing(), &place()).unwrap_err().to_text(),
        "no pid file found; pass `stop client`, `stop server`, `stop tun`, `stop wg-client`, `stop wg-server`, or `--pid-file`"
    );
    assert_eq!(
        resolve_stop_pid_file("l", Some("x"), None, nothing(), &place()).unwrap(),
        "/work/x"
    );
    assert_eq!(
        resolve_attach_socket("l", None, None, nothing(), &place()).unwrap(),
        "/home/alice/.runnel/current/client.sock"
    );
    assert_eq!(
        resolve_attach_socket("l", Some("g"), Some("a"), nothing(), &place()).unwrap(),
        "/work/a"
    );
    assert_eq!(
        resolve_attach_socket("l", None, None, present, &place()).unwrap_err().to_text(),
        "multiple telemetry sockets exist; pass --attach explicitly"
    );
}

#[test]
fn services_end_when_asked() {
    let (stage, action) =
        stop_daemon_process(StopStage::Start, StopEvent::Pid(Ok(7)), "/x", 2, 0);
    assert!(matches!(action, StopMove::Look(7)));
    let (stage, action) = stop_daemon_process(stage, StopEvent::Alive(Ok(true)), "/x", 2, 0);
    assert!(matches!(action, StopMove::Ask(7)));
    let (stage, action) = stop_daemon_process(stage, StopEvent::Asked(Ok(())), "/x", 2, 500);
    assert!(matches!(action, StopMove::Look(7)));
    let (stage, action) = stop_daemon_process(stage, StopEvent::Alive(Ok(true)), "/x", 2, 2499);
    assert!(matches!(action, StopMove::Sleep(7, 100)));
    let (_, action) = stop_daemon_process(stage, StopEvent::Alive(Ok(true)), "/x", 2, 2500);
    match action {
        StopMove::Fail(e) => assert_eq!(
            e.to_text(),
            "timed out waiting 2s for pid 7 to exit; try again or stop it manually"
        ),
        _ => panic!("no failure"),
    }
    let waiting = StopStage::Waiting(7, 10);
    match stop_daemon_process(waiting, StopEvent::Alive(Ok(false)), "/x", 2, 20).1 {
        StopMove::Remove(t) => assert_eq!(t, "runnel daemon stopped pid=7 pid_file=/x"),
        _ => panic!("not removed"),
    }
    match stop_daemon_process(StopStage::Looking(7), StopEvent::Alive(Ok(false)), "/x", 2, 20).1 {
        StopMove::Remove(t) => {
            assert_eq!(t, "runnel daemon is not running (removed stale pid file /x)")
        }
        _ => panic!("not removed"),
    }
    let failed = StopEvent::Asked(Err(Failure::new("no")));
    assert!(matches!(
        stop_daemon_process(StopStage::Asking(7), failed, "/x", 2, 20).1,
        StopMove::Fail(_)
    ));
}

#[test]
fn services_are_started_again() {
    let args = ReloadArgs { role: Some(ServiceRole::Tun), wait_secs: 1 };
    let plain = cli(Commands::Reload(args));
    let plan = reload_daemon_process(&plain, None, &args, true, nothing(), &place()).unwrap();
    assert_eq!(plan.role, ServiceRole::Tun);
    assert_eq!(plan.log_file, "~/.runnel/logs/tun.log");
    assert_eq!(plan.check[6..], ["--check-config-only".to_owned(), "tun".to_owned()]);
    assert_eq!(plan.start[6..], ["--daemon".to_owned(), "tun".to_owned()]);
    let plan = reload_daemon_process(&plain, None, &args, false, nothing(), &place()).unwrap();
    assert_eq!(plan.log_file, "runnel.log");
    assert_eq!(
        reload_check_failure("exit status: 1").to_text(),
        "reloaded daemon configuration check exited with exit status: 1; old daemon was not stopped"
    );
    assert_eq!(
        reload_start_failure("exit status: 1").to_text(),
        "reloaded daemon startup command exited with exit status: 1"
    );
    assert_eq!(reloaded_text(ServiceRole::Tun), "runnel daemon reloaded role=tun");
}

#[test]
fn traffic_is_switched_at_a_socket() {
    let args = SwitchArgs { role: Some(SwitchRole::Tun), bypass: false, proxy: false };
    let mut line = cli(Commands::Switch(args));
    let (role, socket) =
        switch_daemon_process(&line, &args, true, nothing(), &place()).unwrap();
    assert_eq!(role, ServiceRole::Tun);
    assert_eq!(socket, "/home/alice/.runnel/current/tun.sock");
    line.telemetry_sock = Some("s".to_owned());
    assert_eq!(switch_daemon_process(&line, &args, true, nothing(), &place()).unwrap().1, "/work/s");
    line.pid_file = Some("p".to_owned());
    let open = SwitchArgs { role: None, bypass: false, proxy: false };
    assert_eq!(
        switch_daemon_process(&line, &open, true, nothing(), &place()).unwrap_err().to_text(),
        "switch requires a role when --pid-file is set"
    );
    assert_eq!(
        switch_outcome(
            ServiceRole::Tun,
            &ControlResponse::ok(TrafficState::Proxying, TrafficState::Bypass)
        )
        .unwrap(),
        "runnel traffic switched role=tun proxying -> bypass"
    );
    assert_eq!(
        switch_outcome(ServiceRole::Tun, &ControlResponse::error("no")).unwrap_err().to_text(),
        "no"
    );
    let vague = ControlResponse { ok: true, previous_state: None, state: None, message: String::new() };
    assert_eq!(
        switch_outcome(ServiceRole::Client, &vague).unwrap(),
        "runnel traffic switched role=client unknown -> unknown"
    );
}

#[test]
fn modes_go_with_the_command() {
    let mut line = cli(Commands::Tui(TuiArgs { attach: None }));
    line.tui = true;
    line.daemon = true;
    assert!(!normalize_cli_modes(&mut line));
    assert!(!line.tui && !line.daemon);
    let mut line = cli(Commands::WgKeygen);
    line.tui = true;
    line.daemon = true;
    assert!(normalize_cli_modes(&mut line));
    assert!(!line.tui && line.daemon);
    assert_eq!(
        validate_daemon_mode(&line).unwrap_err().to_text(),
        "--daemon is only supported for client, server, tun, wg-client, and wg-server"
    );
    assert!(plan(&line, false).is_err());
    line.daemon = false;
    assert_eq!(plan(&line, false).unwrap(), Plan::Utility);
    line.check_config_only = true;
    assert_eq!(plan(&line, false).unwrap(), Plan::Nothing);
    assert!(!should_spawn_daemon(&line, false));
    let stop = cli(Commands::Stop(StopArgs { role: None, wait_secs: 1 }));
    assert_eq!(plan(&stop, false).unwrap(), Plan::Stop);
    let attach = cli(Commands::Tui(TuiArgs { attach: None }));
    assert_eq!(plan(&attach, false).unwrap(), Plan::Attach);
    assert!(service_descriptor(&attach.command).is_none());
    assert!(monitor_context(&attach, "l", 0, 1).is_none());
    assert!(dashboard_context(&attach, "l", 0).is_none());
    assert_eq!(
        resolve_socket_for_service(&attach, "l", &place()).unwrap_err().to_text(),
        "telemetry socket is not supported"
    );
    assert!(wanted_pid_file(&attach, "l", &place()).unwrap().is_none());
}

#[test]
fn daemons_that_end_at_once_are_explained() {
    assert_eq!(
        startup_failure("exit status: 7", &LogSight::Unknown).to_text(),
        "runnel daemon exited during startup with exit status: 7"
    );
    assert_eq!(
        startup_failure("s", &LogSight::Missing("/l".to_owned())).to_text(),
        "runnel daemon exited during startup with s\nlog file was not created: /l"
    );
    assert_eq!(
        startup_failure("s", &LogSight::Present("/l".to_owned(), Some("a\nb".to_owned()))).to_text(),
        "runnel daemon exited during startup with s\nlog: /l\nrecent log lines:\na\nb"
    );
    assert_eq!(
        startup_failure("s", &LogSight::Present("/l".to_owned(), Some(" ".to_owned()))).to_text(),
        "runnel daemon exited during startup with s\nlog: /l"
    );
    assert_eq!(started_text(5, Some("/p")), "runnel daemon started pid=5 pid_file=/p");
    assert_eq!(started_text(5, None), "runnel daemon started pid=5");
}
