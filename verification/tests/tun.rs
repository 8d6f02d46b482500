//! The tunnel device.

use runnel::client::ClientArgs;
use runnel::failure::Failure;
use runnel::ip::v4;
use runnel::mode::ProxyMode;
use runnel::paths::{file_name, parent};
use runnel::proxy::adblock::AdblockConfig;
use runnel::proxy::route::{FilterMode, RouteRuleConfig};
use runnel::tun::{
    acquire, default_down_hooks, default_server_bypass_route, default_up_hooks,
    detect_egress_route, detect_tun_helper_flavor, effective_helper, effective_up_hooks,
    ensure_device_available, ensure_helper_alive, file_stem, hook_failure, initial_state,
    is_auto_device, join_client, log_child_line, macos_tun_route_set, needs_egress_metadata,
    normalize_client_args_for_tun, parse_macos_route_get, pick_available_macos_utun, plan_lines,
    plan_output, resolve_device_name, resolve_server_ip, resolve_tun_state_path, run,
    set_embedded_tui, shell_envs, shell_quote, should_fallback_to_default_egress,
    wait_for_listener, wait_for_tun_helper, AcquireStep, ClientEnd, CommandContext, DeviceName,
    HelperEnd, HelperLogLine, Level, PlanOutput, Platform, RunAction, RunEvent, RunStage, TunArgs,
    TunHelperBinary, TunHelperConfig, TunHelperFlavor, WriteOutcome, MACOS_TUN_GATEWAY_V4,
};
use runnel::wg::WgClientArgs;

fn client_args() -> ClientArgs {
    ClientArgs {
        listen: "127.0.0.1:1080".to_owned(),
        server: "198.51.100.10:1443".to_owned(),
        server_name: None,
        ca_cert: None,
        mode: ProxyMode::NativeHttp,
        password: "secret".to_owned(),
        path: "/connect".to_owned(),
        mux_path: "/mux".to_owned(),
        mux: false,
        filter: FilterMode::Proxy,
        rule_file: None,
        cidr_file: None,
        domain_rules: RouteRuleConfig::default(),
        ip_rules: RouteRuleConfig::default(),
        adblock: AdblockConfig::default(),
        user_agent: "Mozilla/5.0".to_owned(),
        handshake_timeout_secs: 10,
        connect_timeout_secs: 10,
        max_header_size: 8192,
        system_proxy: false,
        system_proxy_services: Vec::new(),
        tun_dns_redirect_ip: None,
        tun_dns_upstream: None,
        wg: WgClientArgs {
            bind: "0.0.0.0:0".to_owned(),
            endpoint: "198.51.100.10:51820".to_owned(),
            private_key: String::new(),
            peer_public_key: String::new(),
            device: "wg0".to_owned(),
            tunnel_ip: v4(10, 8, 0, 2),
            peer_tunnel_ip: v4(10, 8, 0, 1),
            mtu: 1420,
            persistent_keepalive_secs: None,
            dns: None,
            dns_capture: false,
            allowed_ips: Vec::new(),
            excluded_ips: Vec::new(),
            exclude_lan: false,
            up: Vec::new(),
            down: Vec::new(),
            print_hooks: false,
            dry_run: false,
        },
    }
}

fn tun_args() -> TunArgs {
    TunArgs {
        client: client_args(),
        device: "auto".to_owned(),
        shell: "/bin/sh".to_owned(),
        helper_cmd: String::new(),
        dns_upstream: None,
        helper_ready_delay_ms: 800,
        up: Vec::new(),
        down: Vec::new(),
        print_hooks: false,
        dry_run: false,
    }
}

fn context() -> CommandContext {
    CommandContext {
        device: "utun233".to_owned(),
        socks_listen: "127.0.0.1:1080".to_owned(),
        server: "198.51.100.10:1443".to_owned(),
        server_host: "198.51.100.10".to_owned(),
        server_port: 1443,
        server_ip: "198.51.100.10".to_owned(),
        egress_interface: Some("en0".to_owned()),
        egress_gateway: None,
        log_file: None,
    }
}

#[test]
fn placeholders_expand_into_shell_commands() {
    let context = CommandContext {
        device: "utun233".to_owned(),
        socks_listen: "127.0.0.1:1080".to_owned(),
        server: "198.51.100.10:1443".to_owned(),
        server_host: "198.51.100.10".to_owned(),
        server_port: 1443,
        server_ip: "198.51.100.10".to_owned(),
        egress_interface: Some("en0".to_owned()),
        egress_gateway: Some("192.168.3.1".to_owned()),
        log_file: Some("proxy.log".to_owned()),
    };
    let expanded = context.expand(
        "tun2proxy-bin --tun {device} --proxy socks5://{socks} --server {server} --iface {egress_interface} --host {server_host} --ip {server_ip}",
    );
    assert_eq!(
        expanded,
        "tun2proxy-bin --tun utun233 --proxy socks5://127.0.0.1:1080 --server 198.51.100.10:1443 --iface en0 --host 198.51.100.10 --ip 198.51.100.10"
    );
}

#[test]
fn helper_flavor_detection_prefers_tun2proxy_for_unknown_names() {
    assert_eq!(
        detect_tun_helper_flavor("/usr/local/bin/tun2proxy-bin"),
        TunHelperFlavor::Tun2Proxy
    );
    assert_eq!(
        detect_tun_helper_flavor("/usr/local/bin/custom-helper"),
        TunHelperFlavor::Tun2Proxy
    );
    assert_eq!(
        detect_tun_helper_flavor("/usr/local/bin/tun2socks"),
        TunHelperFlavor::Tun2Socks
    );
}

#[test]
fn tun2proxy_default_helper_command_uses_new_cli_flags() {
    let context = CommandContext {
        device: "utun233".to_owned(),
        socks_listen: "127.0.0.1:1080".to_owned(),
        server: "198.51.100.10:1443".to_owned(),
        server_host: "198.51.100.10".to_owned(),
        server_port: 1443,
        server_ip: "198.51.100.10".to_owned(),
        egress_interface: Some("en0".to_owned()),
        egress_gateway: Some("192.168.3.1".to_owned()),
        log_file: Some("proxy.log".to_owned()),
    };
    let helper = TunHelperBinary {
        path: "/usr/local/bin/tun2proxy-bin".to_owned(),
        flavor: TunHelperFlavor::Tun2Proxy,
    };
    assert_eq!(
        helper.default_command(&context),
        "'/usr/local/bin/tun2proxy-bin' --tun {device} --proxy socks5://{socks} --dns direct --verbosity warn --exit-on-fatal-error"
    );
}

#[test]
fn tun2socks_default_helper_command_keeps_legacy_interface_flag() {
    let context = CommandContext {
        device: "utun233".to_owned(),
        socks_listen: "127.0.0.1:1080".to_owned(),
        server: "198.51.100.10:1443".to_owned(),
        server_host: "198.51.100.10".to_owned(),
        server_port: 1443,
        server_ip: "198.51.100.10".to_owned(),
        egress_interface: Some("en0".to_owned()),
        egress_gateway: Some("192.168.3.1".to_owned()),
        log_file: Some("proxy.log".to_owned()),
    };
    let helper = TunHelperBinary {
        path: "/usr/local/bin/tun2socks".to_owned(),
        flavor: TunHelperFlavor::Tun2Socks,
    };
    assert_eq!(
        helper.default_command(&context),
        "'/usr/local/bin/tun2socks' -device {device} -proxy socks5://{socks} -loglevel info -tcp-auto-tuning -interface en0"
    );
}

#[test]
fn embedded_tun2proxy_helper_description_is_human_readable() {
    let context = CommandContext {
        device: "utun233".to_owned(),
        socks_listen: "127.0.0.1:1080".to_owned(),
        server: "198.51.100.10:1443".to_owned(),
        server_host: "198.51.100.10".to_owned(),
        server_port: 1443,
        server_ip: "198.51.100.10".to_owned(),
        egress_interface: Some("en0".to_owned()),
        egress_gateway: Some("192.168.3.1".to_owned()),
        log_file: Some("proxy.log".to_owned()),
    };
    assert_eq!(
        TunHelperConfig::EmbeddedTun2Proxy.describe(&context),
        "embedded tun2proxy crate --tun utun233 --proxy socks5://127.0.0.1:1080 --dns direct --verbosity warn --exit-on-fatal-error"
    );
}

#[test]
fn shell_envs_include_runtime_values() {
    let context = CommandContext {
        device: "utun9".to_owned(),
        socks_listen: "127.0.0.1:19080".to_owned(),
        server: "example.com:443".to_owned(),
        server_host: "example.com".to_owned(),
        server_port: 443,
        server_ip: "93.184.216.34".to_owned(),
        egress_interface: Some("en0".to_owned()),
        egress_gateway: Some("192.168.3.1".to_owned()),
        log_file: Some("proxy.log".to_owned()),
    };
    let envs = shell_envs(&context);
    assert_eq!(
        envs.get("PIPIT_TUN_DEVICE"),
        Some("utun9")
    );
    assert_eq!(
        envs.get("PIPIT_SOCKS_LISTEN"),
        Some("127.0.0.1:19080")
    );
    assert_eq!(
        envs.get("PIPIT_SERVER_IP"),
        Some("93.184.216.34")
    );
    assert_eq!(
        envs.get("PIPIT_EGRESS_INTERFACE"),
        Some("en0")
    );
}

#[test]
fn auto_device_flag_is_detected() {
    assert!(is_auto_device("auto"));
    assert!(is_auto_device("AUTO"));
    assert!(is_auto_device(""));
    assert!(!is_auto_device("utun233"));
}

#[test]
fn tun_state_path_follows_log_stem() {
    let context = CommandContext {
        device: "utun233".to_owned(),
        socks_listen: "127.0.0.1:1080".to_owned(),
        server: "198.51.100.10:1443".to_owned(),
        server_host: "198.51.100.10".to_owned(),
        server_port: 1443,
        server_ip: "198.51.100.10".to_owned(),
        egress_interface: Some("en0".to_owned()),
        egress_gateway: Some("192.168.3.1".to_owned()),
        log_file: Some("/tmp/proxy.log".to_owned()),
    };
    let path = resolve_tun_state_path(&context, "/work").expect("state path resolves");
    assert_eq!(path, "/tmp/proxy.tun.state.json");
}

#[test]
fn what_follows_the_name_in_a_path_does_not_count() {
    for path in ["/opt/tun2socks/.", "/opt/tun2socks/", "/opt/tun2socks/./", "tun2socks/."] {
        assert_eq!(detect_tun_helper_flavor(path), TunHelperFlavor::Tun2Socks, "{path}");
    }
    for path in ["/tun2socks/..", "/", ".", "", "/tun2socks/proxy/."] {
        assert_eq!(detect_tun_helper_flavor(path), TunHelperFlavor::Tun2Proxy, "{path}");
    }
    let at = |log: &str| {
        let log_file = Some(log.to_owned());
        resolve_tun_state_path(&CommandContext { log_file, ..context() }, "/work")
    };
    assert_eq!(at("/tmp/proxy.log/.").unwrap(), "/tmp/proxy.tun.state.json");
    assert_eq!(at("./a/./proxy.log//").unwrap(), "/work/./a/proxy.tun.state.json");
    assert_eq!(at("/./proxy.log").unwrap(), "/proxy.tun.state.json");
    assert_eq!(at("a/..").unwrap_err().to_text(), "log file path did not have a valid stem");
    assert_eq!(at("/.").unwrap_err().to_text(), "log file path did not have a parent directory");
}

#[test]
fn file_names_and_parents_are_those_of_std() {
    for text in [
        "", "/", "//", ".", "./", "..", "../", "a", "a/", "a/.", "a/./", "./a", "/a", "/a/.", "//a",
        "a/b", "a//b", "a/./b", "a/../b", "a/..", "/..", "/.", "/./", "/./a", "a/b/./.", ".a", "a/.b",
        "a./", "a/b./.", "/a.b/c.d//", "./.", "././a", "..a", "a/...",
    ] {
        let path = std::path::Path::new(text);
        let name = path.file_name().map(|n| n.to_str().unwrap().to_owned());
        assert_eq!(file_name(text), name, "{text:?}");
        let above = path.parent().map(|p| p.to_str().unwrap().to_owned());
        assert_eq!(parent(text), above, "{text:?}");
    }
}

#[test]
fn tun_mode_forces_proxy_filter_to_avoid_loops() {
    let mut args = ClientArgs {
        listen: "127.0.0.1:1080".to_owned(),
        server: "198.51.100.10:1443".to_owned(),
        server_name: Some("example.com".to_owned()),
        ca_cert: None,
        mode: ProxyMode::NativeHttp,
        password: "secret".to_owned(),
        path: "/connect".to_owned(),
        mux_path: "/mux".to_owned(),
        mux: false,
        filter: FilterMode::Rule,
        rule_file: Some("rule.ls".to_owned()),
        cidr_file: Some("rule.cidr".to_owned()),
        user_agent: "Mozilla/5.0".to_owned(),
        handshake_timeout_secs: 10,
        connect_timeout_secs: 10,
        max_header_size: 8 * 1024,
        ..client_args()
    };

    normalize_client_args_for_tun(&mut args);

    assert_eq!(args.filter, FilterMode::Proxy);
    assert!(args.rule_file.is_none());
    assert!(args.cidr_file.is_none());
}

#[test]
fn print_plan_expands_helper_and_hooks() {
    let args = TunArgs {
        client: ClientArgs {
            listen: "127.0.0.1:1080".to_owned(),
            server: "198.51.100.10:1443".to_owned(),
            server_name: Some("example.com".to_owned()),
            ca_cert: None,
            mode: ProxyMode::NativeHttp,
            password: "hello-world".to_owned(),
            path: "/connect".to_owned(),
            mux_path: "/mux".to_owned(),
            mux: false,
            filter: FilterMode::Proxy,
            rule_file: None,
            cidr_file: None,
            user_agent: "pipit-test".to_owned(),
            handshake_timeout_secs: 10,
            connect_timeout_secs: 10,
            max_header_size: 8192,
            ..client_args()
        },
        device: "utun233".to_owned(),
        shell: "/bin/sh".to_owned(),
        helper_cmd: String::new(),
        dns_upstream: None,
        helper_ready_delay_ms: 800,
        up: Vec::new(),
        down: Vec::new(),
        print_hooks: true,
        dry_run: false,
    };
    let context = CommandContext {
        device: "utun233".to_owned(),
        socks_listen: "127.0.0.1:1080".to_owned(),
        server: "198.51.100.10:1443".to_owned(),
        server_host: "198.51.100.10".to_owned(),
        server_port: 1443,
        server_ip: "198.51.100.10".to_owned(),
        egress_interface: Some("en0".to_owned()),
        egress_gateway: Some("192.168.3.1".to_owned()),
        log_file: Some("proxy.log".to_owned()),
    };
    let lines = plan_lines(
        &args,
        &context,
        &TunHelperConfig::EmbeddedTun2Proxy,
        &vec!["ifconfig {device} inet 198.18.0.1 198.18.0.1 up".to_owned()],
        &vec!["ifconfig {device} down >/dev/null 2>&1 || true".to_owned()],
    );
    assert!(lines.iter().any(|line| line.contains("embedded tun2proxy crate --tun utun233")), "{lines:?}");
    assert!(lines.iter().any(|line| line.contains("ifconfig utun233 inet 198.18.0.1 198.18.0.1 up")), "{lines:?}");
    assert!(lines.iter().any(|line| line.contains("ifconfig utun233 down")), "{lines:?}");
}

#[test]
fn macos_route_output_is_parsed() {
    let output = r#"
   route to: 198.51.100.10
destination: 198.51.100.10
gateway: 192.168.3.1
  interface: en0
"#;
    let (interface, gateway) = parse_macos_route_get(output).expect("route output parses");
    assert_eq!(interface.as_deref(), Some("en0"));
    assert_eq!(gateway.as_deref(), Some("192.168.3.1"));
}

#[test]
fn utun_routes_trigger_default_egress_fallback() {
    assert!(should_fallback_to_default_egress(&(
        Some("utun4".to_owned()),
        Some("198.18.0.1".to_owned())
    )));
    assert!(should_fallback_to_default_egress(&(
        Some("utun4".to_owned()),
        Some("192.168.3.1".to_owned())
    )));
    assert!(!should_fallback_to_default_egress(&(
        Some("en0".to_owned()),
        Some("192.168.3.1".to_owned())
    )));
}

#[test]
fn default_macos_up_hooks_assign_interface_and_split_routes() {
    let context = CommandContext {
        device: "utun233".to_owned(),
        socks_listen: "127.0.0.1:1080".to_owned(),
        server: "198.51.100.10:1443".to_owned(),
        server_host: "198.51.100.10".to_owned(),
        server_port: 1443,
        server_ip: "198.51.100.10".to_owned(),
        egress_interface: Some("en0".to_owned()),
        egress_gateway: Some("192.168.3.1".to_owned()),
        log_file: Some("proxy.log".to_owned()),
    };
    let hooks = default_up_hooks(&context, Platform::MacOs).expect("macOS hooks are generated");
    assert_eq!(
        hooks.first().map(|h| h.as_str()),
        Some("ifconfig {device} inet 198.18.0.1 198.18.0.1 up")
    );
    assert!(
        hooks
            .iter()
            .any(|hook| hook == "route -q -n add -net 1.0.0.0/8 198.18.0.1 >/dev/null 2>&1 || route -q -n change -net 1.0.0.0/8 198.18.0.1")
    );
    assert!(
        hooks
            .iter()
            .any(|hook| hook == "route -q -n add -net 128.0.0.0/1 198.18.0.1 >/dev/null 2>&1 || route -q -n change -net 128.0.0.0/1 198.18.0.1")
    );
    assert!(
        hooks
            .iter()
            .any(|hook| hook.contains("route -q -n add -host {server_ip} 192.168.3.1"))
    );
}

#[test]
fn default_macos_bypass_route_prefers_gateway() {
    let context = CommandContext {
        device: "utun233".to_owned(),
        socks_listen: "127.0.0.1:1080".to_owned(),
        server: "198.51.100.10:1443".to_owned(),
        server_host: "198.51.100.10".to_owned(),
        server_port: 1443,
        server_ip: "198.51.100.10".to_owned(),
        egress_interface: Some("en0".to_owned()),
        egress_gateway: Some("192.168.3.1".to_owned()),
        log_file: Some("proxy.log".to_owned()),
    };
    let route = default_server_bypass_route(&context);
    assert!(route.contains("192.168.3.1"));
    assert!(!route.contains("-interface {egress_interface}"));
    let down = default_down_hooks(&context, Platform::MacOs).expect("down hooks are generated");
    assert_eq!(
        down.last().map(|h| h.as_str()),
        Some("ifconfig {device} down >/dev/null 2>&1 || true")
    );
    assert!(
        down.iter()
            .any(|hook| hook.contains("delete -net 198.18.0.0/15"))
    );
    assert_eq!(MACOS_TUN_GATEWAY_V4, "198.18.0.1");
}

#[test]
fn every_added_route_is_deleted() {
    let up = default_up_hooks(&context(), Platform::MacOs).unwrap();
    let down = default_down_hooks(&context(), Platform::MacOs).unwrap();
    for net in macos_tun_route_set() {
        assert!(up.iter().any(|hook| hook.contains(&format!("add -net {net} "))), "{net}");
        assert!(down.iter().any(|hook| hook.contains(&format!("delete -net {net}"))), "{net}");
    }
    assert!(default_server_bypass_route(&context()).contains("-interface"));
}

#[test]
fn quoted_text_is_what_a_shell_reads() {
    assert_eq!(shell_quote("a b"), "'a b'");
    assert_eq!(shell_quote("a'b"), "'a'\\''b'");
    assert_eq!(shell_quote(""), "''");
}

#[test]
fn free_devices_are_found() {
    assert_eq!(pick_available_macos_utun("lo0 utun0 en0").unwrap(), "utun233");
    assert_eq!(pick_available_macos_utun("utun233 utun234").unwrap(), "utun235");
    assert!(matches!(resolve_device_name("auto", Platform::MacOs), DeviceName::FreeUtun));
    match resolve_device_name("utun9", Platform::MacOs) {
        DeviceName::Known(d) => assert_eq!(d, "utun9"),
        DeviceName::FreeUtun => panic!("device is known"),
    }
    assert!(ensure_device_available("utun9", false, Platform::MacOs).is_ok());
    assert!(ensure_device_available("utun9", true, Platform::MacOs).is_err());
    assert_eq!(resolve_server_ip("1.2.3.4", &vec![]).unwrap(), "1.2.3.4");
    assert_eq!(resolve_server_ip("a", &vec![v4(9, 9, 9, 9)]).unwrap(), "9.9.9.9");
    assert!(resolve_server_ip("a", &vec![]).is_err());
}

#[test]
fn egress_falls_back_to_the_default_route() {
    let tunnel = (Some("utun4".to_owned()), None);
    let default = (Some("en0".to_owned()), Some("192.168.1.1".to_owned()));
    assert_eq!(detect_egress_route(tunnel, default.clone()), default);
    let direct = (Some("en1".to_owned()), None);
    assert_eq!(detect_egress_route(direct.clone(), default), direct);
    assert!(parse_macos_route_get("nothing").is_err());
}

#[test]
fn helpers_are_chosen() {
    let mut args = tun_args();
    assert!(matches!(
        effective_helper(&args, &context(), &None),
        TunHelperConfig::EmbeddedTun2Proxy
    ));
    args.helper_cmd = "run {device}".to_owned();
    match effective_helper(&args, &context(), &None) {
        TunHelperConfig::ExternalCommand(c) => assert!(c.contains("run")),
        TunHelperConfig::EmbeddedTun2Proxy => panic!("a command was given"),
    }
    args.up = vec!["x".to_owned()];
    assert_eq!(
        effective_up_hooks(&args, &context(), Platform::Other).unwrap(),
        vec!["x".to_owned()]
    );
    assert!(!needs_egress_metadata(&args, false, Platform::Other));
    assert!(needs_egress_metadata(&args, false, Platform::MacOs));
    args.up = vec!["ping {egress_gateway}".to_owned()];
    assert!(needs_egress_metadata(&args, false, Platform::Other));
}

#[test]
fn state_files_are_held_once() {
    assert!(matches!(acquire("/s", 0, WriteOutcome::Written), AcquireStep::Held));
    let state = initial_state(7, "/bin/sh", &context(), &vec!["down {device}".to_owned()]);
    assert_eq!(state.down_hooks, vec!["down utun233".to_owned()]);
    assert!(matches!(
        acquire("/s", 0, WriteOutcome::Exists(Some(state), true)),
        AcquireStep::Fail(_)
    ));
    let stale = initial_state(7, "/bin/sh", &context(), &vec![]);
    assert!(matches!(
        acquire("/s", 0, WriteOutcome::Exists(Some(stale), false)),
        AcquireStep::CleanUp(_)
    ));
    assert!(matches!(
        acquire("/s", 0, WriteOutcome::Failed(Failure::new("no"))),
        AcquireStep::Fail(_)
    ));
    assert_eq!(file_stem("a.tar.gz"), "a.tar");
    assert_eq!(file_stem(".log"), ".log");
}

#[test]
fn tunnels_run_step_by_step() {
    let (stage, action) = run(false, RunStage::Planning, RunEvent::Done);
    assert!(matches!(action, RunAction::AcquireState));
    let (stage, action) = run(false, stage, RunEvent::Done);
    assert!(matches!(action, RunAction::StartClient));
    let (stage, action) = run(false, stage, RunEvent::Done);
    assert!(matches!(action, RunAction::CheckDevice));
    let (stage, action) = run(false, stage, RunEvent::Done);
    assert!(matches!(action, RunAction::StartHelper));
    let (stage, action) = run(false, stage, RunEvent::Done);
    assert!(matches!(action, RunAction::CheckHelperBeforeUp));
    let (stage, action) = run(false, stage, RunEvent::Done);
    assert!(matches!(action, RunAction::RunUpHooks));
    let (stage, action) = run(false, stage, RunEvent::Done);
    assert!(matches!(action, RunAction::CheckHelperAfterUp));
    let (stage, action) = run(false, stage, RunEvent::Done);
    assert!(matches!(action, RunAction::Wait));
    let (_, action) = run(false, stage, RunEvent::Ended(Ok(())));
    assert!(matches!(action, RunAction::Finish(_, _, Ok(()))));
    assert!(matches!(
        run(true, RunStage::Planning, RunEvent::Done).1,
        RunAction::FinishDryRun
    ));
}

#[test]
fn ends_are_told() {
    assert!(join_client(ClientEnd::Finished(Ok(()))).is_ok());
    assert!(join_client(ClientEnd::TaskFailed(Failure::new("x"))).is_err());
    assert!(wait_for_tun_helper(HelperEnd::Failed(Failure::new("x"))).is_err());
    assert_eq!(
        ensure_helper_alive(HelperEnd::Returned, "utun9", "before up hooks").to_text(),
        "embedded tun2proxy exited before up hooks unexpectedly"
    );
    assert!(hook_failure("up", "exit status: 1", "ls").to_text().contains("exit status: 1"));
    assert!(wait_for_listener("a:1", true, 0, 10).unwrap());
    assert!(!wait_for_listener("a:1", false, 5, 10).unwrap());
    assert!(wait_for_listener("a:1", false, 11, 10).is_err());
    let mut embedded = false;
    set_embedded_tui(&mut embedded, true);
    assert!(embedded);
    let mut args = tun_args();
    assert!(matches!(plan_output(&args, false), PlanOutput::Nowhere));
    args.dry_run = true;
    assert!(matches!(plan_output(&args, true), PlanOutput::Log));
    assert!(matches!(plan_output(&args, false), PlanOutput::Print));
}

#[test]
fn lines_of_helpers_are_logged() {
    let parsed = Some(HelperLogLine {
        level: Some("warn".to_owned()),
        caller: Some("c".to_owned()),
        msg: Some("m".to_owned()),
    });
    let log = log_child_line("helper", false, "{}", &parsed).unwrap();
    assert!(matches!(log.level, Level::Warn));
    assert_eq!(log.message, "helper m");
    assert_eq!(log.caller.as_deref(), Some("c"));
    assert!(log_child_line("helper", false, "  ", &None).is_none());
    assert!(log_child_line("helper", true, "plain", &None).is_some());
}
